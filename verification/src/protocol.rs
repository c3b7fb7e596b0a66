//! The seqlock protocol over arbitrary interleavings.
//!
//! The executable [`Seqlock`](crate::Seqlock) is verified against its
//! sequential contract; what makes the protocol worth having is how it
//! behaves when a writer and any number of readers interleave. This module
//! states that behaviour over an abstract state — the version counter, the
//! write phase, and the payload as a sequence of words — and proves the
//! guarantees the version discipline buys:
//!
//! * the version counts completed writes: it is twice the number of writes
//!   that have finished, one more while a write is underway, so each
//!   completed write advances it by exactly two and it is even exactly in
//!   the quiescent phases;
//! * between two moments at which a reader sees the same even version, the
//!   cell did not change at all, so a copy assembled word by word anywhere
//!   in that window equals one fully-written payload — never a mixture of
//!   two writes.
//!
//! Readers never change the state, so their loads appear in a trace as
//! stuttering steps. The model's counter is an unbounded natural number; the
//! implementation stores it wrapped to a machine word, which preserves the
//! parity the protocol relies on.

use vstd::prelude::*;

verus! {

/// The cell as the protocol sees it: the version counter, whether a write
/// is underway, and the payload as a sequence of words.
#[verifier::ext_equal]
pub struct State {
    pub version: nat,
    pub writing: bool,
    pub slots: Seq<u64>,
}

/// One atomic step of the writer. Readers never mutate the cell, so any
/// step of theirs is `Observe`.
pub enum Step {
    /// The writer marks a write as begun: the version becomes odd.
    BeginWrite,
    /// The writer overwrites one word of the payload mid-write.
    StoreSlot { idx: int, val: u64 },
    /// The writer marks the write complete: the version becomes even again.
    EndWrite,
    /// A step that leaves the cell untouched — a reader's load among them.
    Observe,
}

/// The state of a freshly constructed cell, whatever its payload.
pub open spec fn initial(s: State) -> bool {
    s.version == 0 && !s.writing
}

/// Whether `step` may fire in state `s`.
pub open spec fn step_enabled(s: State, step: Step) -> bool {
    match step {
        Step::BeginWrite => !s.writing,
        Step::StoreSlot { idx, val } => s.writing && 0 <= idx < s.slots.len(),
        Step::EndWrite => s.writing,
        Step::Observe => true,
    }
}

/// The state after `step` fires in state `s`.
pub open spec fn step_next(s: State, step: Step) -> State {
    match step {
        Step::BeginWrite => State { version: s.version + 1, writing: true, ..s },
        Step::StoreSlot { idx, val } => State { slots: s.slots.update(idx, val), ..s },
        Step::EndWrite => State { version: s.version + 1, writing: false, ..s },
        Step::Observe => s,
    }
}

/// The `k`-th transition of a trace is an enabled step with the recorded
/// successor state.
pub open spec fn link_ok(states: Seq<State>, steps: Seq<Step>, k: int) -> bool {
    &&& step_enabled(states[k], steps[k])
    &&& states[k + 1] == step_next(states[k], steps[k])
}

/// A trace: `states` linked pointwise by the enabled `steps`.
pub open spec fn trace_ok(states: Seq<State>, steps: Seq<Step>) -> bool {
    &&& states.len() == steps.len() + 1
    &&& forall|k: int| 0 <= k < steps.len() ==> #[trigger] link_ok(states, steps, k)
}

/// How many writes have completed within the first `t` steps.
pub open spec fn writes_completed(steps: Seq<Step>, t: int) -> nat
    decreases t,
{
    if t <= 0 {
        0
    } else {
        writes_completed(steps, t - 1) + (if steps[t - 1] is EndWrite { 1nat } else { 0nat })
    }
}

/// Monotonic progress: along any trace from an initial state, the version
/// counter is exactly twice the number of completed writes, plus one while
/// a write is underway. Each completed write therefore advances it by
/// exactly two — no skips, no repeats.
pub proof fn lemma_version_counts_writes(states: Seq<State>, steps: Seq<Step>, t: int)
    requires
        trace_ok(states, steps),
        initial(states[0]),
        0 <= t < states.len(),
    ensures
        states[t].version == 2 * writes_completed(steps, t) + (if states[t].writing { 1nat } else { 0nat }),
    decreases t,
{
    if t > 0 {
        lemma_version_counts_writes(states, steps, t - 1);
        assert(link_ok(states, steps, t - 1));
    }
}

/// Version parity: along any trace from an initial state, a write is
/// underway exactly when the version is odd. In particular every version a
/// reader can validate against — one seen while no write is underway — is
/// even.
pub proof fn lemma_version_parity(states: Seq<State>, steps: Seq<Step>, t: int)
    requires
        trace_ok(states, steps),
        initial(states[0]),
        0 <= t < states.len(),
    ensures
        states[t].writing <==> states[t].version % 2 == 1,
{
    lemma_version_counts_writes(states, steps, t);
}

/// The version counter never decreases along a trace.
pub proof fn lemma_version_monotonic(states: Seq<State>, steps: Seq<Step>, t1: int, t2: int)
    requires
        trace_ok(states, steps),
        0 <= t1 <= t2 < states.len(),
    ensures
        states[t1].version <= states[t2].version,
    decreases t2 - t1,
{
    if t1 < t2 {
        lemma_version_monotonic(states, steps, t1, t2 - 1);
        assert(link_ok(states, steps, t2 - 1));
    }
}

/// Quiescence between matching even reads: if the version is the same and
/// even at `t1` and at `t2`, the cell did not change at all in between.
pub proof fn lemma_stable_between(states: Seq<State>, steps: Seq<Step>, t1: int, t2: int, t: int)
    requires
        trace_ok(states, steps),
        initial(states[0]),
        0 <= t1 <= t <= t2 < states.len(),
        states[t1].version == states[t2].version,
        states[t1].version % 2 == 0,
    ensures
        states[t] == states[t1],
    decreases t - t1,
{
    lemma_version_parity(states, steps, t1);
    if t > t1 {
        lemma_stable_between(states, steps, t1, t2, t - 1);
        assert(link_ok(states, steps, t - 1));
        match steps[t - 1] {
            Step::BeginWrite => {
                // The version would rise and never come back down.
                lemma_version_monotonic(states, steps, t, t2);
                assert(false);
            },
            Step::StoreSlot { idx, val } => {
                // A store needs a write underway, but the cell is quiescent.
                assert(false);
            },
            Step::EndWrite => {
                assert(false);
            },
            Step::Observe => {},
        }
    }
}

/// No torn reads. A reader loads the version at `t1`, copies the payload
/// one word at a time — word `i` at its own moment `times[i]`, seeing
/// `obs[i]` — and revalidates the version at `t2`. If the two version loads
/// agree and are even, the assembled copy equals the payload as it stood at
/// both loads: one fully-written value, never a mixture of two writes.
pub proof fn lemma_no_torn_read(
    states: Seq<State>,
    steps: Seq<Step>,
    t1: int,
    t2: int,
    times: Seq<int>,
    obs: Seq<u64>,
)
    requires
        trace_ok(states, steps),
        initial(states[0]),
        0 <= t1 <= t2 < states.len(),
        states[t1].version == states[t2].version,
        states[t1].version % 2 == 0,
        times.len() == obs.len(),
        obs.len() == states[t1].slots.len(),
        forall|i: int| 0 <= i < times.len() ==> t1 <= #[trigger] times[i] <= t2,
        forall|i: int| 0 <= i < obs.len() ==> #[trigger] obs[i] == states[times[i]].slots[i],
    ensures
        obs == states[t1].slots,
        obs == states[t2].slots,
{
    assert forall|i: int| 0 <= i < obs.len() implies #[trigger] obs[i] == states[t1].slots[i] by {
        lemma_stable_between(states, steps, t1, t2, times[i]);
    }
    lemma_stable_between(states, steps, t1, t2, t2);
    assert(obs =~= states[t1].slots);
}

/// The payload changes only mid-write: any step taken from a quiescent
/// state — one whose version is even — leaves the payload as it was. The
/// payload a reader validates is therefore always one that some completed
/// write (or the construction) left behind in full.
pub proof fn lemma_quiescent_step_keeps_payload(states: Seq<State>, steps: Seq<Step>, k: int)
    requires
        trace_ok(states, steps),
        initial(states[0]),
        0 <= k < steps.len(),
        states[k].version % 2 == 0,
    ensures
        states[k + 1].slots == states[k].slots,
{
    lemma_version_parity(states, steps, k);
    assert(link_ok(states, steps, k));
}

/// The steps of one complete write of `vals`: begin, store each word in
/// order, end.
pub open spec fn write_steps(vals: Seq<u64>) -> Seq<Step> {
    seq![Step::BeginWrite] + Seq::new(vals.len(), |i: int| Step::StoreSlot { idx: i, val: vals[i] })
        + seq![Step::EndWrite]
}

/// The payload after the first `j` words of `vals` have been stored over
/// `from`.
pub open spec fn partly_written(from: Seq<u64>, vals: Seq<u64>, j: int) -> Seq<u64> {
    Seq::new(from.len(), |i: int| if i < j { vals[i] } else { from[i] })
}

/// The states one complete write of `vals` passes through from `s`.
pub open spec fn write_states(s: State, vals: Seq<u64>) -> Seq<State> {
    Seq::new(
        vals.len() + 3,
        |k: int|
            if k == 0 {
                s
            } else if k <= vals.len() + 1 {
                State {
                    version: s.version + 1,
                    writing: true,
                    slots: partly_written(s.slots, vals, k - 1),
                }
            } else {
                State {
                    version: s.version + 2,
                    writing: false,
                    slots: partly_written(s.slots, vals, vals.len() as int),
                }
            },
    )
}

/// A complete write is itself a valid trace: from any quiescent state it
/// begins, stores every word, and ends, finishing quiescent with exactly
/// the written payload and the version two higher. This realizes the
/// even-to-odd-to-even transition the other lemmas quantify over, and it is
/// the model-level counterpart of `Seqlock::write`'s contract.
pub proof fn lemma_write_is_a_trace(s: State, vals: Seq<u64>)
    requires
        !s.writing,
        vals.len() == s.slots.len(),
    ensures
        trace_ok(write_states(s, vals), write_steps(vals)),
        write_states(s, vals).first() == s,
        write_states(s, vals).last() == (State { version: s.version + 2, writing: false, slots: vals }),
{
    let states = write_states(s, vals);
    let steps = write_steps(vals);
    let n = vals.len() as int;
    assert(states.len() == steps.len() + 1);
    assert forall|k: int| 0 <= k < steps.len() implies #[trigger] link_ok(states, steps, k) by {
        if k == 0 {
            assert(steps[k] == Step::BeginWrite);
            assert(partly_written(s.slots, vals, 0) =~= s.slots);
            assert(states[1] =~= step_next(states[0], steps[0]));
        } else if k <= n {
            assert(steps[k] == (Step::StoreSlot { idx: k - 1, val: vals[k - 1] }));
            assert(partly_written(s.slots, vals, k) =~= partly_written(s.slots, vals, k - 1).update(
                k - 1,
                vals[k - 1],
            ));
            assert(states[k + 1] =~= step_next(states[k], steps[k]));
        } else {
            assert(steps[k] == Step::EndWrite);
            assert(states[k + 1] =~= step_next(states[k], steps[k]));
        }
    }
    assert(partly_written(s.slots, vals, n) =~= vals);
    assert(states.last() =~= (State { version: s.version + 2, writing: false, slots: vals }));
}

} // verus!
