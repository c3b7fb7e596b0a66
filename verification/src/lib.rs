//! A single-writer, multi-reader versioned cell (a seqlock).
//!
//! The cell pairs a payload with a version counter whose parity encodes the
//! write phase: the version is even exactly when no write is in progress, and
//! every completed write raises it by two (wrapping on overflow). A reader
//! validates its copy by loading the version before and after: two equal,
//! even loads bracket a copy that no write overlapped.
//!
//! The methods on [`Seqlock`] carry the contracts of that protocol; the
//! [`protocol`] module states the protocol over arbitrary interleavings of
//! writer steps and proves that a validated read can never observe a torn
//! payload.

use vstd::prelude::*;

pub mod order_book;
pub mod protocol;

verus! {

/// A versioned cell: a payload of a fixed-size, bitwise-copyable type
/// together with a version counter.
///
/// The counter is even exactly when the cell is quiescent; a write holds it
/// odd from its first store to its last. At most one writer may mutate the
/// cell at a time: mutation goes through `&mut self`, so exclusive access to
/// the writing side is enforced by the borrow checker rather than left as an
/// unchecked caller obligation.
pub struct Seqlock<T> {
    version: usize,
    data: T,
}

impl<T: Copy> Seqlock<T> {
    /// The current value of the version counter.
    pub closed spec fn spec_version(&self) -> usize {
        self.version
    }

    /// The payload the cell currently holds.
    pub closed spec fn spec_value(&self) -> T {
        self.data
    }

    /// No write is in progress: the version counter is even.
    pub open spec fn stable(&self) -> bool {
        self.spec_version() % 2 == 0
    }

    /// Creates a quiescent cell holding `data`, with the version at zero.
    pub fn new(data: T) -> (cell: Self)
        ensures
            cell.spec_version() == 0,
            cell.spec_value() == data,
            cell.stable(),
    {
        Seqlock { version: 0, data }
    }

    /// The version counter as an executable value.
    pub fn version(&self) -> (v: usize)
        ensures
            v == self.spec_version(),
    {
        self.version
    }

    /// Copies the most recently published payload into `result`.
    ///
    /// The copy is validated by the version protocol: it is kept only when
    /// the counter was even and unchanged across the copy. The retry loop is
    /// unbounded by design; here, where the borrow checker rules out a
    /// concurrent write, the first attempt always validates.
    pub fn read(&self, result: &mut T)
        requires
            self.stable(),
        ensures
            *final(result) == self.spec_value(),
            self.spec_version() % 2 == 0,
    {
        loop
            invariant
                self.stable(),
            decreases 0int,
        {
            let v1 = self.version;
            let copied = self.data;
            let v2 = self.version;
            if v1 == v2 && v1 % 2 == 0 {
                *result = copied;
                return;
            }
            proof {
                // With no writer running, the two loads agree and are even,
                // so the validation above cannot fail.
                assert(false);
            }
        }
    }

    /// Publishes `*val` as the new payload.
    ///
    /// The version is bumped to odd before the payload store and to even
    /// after it, so a concurrent reader can never validate a half-written
    /// copy; a completed write advances the counter by exactly two, wrapping
    /// on overflow.
    pub fn write(&mut self, val: &T)
        requires
            old(self).stable(),
        ensures
            final(self).stable(),
            final(self).spec_value() == *val,
            final(self).spec_version() == old(self).spec_version().wrapping_add(2),
    {
        let v = self.version;
        self.version = v.wrapping_add(1);
        self.data = *val;
        self.version = v.wrapping_add(2);
    }
}

impl<const N: usize> Seqlock<[u64; N]> {
    /// A cell of machine words, seen as the protocol state it occupies
    /// between operations. The cell is quiescent whenever it can be
    /// observed through its methods, so no write is underway.
    pub open spec fn as_protocol_state(&self) -> protocol::State {
        protocol::State {
            version: self.spec_version() as nat,
            writing: false,
            slots: self.spec_value()@,
        }
    }
}

/// A freshly constructed cell occupies an initial protocol state.
pub proof fn lemma_new_matches_protocol<const N: usize>(cell: Seqlock<[u64; N]>)
    requires
        cell.spec_version() == 0,
    ensures
        protocol::initial(cell.as_protocol_state()),
{
}

/// `write`'s contract refines the protocol: for any two cells related as
/// `write` relates the cell before and after a call — version two higher,
/// payload replaced — and short of counter wraparound, the later cell
/// occupies exactly the final state of the protocol's write trace from the
/// earlier one.
pub proof fn lemma_write_matches_protocol<const N: usize>(
    pre: Seqlock<[u64; N]>,
    post: Seqlock<[u64; N]>,
    val: [u64; N],
)
    requires
        pre.stable(),
        post.spec_version() == pre.spec_version().wrapping_add(2),
        post.spec_value() == val,
        pre.spec_version() + 2 <= usize::MAX,
    ensures
        protocol::trace_ok(
            protocol::write_states(pre.as_protocol_state(), val@),
            protocol::write_steps(val@),
        ),
        post.as_protocol_state() == protocol::write_states(pre.as_protocol_state(), val@).last(),
{
    protocol::lemma_write_is_a_trace(pre.as_protocol_state(), val@);
    assert(post.as_protocol_state() =~= protocol::write_states(
        pre.as_protocol_state(),
        val@,
    ).last());
}

} // verus!
