//! Plain vocabulary types for a hypothetical order-matching consumer of the
//! cell: identifiers, volumes, timestamps and order sides. The matching
//! engine itself, which prices orders in floating point, lives outside the
//! verified library.

use vstd::prelude::*;

verus! {

/// Identifier of an order.
pub type OrderId = u128;

/// Number of units in an order.
pub type Volume = u64;

/// A nanosecond-precision timestamp.
#[derive(Debug, PartialEq, Eq)]
pub struct Timestamp(i64);

impl Timestamp {
    /// The instant as nanoseconds.
    pub closed spec fn spec_nanos(&self) -> i64 {
        self.0
    }

    /// Wraps a nanosecond count.
    pub fn new(nanos: i64) -> (t: Timestamp)
        ensures
            t.spec_nanos() == nanos,
    {
        Timestamp(nanos)
    }

    /// The instant as nanoseconds, as an executable value.
    pub fn nanos(&self) -> (n: i64)
        ensures
            n == self.spec_nanos(),
    {
        self.0
    }
}

/// Which side of the book an order belongs to.
#[derive(Debug, PartialEq, Eq, PartialOrd, Ord, Hash)]
pub enum OrderSide {
    Buy,
    Sell,
}

} // verus!
