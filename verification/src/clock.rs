//! Readings of a monotonic clock and the lengths of time between them.

use vstd::prelude::*;

verus! {

/// One millisecond, in nanoseconds.
pub const MILLISECOND: u128 = 1_000_000;

/// One second, in nanoseconds.
pub const SECOND: u128 = 1_000_000_000;

/// A reading of a monotonic clock: the nanoseconds since the origin of that clock.
///
/// All readings that meet in one value of this library come from one clock.
#[derive(Clone, Copy, Debug, PartialEq, Eq, Structural)]
pub struct Timestamp {
    pub nanos: u128,
}

/// The nanoseconds from `earlier` to `later`, or zero if `later` comes first.
pub open spec fn elapsed(earlier: Timestamp, later: Timestamp) -> int {
    if later.nanos >= earlier.nanos {
        later.nanos - earlier.nanos
    } else {
        0
    }
}

impl Timestamp {
    /// The nanoseconds that have passed at `self` since `earlier`; zero if `earlier` is later.
    pub fn duration_since(self, earlier: Timestamp) -> (nanos: u128)
        ensures
            nanos == elapsed(earlier, self),
    {
        if self.nanos >= earlier.nanos {
            self.nanos - earlier.nanos
        } else {
            0
        }
    }

    /// The reading `nanos` nanoseconds after `self`.
    pub fn plus(self, nanos: u128) -> (later: Timestamp)
        requires
            self.nanos + nanos <= u128::MAX,
        ensures
            later.nanos == self.nanos + nanos,
    {
        Timestamp { nanos: self.nanos + nanos }
    }

    /// Whether `self` comes strictly before `other`.
    pub fn is_before(self, other: Timestamp) -> (before: bool)
        ensures
            before == (self.nanos < other.nanos),
    {
        self.nanos < other.nanos
    }
}

/// The time between two readings is what the later one is ahead, however much that is, and
/// nothing where the clock seems to have run back.
pub proof fn time_adds_up(earlier: Timestamp, nanos: u128, later: Timestamp)
    ensures
        earlier.nanos + nanos == later.nanos ==> elapsed(earlier, later) == nanos,
        later.nanos <= earlier.nanos ==> elapsed(earlier, later) == 0,
        elapsed(earlier, later) >= 0,
        MILLISECOND == 1_000_000,
        SECOND == 1_000_000_000,
{
}

} // verus!
