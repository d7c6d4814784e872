//! Points and spans of time, in whole nanoseconds.

use vstd::prelude::*;

verus! {

/// A span of time.
#[derive(Debug, Clone, Copy, PartialEq, Eq, Structural)]
pub struct Duration {
    pub nanos: u128,
}

impl Duration {
    /// A span of whole seconds.
    pub fn from_secs(secs: u64) -> (span: Self)
        ensures
            span.nanos == secs * 1_000_000_000,
    {
        Duration { nanos: secs as u128 * 1_000_000_000 }
    }
}

/// A point in time, counted from an origin that every reader of one clock
/// shares.
#[derive(Debug, Clone, Copy, PartialEq, Eq, Structural)]
pub struct Instant {
    pub nanos: u128,
}

/// The time that passed from `earlier` to `now`, in nanoseconds; none where
/// `earlier` lies ahead.
pub open spec fn nanos_between(earlier: Instant, now: Instant) -> int {
    if earlier.nanos <= now.nanos {
        now.nanos - earlier.nanos
    } else {
        0
    }
}

impl Instant {
    /// The time that passed since `earlier`, and none where that lies ahead.
    pub fn duration_since(self, earlier: Instant) -> (span: Duration)
        ensures
            span.nanos == nanos_between(earlier, self),
    {
        if earlier.nanos <= self.nanos {
            Duration { nanos: self.nanos - earlier.nanos }
        } else {
            Duration { nanos: 0 }
        }
    }
}

/// Time adds up: what passes until a point between two others and what passes after it
/// is what passes in all. None passes backwards.
pub proof fn law_time_adds_up(first: Instant, second: Instant, third: Instant)
    ensures
        first.nanos <= second.nanos ==> first.nanos + nanos_between(first, second)
            == second.nanos,
        first.nanos <= second.nanos <= third.nanos ==> nanos_between(first, third)
            == nanos_between(first, second) + nanos_between(second, third),
        first.nanos >= second.nanos ==> nanos_between(first, second) == 0,
{
}

} // verus!
