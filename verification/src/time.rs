//! Lengths of time and points in time.

use std::time::Duration;
use vstd::prelude::*;

verus! {

/// The number of nanoseconds in a length of time.
pub uninterp spec fn duration_nanos(duration: Duration) -> nat;

/// The whole seconds of a length of time are counted in a `u64`.
pub open spec fn is_duration(nanos: int) -> bool {
    0 <= nanos < (u64::MAX + 1) * 1_000_000_000
}

/// `Duration::as_nanos`: the total number of nanoseconds. The seconds among them are counted in
/// a `u64`.
pub assume_specification[ Duration::as_nanos ](duration: &Duration) -> (nanos: u128)
    ensures
        nanos == duration_nanos(*duration),
        is_duration(nanos as int),
;

/// `Duration::new`: the sum of the seconds and the nanoseconds. A whole second of nanoseconds
/// would be carried over, which may overflow the seconds.
pub assume_specification[ Duration::new ](secs: u64, nanos: u32) -> (duration: Duration)
    requires
        nanos < 1_000_000_000,
    ensures
        duration_nanos(duration) == secs * 1_000_000_000 + nanos,
;

/// The length of time of that many nanoseconds.
pub fn from_nanos(nanos: u128) -> (duration: Duration)
    requires
        is_duration(nanos as int),
    ensures
        duration_nanos(duration) == nanos,
{
    let secs: u128 = nanos / 1_000_000_000;
    let rest: u128 = nanos % 1_000_000_000;
    Duration::new(secs as u64, rest as u32)
}

/// The length of time of that many milliseconds.
pub fn from_millis(millis: u64) -> (duration: Duration)
    ensures
        duration_nanos(duration) == millis * 1_000_000,
{
    from_nanos(millis as u128 * 1_000_000)
}

/// What is left of `duration` after `other`, and nothing if `other` is longer.
pub fn saturating_sub(duration: Duration, other: Duration) -> (rest: Duration)
    ensures
        duration_nanos(rest) == if duration_nanos(other) <= duration_nanos(duration) {
            duration_nanos(duration) - duration_nanos(other)
        } else {
            0
        },
{
    let nanos: u128 = duration.as_nanos();
    let other_nanos: u128 = other.as_nanos();
    if other_nanos <= nanos {
        from_nanos(nanos - other_nanos)
    } else {
        from_nanos(0)
    }
}

/// A point in time, in nanoseconds from the origin of a clock that never goes back.
#[derive(Clone, Copy)]
pub struct Instant {
    pub nanos: i64,
}

/// The number of nanoseconds from one point in time to another, and 0 if they come in the other
/// order.
pub open spec fn nanos_since(later: Instant, earlier: Instant) -> nat {
    if earlier.nanos <= later.nanos {
        (later.nanos - earlier.nanos) as nat
    } else {
        0
    }
}

impl Instant {
    /// The time that has passed since an earlier point in time, and nothing if it is not earlier.
    pub fn saturating_duration_since(&self, earlier: Instant) -> (duration: Duration)
        ensures
            duration_nanos(duration) == nanos_since(*self, earlier),
    {
        if earlier.nanos <= self.nanos {
            from_nanos((self.nanos as i128 - earlier.nanos as i128) as u128)
        } else {
            from_nanos(0)
        }
    }

    /// The point in time that much earlier.
    pub fn before(&self, duration: Duration) -> (instant: Instant)
        requires
            self.nanos - duration_nanos(duration) >= i64::MIN,
        ensures
            instant.nanos == self.nanos - duration_nanos(duration),
    {
        let nanos: u128 = duration.as_nanos();
        Instant { nanos: (self.nanos as i128 - nanos as i128) as i64 }
    }
}

/// From a point in time to a later one, as many nanoseconds pass as lie between them, and from a
/// later one to an earlier one none.
pub proof fn law_time_that_has_passed(earlier: Instant, nanos: nat)
    requires
        earlier.nanos + nanos <= i64::MAX,
    ensures
        ({
            let later = Instant { nanos: (earlier.nanos + nanos) as i64 };
            &&& nanos_since(later, earlier) == nanos
            &&& nanos_since(earlier, later) == 0
        }),
{
}

} // verus!
