//! Spans of time, counted in whole nanoseconds.

use vstd::prelude::*;

verus! {

/// Nanoseconds in one second.
pub const NANOS_PER_SECOND: i128 = 1_000_000_000;

/// Nanoseconds in one day of 24 hours. Leap seconds are not counted.
pub const NANOS_PER_DAY: i128 = 86_400_000_000_000;

/// A signed span of time with nanosecond resolution.
#[derive(Clone, Copy, Debug, PartialEq, Eq, Structural)]
pub struct Duration {
    /// The span in nanoseconds; negative if it runs backwards.
    pub nanos: i128,
}

/// The length of every day: exactly 24 hours.
pub fn day_duration() -> (day: Duration)
    ensures
        day.nanos == NANOS_PER_DAY,
{
    Duration { nanos: NANOS_PER_DAY }
}

} // verus!
