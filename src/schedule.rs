//! Timing of the daily queue clear.

use vstd::prelude::*;

verus! {

/// Milliseconds in a day.
pub const MILLIS_PER_DAY: u64 = 86_400_000;

/// Milliseconds in an hour.
pub const MILLIS_PER_HOUR: u64 = 3_600_000;

/// How long to wait, from `now` (milliseconds since local midnight), until
/// the next scheduled clear at `hour` o'clock: later today if that time has
/// not passed yet, else the same time tomorrow.
pub fn millis_until_clear(now: u64, hour: u64) -> (r: u64)
    requires
        now < MILLIS_PER_DAY,
        hour < 24,
    ensures
        hour * MILLIS_PER_HOUR >= now ==> r == hour * MILLIS_PER_HOUR - now,
        hour * MILLIS_PER_HOUR < now ==> r == hour * MILLIS_PER_HOUR + MILLIS_PER_DAY - now,
        r < MILLIS_PER_DAY,
{
    let target = hour * MILLIS_PER_HOUR;
    if target >= now {
        target - now
    } else {
        target + MILLIS_PER_DAY - now
    }
}

} // verus!
