//! Unit conversions on time values, done by the `fugit` crate.

use fugit::{HertzU32, MillisDurationU32, MillisDurationU64};
use vstd::prelude::*;

verus! {

/// Whole ticks per second of a period of `interval_ms` milliseconds.
///
/// Calls `fugit`'s `Duration::into_rate` from a millisecond duration to a rate
/// in hertz, which divides 1000 by the tick count, rounding down, and panics
/// on a zero duration.
#[verifier::external_body]
pub(crate) fn ticks_per_second(interval_ms: u32) -> (hz: u32)
    requires
        interval_ms > 0,
    ensures
        hz == 1000u32 / interval_ms,
{
    let rate: HertzU32 = MillisDurationU32::from_ticks(interval_ms).into_rate();
    rate.raw()
}

/// Whole hours in `elapsed_ms` milliseconds.
///
/// Calls `fugit`'s `Duration::to_hours` on a millisecond duration, which
/// divides the tick count by 3 600 000, rounding down.
#[verifier::external_body]
pub(crate) fn whole_hours(elapsed_ms: u64) -> (hours: u64)
    ensures
        hours == elapsed_ms / 3_600_000,
{
    MillisDurationU64::from_ticks(elapsed_ms).to_hours()
}

/// Whole minutes in `elapsed_ms` milliseconds.
///
/// Calls `fugit`'s `Duration::to_minutes` on a millisecond duration, which
/// divides the tick count by 60 000, rounding down.
#[verifier::external_body]
pub(crate) fn whole_minutes(elapsed_ms: u64) -> (minutes: u64)
    ensures
        minutes == elapsed_ms / 60_000,
{
    MillisDurationU64::from_ticks(elapsed_ms).to_minutes()
}

/// Whole seconds in `elapsed_ms` milliseconds.
///
/// Calls `fugit`'s `Duration::to_secs` on a millisecond duration, which
/// divides the tick count by 1000, rounding down.
#[verifier::external_body]
pub(crate) fn whole_seconds(elapsed_ms: u64) -> (seconds: u64)
    ensures
        seconds == elapsed_ms / 1000,
{
    MillisDurationU64::from_ticks(elapsed_ms).to_secs()
}

} // verus!
