//! Readings of the monotonic clock.
use std::time::Instant;
use vstd::prelude::*;

verus! {

/// `std::time::Instant`, carried through unopened.
#[verifier::external_type_specification]
#[verifier::external_body]
pub struct ExInstant(std::time::Instant);

/// Nanoseconds in one millisecond.
pub const NANOS_PER_MILLI: u128 = 1_000_000;

/// Calls `std::time::Instant::now`. Nothing is claimed of the reading.
#[verifier::external_body]
pub(crate) fn now() -> (reading: Instant) {
    Instant::now()
}

/// Whether `at` is something that a reading of the clock has given.
pub closed spec fn is_reading(at: Instant) -> bool {
    call_ensures(now, (), at)
}

/// Reads the clock.
pub(crate) fn read_clock() -> (at: Instant)
    ensures
        is_reading(at),
{
    let clock = now;
    clock()
}

/// The nanoseconds from `earlier` to `later`, as
/// `std::time::Instant::saturating_duration_since` gives them.
pub uninterp spec fn nanos_between(later: Instant, earlier: Instant) -> u128;

/// Calls `std::time::Instant::saturating_duration_since` and counts the result in
/// nanoseconds: what passed from `earlier` to `later`, a function of the two instants.
#[verifier::external_body]
pub(crate) fn nanos_from(earlier: Instant, later: Instant) -> (nanos: u128)
    ensures
        nanos == nanos_between(later, earlier),
{
    later.saturating_duration_since(earlier).as_nanos()
}

/// The nanoseconds from `earlier` to `at`, where there is such an instant.
pub open spec fn since(at: Instant, earlier: Option<Instant>) -> Option<u128> {
    match earlier {
        Some(start) => Some(nanos_between(at, start)),
        None => None,
    }
}

/// The nanoseconds that have passed at `at` since `earlier`.
pub(crate) fn nanos_since(at: Instant, earlier: &Option<Instant>) -> (nanos: Option<u128>)
    ensures
        nanos == since(at, *earlier),
{
    match earlier {
        Some(start) => Some(nanos_from(*start, at)),
        None => None,
    }
}

/// `threshold_ms` milliseconds, in nanoseconds.
pub open spec fn millis(threshold_ms: u64) -> u128 {
    (threshold_ms * NANOS_PER_MILLI) as u128
}

/// Converts milliseconds to nanoseconds; every `u64` fits.
pub(crate) fn millis_to_nanos(threshold_ms: u64) -> (nanos: u128)
    ensures
        nanos == threshold_ms * NANOS_PER_MILLI,
        nanos == millis(threshold_ms),
{
    threshold_ms as u128 * NANOS_PER_MILLI
}

/// A millisecond has a million nanoseconds, and none gets lost.
pub proof fn millis_are_a_million_nanos(threshold_ms: u64)
    ensures
        millis(threshold_ms) == threshold_ms * 1_000_000,
{
}

/// The time since an instant is the time between the two; since none there is no time.
pub proof fn time_since_is_time_between(at: Instant, earlier: Instant)
    ensures
        since(at, Some(earlier)) == Some(nanos_between(at, earlier)),
        since(at, None) is None,
{
}

} // verus!
