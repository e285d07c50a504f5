//! The duration codec: relative durations against absolute expiry instants.
//!
//! Instants are seconds on an integer timeline; the caller reads the clock and
//! passes `now` in. Day-unit requests are clamped to the platform's maximum
//! timeout length before conversion; smaller units are never clamped.

use vstd::prelude::*;

verus! {

/// The platform's upper bound on a timeout length, in days.
pub const MAX_TIMEOUT_DAYS: u64 = 28;

/// Seconds in one day.
pub const SECONDS_PER_DAY: u64 = 86400;

/// A day-unit request above the platform maximum is lowered to it.
pub open spec fn clamped_days(days: u64) -> u64 {
    if days > MAX_TIMEOUT_DAYS {
        MAX_TIMEOUT_DAYS
    } else {
        days
    }
}

/// Clamp a day-unit duration request to the platform maximum.
pub fn clamp_days(days: u64) -> (r: u64)
    ensures
        r == clamped_days(days),
{
    if days > MAX_TIMEOUT_DAYS {
        MAX_TIMEOUT_DAYS
    } else {
        days
    }
}

/// Convert a day-unit duration request into seconds, clamping first.
pub fn days_to_seconds(days: u64) -> (r: u64)
    ensures
        r == clamped_days(days) * SECONDS_PER_DAY,
{
    clamp_days(days) * SECONDS_PER_DAY
}

/// The absolute instant a relative duration expires at.
pub open spec fn spec_to_absolute(now: int, relative_seconds: int) -> int {
    now + relative_seconds
}

/// The relative duration left until an absolute instant; zero once it passed.
pub open spec fn spec_from_absolute(now: int, absolute: int) -> int {
    if absolute >= now {
        absolute - now
    } else {
        0
    }
}

/// Convert a relative duration into an absolute expiry instant.
pub fn to_absolute(now: u64, relative_seconds: u64) -> (r: u64)
    requires
        now + relative_seconds <= u64::MAX,
    ensures
        r == spec_to_absolute(now as int, relative_seconds as int),
{
    now + relative_seconds
}

/// Convert an absolute expiry instant back into a relative duration from now.
pub fn from_absolute(now: u64, absolute: u64) -> (r: u64)
    ensures
        r == spec_from_absolute(now as int, absolute as int),
{
    if absolute >= now {
        absolute - now
    } else {
        0
    }
}

/// Encoding a duration and reading it back at the same instant is lossless.
pub proof fn lemma_duration_round_trip(now: u64, relative_seconds: u64)
    requires
        now + relative_seconds <= u64::MAX,
    ensures
        spec_from_absolute(now as int, spec_to_absolute(now as int, relative_seconds as int))
            == relative_seconds,
{
}

/// Day-unit requests above the maximum are lowered to it; requests at or
/// below the maximum pass through unchanged.
pub proof fn lemma_day_clamp(days: u64)
    ensures
        days > MAX_TIMEOUT_DAYS ==> clamped_days(days) == MAX_TIMEOUT_DAYS,
        days <= MAX_TIMEOUT_DAYS ==> clamped_days(days) == days,
{
}

} // verus!
