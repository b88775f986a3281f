//! The wall clock, in whole seconds since the Unix epoch.

use std::time::{Duration, SystemTimeError};
use vstd::prelude::*;

verus! {

/// `std::time::SystemTimeError`, the error of a clock that stands before the epoch; opaque here.
#[verifier::external_type_specification]
#[verifier::external_body]
pub struct ExSystemTimeError(SystemTimeError);

/// `Duration::as_secs` gives the whole seconds of a span of time, whatever fraction is left.
pub assume_specification[ Duration::as_secs ](span: &Duration) -> (secs: u64)
    ensures
        secs == whole_seconds(*span),
;

/// Calls `SystemTime::elapsed` on `std::time::UNIX_EPOCH`: the time since the epoch by the
/// system clock, or an error where the clock stands before it. Nothing is claimed of it.
#[verifier::external_body]
fn since_epoch() -> Result<Duration, SystemTimeError> {
    std::time::UNIX_EPOCH.elapsed()
}

/// The number of whole seconds since the Unix epoch, as the system clock has
/// it now. A clock that stands before the epoch reads as zero.
pub fn unix_seconds() -> u64 {
    seconds_of(since_epoch())
}

/// The whole seconds in a span of time.
///
/// This is a name for what `Duration::as_secs` returns. All that is used of
/// it is that the number depends on the span alone.
pub uninterp spec fn whole_seconds(span: Duration) -> u64;

/// The seconds that a reading of the clock stands for: the whole seconds of
/// the span it measured, or zero where the clock stood before the epoch.
pub open spec fn reading_seconds(reading: Result<Duration, SystemTimeError>) -> u64 {
    match reading {
        Ok(span) => whole_seconds(span),
        Err(_) => 0,
    }
}

/// Turns a reading of the clock into seconds since the epoch. A reading
/// that failed because the clock stood before the epoch counts as zero.
pub fn seconds_of(reading: Result<Duration, SystemTimeError>) -> (secs: u64)
    ensures
        secs == reading_seconds(reading),
{
    match reading {
        Ok(span) => span.as_secs(),
        Err(_) => 0,
    }
}

} // verus!
