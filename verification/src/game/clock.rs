//! The system clock, read in whole seconds since the Unix epoch.
use std::time::{Duration, SystemTime, SystemTimeError, UNIX_EPOCH};
use vstd::prelude::*;

verus! {

#[verifier::external_type_specification]
#[verifier::external_body]
pub struct ExSystemTimeError(SystemTimeError);

/// `SystemTime::elapsed` on `UNIX_EPOCH`: the time that has passed since the
/// Unix epoch by the system clock, or an error where the clock stands before
/// the epoch. Nothing is claimed of the value: it is whatever the clock
/// says.
#[verifier::external_body]
fn since_epoch() -> Result<Duration, SystemTimeError> {
    UNIX_EPOCH.elapsed()
}

/// `Duration::as_secs`: the whole seconds of a duration. Nothing is claimed
/// of the value, since nothing is known of the duration.
#[verifier::external_body]
fn whole_seconds(elapsed: Duration) -> u64 {
    elapsed.as_secs()
}

/// The current Unix time in whole seconds; `0` where the system clock stands
/// before the epoch.
pub fn unix_timestamp() -> u64 {
    // The clock is read once; what a reading stands for is for
    // `timestamp_of` to say.
    let reading = read_clock();
    timestamp_of(reading)
}

/// One reading of the system clock: the whole seconds that have passed since
/// the Unix epoch, or nothing where the clock stands before the epoch.
pub fn read_clock() -> Option<u64> {
    match since_epoch() {
        Ok(elapsed) => Some(whole_seconds(elapsed)),
        Err(_) => None,
    }
}

/// The Unix time that a reading of the clock stands for: its seconds, and
/// `0` for a clock that stands before the epoch.
pub open spec fn stamp(reading: Option<u64>) -> u64 {
    match reading {
        Some(seconds) => seconds,
        None => 0,
    }
}

/// The Unix time that a reading of the clock stands for.
pub fn timestamp_of(reading: Option<u64>) -> (now: u64)
    ensures
        now == stamp(reading),
{
    match reading {
        Some(seconds) => seconds,
        None => 0,
    }
}

} // verus!
