//! The wall clock, read in whole seconds since the Unix epoch.

use std::time::{Duration, SystemTime, SystemTimeError, UNIX_EPOCH};
use vstd::prelude::*;

verus! {

/// `std::time::SystemTime`, a reading of the system clock.
#[verifier::external_type_specification]
#[verifier::external_body]
pub struct ExSystemTime(SystemTime);

/// `std::time::SystemTimeError`, returned where the second of two readings
/// is the earlier one.
#[verifier::external_type_specification]
#[verifier::external_body]
pub struct ExSystemTimeError(SystemTimeError);

/// `SystemTime::now` reads the clock. Nothing is known of the reading.
pub assume_specification[ SystemTime::now ]() -> (reading: SystemTime)
;

/// `SystemTime::duration_since`, asked for the time that passed from
/// `std::time::UNIX_EPOCH` (1970-01-01 00:00:00 UTC) to `reading`. It gives
/// an error where the reading lies before the epoch. Nothing is known of the
/// duration.
#[verifier::external_body]
fn since_epoch(reading: &SystemTime) -> (elapsed: Result<Duration, SystemTimeError>) {
    reading.duration_since(UNIX_EPOCH)
}

/// `Duration::as_secs` gives the whole seconds of a duration.
pub assume_specification[ Duration::as_secs ](duration: &Duration) -> (seconds: u64)
;

/// The current time in seconds since the Unix epoch. A clock that stands
/// before the epoch reads as second zero.
pub(crate) fn now_secs() -> u64 {
    let reading = SystemTime::now();
    match since_epoch(&reading) {
        Ok(elapsed) => elapsed.as_secs(),
        Err(_) => 0,
    }
}

} // verus!
