//! The wall clock, read through `std::time`.

use std::time::{Duration, SystemTime, SystemTimeError};
use vstd::prelude::*;

verus! {

/// `std::time::SystemTime`, a reading of the system clock. Opaque here.
#[verifier::external_type_specification]
#[verifier::external_body]
pub struct ExSystemTime(SystemTime);

/// `std::time::SystemTimeError`, returned when one reading lies before
/// another. Opaque here.
#[verifier::external_type_specification]
#[verifier::external_body]
pub struct ExSystemTimeError(SystemTimeError);

/// `SystemTime::now` reads the system clock. Nothing is claimed of the
/// reading: it changes from call to call.
pub assume_specification[ SystemTime::now ]() -> (now: SystemTime);

/// Calls `SystemTime::duration_since` with `SystemTime::UNIX_EPOCH` as the
/// earlier instant: the time elapsed from the epoch to `reading`, or an error
/// when `reading` lies before the epoch. Nothing is claimed of the outcome.
#[verifier::external_body]
fn since_unix_epoch(reading: &SystemTime) -> (elapsed: Result<Duration, SystemTimeError>) {
    reading.duration_since(SystemTime::UNIX_EPOCH)
}

/// `Duration::as_millis` returns the whole milliseconds held by a duration.
/// Nothing is claimed of the number.
pub assume_specification[ Duration::as_millis ](span: &Duration) -> (millis: u128);

/// Milliseconds elapsed since the Unix epoch according to the system clock.
/// A clock set before the epoch reads as `0`.
pub(crate) fn unix_millis() -> (millis: u128) {
    let now = SystemTime::now();
    match since_unix_epoch(&now) {
        Ok(span) => span.as_millis(),
        Err(_) => 0,
    }
}

} // verus!
