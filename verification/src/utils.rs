use std::time::{Duration, SystemTime, SystemTimeError, UNIX_EPOCH};
use vstd::prelude::*;

verus! {

/// `std::time::SystemTime`, a reading of the system clock, carried through as an opaque value.
#[verifier::external_type_specification]
#[verifier::external_body]
pub struct ExSystemTime(SystemTime);

/// `std::time::SystemTimeError`, returned when one clock reading lies before another.
#[verifier::external_type_specification]
#[verifier::external_body]
pub struct ExSystemTimeError(SystemTimeError);

/// `SystemTime::now` reads the system clock. Nothing is claimed of the reading.
pub assume_specification[ SystemTime::now ]() -> (reading: SystemTime);

/// `Duration::as_secs` gives the whole seconds of a span. Nothing is claimed of the number.
pub assume_specification[ Duration::as_secs ](span: &Duration) -> (seconds: u64);

/// `SystemTime::duration_since`, measured from `UNIX_EPOCH`: the span from the epoch to
/// `reading`, or an error when `reading` lies before the epoch. Nothing is claimed of the
/// outcome.
#[verifier::external_body]
fn since_unix_epoch(reading: &SystemTime) -> (span: Result<Duration, SystemTimeError>) {
    reading.duration_since(UNIX_EPOCH)
}

/// The second a clock reading counts as, given the whole seconds it lies after the Unix
/// epoch, if it lies after it: a reading before the epoch counts as the epoch itself.
pub open spec fn second_read(elapsed: Option<u64>) -> u64 {
    match elapsed {
        Some(seconds) => seconds,
        None => 0,
    }
}

/// Computes `second_read`.
pub fn second_of_reading(elapsed: Option<u64>) -> (now: u64)
    ensures
        now == second_read(elapsed),
{
    match elapsed {
        Some(seconds) => seconds,
        None => 0,
    }
}

/// Whole seconds elapsed since the Unix epoch according to the system clock.
///
/// A clock that reports an instant before the epoch is read as the epoch itself, so a
/// backward jump never aborts the caller. Which second comes back is the clock's to say.
pub fn unix_epoch_now() -> (now: u64) {
    let reading = SystemTime::now();
    let elapsed = match since_unix_epoch(&reading) {
        Ok(span) => Some(span.as_secs()),
        Err(_) => None,
    };
    second_of_reading(elapsed)
}

} // verus!
