//! The wall clock, read through `std::time`.

use vstd::prelude::*;
use crate::error::HiveError;

verus! {

/// `std::time::SystemTime`, a reading of the wall clock. Nothing inside it is
/// looked at.
#[verifier::external_type_specification]
#[verifier::external_body]
pub struct ExSystemTime(std::time::SystemTime);

/// `std::time::SystemTimeError`, the failure to measure between two readings.
#[verifier::external_type_specification]
#[verifier::external_body]
pub struct ExSystemTimeError(std::time::SystemTimeError);

/// `SystemTime::now` reads the wall clock. Nothing is claimed of the reading.
pub assume_specification[ std::time::SystemTime::now ]() -> (now: std::time::SystemTime);

/// `SystemTime::duration_since` measures from `earlier` to `time`, and fails
/// where `earlier` is the later of the two. Nothing is claimed of the outcome.
pub assume_specification[ std::time::SystemTime::duration_since ](
    time: &std::time::SystemTime,
    earlier: std::time::SystemTime,
) -> (elapsed: Result<std::time::Duration, std::time::SystemTimeError>);

/// The whole seconds that a duration contains, as `Duration::as_secs` gives
/// them.
pub uninterp spec fn whole_seconds(elapsed: std::time::Duration) -> u64;

/// `Duration::as_secs` gives the whole seconds of a duration, which depend on
/// the duration alone.
pub assume_specification[ std::time::Duration::as_secs ](duration: &std::time::Duration) -> (seconds: u64)
    ensures
        seconds == whole_seconds(*duration),
;

/// The start of Unix time, `std::time::UNIX_EPOCH`.
#[verifier::external_body]
fn unix_epoch() -> (epoch: std::time::SystemTime) {
    std::time::UNIX_EPOCH
}

/// The wall-clock time in whole seconds since the start of Unix time.
///
/// Fails with `SystemTimeError`, and with nothing else, where the clock stands
/// before that start. Which of the two happens is the clock's to decide.
pub fn now_seconds() -> (reading: Result<u64, HiveError>)
    ensures
        reading matches Err(e) ==> e is SystemTimeError,
{
    let now = std::time::SystemTime::now();
    seconds_from(now.duration_since(unix_epoch()))
}

/// The whole seconds of what was measured from the start of Unix time to a
/// reading of the clock: what `now_seconds` returns for each outcome.
///
/// A measurement that succeeded gives its seconds, and one that failed, as it
/// does where the reading lies before that start, gives `SystemTimeError`.
pub fn seconds_from(
    measured: Result<std::time::Duration, std::time::SystemTimeError>,
) -> (reading: Result<u64, HiveError>)
    ensures
        match measured {
            Ok(elapsed) => reading == Ok::<u64, HiveError>(whole_seconds(elapsed)),
            Err(_) => reading matches Err(e) && e is SystemTimeError,
        },
{
    match measured {
        Ok(elapsed) => Ok(elapsed.as_secs()),
        Err(_) => Err(HiveError::SystemTimeError),
    }
}

} // verus!
