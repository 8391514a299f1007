//! The wall clock.

use std::time::{Duration, SystemTime, SystemTimeError};
use vstd::prelude::*;

verus! {

/// `std::time::SystemTime`, a reading of the clock.
#[verifier::external_type_specification]
#[verifier::external_body]
pub struct ExSystemTime(std::time::SystemTime);

/// `std::time::SystemTimeError`, which says that a reading lies before another.
#[verifier::external_type_specification]
#[verifier::external_body]
pub struct ExSystemTimeError(std::time::SystemTimeError);

/// `SystemTime::now`: a reading of the clock, of which nothing is known.
pub assume_specification[ std::time::SystemTime::now ]() -> std::time::SystemTime;

/// The whole seconds of a duration.
pub uninterp spec fn whole_seconds(d: std::time::Duration) -> u64;

/// `Duration::as_secs`: the whole seconds of the duration.
pub assume_specification[ std::time::Duration::as_secs ](d: &std::time::Duration) -> (r: u64)
    ensures
        r == whole_seconds(*d),
;

/// The time from the start of 1970 to a reading of the clock, if the reading is not
/// before it.
pub uninterp spec fn elapsed_at(reading: std::time::SystemTime) -> Option<std::time::Duration>;

/// `SystemTime::duration_since` with the start of Unix time: the time from there to
/// the reading, or an error if the reading lies before it.
#[verifier::external_body]
fn since_epoch(reading: &SystemTime) -> (r: Result<Duration, SystemTimeError>)
    ensures
        match r {
            Ok(d) => elapsed_at(*reading) == Some(d),
            Err(_) => elapsed_at(*reading) is None,
        },
{
    reading.duration_since(std::time::UNIX_EPOCH)
}

/// The seconds that a clock reading stands for: none if the clock is set to a time
/// before 1970.
pub fn unix_seconds(elapsed: Option<u64>) -> (now: u64)
    ensures
        now == (match elapsed {
            Some(seconds) => seconds,
            None => 0,
        }),
{
    match elapsed {
        Some(seconds) => seconds,
        None => 0,
    }
}

/// The seconds from the start of 1970 to a reading of the clock: none if the reading
/// is before it.
pub open spec fn unix_time(reading: SystemTime) -> u64 {
    match elapsed_at(reading) {
        Some(d) => whole_seconds(d),
        None => 0,
    }
}

/// A reading stands for the whole seconds that have gone by since the start of 1970, and
/// for zero if it lies before it.
pub proof fn readings_count_whole_seconds(reading: SystemTime)
    ensures
        elapsed_at(reading) matches Some(d) ==> unix_time(reading) == whole_seconds(d),
        elapsed_at(reading) is None ==> unix_time(reading) == 0,
{
}

/// Some reading of the clock stands for so many seconds.
pub open spec fn is_clock_time(now: u64) -> bool {
    exists|reading: SystemTime| now == #[trigger] unix_time(reading)
}

/// The seconds since the start of 1970, by a reading of the clock. Which reading that
/// is rests with the machine.
pub fn now_unix() -> (now: u64)
    ensures
        is_clock_time(now),
{
    let reading = SystemTime::now();
    let now = match since_epoch(&reading) {
        Ok(elapsed) => unix_seconds(Some(elapsed.as_secs())),
        Err(_) => unix_seconds(None),
    };
    assert(now == unix_time(reading));
    now
}

} // verus!
