//! Reading the wall clock.
//!
//! What the clock shows is not known before it is read, so nothing is claimed
//! of a reading but that it lies within the day. What is made of a reading is
//! said exactly by `day_second_of_reading`, which takes the reading as its
//! argument.

use crate::hue::{second_of_day, seconds_since_midnight, SECONDS_PER_DAY};
use std::time::{Duration, SystemTime, SystemTimeError};
use vstd::prelude::*;

verus! {

/// `std::time::SystemTime`, a moment of the system clock. Nothing of what it
/// holds is visible here.
#[verifier::external_type_specification]
#[verifier::external_body]
pub struct ExSystemTime(SystemTime);

/// `std::time::SystemTimeError`, the error of `SystemTime::duration_since`
/// where the second moment is later than the first. Nothing of what it holds
/// is visible here.
#[verifier::external_type_specification]
#[verifier::external_body]
pub struct ExSystemTimeError(SystemTimeError);

/// `std::time::SystemTime::now` returns the current moment of the system
/// clock. Nothing is claimed of it.
pub assume_specification[ SystemTime::now ]() -> (now: SystemTime);

/// `std::time::Duration::as_secs` returns the whole seconds of a span of time.
/// Nothing is claimed of their number.
pub assume_specification[ Duration::as_secs ](span: &Duration) -> (seconds: u64);

/// Calls `std::time::SystemTime::duration_since` on `moment`, with
/// `std::time::UNIX_EPOCH` as the earlier moment: the time from the epoch to
/// `moment`, or an error where `moment` lies before the epoch. Nothing is
/// claimed of which of the two comes back, nor of the span.
#[verifier::external_body]
fn duration_since_epoch(moment: &SystemTime) -> (elapsed: Result<Duration, SystemTimeError>) {
    moment.duration_since(std::time::UNIX_EPOCH)
}

/// Why the clock could not be read.
#[derive(Clone, Copy, Debug, PartialEq, Eq, Structural)]
pub enum ClockError {
    /// The system clock shows a moment before the epoch.
    BeforeEpoch,
}

/// What a reading of the clock says of the day: `since_epoch` holds the whole
/// seconds from the epoch to the moment that the clock showed, or nothing
/// where that moment lies before the epoch. The result is the second of the
/// day of that moment, or the error for a clock before the epoch.
pub fn day_second_of_reading(since_epoch: Option<u64>) -> (reading: Result<u64, ClockError>)
    ensures
        match since_epoch {
            Some(seconds) => reading == Ok::<u64, ClockError>(second_of_day(seconds) as u64),
            None => reading == Err::<u64, ClockError>(ClockError::BeforeEpoch),
        },
        reading matches Ok(second) ==> second < SECONDS_PER_DAY,
{
    match since_epoch {
        Some(seconds) => Ok(seconds_since_midnight(seconds)),
        None => Err(ClockError::BeforeEpoch),
    }
}

/// Reads the system clock and returns the second of the day that it shows,
/// with days that begin at the epoch and last `SECONDS_PER_DAY` seconds.
/// Fails where the clock shows a moment before the epoch. What is made of the
/// reading is what `day_second_of_reading` makes of it.
pub fn time_since_midnight() -> (reading: Result<u64, ClockError>)
    ensures
        reading matches Ok(second) ==> second < SECONDS_PER_DAY,
        reading matches Err(error) ==> error == ClockError::BeforeEpoch,
{
    let now = SystemTime::now();
    let since_epoch: Option<u64> = match duration_since_epoch(&now) {
        Ok(elapsed) => Some(elapsed.as_secs()),
        Err(_) => None,
    };
    day_second_of_reading(since_epoch)
}

} // verus!
