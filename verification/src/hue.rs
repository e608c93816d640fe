//! The colour of the moment: a hue that sweeps the whole wheel once per day.
//!
//! Every light that derives its hue from the same clock shows the same colour
//! at the same instant, with no coordination between the lights.

use vstd::prelude::*;

verus! {

/// Number of seconds in one day.
pub const SECONDS_PER_DAY: u64 = 86400;

/// Largest hue value that a light accepts.
pub const HUE_MAX: u64 = 65535;

/// Saturation that every command carries.
pub const SATURATION: u8 = 200;

/// Second of the day that a timestamp, counted in seconds from the epoch,
/// falls on. Days begin at multiples of `SECONDS_PER_DAY`.
pub open spec fn second_of_day(timestamp: u64) -> int {
    timestamp as int % SECONDS_PER_DAY as int
}

/// Hue that belongs to a second of the day: the second scaled linearly from
/// the length of a day to the hue range, rounded down.
pub open spec fn hue_of_second(second: int) -> int {
    second * HUE_MAX as int / SECONDS_PER_DAY as int
}

/// Hue that belongs to a timestamp.
pub open spec fn hue_of(timestamp: u64) -> int {
    hue_of_second(second_of_day(timestamp))
}

/// What is sent to a light: a saturation and a hue. It names no light; the
/// same command goes to every target of a tick.
#[derive(Clone, Copy, Debug, PartialEq, Eq, Structural)]
pub struct ColorCommand {
    pub saturation: u8,
    pub hue: u16,
}

impl ColorCommand {
    /// The command that belongs to a timestamp.
    pub open spec fn at(timestamp: u64) -> ColorCommand {
        ColorCommand { saturation: SATURATION, hue: hue_of(timestamp) as u16 }
    }

    /// Builds the command for a timestamp: the fixed saturation and the hue of
    /// the timestamp's second of the day.
    pub fn for_time(timestamp: u64) -> (command: ColorCommand)
        ensures
            command == ColorCommand::at(timestamp),
            command.saturation == SATURATION,
            command.hue as int == hue_of(timestamp),
    {
        ColorCommand { saturation: SATURATION, hue: hue_at(timestamp) }
    }
}

/// Reduces a timestamp, counted in seconds, to the second of its day.
pub fn seconds_since_midnight(timestamp: u64) -> (second: u64)
    ensures
        second as int == second_of_day(timestamp),
        second < SECONDS_PER_DAY,
{
    timestamp % SECONDS_PER_DAY
}

/// Computes the hue for a timestamp.
pub fn hue_at(timestamp: u64) -> (hue: u16)
    ensures
        hue as int == hue_of(timestamp),
        0 <= hue_of(timestamp) <= HUE_MAX,
{
    let second: u64 = seconds_since_midnight(timestamp);
    let scaled: u64 = second * HUE_MAX / SECONDS_PER_DAY;
    scaled as u16
}

/// The hue of every timestamp lies in the range that a light accepts, and
/// stays strictly below the top of it.
pub proof fn lemma_hue_in_range(timestamp: u64)
    ensures
        0 <= hue_of(timestamp) < HUE_MAX,
{
}

/// Within a day the hue never falls: a later second of the day has a hue at
/// least as large.
pub proof fn lemma_hue_monotonic(earlier: u64, later: u64)
    requires
        second_of_day(earlier) <= second_of_day(later),
    ensures
        hue_of(earlier) <= hue_of(later),
{
}

/// At each day boundary the hue starts again from zero, and one day later a
/// timestamp has the hue it has now.
pub proof fn lemma_hue_wraps_daily(timestamp: u64)
    ensures
        second_of_day(timestamp) == 0 ==> hue_of(timestamp) == 0,
        timestamp + SECONDS_PER_DAY <= u64::MAX ==> hue_of((timestamp + SECONDS_PER_DAY) as u64)
            == hue_of(timestamp),
{
}

/// Two timestamps on the same second of the day have the same hue.
pub proof fn lemma_hue_depends_on_second_only(a: u64, b: u64)
    requires
        second_of_day(a) == second_of_day(b),
    ensures
        hue_of(a) == hue_of(b),
        ColorCommand::at(a) == ColorCommand::at(b),
{
}

} // verus!
