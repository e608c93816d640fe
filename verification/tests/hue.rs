use chromatic_hue::clock::{day_second_of_reading, time_since_midnight, ClockError};
use chromatic_hue::hue::{
    hue_at, seconds_since_midnight, ColorCommand, HUE_MAX, SATURATION, SECONDS_PER_DAY,
};

fn expected_hue(timestamp: u64) -> u64 {
    (timestamp % 86400) * 65535 / 86400
}

#[test]
fn seconds_since_midnight_wraps_at_day_boundary() {
    assert_eq!(seconds_since_midnight(0), 0);
    assert_eq!(seconds_since_midnight(1), 1);
    assert_eq!(seconds_since_midnight(86399), 86399);
    assert_eq!(seconds_since_midnight(86400), 0);
    assert_eq!(seconds_since_midnight(86400 * 3 + 61), 61);
    assert_eq!(seconds_since_midnight(u64::MAX), u64::MAX % 86400);
}

#[test]
fn hue_is_zero_at_midnight() {
    assert_eq!(hue_at(0), 0);
    assert_eq!(hue_at(86400), 0);
    assert_eq!(hue_at(86400 * 19000), 0);
}

#[test]
fn hue_has_exact_values() {
    assert_eq!(hue_at(1), 0);
    assert_eq!(hue_at(2), 1);
    assert_eq!(hue_at(30), 22);
    assert_eq!(hue_at(3600), 2730);
    assert_eq!(hue_at(21600), 16383);
    assert_eq!(hue_at(43200), 32767);
    assert_eq!(hue_at(64800), 49151);
    assert_eq!(hue_at(86399), 65534);
}

#[test]
fn hue_follows_the_formula_on_every_second_of_a_day() {
    for second in 0..86400u64 {
        assert_eq!(hue_at(second) as u64, expected_hue(second));
    }
}

#[test]
fn hue_follows_the_formula_on_large_timestamps() {
    let samples = [
        1_700_000_000u64,
        1_700_000_000 + 86399,
        4_102_444_800,
        u64::MAX,
        u64::MAX - 86400,
        u64::MAX / 2,
    ];
    for timestamp in samples {
        assert_eq!(hue_at(timestamp) as u64, expected_hue(timestamp));
    }
}

#[test]
fn hue_never_falls_within_a_day() {
    let mut previous = hue_at(0);
    for second in 1..86400u64 {
        let current = hue_at(second);
        assert!(previous <= current);
        previous = current;
    }
}

#[test]
fn hue_wraps_at_the_day_boundary() {
    let day_start = 86400 * 12345u64;
    assert_eq!(hue_at(day_start - 1), 65534);
    assert_eq!(hue_at(day_start), 0);
}

#[test]
fn hue_repeats_every_day() {
    for second in [0u64, 1, 29, 30, 4321, 43200, 86399] {
        assert_eq!(hue_at(second), hue_at(second + 86400));
        assert_eq!(hue_at(second), hue_at(second + 86400 * 20000));
    }
}

#[test]
fn hue_stays_within_range() {
    for second in 0..86400u64 {
        assert!((hue_at(second) as u64) < HUE_MAX);
    }
    assert!(hue_at(u64::MAX) as u64 <= HUE_MAX);
}

#[test]
fn constants_have_their_values() {
    assert_eq!(SECONDS_PER_DAY, 86400);
    assert_eq!(HUE_MAX, 65535);
    assert_eq!(SATURATION, 200);
}

#[test]
fn command_carries_fixed_saturation_and_hue_of_the_moment() {
    let midnight = ColorCommand::for_time(0);
    assert_eq!(midnight, ColorCommand { saturation: 200, hue: 0 });
    let noon = ColorCommand::for_time(43200);
    assert_eq!(noon, ColorCommand { saturation: 200, hue: 32767 });
    let late = ColorCommand::for_time(86400 * 7 + 86399);
    assert_eq!(late.saturation, 200);
    assert_eq!(late.hue, 65534);
}

#[test]
fn commands_on_the_same_second_of_the_day_are_equal() {
    assert_eq!(ColorCommand::for_time(100), ColorCommand::for_time(86400 + 100));
    assert_ne!(ColorCommand::for_time(100), ColorCommand::for_time(200));
}

#[test]
fn clock_reading_is_within_the_day() {
    let reading = time_since_midnight();
    assert!(matches!(reading, Ok(second) if second < 86400));
}

#[test]
fn clock_readings_follow_the_clock() {
    let before = std::time::SystemTime::now()
        .duration_since(std::time::UNIX_EPOCH)
        .unwrap()
        .as_secs();
    let reading = time_since_midnight().unwrap();
    let after = std::time::SystemTime::now()
        .duration_since(std::time::UNIX_EPOCH)
        .unwrap()
        .as_secs();
    let possible = (before..=after).any(|moment| moment % 86400 == reading);
    assert!(possible);
}

#[test]
fn reading_before_the_epoch_is_an_error() {
    assert_eq!(day_second_of_reading(None), Err(ClockError::BeforeEpoch));
}

#[test]
fn reading_is_reduced_to_the_day() {
    assert_eq!(day_second_of_reading(Some(0)), Ok(0));
    assert_eq!(day_second_of_reading(Some(86399)), Ok(86399));
    assert_eq!(day_second_of_reading(Some(86400 * 3 + 5)), Ok(5));
    assert_eq!(day_second_of_reading(Some(u64::MAX)), Ok(u64::MAX % 86400));
}

#[test]
fn bridge_command_sets_saturation_and_hue_only() {
    let command = ColorCommand { saturation: 200, hue: 32767 }.to_bridge();
    assert_eq!(command.sat, Some(200));
    assert_eq!(command.hue, Some(32767));
    assert_eq!(command.on, None);
    assert_eq!(command.bri, None);
    assert_eq!(command.ct, None);
    assert_eq!(command.xy, None);
    assert_eq!(command.transitiontime, None);
    assert_eq!(command.alert, None);
    assert_eq!(command.scene, None);
}

#[test]
fn bridge_command_follows_the_command() {
    for (saturation, hue) in [(0u8, 0u16), (1, 2), (200, 65534), (255, 65535)] {
        let command = ColorCommand { saturation, hue }.to_bridge();
        assert_eq!(command.sat, Some(saturation));
        assert_eq!(command.hue, Some(hue));
    }
}

#[test]
fn bridge_command_of_the_moment() {
    let command = ColorCommand::for_time(86400 + 3600).to_bridge();
    assert_eq!(command.sat, Some(200));
    assert_eq!(command.hue, Some(2730));
}
