use chromatic_hue::animator::{
    Action, Animator, Event, Phase, REPORT_PERIOD, TICK_PAUSE_MILLIS,
};
use chromatic_hue::hue::ColorCommand;
use chromatic_hue::targets::TargetSet;

fn answer(action: Action, timestamp: u64, ok: bool) -> Option<Event> {
    match action {
        Action::ReadClock => Some(Event::Clock { timestamp }),
        Action::SetLight { .. } => Some(Event::Request { ok }),
        Action::Pause { .. } => Some(Event::Paused),
        Action::Finish => None,
        Action::Abort => None,
    }
}

fn run_to_end(animator: &mut Animator, timestamp: u64, ok: bool, bound: usize) -> Vec<Action> {
    let mut seen = Vec::new();
    for _ in 0..bound {
        let action = animator.pending();
        seen.push(action);
        match answer(action, timestamp, ok) {
            Some(event) => animator.advance(event),
            None => return seen,
        }
    }
    seen
}

fn request(light: usize, hue: u16, report: bool) -> Action {
    Action::SetLight { light, command: ColorCommand { saturation: 200, hue }, report }
}

#[test]
fn constants_of_the_tick() {
    assert_eq!(TICK_PAUSE_MILLIS, 50);
    assert_eq!(REPORT_PERIOD, 30);
}

#[test]
fn three_frames_over_two_lights_at_midnight() {
    let mut animator = Animator::new(TargetSet::from_ids(vec![1, 2]), Some(3));
    let seen = run_to_end(&mut animator, 0, true, 1000);
    let tick = vec![
        Action::ReadClock,
        request(1, 0, false),
        request(2, 0, false),
        Action::Pause { millis: 50 },
    ];
    let mut expected = Vec::new();
    for _ in 0..3 {
        expected.extend(tick.iter().copied());
    }
    expected.push(Action::Finish);
    assert_eq!(seen, expected);
    assert_eq!(animator.phase(), Phase::Finished);
    assert!(animator.is_over());
    assert_eq!(animator.frames(), 3);
}

#[test]
fn frame_limit_counts_ticks_whatever_the_targets() {
    for lights in [0usize, 1, 2, 7, 100] {
        for limit in [0usize, 1, 2, 5] {
            let targets = TargetSet::from_ids((0..lights).collect());
            let mut animator = Animator::new(targets, Some(limit));
            let seen = run_to_end(&mut animator, 12345, true, 100_000);
            let clocks = seen.iter().filter(|action| **action == Action::ReadClock).count();
            let requests =
                seen.iter().filter(|action| matches!(action, Action::SetLight { .. })).count();
            let pauses =
                seen.iter().filter(|action| matches!(action, Action::Pause { .. })).count();
            assert_eq!(clocks, limit);
            assert_eq!(requests, limit * lights);
            assert_eq!(pauses, limit);
            assert_eq!(seen.last(), Some(&Action::Finish));
            assert_eq!(seen.len(), limit * (lights + 2) + 1);
            assert_eq!(animator.frames(), limit);
        }
    }
}

#[test]
fn zero_frames_finish_at_once() {
    let animator = Animator::new(TargetSet::from_ids(vec![1]), Some(0));
    assert_eq!(animator.pending(), Action::Finish);
    assert_eq!(animator.phase(), Phase::Finished);
    assert!(animator.is_over());
}

#[test]
fn run_without_limit_goes_on() {
    let mut animator = Animator::new(TargetSet::from_ids(vec![3]), None);
    for round in 0..500u64 {
        assert_eq!(animator.pending(), Action::ReadClock);
        animator.advance(Event::Clock { timestamp: 1000 + round });
        assert!(matches!(animator.pending(), Action::SetLight { light: 3, .. }));
        animator.advance(Event::Request { ok: true });
        assert_eq!(animator.pending(), Action::Pause { millis: 50 });
        animator.advance(Event::Paused);
    }
    assert!(!animator.is_over());
    assert_eq!(animator.frames(), 0);
    assert_eq!(animator.frame_limit(), None);
}

#[test]
fn requests_go_to_the_targets_in_order() {
    let mut animator = Animator::new(TargetSet::from_ids(vec![9, 4, 9, 1]), Some(1));
    let seen = run_to_end(&mut animator, 43201, true, 100);
    assert_eq!(
        seen,
        vec![
            Action::ReadClock,
            request(9, 32768, false),
            request(4, 32768, false),
            request(9, 32768, false),
            request(1, 32768, false),
            Action::Pause { millis: 50 },
            Action::Finish,
        ]
    );
}

#[test]
fn empty_target_set_ticks_without_requests() {
    let mut animator = Animator::new(TargetSet::from_ids(Vec::new()), Some(2));
    let seen = run_to_end(&mut animator, 77, true, 100);
    assert_eq!(
        seen,
        vec![
            Action::ReadClock,
            Action::Pause { millis: 50 },
            Action::ReadClock,
            Action::Pause { millis: 50 },
            Action::Finish,
        ]
    );
}

#[test]
fn command_follows_the_clock_from_tick_to_tick() {
    let mut animator = Animator::new(TargetSet::from_ids(vec![1]), Some(3));
    let mut hues = Vec::new();
    for timestamp in [1u64, 3600, 86399] {
        animator.advance(Event::Clock { timestamp });
        match animator.pending() {
            Action::SetLight { command, .. } => hues.push((command.saturation, command.hue)),
            other => panic!("unexpected action {:?}", other),
        }
        animator.advance(Event::Request { ok: true });
        animator.advance(Event::Paused);
    }
    assert_eq!(hues, vec![(200, 0), (200, 2730), (200, 65534)]);
}

#[test]
fn timestamps_are_reduced_to_the_day() {
    let mut animator = Animator::new(TargetSet::from_ids(vec![1]), None);
    animator.advance(Event::Clock { timestamp: 86400 * 5 + 43200 });
    assert_eq!(animator.pending(), request(1, 32767, true));
    assert_eq!(animator.last_reported(), 43200);
}

#[test]
fn reports_on_multiples_of_the_period() {
    for second in [30u64, 60, 90, 3600, 86370] {
        let mut animator = Animator::new(TargetSet::from_ids(vec![1]), None);
        animator.advance(Event::Clock { timestamp: second });
        assert!(matches!(animator.pending(), Action::SetLight { report: true, .. }));
        assert_eq!(animator.last_reported(), second);
    }
}

#[test]
fn does_not_report_off_the_period() {
    for second in [1u64, 29, 31, 45, 59, 86399] {
        let mut animator = Animator::new(TargetSet::from_ids(vec![1]), None);
        animator.advance(Event::Clock { timestamp: second });
        assert!(matches!(animator.pending(), Action::SetLight { report: false, .. }));
        assert_eq!(animator.last_reported(), 0);
    }
}

#[test]
fn does_not_report_on_second_zero_of_a_fresh_run() {
    let mut animator = Animator::new(TargetSet::from_ids(vec![1]), None);
    animator.advance(Event::Clock { timestamp: 0 });
    assert!(matches!(animator.pending(), Action::SetLight { report: false, .. }));
}

#[test]
fn reports_once_per_second() {
    let mut animator = Animator::new(TargetSet::from_ids(vec![1]), None);
    let mut reports = Vec::new();
    let seconds = [29u64, 30, 30, 30, 30, 31, 59, 60, 60, 61, 90];
    for second in seconds {
        animator.advance(Event::Clock { timestamp: second });
        match animator.pending() {
            Action::SetLight { report, .. } => reports.push(report),
            other => panic!("unexpected action {:?}", other),
        }
        animator.advance(Event::Request { ok: true });
        animator.advance(Event::Paused);
    }
    assert_eq!(
        reports,
        vec![false, true, false, false, false, false, false, true, false, false, true]
    );
}

#[test]
fn reports_again_after_the_day_wraps() {
    let mut animator = Animator::new(TargetSet::from_ids(vec![1]), None);
    let mut reports = Vec::new();
    for second in [86370u64, 86399, 86400, 86400 + 30] {
        animator.advance(Event::Clock { timestamp: second });
        match animator.pending() {
            Action::SetLight { report, .. } => reports.push(report),
            other => panic!("unexpected action {:?}", other),
        }
        animator.advance(Event::Request { ok: true });
        animator.advance(Event::Paused);
    }
    assert_eq!(reports, vec![true, false, true, true]);
}

#[test]
fn report_marker_moves_without_targets() {
    let mut animator = Animator::new(TargetSet::from_ids(Vec::new()), None);
    animator.advance(Event::Clock { timestamp: 60 });
    assert_eq!(animator.last_reported(), 60);
    assert_eq!(animator.pending(), Action::Pause { millis: 50 });
}

#[test]
fn failure_on_a_reporting_tick_is_passed_over() {
    let mut animator = Animator::new(TargetSet::from_ids(vec![1, 2]), Some(1));
    let seen = run_to_end(&mut animator, 30, false, 100);
    assert_eq!(
        seen,
        vec![
            Action::ReadClock,
            request(1, 22, true),
            request(2, 22, true),
            Action::Pause { millis: 50 },
            Action::Finish,
        ]
    );
}

#[test]
fn failure_on_another_tick_is_a_fault() {
    let mut animator = Animator::new(TargetSet::from_ids(vec![1, 2]), Some(3));
    let seen = run_to_end(&mut animator, 31, false, 100);
    assert_eq!(seen, vec![Action::ReadClock, request(1, 23, false), Action::Abort]);
    assert_eq!(animator.phase(), Phase::Faulted);
    assert!(animator.is_over());
}

#[test]
fn fault_on_a_later_light_stops_the_tick() {
    let mut animator = Animator::new(TargetSet::from_ids(vec![1, 2, 3]), None);
    animator.advance(Event::Clock { timestamp: 5 });
    animator.advance(Event::Request { ok: true });
    assert!(matches!(animator.pending(), Action::SetLight { light: 2, .. }));
    animator.advance(Event::Request { ok: false });
    assert_eq!(animator.pending(), Action::Abort);
}

#[test]
fn finished_and_faulted_runs_stay_over() {
    let mut finished = Animator::new(TargetSet::from_ids(vec![1]), Some(0));
    let mut faulted = Animator::new(TargetSet::from_ids(vec![1]), None);
    faulted.advance(Event::Clock { timestamp: 1 });
    faulted.advance(Event::Request { ok: false });
    for event in [
        Event::Clock { timestamp: 30 },
        Event::Request { ok: true },
        Event::Request { ok: false },
        Event::Paused,
    ] {
        finished.advance(event);
        faulted.advance(event);
        assert_eq!(finished.pending(), Action::Finish);
        assert_eq!(faulted.pending(), Action::Abort);
    }
}

#[test]
fn events_that_answer_nothing_change_nothing() {
    let mut animator = Animator::new(TargetSet::from_ids(vec![1, 2]), Some(2));
    animator.advance(Event::Paused);
    animator.advance(Event::Request { ok: false });
    assert_eq!(animator.pending(), Action::ReadClock);
    assert_eq!(animator.frames(), 0);
    animator.advance(Event::Clock { timestamp: 10 });
    animator.advance(Event::Clock { timestamp: 5000 });
    animator.advance(Event::Paused);
    assert_eq!(animator.pending(), request(1, 7, false));
    assert_eq!(animator.frames(), 1);
    animator.advance(Event::Request { ok: true });
    animator.advance(Event::Request { ok: true });
    animator.advance(Event::Request { ok: true });
    animator.advance(Event::Clock { timestamp: 1 });
    assert_eq!(animator.pending(), Action::Pause { millis: 50 });
}

#[test]
fn step_returns_the_next_action() {
    let mut animator = Animator::new(TargetSet::from_ids(vec![8]), Some(1));
    assert_eq!(animator.step(Event::Clock { timestamp: 0 }), request(8, 0, false));
    assert_eq!(animator.step(Event::Request { ok: true }), Action::Pause { millis: 50 });
    assert_eq!(animator.step(Event::Paused), Action::Finish);
}

#[test]
fn accessors_show_the_run() {
    let animator = Animator::new(TargetSet::from_ids(vec![1, 2]), Some(7));
    assert_eq!(animator.targets().ids(), &[1, 2]);
    assert_eq!(animator.frame_limit(), Some(7));
    assert_eq!(animator.frames(), 0);
    assert_eq!(animator.last_reported(), 0);
    assert_eq!(animator.phase(), Phase::AwaitingClock);
    assert!(!animator.is_over());
}

#[test]
fn phase_follows_the_tick() {
    let mut animator = Animator::new(TargetSet::from_ids(vec![1, 2]), Some(1));
    animator.advance(Event::Clock { timestamp: 60 });
    let command = ColorCommand { saturation: 200, hue: 45 };
    assert_eq!(animator.phase(), Phase::Sending { index: 0, command, report: true });
    animator.advance(Event::Request { ok: true });
    assert_eq!(animator.phase(), Phase::Sending { index: 1, command, report: true });
    animator.advance(Event::Request { ok: true });
    assert_eq!(animator.phase(), Phase::AwaitingPause);
    animator.advance(Event::Paused);
    assert_eq!(animator.phase(), Phase::Finished);
}

#[test]
fn largest_frame_limit_is_accepted() {
    let mut animator = Animator::new(TargetSet::from_ids(Vec::new()), Some(usize::MAX));
    for _ in 0..10 {
        animator.advance(Event::Clock { timestamp: 1 });
        animator.advance(Event::Paused);
    }
    assert_eq!(animator.frames(), 10);
    assert_eq!(animator.pending(), Action::ReadClock);
}
