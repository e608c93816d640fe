//! Whole runs of the animator: what a caller that does as it is asked sees
//! from the first clock reading to the end.

use crate::animator::{Action, AnimatorState, Event, Phase, REPORT_PERIOD, TICK_PAUSE_MILLIS};
use crate::hue::{second_of_day, ColorCommand};
use crate::targets::MAX_TARGETS;
use vstd::prelude::*;

verus! {

impl AnimatorState {
    /// The state after a series of events.
    pub open spec fn run(self, events: Seq<Event>) -> AnimatorState
        decreases events.len(),
    {
        if events.len() == 0 {
            self
        } else {
            self.advance(events.first()).run(events.drop_first())
        }
    }

    /// What the animator asks for along a series of events: one action before
    /// each event.
    pub open spec fn actions(self, events: Seq<Event>) -> Seq<Action>
        decreases events.len(),
    {
        if events.len() == 0 {
            Seq::empty()
        } else {
            seq![self.pending()] + self.advance(events.first()).actions(events.drop_first())
        }
    }

    /// Whether a tick that begins in this state at `timestamp` reports.
    pub open spec fn tick_reports(self, timestamp: u64) -> bool {
        self.reports_at(second_of_day(timestamp) as u64)
    }

    /// The state after a whole tick that begins at `timestamp` and meets no
    /// fault.
    pub open spec fn tick(self, timestamp: u64) -> AnimatorState {
        (AnimatorState { phase: Phase::AwaitingPause, ..self.begin_tick(timestamp) }).after_pause()
    }

    /// The state after one whole tick for each of `times`, none of which
    /// meets a fault.
    pub open spec fn ticks(self, times: Seq<u64>) -> AnimatorState
        decreases times.len(),
    {
        if times.len() == 0 {
            self
        } else {
            self.ticks(times.drop_last()).tick(times.last())
        }
    }
}

/// The events of one tick: the clock reading, the outcome of one request for
/// each target, and the end of the pause.
pub open spec fn tick_events(timestamp: u64, outcomes: Seq<bool>) -> Seq<Event> {
    seq![Event::Clock { timestamp }] + request_events(outcomes) + seq![Event::Paused]
}

/// The outcomes of a series of requests, as events.
pub open spec fn request_events(outcomes: Seq<bool>) -> Seq<Event> {
    outcomes.map_values(|ok: bool| Event::Request { ok })
}

/// One request for each of `targets`, in order, all with the same command.
pub open spec fn request_actions(targets: Seq<usize>, command: ColorCommand, report: bool) -> Seq<
    Action,
> {
    targets.map_values(|light: usize| Action::SetLight { light, command, report })
}

/// What one tick asks for: the clock, one request for each target in order,
/// and the pause.
pub open spec fn tick_actions(targets: Seq<usize>, command: ColorCommand, report: bool) -> Seq<
    Action,
> {
    seq![Action::ReadClock] + request_actions(targets, command, report) + seq![
        Action::Pause { millis: TICK_PAUSE_MILLIS },
    ]
}

/// A run over two series of events, one after the other, is the run over the
/// second from where the run over the first ends, and asks for what the two
/// ask for.
pub proof fn lemma_run_concat(state: AnimatorState, first: Seq<Event>, second: Seq<Event>)
    ensures
        state.run(first + second) == state.run(first).run(second),
        state.actions(first + second) == state.actions(first) + state.run(first).actions(second),
    decreases first.len(),
{
    if first.len() == 0 {
        assert(first + second =~= second);
        assert(state.actions(first) + state.run(first).actions(second) =~= state.actions(second));
    } else {
        let next = state.advance(first.first());
        assert((first + second).first() == first.first());
        assert((first + second).drop_first() =~= first.drop_first() + second);
        lemma_run_concat(next, first.drop_first(), second);
        assert(state.actions(first + second) =~= state.actions(first) + state.run(first).actions(
            second,
        ));
    }
}

/// A run over one event is one step, and asks for one action.
pub proof fn lemma_run_single(state: AnimatorState, event: Event)
    ensures
        state.run(seq![event]) == state.advance(event),
        state.actions(seq![event]) == seq![state.pending()],
{
    let events = seq![event];
    let next = state.advance(event);
    assert(events.first() == event);
    assert(events.drop_first() =~= Seq::<Event>::empty());
    assert(next.run(events.drop_first()) == next);
    assert(next.actions(events.drop_first()) =~= Seq::<Action>::empty());
    assert(state.actions(seq![event]) =~= seq![state.pending()]);
}

/// From a request under way to the pause: if no request fails, or the tick
/// reports, the animator asks for one request for each target that is left,
/// in order, and then stands at the pause.
pub proof fn lemma_requests(state: AnimatorState, outcomes: Seq<bool>)
    requires
        state.wf(),
        state.phase is Sending,
        outcomes.len() == state.targets.len() - state.phase->index,
        forall|i: int| 0 <= i < outcomes.len() ==> outcomes[i] || state.phase->report,
    ensures
        state.run(request_events(outcomes)) == (AnimatorState {
            phase: Phase::AwaitingPause,
            ..state
        }),
        state.actions(request_events(outcomes)) == request_actions(
            state.targets.skip(state.phase->index as int),
            state.phase->command,
            state.phase->report,
        ),
    decreases outcomes.len(),
{
    let index = state.phase->index as int;
    let events = request_events(outcomes);
    let next = state.advance(events.first());
    let asked = request_actions(
        state.targets.skip(index),
        state.phase->command,
        state.phase->report,
    );
    assert(outcomes[0] || state.phase->report);
    assert(events.drop_first() =~= request_events(outcomes.drop_first()));
    assert(asked[0] == state.pending());
    if index + 1 < state.targets.len() {
        lemma_requests(next, outcomes.drop_first());
        assert(asked.drop_first() =~= request_actions(
            state.targets.skip(index + 1),
            state.phase->command,
            state.phase->report,
        ));
        assert(state.actions(events) =~= asked);
    } else {
        assert(events =~= seq![Event::Request { ok: outcomes[0] }]);
        lemma_run_single(state, Event::Request { ok: outcomes[0] });
        assert(asked =~= seq![state.pending()]);
    }
}

/// One tick. From the start of a tick, if no request fails or the tick
/// reports, the animator asks for the clock, then for one request for each
/// target in order, each with the command of the moment, then for the pause;
/// after that the tick is counted and the next one is about to begin, or the
/// run is over.
pub proof fn lemma_tick(state: AnimatorState, timestamp: u64, outcomes: Seq<bool>)
    requires
        state.wf(),
        state.phase == Phase::AwaitingClock,
        outcomes.len() == state.targets.len(),
        forall|i: int| 0 <= i < outcomes.len() ==> outcomes[i] || state.tick_reports(timestamp),
    ensures
        state.run(tick_events(timestamp, outcomes)) == state.tick(timestamp),
        state.actions(tick_events(timestamp, outcomes)) == tick_actions(
            state.targets,
            ColorCommand::at(timestamp),
            state.tick_reports(timestamp),
        ),
        state.tick(timestamp).wf(),
{
    let clock = seq![Event::Clock { timestamp }];
    let requests = request_events(outcomes);
    let pause = seq![Event::Paused];
    let begun = state.begin_tick(timestamp);
    let served = AnimatorState { phase: Phase::AwaitingPause, ..begun };
    lemma_run_single(state, Event::Clock { timestamp });
    assert(begun.run(requests) == served && begun.actions(requests) =~= request_actions(
        state.targets,
        ColorCommand::at(timestamp),
        state.tick_reports(timestamp),
    )) by {
        if state.targets.len() == 0 {
            assert(requests.len() == 0);
        } else {
            lemma_requests(begun, outcomes);
            assert(state.targets.skip(0) =~= state.targets);
        }
    }
    lemma_run_single(served, Event::Paused);
    lemma_run_concat(state, clock, requests);
    lemma_run_concat(state, clock + requests, pause);
}

/// The events of a series of ticks, one tick after the other: tick `i` begins
/// at `times[i]`, and `outcomes[i]` holds the outcomes of its requests.
pub open spec fn run_events(times: Seq<u64>, outcomes: Seq<Seq<bool>>) -> Seq<Event>
    decreases times.len(),
{
    if times.len() == 0 {
        Seq::empty()
    } else {
        run_events(times.drop_last(), outcomes.drop_last()) + tick_events(
            times.last(),
            outcomes.last(),
        )
    }
}

/// What a series of ticks that begins in `state` asks for, one tick after the
/// other.
pub open spec fn run_actions(state: AnimatorState, times: Seq<u64>) -> Seq<Action>
    decreases times.len(),
{
    if times.len() == 0 {
        Seq::empty()
    } else {
        run_actions(state, times.drop_last()) + tick_actions(
            state.targets,
            ColorCommand::at(times.last()),
            state.ticks(times.drop_last()).tick_reports(times.last()),
        )
    }
}

/// Whether a series of ticks that begins in `state` meets no fault: there is
/// one outcome for each request, and each request succeeds or belongs to a
/// tick that reports.
pub open spec fn faultless(state: AnimatorState, times: Seq<u64>, outcomes: Seq<Seq<bool>>) -> bool {
    &&& outcomes.len() == times.len()
    &&& forall|i: int|
        0 <= i < times.len() ==> (#[trigger] outcomes[i]).len() == state.targets.len()
    &&& forall|i: int, j: int|
        0 <= i < times.len() && 0 <= j < outcomes[i].len() ==> #[trigger] outcomes[i][j]
            || state.ticks(times.take(i)).tick_reports(times[i])
}

/// Number of requests among a series of actions.
pub open spec fn count_requests(actions: Seq<Action>) -> nat
    decreases actions.len(),
{
    if actions.len() == 0 {
        0
    } else {
        count_requests(actions.drop_last()) + (if actions.last() is SetLight {
            1nat
        } else {
            0nat
        })
    }
}

/// Whole ticks from the start of a tick: as long as the frame limit allows
/// them, each tick is counted, the targets and the limit stay, and after the
/// last tick that the limit allows the run is over.
pub proof fn lemma_ticks(state: AnimatorState, times: Seq<u64>)
    requires
        state.wf(),
        state.phase == Phase::AwaitingClock,
        state.frame_limit matches Some(limit) ==> state.frames + times.len() <= limit,
    ensures
        state.ticks(times).wf(),
        state.ticks(times).targets == state.targets,
        state.ticks(times).frame_limit == state.frame_limit,
        state.ticks(times).frames == (if state.frame_limit is Some {
            state.frames + times.len()
        } else {
            0
        }),
        state.ticks(times).phase == (if state.frame_limit == Some(state.ticks(times).frames) {
            Phase::Finished
        } else {
            Phase::AwaitingClock
        }),
    decreases times.len(),
{
    if times.len() > 0 {
        lemma_ticks(state, times.drop_last());
    }
}

/// A series of ticks without fault, event by event: the animator asks for
/// what each tick asks for, one tick after the other, and ends where the
/// ticks end.
pub proof fn lemma_ticks_run(state: AnimatorState, times: Seq<u64>, outcomes: Seq<Seq<bool>>)
    requires
        state.wf(),
        state.phase == Phase::AwaitingClock,
        state.frame_limit matches Some(limit) ==> state.frames + times.len() <= limit,
        faultless(state, times, outcomes),
    ensures
        state.run(run_events(times, outcomes)) == state.ticks(times),
        state.actions(run_events(times, outcomes)) == run_actions(state, times),
    decreases times.len(),
{
    if times.len() > 0 {
        let last = times.len() - 1;
        let earlier = times.drop_last();
        let earlier_outcomes = outcomes.drop_last();
        assert(faultless(state, earlier, earlier_outcomes)) by {
            assert forall|i: int| 0 <= i < earlier.len() implies (#[trigger] earlier_outcomes[i]).len()
                == state.targets.len() by {
                assert(earlier_outcomes[i] == outcomes[i]);
            }
            assert forall|i: int, j: int|
                0 <= i < earlier.len() && 0 <= j < earlier_outcomes[i].len() implies #[trigger] earlier_outcomes[i][j]
                || state.ticks(earlier.take(i)).tick_reports(earlier[i]) by {
                assert(earlier_outcomes[i] == outcomes[i]);
                assert(earlier.take(i) =~= times.take(i));
                assert(outcomes[i][j] || state.ticks(times.take(i)).tick_reports(times[i]));
            }
        }
        lemma_ticks_run(state, earlier, earlier_outcomes);
        lemma_ticks(state, earlier);
        let middle = state.ticks(earlier);
        assert(times.take(last) =~= earlier);
        assert forall|j: int| 0 <= j < outcomes.last().len() implies outcomes.last()[j]
            || middle.tick_reports(times.last()) by {
            assert(outcomes[last][j] || state.ticks(times.take(last)).tick_reports(times[last]));
        }
        lemma_tick(middle, times.last(), outcomes.last());
        lemma_run_concat(
            state,
            run_events(earlier, earlier_outcomes),
            tick_events(times.last(), outcomes.last()),
        );
    }
}

/// The requests of two series of actions, one after the other, are those of
/// the first and those of the second.
pub proof fn lemma_count_requests_concat(first: Seq<Action>, second: Seq<Action>)
    ensures
        count_requests(first + second) == count_requests(first) + count_requests(second),
    decreases second.len(),
{
    if second.len() == 0 {
        assert(first + second =~= first);
    } else {
        assert((first + second).drop_last() =~= first + second.drop_last());
        assert((first + second).last() == second.last());
        lemma_count_requests_concat(first, second.drop_last());
    }
}

/// One tick asks for as many requests as there are targets.
pub proof fn lemma_count_requests_tick(targets: Seq<usize>, command: ColorCommand, report: bool)
    ensures
        count_requests(request_actions(targets, command, report)) == targets.len(),
        count_requests(tick_actions(targets, command, report)) == targets.len(),
    decreases targets.len(),
{
    let requests = request_actions(targets, command, report);
    if targets.len() > 0 {
        assert(requests.drop_last() =~= request_actions(targets.drop_last(), command, report));
        lemma_count_requests_tick(targets.drop_last(), command, report);
    }
    let clock = seq![Action::ReadClock];
    let pause = seq![Action::Pause { millis: TICK_PAUSE_MILLIS }];
    assert(count_requests(Seq::<Action>::empty()) == 0);
    assert(count_requests(clock) == 0) by {
        assert(clock.drop_last() =~= Seq::<Action>::empty());
    }
    assert(count_requests(pause) == 0) by {
        assert(pause.drop_last() =~= Seq::<Action>::empty());
    }
    lemma_count_requests_concat(clock, requests);
    lemma_count_requests_concat(clock + requests, pause);
}

/// A series of ticks asks for one request for each target in each tick.
pub proof fn lemma_count_requests_run(state: AnimatorState, times: Seq<u64>)
    ensures
        count_requests(run_actions(state, times)) == times.len() * state.targets.len(),
    decreases times.len(),
{
    if times.len() > 0 {
        let earlier = times.drop_last();
        let command = ColorCommand::at(times.last());
        let report = state.ticks(earlier).tick_reports(times.last());
        lemma_count_requests_run(state, earlier);
        lemma_count_requests_tick(state.targets, command, report);
        lemma_count_requests_concat(
            run_actions(state, earlier),
            tick_actions(state.targets, command, report),
        );
        let n = earlier.len();
        let m = state.targets.len();
        assert((n + 1) * m == n * m + m) by (nonlinear_arith);
    }
}

/// A run that is over stays over: whatever comes in, the state stays and the
/// animator asks for nothing else.
pub proof fn lemma_over_stays_over(state: AnimatorState, events: Seq<Event>)
    requires
        state.phase == Phase::Finished || state.phase == Phase::Faulted,
    ensures
        state.run(events) == state,
        state.actions(events).len() == events.len(),
        forall|i: int| 0 <= i < events.len() ==> state.actions(events)[i] == state.pending(),
    decreases events.len(),
{
    if events.len() > 0 {
        lemma_over_stays_over(state, events.drop_first());
        assert forall|i: int| 0 <= i < events.len() implies state.actions(events)[i]
            == state.pending() by {
            if i > 0 {
                assert(state.actions(events)[i] == state.actions(events.drop_first())[i - 1]);
            }
        }
    }
}

/// A frame limit is exact. A run under a limit whose ticks meet no fault
/// asks for that many ticks, one request for each target in each, and then
/// for the end of the run; before the last tick is through it does not ask
/// for the end. This holds whatever the targets are, and without any.
pub proof fn lemma_frame_limit_is_exact(
    targets: Seq<usize>,
    limit: usize,
    times: Seq<u64>,
    outcomes: Seq<Seq<bool>>,
)
    requires
        targets.len() <= MAX_TARGETS,
        times.len() == limit,
        faultless(AnimatorState::initial(targets, Some(limit)), times, outcomes),
    ensures
        ({
            let start = AnimatorState::initial(targets, Some(limit));
            let events = run_events(times, outcomes);
            &&& start.actions(events) == run_actions(start, times)
            &&& count_requests(start.actions(events)) == limit * targets.len()
            &&& start.run(events).phase == Phase::Finished
            &&& start.run(events).pending() == Action::Finish
            &&& forall|k: int|
                0 <= k < limit ==> (#[trigger] start.run(
                    run_events(times.take(k), outcomes.take(k)),
                )).pending() == Action::ReadClock
        }),
{
    let start = AnimatorState::initial(targets, Some(limit));
    let events = run_events(times, outcomes);
    lemma_count_requests_run(start, times);
    if limit > 0 {
        lemma_ticks(start, times);
        lemma_ticks_run(start, times, outcomes);
        assert forall|k: int| 0 <= k < limit implies (#[trigger] start.run(
            run_events(times.take(k), outcomes.take(k)),
        )).pending() == Action::ReadClock by {
            let some_times = times.take(k);
            let some_outcomes = outcomes.take(k);
            assert(faultless(start, some_times, some_outcomes)) by {
                assert forall|i: int| 0 <= i < some_times.len() implies (
                #[trigger] some_outcomes[i]).len() == start.targets.len() by {
                    assert(some_outcomes[i] == outcomes[i]);
                }
                assert forall|i: int, j: int|
                    0 <= i < some_times.len() && 0 <= j < some_outcomes[i].len() implies #[trigger] some_outcomes[i][j]
                    || start.ticks(some_times.take(i)).tick_reports(some_times[i]) by {
                    assert(some_outcomes[i] == outcomes[i]);
                    assert(some_times.take(i) =~= times.take(i));
                    assert(outcomes[i][j] || start.ticks(times.take(i)).tick_reports(times[i]));
                }
            }
            lemma_ticks(start, some_times);
            lemma_ticks_run(start, some_times, some_outcomes);
        }
    }
}

/// A tick reports only on a second of the day that is a multiple of
/// `REPORT_PERIOD`, and a tick that reports notes its second.
pub proof fn lemma_reports_on_period(state: AnimatorState, timestamp: u64)
    ensures
        state.tick_reports(timestamp) ==> second_of_day(timestamp) % (REPORT_PERIOD as int) == 0,
        state.tick_reports(timestamp) ==> state.tick(timestamp).last_reported == second_of_day(
            timestamp,
        ),
        !state.tick_reports(timestamp) ==> state.tick(timestamp).last_reported
            == state.last_reported,
        !state.tick(timestamp).tick_reports(timestamp),
{
}

/// After a tick that reports, the second of that tick stays noted as long as
/// the ticks that follow fall on the same second.
pub proof fn lemma_report_is_remembered(state: AnimatorState, times: Seq<u64>, i: int, k: int)
    requires
        0 <= i < k <= times.len(),
        state.ticks(times.take(i)).tick_reports(times[i]),
        forall|m: int| i < m < k ==> second_of_day(#[trigger] times[m]) == second_of_day(times[i]),
    ensures
        state.ticks(times.take(k)).last_reported == second_of_day(times[i]),
    decreases k - i,
{
    assert(times.take(k).drop_last() =~= times.take(k - 1));
    assert(times.take(k).last() == times[k - 1]);
    if k - 1 > i {
        lemma_report_is_remembered(state, times, i, k - 1);
    }
}

/// No second is reported twice while the clock does not go back: of two
/// ticks on the same second of the day, with the seconds of the ticks from
/// the one to the other in rising order, at most one reports. So a second
/// is reported once however many ticks fall on it.
pub proof fn lemma_one_report_per_second(state: AnimatorState, times: Seq<u64>, i: int, j: int)
    requires
        0 <= i < j < times.len(),
        second_of_day(times[i]) == second_of_day(times[j]),
        forall|a: int, b: int|
            i <= a <= b <= j ==> second_of_day(#[trigger] times[a]) <= second_of_day(
                #[trigger] times[b],
            ),
    ensures
        !(state.ticks(times.take(i)).tick_reports(times[i]) && state.ticks(
            times.take(j),
        ).tick_reports(times[j])),
{
    if state.ticks(times.take(i)).tick_reports(times[i]) {
        assert forall|m: int| i < m < j implies second_of_day(#[trigger] times[m]) == second_of_day(
            times[i],
        ) by {
            assert(second_of_day(times[i]) <= second_of_day(times[m]));
            assert(second_of_day(times[m]) <= second_of_day(times[j]));
        }
        lemma_report_is_remembered(state, times, i, j);
    }
}

} // verus!
