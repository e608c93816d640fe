//! The animator: one run of the colour cycle over a set of lights.
//!
//! The animator decides and its caller acts. It names the next thing to do
//! (`Animator::pending`): read the clock, send a command to a light, pause, or
//! end the run. The caller does it and reports back (`Animator::advance`).
//! One tick is a clock reading, one request to each target in order, and a
//! pause.
//!
//! Some ticks are reporting ticks: those whose second of the day is a multiple
//! of `REPORT_PERIOD` and differs from the second of the last reporting tick.
//! On a reporting tick the caller logs the outcome of each request and the run
//! goes on whatever it was. On any other tick a failed request ends the run in
//! a fault.

use crate::hue::{
    second_of_day, seconds_since_midnight, ColorCommand, HUE_MAX, SATURATION, SECONDS_PER_DAY,
};
use crate::targets::{TargetSet, MAX_TARGETS};
use vstd::prelude::*;

verus! {

/// Pause between two ticks, in milliseconds.
pub const TICK_PAUSE_MILLIS: u64 = 50;

/// Distance, in seconds, between the seconds of the day on which a tick may
/// report.
pub const REPORT_PERIOD: u64 = 30;

/// What the animator asks its caller to do next.
#[derive(Clone, Copy, Debug, PartialEq, Eq, Structural)]
pub enum Action {
    /// Read the clock, and answer with `Event::Clock`.
    ReadClock,
    /// Send `command` to `light`, and answer with `Event::Request`. Where
    /// `report` holds, log the outcome of the request first.
    SetLight { light: usize, command: ColorCommand, report: bool },
    /// Wait for `millis` milliseconds, and answer with `Event::Paused`.
    Pause { millis: u64 },
    /// End the run: the frame limit is used up.
    Finish,
    /// End the run in a fault: a request failed on a tick that does not report.
    Abort,
}

/// What the caller reports back to the animator.
#[derive(Clone, Copy, Debug, PartialEq, Eq, Structural)]
pub enum Event {
    /// The clock was read: `timestamp` is in seconds, from the epoch or from
    /// any day boundary.
    Clock { timestamp: u64 },
    /// The request to a light is over; `ok` says whether it succeeded.
    Request { ok: bool },
    /// The pause is over.
    Paused,
}

/// Where the animator stands within a run.
#[derive(Clone, Copy, Debug, PartialEq, Eq, Structural)]
pub enum Phase {
    /// A tick is about to begin: the clock reading is awaited.
    AwaitingClock,
    /// The request to the target at `index` is under way. `command` and
    /// `report` are those of the tick.
    Sending { index: usize, command: ColorCommand, report: bool },
    /// Every target of the tick was served: the end of the pause is awaited.
    AwaitingPause,
    /// The run is over: the frame limit is used up.
    Finished,
    /// The run is over: a request failed on a tick that does not report.
    Faulted,
}

/// The animator as a mathematical value.
pub struct AnimatorState {
    /// The lights of the run, in the order in which they are served.
    pub targets: Seq<usize>,
    /// Number of ticks after which the run ends; none for a run without end.
    pub frame_limit: Option<usize>,
    /// Number of ticks begun so far. Counted only under a frame limit.
    pub frames: usize,
    /// Second of the day of the last reporting tick; zero before the first.
    pub last_reported: u64,
    /// Where the run stands, and with it what the animator asks for.
    pub phase: Phase,
}

impl AnimatorState {
    /// The state in which a run begins.
    pub open spec fn initial(targets: Seq<usize>, frame_limit: Option<usize>) -> AnimatorState {
        AnimatorState {
            targets,
            frame_limit,
            frames: 0,
            last_reported: 0,
            phase: if frame_limit == Some(0usize) {
                Phase::Finished
            } else {
                Phase::AwaitingClock
            },
        }
    }

    /// What holds of every state that a run passes through.
    pub open spec fn wf(self) -> bool {
        &&& self.targets.len() <= MAX_TARGETS
        &&& self.last_reported < SECONDS_PER_DAY
        &&& match self.frame_limit {
            Some(limit) => self.frames <= limit,
            None => self.frames == 0,
        }
        &&& match self.phase {
            Phase::AwaitingClock => self.frame_limit != Some(self.frames),
            Phase::Sending { index, command, .. } => {
                &&& index < self.targets.len()
                &&& command.saturation == SATURATION
                &&& command.hue < HUE_MAX
            },
            Phase::AwaitingPause => true,
            Phase::Finished => self.frame_limit == Some(self.frames),
            Phase::Faulted => true,
        }
    }

    /// Whether a tick on `second` of the day reports: the second is a
    /// multiple of `REPORT_PERIOD` and differs from that of the last
    /// reporting tick.
    pub open spec fn reports_at(self, second: u64) -> bool {
        second % REPORT_PERIOD == 0 && second != self.last_reported
    }

    /// What the animator asks for in this state.
    pub open spec fn pending(self) -> Action {
        match self.phase {
            Phase::AwaitingClock => Action::ReadClock,
            Phase::Sending { index, command, report } => Action::SetLight {
                light: self.targets[index as int],
                command,
                report,
            },
            Phase::AwaitingPause => Action::Pause { millis: TICK_PAUSE_MILLIS },
            Phase::Finished => Action::Finish,
            Phase::Faulted => Action::Abort,
        }
    }

    /// The state after the clock reading that begins a tick: the tick is
    /// counted, the second of a reporting tick is noted, and the first target
    /// is up. Without targets the tick goes straight to its pause.
    pub open spec fn begin_tick(self, timestamp: u64) -> AnimatorState {
        let second = second_of_day(timestamp) as u64;
        let report = self.reports_at(second);
        AnimatorState {
            frames: if self.frame_limit is Some {
                (self.frames + 1) as usize
            } else {
                self.frames
            },
            last_reported: if report {
                second
            } else {
                self.last_reported
            },
            phase: if self.targets.len() == 0 {
                Phase::AwaitingPause
            } else {
                Phase::Sending { index: 0, command: ColorCommand::at(timestamp), report }
            },
            ..self
        }
    }

    /// The state after a request: a failure on a tick that does not report is
    /// a fault; otherwise the next target is up, or the pause after the last.
    pub open spec fn after_request(self, ok: bool) -> AnimatorState {
        match self.phase {
            Phase::Sending { index, command, report } => AnimatorState {
                phase: if !ok && !report {
                    Phase::Faulted
                } else if index + 1 < self.targets.len() {
                    Phase::Sending { index: (index + 1) as usize, command, report }
                } else {
                    Phase::AwaitingPause
                },
                ..self
            },
            _ => self,
        }
    }

    /// The state after the pause of a tick: the run is over if the frame limit
    /// is used up, and the next tick is about to begin otherwise.
    pub open spec fn after_pause(self) -> AnimatorState {
        AnimatorState {
            phase: if self.frame_limit == Some(self.frames) {
                Phase::Finished
            } else {
                Phase::AwaitingClock
            },
            ..self
        }
    }

    /// The state after `event`. An event that is no answer to what the
    /// animator asks for changes nothing.
    pub open spec fn advance(self, event: Event) -> AnimatorState {
        match (self.phase, event) {
            (Phase::AwaitingClock, Event::Clock { timestamp }) => self.begin_tick(timestamp),
            (Phase::Sending { .. }, Event::Request { ok }) => self.after_request(ok),
            (Phase::AwaitingPause, Event::Paused) => self.after_pause(),
            _ => self,
        }
    }
}

/// A run begins in a state that is well formed.
pub proof fn lemma_initial_is_well_formed(targets: Seq<usize>, frame_limit: Option<usize>)
    requires
        targets.len() <= MAX_TARGETS,
    ensures
        AnimatorState::initial(targets, frame_limit).wf(),
{
}

/// Whatever comes in, a well-formed state is followed by a well-formed state,
/// with the same targets and the same frame limit.
pub proof fn lemma_advance_keeps_well_formed(state: AnimatorState, event: Event)
    requires
        state.wf(),
    ensures
        state.advance(event).wf(),
        state.advance(event).targets == state.targets,
        state.advance(event).frame_limit == state.frame_limit,
{
}

/// Every request that the animator asks for goes to one of its targets and
/// carries the fixed saturation and a hue within the range.
pub proof fn lemma_requests_reach_targets(state: AnimatorState)
    requires
        state.wf(),
    ensures
        state.pending() matches Action::SetLight { light, command, .. } ==> {
            &&& state.targets.contains(light)
            &&& command.saturation == SATURATION
            &&& command.hue < HUE_MAX
        },
{
    if let Phase::Sending { index, .. } = state.phase {
        assert(state.targets[index as int] == state.pending()->light);
    }
}

/// One run of the colour cycle over a set of lights.
#[derive(Debug)]
pub struct Animator {
    targets: TargetSet,
    frame_limit: Option<usize>,
    frames: usize,
    last_reported: u64,
    phase: Phase,
}

impl View for Animator {
    type V = AnimatorState;

    closed spec fn view(&self) -> AnimatorState {
        AnimatorState {
            targets: self.targets@,
            frame_limit: self.frame_limit,
            frames: self.frames,
            last_reported: self.last_reported,
            phase: self.phase,
        }
    }
}

impl Animator {
    #[verifier::type_invariant]
    spec fn well_formed(self) -> bool {
        self@.wf()
    }

    /// Begins a run over `targets`. With a frame limit the run ends after
    /// that many ticks; without one it has no end.
    pub fn new(targets: TargetSet, frame_limit: Option<usize>) -> (animator: Animator)
        ensures
            animator@ == AnimatorState::initial(targets@, frame_limit),
            animator@.wf(),
    {
        let exhausted = match frame_limit {
            Some(limit) => limit == 0,
            None => false,
        };
        proof {
            use_type_invariant(&targets);
        }
        Animator {
            targets,
            frame_limit,
            frames: 0,
            last_reported: 0,
            phase: if exhausted {
                Phase::Finished
            } else {
                Phase::AwaitingClock
            },
        }
    }

    /// What the animator asks its caller to do next.
    pub fn pending(&self) -> (action: Action)
        ensures
            action == self@.pending(),
            self@.wf(),
    {
        proof {
            use_type_invariant(self);
        }
        match self.phase {
            Phase::AwaitingClock => Action::ReadClock,
            Phase::Sending { index, command, report } => {
                Action::SetLight { light: self.targets.at(index), command, report }
            },
            Phase::AwaitingPause => Action::Pause { millis: TICK_PAUSE_MILLIS },
            Phase::Finished => Action::Finish,
            Phase::Faulted => Action::Abort,
        }
    }

    /// Takes in what the caller reports back, and moves on.
    pub fn advance(&mut self, event: Event)
        ensures
            final(self)@ == old(self)@.advance(event),
            final(self)@.wf(),
    {
        proof {
            use_type_invariant(&*self);
        }
        match (self.phase, event) {
            (Phase::AwaitingClock, Event::Clock { timestamp }) => {
                let second: u64 = seconds_since_midnight(timestamp);
                let report: bool = second % REPORT_PERIOD == 0 && second != self.last_reported;
                self.phase = if self.targets.is_empty() {
                    Phase::AwaitingPause
                } else {
                    Phase::Sending { index: 0, command: ColorCommand::for_time(timestamp), report }
                };
                if self.frame_limit.is_some() {
                    self.frames = self.frames + 1;
                }
                if report {
                    self.last_reported = second;
                }
            },
            (Phase::Sending { index, command, report }, Event::Request { ok }) => {
                self.phase = if !ok && !report {
                    Phase::Faulted
                } else if index + 1 < self.targets.len() {
                    Phase::Sending { index: index + 1, command, report }
                } else {
                    Phase::AwaitingPause
                };
            },
            (Phase::AwaitingPause, Event::Paused) => {
                let exhausted = match self.frame_limit {
                    Some(limit) => self.frames == limit,
                    None => false,
                };
                self.phase = if exhausted {
                    Phase::Finished
                } else {
                    Phase::AwaitingClock
                };
            },
            _ => {},
        }
    }

    /// Takes in what the caller reports back, and returns what the animator
    /// asks for after it.
    pub fn step(&mut self, event: Event) -> (action: Action)
        ensures
            final(self)@ == old(self)@.advance(event),
            action == final(self)@.pending(),
            final(self)@.wf(),
    {
        self.advance(event);
        self.pending()
    }

    /// Where the animator stands within the run.
    pub fn phase(&self) -> (phase: Phase)
        ensures
            phase == self@.phase,
    {
        self.phase
    }

    /// Whether the run is over, by the frame limit or by a fault.
    pub fn is_over(&self) -> (over: bool)
        ensures
            over == (self@.phase == Phase::Finished || self@.phase == Phase::Faulted),
    {
        match self.phase {
            Phase::Finished => true,
            Phase::Faulted => true,
            _ => false,
        }
    }

    /// The lights of the run.
    pub fn targets(&self) -> (targets: &TargetSet)
        ensures
            targets@ == self@.targets,
    {
        &self.targets
    }

    /// Number of ticks after which the run ends, if it has an end.
    pub fn frame_limit(&self) -> (limit: Option<usize>)
        ensures
            limit == self@.frame_limit,
    {
        self.frame_limit
    }

    /// Number of ticks begun so far; zero in a run without frame limit.
    pub fn frames(&self) -> (frames: usize)
        ensures
            frames == self@.frames,
    {
        self.frames
    }

    /// Second of the day of the last tick that reported; zero before the
    /// first.
    pub fn last_reported(&self) -> (second: u64)
        ensures
            second == self@.last_reported,
    {
        self.last_reported
    }
}

} // verus!
