//! The driver: the supervisor that keeps the animator running.
//!
//! A run that ends without error is followed at once by another, with the same
//! targets and the same connection. A run that ends in an error is followed by
//! a pause of `COOLDOWN_SECONDS` and then by the whole startup sequence: the
//! configured list of lights is read again and the connection is made anew.
//! There is no limit to the number of restarts. Only a list of lights that
//! cannot be read stops the driver, since reading it again cannot help.

use crate::animator::{Animator, AnimatorState};
use crate::targets::{
    is_first_malformed, is_target_list, listed_targets, ConfigError, TargetSet,
};
use vstd::prelude::*;
use vstd::string::StringSliceAdditionalSpecFns;

verus! {

/// Length of the pause after a run that ended in an error, in seconds.
pub const COOLDOWN_SECONDS: u64 = 300;

/// What the driver asks its caller to do next.
#[derive(Clone, Copy, Debug, PartialEq, Eq, Structural)]
pub enum DriverAction {
    /// Go through the startup sequence: read the configured list of lights,
    /// make the connection, and run the animator without frame limit. Answer
    /// with `DriverEvent::ConfigurationRejected` if the list cannot be read,
    /// and with the way the run ended otherwise.
    StartUp,
    /// Run the animator again without frame limit, with the targets and the
    /// connection of the run before. Answer with the way the run ended.
    RunAgain,
    /// Log the error that ended the run, wait for `seconds` seconds, and
    /// answer with `DriverEvent::CooldownOver`.
    CoolDown { seconds: u64 },
    /// Give up: the configuration cannot be used.
    Halt,
}

/// What the caller reports back to the driver.
#[derive(Clone, Copy, Debug, PartialEq, Eq, Structural)]
pub enum DriverEvent {
    /// The run ended without error.
    RunCompleted,
    /// The run ended in an error.
    RunFailed,
    /// The configured list of lights cannot be read.
    ConfigurationRejected,
    /// The pause after a failed run is over.
    CooldownOver,
}

/// The state of the driver.
#[derive(Clone, Copy, Debug, PartialEq, Eq, Structural)]
pub enum Driver {
    /// A run is due or under way. `startup` tells whether it begins with the
    /// startup sequence.
    Running { startup: bool },
    /// A run has ended in an error, and the pause after it is not over.
    CoolingDown,
    /// The configuration was rejected: nothing more will be run.
    Halted,
}

impl Driver {
    /// What the driver asks for in this state.
    pub open spec fn action(self) -> DriverAction {
        match self {
            Driver::Running { startup: true } => DriverAction::StartUp,
            Driver::Running { startup: false } => DriverAction::RunAgain,
            Driver::CoolingDown => DriverAction::CoolDown { seconds: COOLDOWN_SECONDS },
            Driver::Halted => DriverAction::Halt,
        }
    }

    /// The state after `event`. An event that is no answer to what the driver
    /// asks for changes nothing.
    pub open spec fn next(self, event: DriverEvent) -> Driver {
        match (self, event) {
            (Driver::Running { .. }, DriverEvent::RunCompleted) => Driver::Running {
                startup: false,
            },
            (Driver::Running { .. }, DriverEvent::RunFailed) => Driver::CoolingDown,
            (Driver::Running { startup: true }, DriverEvent::ConfigurationRejected) => {
                Driver::Halted
            },
            (Driver::CoolingDown, DriverEvent::CooldownOver) => Driver::Running { startup: true },
            _ => self,
        }
    }

    /// The state after a series of events.
    pub open spec fn after(self, events: Seq<DriverEvent>) -> Driver
        decreases events.len(),
    {
        if events.len() == 0 {
            self
        } else {
            self.after(events.drop_last()).next(events.last())
        }
    }

    /// The driver at the start of the process: the startup sequence is due.
    pub fn new() -> (driver: Driver)
        ensures
            driver == (Driver::Running { startup: true }),
            driver.action() == DriverAction::StartUp,
    {
        Driver::Running { startup: true }
    }

    /// What the driver asks its caller to do next.
    pub fn pending(&self) -> (action: DriverAction)
        ensures
            action == self.action(),
    {
        match self {
            Driver::Running { startup } => if *startup {
                DriverAction::StartUp
            } else {
                DriverAction::RunAgain
            },
            Driver::CoolingDown => DriverAction::CoolDown { seconds: COOLDOWN_SECONDS },
            Driver::Halted => DriverAction::Halt,
        }
    }

    /// Takes in what the caller reports back, and moves on.
    pub fn advance(&mut self, event: DriverEvent)
        ensures
            *final(self) == old(self).next(event),
    {
        let current: Driver = *self;
        *self = match (current, event) {
            (Driver::Running { .. }, DriverEvent::RunCompleted) => Driver::Running {
                startup: false,
            },
            (Driver::Running { .. }, DriverEvent::RunFailed) => Driver::CoolingDown,
            (Driver::Running { startup: true }, DriverEvent::ConfigurationRejected) => {
                Driver::Halted
            },
            (Driver::CoolingDown, DriverEvent::CooldownOver) => Driver::Running { startup: true },
            _ => current,
        };
    }
}

/// The part of the startup sequence that decides: reads the configured list
/// of lights and sets up the run over them. A list that cannot be read gives
/// no run, so that no request is ever made for it.
pub fn prepare_run(light_ids: &str, frame_limit: Option<usize>) -> (result: Result<
    Animator,
    ConfigError,
>)
    ensures
        result is Ok <==> is_target_list(light_ids.spec_bytes()),
        match result {
            Ok(animator) => {
                &&& is_target_list(light_ids.spec_bytes())
                &&& animator@ == AnimatorState::initial(
                    listed_targets(light_ids.spec_bytes()),
                    frame_limit,
                )
                &&& animator@.wf()
            },
            Err(ConfigError::MalformedIdentifier { position }) => is_first_malformed(
                light_ids.spec_bytes(),
                position as int,
            ),
        },
{
    match TargetSet::parse(light_ids) {
        Ok(targets) => Ok(Animator::new(targets, frame_limit)),
        Err(error) => Err(error),
    }
}

/// A failed run is followed by the cooldown and then by the whole startup
/// sequence, however the run began.
pub proof fn lemma_failure_restarts_after_cooldown(startup: bool)
    ensures
        ({
            let failed = (Driver::Running { startup }).next(DriverEvent::RunFailed);
            &&& failed.action() == DriverAction::CoolDown { seconds: COOLDOWN_SECONDS }
            &&& failed.next(DriverEvent::CooldownOver).action() == DriverAction::StartUp
        }),
{
}

/// A completed run is followed at once by another run, without the startup
/// sequence.
pub proof fn lemma_success_runs_again(startup: bool)
    ensures
        (Driver::Running { startup }).next(DriverEvent::RunCompleted).action()
            == DriverAction::RunAgain,
{
}

/// The driver never gives up on its own: as long as the configuration is not
/// rejected, it does not halt, however many runs fail.
pub proof fn lemma_never_gives_up(driver: Driver, events: Seq<DriverEvent>)
    requires
        driver != Driver::Halted,
        forall|i: int|
            0 <= i < events.len() ==> #[trigger] events[i] != DriverEvent::ConfigurationRejected,
    ensures
        driver.after(events) != Driver::Halted,
        driver.after(events).action() != DriverAction::Halt,
    decreases events.len(),
{
    if events.len() > 0 {
        lemma_never_gives_up(driver, events.drop_last());
    }
}

} // verus!
