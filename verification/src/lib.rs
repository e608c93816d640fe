//! Time-synchronised colour cycling for networked lights.
//!
//! The hue of the moment is a function of the wall clock alone, so that
//! lights driven by separate processes agree without talking to each other.
//! The crate holds the decisions: the hue of a timestamp, the set of target
//! lights, the tick-by-tick animator and the supervisor that restarts it.
//! The caller performs what the decisions ask for: requests to the lights,
//! pauses and log lines.

pub mod animator;
pub mod bridge;
pub mod clock;
pub mod driver;
pub mod hue;
pub mod run;
pub mod targets;
