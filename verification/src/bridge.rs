//! The command in the form that the bridge takes.
//!
//! The animator works on `ColorCommand`, whose two numbers are open to proof.
//! What goes to the bridge is a `hueclient::CommandLight`, built by that
//! crate's own builder from the two numbers.

use crate::hue::ColorCommand;
use hueclient::CommandLight;
use vstd::prelude::*;

verus! {

/// `hueclient::CommandLight`, the state that a light is asked to take. Nothing
/// of what it holds is visible here.
#[verifier::external_type_specification]
#[verifier::external_body]
pub struct ExCommandLight(CommandLight);

/// The `hueclient::CommandLight` that the builder of that crate makes of a
/// saturation and a hue: `CommandLight::default()`, then `with_sat`, then
/// `with_hue`. It sets these two and leaves every other setting of the light
/// as it is.
pub uninterp spec fn bridge_command(saturation: u8, hue: u16) -> CommandLight;

/// Calls `hueclient::CommandLight::default`, `with_sat` and `with_hue`, in
/// this order. The three build a value from their arguments alone, so the
/// result is the same for the same saturation and hue: it is
/// `bridge_command` of the two. Nothing else is claimed of it.
#[verifier::external_body]
fn build_bridge_command(saturation: u8, hue: u16) -> (command: CommandLight)
    ensures
        command == bridge_command(saturation, hue),
{
    CommandLight::default().with_sat(saturation).with_hue(hue)
}

impl ColorCommand {
    /// The command in the form that the bridge takes: built from the
    /// saturation and the hue of this command, and from nothing else.
    pub fn to_bridge(&self) -> (command: CommandLight)
        ensures
            command == bridge_command(self.saturation, self.hue),
    {
        build_bridge_command(self.saturation, self.hue)
    }
}

} // verus!
