//! The command that turns the lights off.

use crate::device::SimpleColor;
use crate::usb::{Command, Request};
use vstd::prelude::*;

verus! {

pub struct Off {}

impl Off {
    /// What to ask of the device: the named color `Off`.
    pub fn exec() -> (result: Result<Command, String>)
        ensures
            result matches Ok(command) && command@ == Request::SimpleColor(SimpleColor::Off),
    {
        Ok(Command::SimpleColor(SimpleColor::Off))
    }
}

} // verus!
