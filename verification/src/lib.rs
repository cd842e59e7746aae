//! Control of a Luxafor flag without any input or output of its own: colors
//! and lights from text, the reports that the device takes, and Morse
//! signals as steps to play.

pub mod commands;
pub mod device;
pub mod protocol;
pub mod rgb;
pub mod text;
pub mod usb;

use vstd::prelude::*;
use vstd::string::*;

verus! {

/// An error with a fixed message.
#[derive(Clone, Copy)]
pub struct LuxaforError {
    message: &'static str,
}

impl View for LuxaforError {
    type V = Seq<char>;

    closed spec fn view(&self) -> Seq<char> {
        self.message@
    }
}

impl LuxaforError {
    pub fn new(message: &'static str) -> (error: LuxaforError)
        ensures
            error@ == message@,
    {
        LuxaforError { message }
    }

    /// The message.
    pub fn message(&self) -> (text: String)
        ensures
            text@ == self@,
    {
        String::from_str(self.message)
    }
}

} // verus!
