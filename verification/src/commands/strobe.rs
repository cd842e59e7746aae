//! The command that flashes lights in a color.

use crate::commands::color::{lights_or_all, lights_or_default, lowered_words, request_of};
use crate::commands::util::{colorspec_to_rgb, parse_u8, source_color, ColorSource};
use crate::text::decimal_up_to;
use crate::usb::{Command, Request};
use vstd::prelude::*;

verus! {

pub struct Strobe {}

/// What the strobe command asks for: the color on the lights that the words
/// choose, or on every light where they choose nothing.
pub open spec fn strobe_request(
    color_value: &str,
    lights: Option<Vec<String>>,
    repeat: u8,
    speed: u8,
) -> Result<Request, Seq<char>> {
    match source_color(ColorSource::Text(color_value)) {
        Ok(color) => Ok(
            Request::Strobe(color, lights_or_all(lowered_words(lights)), speed, repeat),
        ),
        Err(message) => Err(message),
    }
}

impl Strobe {
    /// What to ask of the device for a color, the words for the lights, if
    /// any were given, and the number of flashes and the speed, which are
    /// bytes in decimal.
    pub fn exec(
        color_value: &str,
        lights_value: Option<Vec<String>>,
        repeats_value: &str,
        speed_value: &str,
    ) -> (result: Result<Command, String>)
        requires
            decimal_up_to(repeats_value@, 255) is Some,
            decimal_up_to(speed_value@, 255) is Some,
        ensures
            request_of(result) == strobe_request(
                color_value,
                lights_value,
                decimal_up_to(repeats_value@, 255)->0 as u8,
                decimal_up_to(speed_value@, 255)->0 as u8,
            ),
    {
        match colorspec_to_rgb(ColorSource::Text(color_value)) {
            Err(error) => Err(String::from(error)),
            Ok(color) => {
                let lights = lights_or_default(lights_value);
                let repeat = parse_u8(repeats_value).unwrap();
                let speed = parse_u8(speed_value).unwrap();
                Ok(Command::Strobe(color, lights, speed, repeat))
            },
        }
    }
}

} // verus!
