//! The command that sets a color: at once by one of the eight names, or as
//! a fade where a duration or lights are given.

use crate::commands::util::{
    chosen_lights, colorspec_to_rgb, lowered_views, parse_lights, parse_u8, source_color,
    ColorSource, ColorSpec,
};
use crate::device::{all_lights, LightSet, Lights, SimpleColor};
use crate::text::{chars_of, decimal_up_to, lowercase, same, to_lowercase};
use crate::usb::{Command, Request};
use vstd::prelude::*;
use vstd::string::*;

verus! {

pub struct Color {}

/// The named color of a name in lower case.
pub open spec fn simple_color_of(name: Seq<char>) -> Option<SimpleColor> {
    if name == "red"@ {
        Some(SimpleColor::Red)
    } else if name == "green"@ {
        Some(SimpleColor::Green)
    } else if name == "blue"@ {
        Some(SimpleColor::Blue)
    } else if name == "cyan"@ {
        Some(SimpleColor::Cyan)
    } else if name == "magenta"@ {
        Some(SimpleColor::Magenta)
    } else if name == "yellow"@ {
        Some(SimpleColor::Yellow)
    } else if name == "white"@ {
        Some(SimpleColor::White)
    } else if name == "off"@ {
        Some(SimpleColor::Off)
    } else {
        None
    }
}

/// The request for a named color, or what to tell the user.
pub open spec fn simple_request(lowered: Seq<char>) -> Result<Request, Seq<char>> {
    match simple_color_of(lowered) {
        Some(color) => Ok(Request::SimpleColor(color)),
        None => Err("Invalid color: \""@ + lowered + "\""@),
    }
}

/// The fade time that a text gives: the byte that it writes, and 0 where it
/// writes none.
pub open spec fn fade_time_of(duration: Seq<char>) -> u8 {
    match decimal_up_to(duration, 255) {
        Some(n) => n as u8,
        None => 0,
    }
}

/// The lights of a command: those that its words choose, and every light
/// where they choose nothing.
pub open spec fn lights_or_all(words: Option<Seq<Seq<char>>>) -> Set<Lights> {
    match words {
        Some(words) => match chosen_lights(words) {
            Some(lights) => lights,
            None => all_lights(),
        },
        None => all_lights(),
    }
}

/// The words of a command line in lower case, where there are any.
pub open spec fn lowered_words(words: Option<Vec<String>>) -> Option<Seq<Seq<char>>> {
    match words {
        Some(words) => Some(lowered_views(words@)),
        None => None,
    }
}

/// What the color command asks for. With a duration or with lights it is a
/// fade; else it is the named color itself.
pub open spec fn color_request(
    color_value: ColorSpec,
    duration: Seq<char>,
    lights: Option<Vec<String>>,
) -> Result<Request, Seq<char>> {
    if duration.len() > 0 || lights is Some {
        match source_color(ColorSource::Spec(&color_value)) {
            Ok(color) => Ok(
                Request::FadeToColor(
                    color,
                    lights_or_all(lowered_words(lights)),
                    fade_time_of(duration),
                ),
            ),
            Err(message) => Err(message),
        }
    } else {
        simple_request(lowercase(color_value->NamedColor_0@))
    }
}

/// The model of the result of a command.
pub open spec fn request_of(result: Result<Command, String>) -> Result<Request, Seq<char>> {
    match result {
        Ok(command) => Ok(command@),
        Err(message) => Err(message@),
    }
}

/// The lights that the words choose, or every light.
pub fn lights_or_default(lights_value: Option<Vec<String>>) -> (lights: LightSet)
    ensures
        lights@ == lights_or_all(lowered_words(lights_value)),
{
    match parse_lights(lights_value) {
        Some(lights) => lights,
        None => LightSet::all(),
    }
}

/// The named color of a name in lower case.
pub fn simple_color(lowered: &str) -> (result: Result<Command, String>)
    ensures
        request_of(result) == simple_request(lowered@),
{
    let name = chars_of(lowered);
    let color = if same(&name, "red") {
        Some(SimpleColor::Red)
    } else if same(&name, "green") {
        Some(SimpleColor::Green)
    } else if same(&name, "blue") {
        Some(SimpleColor::Blue)
    } else if same(&name, "cyan") {
        Some(SimpleColor::Cyan)
    } else if same(&name, "magenta") {
        Some(SimpleColor::Magenta)
    } else if same(&name, "yellow") {
        Some(SimpleColor::Yellow)
    } else if same(&name, "white") {
        Some(SimpleColor::White)
    } else if same(&name, "off") {
        Some(SimpleColor::Off)
    } else {
        None
    };
    match color {
        Some(color) => Ok(Command::SimpleColor(color)),
        None => {
            let mut message = String::from_str("Invalid color: \"");
            message.append(lowered);
            message.append("\"");
            Err(message)
        },
    }
}

impl Color {
    /// What to ask of the device for a color, a duration, which may be empty,
    /// and the words for the lights, if any were given. Numbers for the color
    /// come with a duration or with lights.
    pub fn exec(
        color_value: ColorSpec,
        duration_value: &str,
        lights_value: Option<Vec<String>>,
    ) -> (result: Result<Command, String>)
        requires
            color_value is NamedColor || duration_value@.len() > 0 || lights_value is Some,
        ensures
            request_of(result) == color_request(color_value, duration_value@, lights_value),
    {
        let fades = duration_value.unicode_len() > 0 || lights_value.is_some();
        match color_value {
            ColorSpec::NamedColor(name) if !fades => {
                let lowered = to_lowercase(name);
                simple_color(lowered.as_str())
            },
            _ => match colorspec_to_rgb(ColorSource::Spec(&color_value)) {
                Err(error) => Err(String::from(error)),
                Ok(color) => {
                    let fade_time = match parse_u8(duration_value) {
                        Some(fade_time) => fade_time,
                        None => 0,
                    };
                    Ok(Command::FadeToColor(color, lights_or_default(lights_value), fade_time))
                },
            },
        }
    }
}

} // verus!
