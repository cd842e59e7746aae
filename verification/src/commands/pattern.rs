//! The command that plays one of the built-in patterns.

use crate::commands::color::request_of;
use crate::commands::util::parse_u8;
use crate::device::PatternType;
use crate::text::{chars_of, decimal_up_to, lowercase, same, to_lowercase};
use crate::usb::{Command, Request};
use vstd::prelude::*;
use vstd::string::*;

verus! {

pub struct Pattern {}

/// The pattern of a word in lower case: its name, or its number from 1 to
/// 8.
pub open spec fn pattern_of(word: Seq<char>) -> Option<PatternType> {
    if word == "1"@ || word == "luxafor"@ {
        Some(PatternType::Luxafor)
    } else if word == "2"@ || word == "random1"@ {
        Some(PatternType::Random1)
    } else if word == "3"@ || word == "random2"@ {
        Some(PatternType::Random2)
    } else if word == "4"@ || word == "random3"@ {
        Some(PatternType::Random3)
    } else if word == "6"@ || word == "random4"@ {
        Some(PatternType::Random4)
    } else if word == "7"@ || word == "random5"@ {
        Some(PatternType::Random5)
    } else if word == "8"@ || word == "rainbow-wave"@ || word == "rainbow"@ {
        Some(PatternType::RainbowWave)
    } else if word == "5"@ || word == "police"@ {
        Some(PatternType::Police)
    } else {
        None
    }
}

/// What the pattern command asks for, given the word for the pattern in
/// lower case and the number of repeats.
pub open spec fn pattern_request(lowered: Seq<char>, repeat: u8) -> Result<Request, Seq<char>> {
    match pattern_of(lowered) {
        Some(pattern) => Ok(Request::Pattern(pattern, repeat)),
        None => Err("An invalid pattern type "@ + lowered + " was specified."@),
    }
}

/// The pattern of a word in lower case.
pub fn pattern_type(lowered: &str) -> (pattern: Option<PatternType>)
    ensures
        pattern == pattern_of(lowered@),
{
    let w = chars_of(lowered);
    if same(&w, "1") || same(&w, "luxafor") {
        Some(PatternType::Luxafor)
    } else if same(&w, "2") || same(&w, "random1") {
        Some(PatternType::Random1)
    } else if same(&w, "3") || same(&w, "random2") {
        Some(PatternType::Random2)
    } else if same(&w, "4") || same(&w, "random3") {
        Some(PatternType::Random3)
    } else if same(&w, "6") || same(&w, "random4") {
        Some(PatternType::Random4)
    } else if same(&w, "7") || same(&w, "random5") {
        Some(PatternType::Random5)
    } else if same(&w, "8") || same(&w, "rainbow-wave") || same(&w, "rainbow") {
        Some(PatternType::RainbowWave)
    } else if same(&w, "5") || same(&w, "police") {
        Some(PatternType::Police)
    } else {
        None
    }
}

/// What to ask of the device for a pattern word in lower case.
pub fn play_pattern(lowered: &str, repeat: u8) -> (result: Result<Command, String>)
    ensures
        request_of(result) == pattern_request(lowered@, repeat),
{
    match pattern_type(lowered) {
        Some(pattern) => Ok(Command::Pattern(pattern, repeat)),
        None => {
            let mut message = String::from_str("An invalid pattern type ");
            message.append(lowered);
            message.append(" was specified.");
            Err(message)
        },
    }
}

impl Pattern {
    /// What to ask of the device for the word of a pattern, in any case, and
    /// the number of repeats, which is a byte in decimal.
    pub fn exec(pattern_value: &str, repeat_value: &str) -> (result: Result<Command, String>)
        requires
            decimal_up_to(repeat_value@, 255) is Some,
        ensures
            request_of(result) == pattern_request(
                lowercase(pattern_value@),
                decimal_up_to(repeat_value@, 255)->0 as u8,
            ),
    {
        let repeat = parse_u8(repeat_value).unwrap();
        let lowered = to_lowercase(pattern_value);
        play_pattern(lowered.as_str(), repeat)
    }
}

} // verus!
