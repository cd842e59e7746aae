//! The command that runs one of the four waves.

use crate::commands::color::request_of;
use crate::commands::util::{colorspec_to_rgb, parse_u8, source_color, ColorSource};
use crate::device::WaveType;
use crate::text::decimal_up_to;
use crate::usb::{Command, Request};
use vstd::prelude::*;

verus! {

pub struct Wave {}

/// The wave of a number from 1 to 4.
pub open spec fn wave_of(number: nat) -> WaveType {
    if number == 1 {
        WaveType::Short
    } else if number == 2 {
        WaveType::Long
    } else if number == 3 {
        WaveType::OverlappingShort
    } else {
        WaveType::OverlappingLong
    }
}

/// Whether a text writes the number of a wave.
pub open spec fn is_wave_number(text: Seq<char>) -> bool {
    decimal_up_to(text, 255) matches Some(n) && 1 <= n <= 4
}

/// What the wave command asks for.
pub open spec fn wave_request(color_value: &str, wave: WaveType, repeat: u8, speed: u8) -> Result<
    Request,
    Seq<char>,
> {
    match source_color(ColorSource::Text(color_value)) {
        Ok(color) => Ok(Request::Wave(color, wave, speed, repeat)),
        Err(message) => Err(message),
    }
}

impl Wave {
    /// What to ask of the device for a color, the number of the wave, from 1
    /// to 4, and the number of repeats and the speed, which are bytes in
    /// decimal.
    pub fn exec(
        color_value: &str,
        wave_type_value: &str,
        repeats_value: &str,
        speed_value: &str,
    ) -> (result: Result<Command, String>)
        requires
            is_wave_number(wave_type_value@),
            decimal_up_to(repeats_value@, 255) is Some,
            decimal_up_to(speed_value@, 255) is Some,
        ensures
            request_of(result) == wave_request(
                color_value,
                wave_of(decimal_up_to(wave_type_value@, 255)->0),
                decimal_up_to(repeats_value@, 255)->0 as u8,
                decimal_up_to(speed_value@, 255)->0 as u8,
            ),
    {
        match colorspec_to_rgb(ColorSource::Text(color_value)) {
            Err(error) => Err(String::from(error)),
            Ok(color) => {
                let wave_type = match parse_u8(wave_type_value).unwrap() {
                    1 => WaveType::Short,
                    2 => WaveType::Long,
                    3 => WaveType::OverlappingShort,
                    _ => WaveType::OverlappingLong,
                };
                let repeat = parse_u8(repeats_value).unwrap();
                let speed = parse_u8(speed_value).unwrap();
                Ok(Command::Wave(color, wave_type, speed, repeat))
            },
        }
    }
}

} // verus!
