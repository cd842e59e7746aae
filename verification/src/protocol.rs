//! The reports that the device takes: one function for each operation, and
//! the table of the codes that stand for targets, colors and effects on the
//! wire.

use crate::device::{PatternType, RgbColor, SimpleColor, Target, WaveType};
use vstd::prelude::*;

verus! {

pub const SIMPLE_COLOR: u8 = 0;

pub const RGB_COLOR: u8 = 1;

pub const FADE_TO_COLOR: u8 = 2;

pub const STROBE: u8 = 3;

pub const SET_WAVE: u8 = 4;

pub const SET_PATTERN: u8 = 6;

pub const GET_STATUS: u8 = 0x80;

/// The code of a target: `0xFF` for every light, `B` and `A` for the back
/// and the flag, 1 to 6 for a single light.
pub open spec fn target_code(target: Target) -> u8 {
    match target {
        Target::All => 0xFF,
        Target::Back => 0x42,
        Target::Tab => 0x41,
        Target::TabBottomLed => 1,
        Target::TabMiddleLed => 2,
        Target::TabTopLed => 3,
        Target::BackBottomLed => 4,
        Target::BackMiddleLed => 5,
        Target::BackTopLed => 6,
    }
}

/// The code of a named color: the capital letter that its name starts with.
pub open spec fn color_code(color: SimpleColor) -> u8 {
    match color {
        SimpleColor::Red => 'R' as u8,
        SimpleColor::Green => 'G' as u8,
        SimpleColor::Blue => 'B' as u8,
        SimpleColor::Cyan => 'C' as u8,
        SimpleColor::Magenta => 'M' as u8,
        SimpleColor::Yellow => 'Y' as u8,
        SimpleColor::White => 'W' as u8,
        SimpleColor::Off => 'O' as u8,
    }
}

/// The code of a wave.
pub open spec fn wave_code(wave_type: WaveType) -> u8 {
    match wave_type {
        WaveType::Short => 1,
        WaveType::Long => 2,
        WaveType::OverlappingShort => 3,
        WaveType::OverlappingLong => 4,
    }
}

/// The code of a pattern.
pub open spec fn pattern_code(pattern_type: PatternType) -> u8 {
    match pattern_type {
        PatternType::Luxafor => 1,
        PatternType::Random1 => 2,
        PatternType::Random2 => 3,
        PatternType::Random3 => 4,
        PatternType::Police => 5,
        PatternType::Random4 => 6,
        PatternType::Random5 => 7,
        PatternType::RainbowWave => 8,
    }
}

/// The report that shows a named color on every light.
pub open spec fn simple_color_report(color: SimpleColor) -> Seq<u8> {
    seq![0u8, SIMPLE_COLOR, color_code(color)]
}

/// The report that shows a color on a target.
pub open spec fn rgb_report(color: RgbColor, target: Target) -> Seq<u8> {
    seq![0u8, RGB_COLOR, target_code(target), color.0, color.1, color.2]
}

/// The report that fades a target to a color.
pub open spec fn fade_report(color: RgbColor, target: Target, fade_time: u8) -> Seq<u8> {
    seq![0u8, FADE_TO_COLOR, target_code(target), color.0, color.1, color.2, fade_time]
}

/// The report that flashes a target in a color. Byte 7 is reserved.
pub open spec fn strobe_report(color: RgbColor, target: Target, speed: u8, repeat: u8) -> Seq<u8> {
    seq![0u8, STROBE, target_code(target), color.0, color.1, color.2, speed, 0u8, repeat]
}

/// The report that runs a wave over the device. Byte 6 is reserved.
pub open spec fn wave_report(color: RgbColor, wave_type: WaveType, speed: u8, repeat: u8) -> Seq<
    u8,
> {
    seq![0u8, SET_WAVE, wave_code(wave_type), color.0, color.1, color.2, 0u8, repeat, speed]
}

/// The report that plays a built-in pattern.
pub open spec fn pattern_report(pattern_type: PatternType, repeat: u8) -> Seq<u8> {
    seq![0u8, SET_PATTERN, pattern_code(pattern_type), repeat]
}

/// The report that asks for the status.
pub open spec fn status_report() -> Seq<u8> {
    seq![GET_STATUS, 0u8, 0u8, 0u8, 0u8, 0u8, 0u8, 0u8]
}

impl Target {
    pub fn code(self) -> (code: u8)
        ensures
            code == target_code(self),
    {
        match self {
            Target::All => 0xFF,
            Target::Back => 0x42,
            Target::Tab => 0x41,
            Target::TabBottomLed => 1,
            Target::TabMiddleLed => 2,
            Target::TabTopLed => 3,
            Target::BackBottomLed => 4,
            Target::BackMiddleLed => 5,
            Target::BackTopLed => 6,
        }
    }
}

impl SimpleColor {
    pub fn code(self) -> (code: u8)
        ensures
            code == color_code(self),
    {
        match self {
            SimpleColor::Red => 0x52,
            SimpleColor::Green => 0x47,
            SimpleColor::Blue => 0x42,
            SimpleColor::Cyan => 0x43,
            SimpleColor::Magenta => 0x4D,
            SimpleColor::Yellow => 0x59,
            SimpleColor::White => 0x57,
            SimpleColor::Off => 0x4F,
        }
    }
}

impl WaveType {
    pub fn code(self) -> (code: u8)
        ensures
            code == wave_code(self),
    {
        match self {
            WaveType::Short => 1,
            WaveType::Long => 2,
            WaveType::OverlappingShort => 3,
            WaveType::OverlappingLong => 4,
        }
    }
}

impl PatternType {
    pub fn code(self) -> (code: u8)
        ensures
            code == pattern_code(self),
    {
        match self {
            PatternType::Luxafor => 1,
            PatternType::Random1 => 2,
            PatternType::Random2 => 3,
            PatternType::Random3 => 4,
            PatternType::Police => 5,
            PatternType::Random4 => 6,
            PatternType::Random5 => 7,
            PatternType::RainbowWave => 8,
        }
    }
}

/// Shows one of the eight named colors on every light.
pub fn set_simple_color(color: SimpleColor) -> (report: [u8; 3])
    ensures
        report@ == simple_color_report(color),
{
    let report = [0, SIMPLE_COLOR, color.code()];
    assert(report@ =~= simple_color_report(color));
    report
}

/// Shows a color on a target.
pub fn set_rgb_color(color: RgbColor, target: Target) -> (report: [u8; 6])
    ensures
        report@ == rgb_report(color, target),
{
    let report = [0, RGB_COLOR, target.code(), color.0, color.1, color.2];
    assert(report@ =~= rgb_report(color, target));
    report
}

/// Fades a target to a color; `fade_time` runs from 0, at once, to 255, slow.
pub fn fade_to_color(color: RgbColor, target: Target, fade_time: u8) -> (report: [u8; 7])
    ensures
        report@ == fade_report(color, target, fade_time),
{
    let report = [0, FADE_TO_COLOR, target.code(), color.0, color.1, color.2, fade_time];
    assert(report@ =~= fade_report(color, target, fade_time));
    report
}

/// Flashes a target in a color, `repeat` times; `speed` runs from 0, fast,
/// to 255, slow.
pub fn strobe(color: RgbColor, target: Target, speed: u8, repeat: u8) -> (report: [u8; 9])
    ensures
        report@ == strobe_report(color, target, speed, repeat),
{
    let report = [0, STROBE, target.code(), color.0, color.1, color.2, speed, 0, repeat];
    assert(report@ =~= strobe_report(color, target, speed, repeat));
    report
}

/// Runs a wave over the whole device, `repeat` times.
pub fn wave(color: RgbColor, wave_type: WaveType, speed: u8, repeat: u8) -> (report: [u8; 9])
    ensures
        report@ == wave_report(color, wave_type, speed, repeat),
{
    let report = [0, SET_WAVE, wave_type.code(), color.0, color.1, color.2, 0, repeat, speed];
    assert(report@ =~= wave_report(color, wave_type, speed, repeat));
    report
}

/// Plays a built-in pattern, `repeat` times.
pub fn pattern(pattern_type: PatternType, repeat: u8) -> (report: [u8; 4])
    ensures
        report@ == pattern_report(pattern_type, repeat),
{
    let report = [0, SET_PATTERN, pattern_type.code(), repeat];
    assert(report@ =~= pattern_report(pattern_type, repeat));
    report
}

/// Asks the device for its status. The devices seen so far do not answer.
pub fn _get_status() -> (report: [u8; 8])
    ensures
        report@ == status_report(),
{
    let report = [GET_STATUS, 0, 0, 0, 0, 0, 0, 0];
    assert(report@ =~= status_report());
    report
}

} // verus!
