//! Colors from text: `#RGB` and `#RRGGBB` in hexadecimal, or `R,G,B` in
//! decimal.

use crate::device::RgbColor;
use crate::text::{
    all_digits, chars_of, decimal_text, decimal_up_to, is_digit, lemma_decimal_text,
    lemma_split_three, lemma_trimmed_same, number_of, parse_decimal, push_decimal, split,
    split_on, trim, trimmed, utf8_len,
};
use vstd::prelude::*;
use vstd::string::*;

verus! {

/// Why a text is no color. Each variant carries the detail of the failure.
#[derive(Debug)]
pub enum RgbColorParseError {
    InvalidHexColor(String),
    InvalidNumericColor(String),
}

/// The model of a `RgbColorParseError`.
pub enum ColorFault {
    InvalidHexColor(Seq<char>),
    InvalidNumericColor(Seq<char>),
}

impl View for RgbColorParseError {
    type V = ColorFault;

    open spec fn view(&self) -> ColorFault {
        match self {
            RgbColorParseError::InvalidHexColor(detail) => ColorFault::InvalidHexColor(detail@),
            RgbColorParseError::InvalidNumericColor(detail) => ColorFault::InvalidNumericColor(
                detail@,
            ),
        }
    }
}

/// What a fault says to the user: one sentence for each kind.
pub open spec fn message_of(fault: ColorFault) -> Seq<char> {
    match fault {
        ColorFault::InvalidHexColor(_) =>
            "The hex color was invalid. Either it was the incorrect length or contained non-hex digits."@,
        ColorFault::InvalidNumericColor(_) =>
            "The R,G,B color was invalid. Either it was composed of the wrong number of parts, or contained a value over 255."@,
    }
}

/// The value of a hexadecimal digit, in either case.
pub open spec fn hex_value(c: char) -> Option<nat> {
    if '0' <= c && c <= '9' {
        Some((c as u32 - 0x30) as nat)
    } else if 'a' <= c && c <= 'f' {
        Some((c as u32 - 0x61 + 10) as nat)
    } else if 'A' <= c && c <= 'F' {
        Some((c as u32 - 0x41 + 10) as nat)
    } else {
        None
    }
}

pub open spec fn is_hex(c: char) -> bool {
    hex_value(c) is Some
}

/// The byte that two hexadecimal digits write.
pub open spec fn hex_pair(high: char, low: char) -> u8 {
    (hex_value(high)->0 * 16 + hex_value(low)->0) as u8
}

/// The color of `#RGB`: every digit stands for itself twice.
pub open spec fn short_hex(text: Seq<char>) -> Option<RgbColor> {
    if text.len() == 4 && is_hex(text[1]) && is_hex(text[2]) && is_hex(text[3]) {
        Some(
            RgbColor(
                hex_pair(text[1], text[1]),
                hex_pair(text[2], text[2]),
                hex_pair(text[3], text[3]),
            ),
        )
    } else {
        None
    }
}

/// The color of `#RRGGBB`.
pub open spec fn long_hex(text: Seq<char>) -> Option<RgbColor> {
    if text.len() == 7 && is_hex(text[1]) && is_hex(text[2]) && is_hex(text[3]) && is_hex(text[4])
        && is_hex(text[5]) && is_hex(text[6]) {
        Some(
            RgbColor(
                hex_pair(text[1], text[2]),
                hex_pair(text[3], text[4]),
                hex_pair(text[5], text[6]),
            ),
        )
    } else {
        None
    }
}

/// The detail of a hexadecimal color with a character that is no digit.
pub open spec fn invalid_digit() -> Seq<char> {
    "invalid digit found in string"@
}

/// The detail of a hexadecimal color of `n` bytes, where `n` is neither 4
/// nor 7.
pub open spec fn invalid_length(n: nat) -> Seq<char> {
    "Invalid length for a hex color ("@ + decimal_text(n) + ")"@
}

/// The detail of a decimal color of `n` parts, where `n` is not 3.
pub open spec fn wrong_parts(n: nat) -> Seq<char> {
    (if n < 3 {
        "not enough"@
    } else {
        "too many"@
    }) + " parts ("@ + decimal_text(n) + ")"@
}

/// The detail of a decimal color of which only `n` of the three parts are
/// bytes.
pub open spec fn unparsed(text: Seq<char>, n: nat) -> Seq<char> {
    "couldn't parse \""@ + text + "\" to RgbColor - parsed "@ + decimal_text(n)
        + " segments, expected 3"@
}

/// What a text that starts with `#` stands for. Its length is counted in
/// bytes of UTF-8.
pub open spec fn hex_color(text: Seq<char>) -> Result<RgbColor, ColorFault> {
    let n = utf8_len(text);
    if n == 4 {
        match short_hex(text) {
            Some(color) => Ok(color),
            None => Err(ColorFault::InvalidHexColor(invalid_digit())),
        }
    } else if n == 7 {
        match long_hex(text) {
            Some(color) => Ok(color),
            None => Err(ColorFault::InvalidHexColor(invalid_digit())),
        }
    } else {
        Err(ColorFault::InvalidHexColor(invalid_length(n)))
    }
}

/// The byte that one part of a decimal color writes: white space around it
/// does not count.
pub open spec fn byte_of(part: Seq<char>) -> Option<u8> {
    match decimal_up_to(trimmed(part), 255) {
        Some(n) => Some(n as u8),
        None => None,
    }
}

pub open spec fn one_if_some(byte: Option<u8>) -> nat {
    if byte is Some {
        1
    } else {
        0
    }
}

/// What a text that does not start with `#` stands for.
pub open spec fn numeric_color(text: Seq<char>) -> Result<RgbColor, ColorFault> {
    let parts = split_on(text, ',');
    if parts.len() != 3 {
        Err(ColorFault::InvalidNumericColor(wrong_parts(parts.len())))
    } else {
        let r = byte_of(parts[0]);
        let g = byte_of(parts[1]);
        let b = byte_of(parts[2]);
        if r is Some && g is Some && b is Some {
            Ok(RgbColor(r->0, g->0, b->0))
        } else {
            Err(
                ColorFault::InvalidNumericColor(
                    unparsed(text, one_if_some(r) + one_if_some(g) + one_if_some(b)),
                ),
            )
        }
    }
}

/// What a text stands for as a color.
pub open spec fn color_of(text: Seq<char>) -> Result<RgbColor, ColorFault> {
    if text.len() > 0 && text[0] == '#' {
        hex_color(text)
    } else {
        numeric_color(text)
    }
}

/// The model of the result of parsing.
pub open spec fn outcome(result: Result<RgbColor, RgbColorParseError>) -> Result<
    RgbColor,
    ColorFault,
> {
    match result {
        Ok(color) => Ok(color),
        Err(error) => Err(error@),
    }
}

/// Reads one hexadecimal digit.
pub fn hex_digit(c: char) -> (value: Option<u8>)
    ensures
        match value {
            Some(v) => hex_value(c) == Some(v as nat) && v < 16,
            None => hex_value(c) is None,
        },
{
    if '0' <= c && c <= '9' {
        Some((c as u32 - 0x30) as u8)
    } else if 'a' <= c && c <= 'f' {
        Some((c as u32 - 0x61 + 10) as u8)
    } else if 'A' <= c && c <= 'F' {
        Some((c as u32 - 0x41 + 10) as u8)
    } else {
        None
    }
}

/// Reads two hexadecimal digits as one byte.
fn hex_byte(high: char, low: char) -> (value: Option<u8>)
    ensures
        match value {
            Some(v) => is_hex(high) && is_hex(low) && v == hex_pair(high, low),
            None => !(is_hex(high) && is_hex(low)),
        },
{
    match (hex_digit(high), hex_digit(low)) {
        (Some(h), Some(l)) => Some(h * 16 + l),
        _ => None,
    }
}

/// Reads one part of a decimal color.
pub fn parse_byte(part: &Vec<char>) -> (byte: Option<u8>)
    ensures
        byte == byte_of(part@),
{
    let inner = trim(part);
    match parse_decimal(&inner, 255) {
        Some(n) => Some(n as u8),
        None => None,
    }
}

fn hex_failure() -> (error: RgbColorParseError)
    ensures
        error@ == ColorFault::InvalidHexColor(invalid_digit()),
{
    RgbColorParseError::InvalidHexColor(String::from_str("invalid digit found in string"))
}

impl RgbColorParseError {
    /// What the error says of itself. The detail that it carries is not part
    /// of it.
    pub fn message(&self) -> (text: String)
        ensures
            text@ == message_of(self@),
    {
        match self {
            RgbColorParseError::InvalidHexColor(_) => String::from_str(
                "The hex color was invalid. Either it was the incorrect length or contained non-hex digits.",
            ),
            RgbColorParseError::InvalidNumericColor(_) => String::from_str(
                "The R,G,B color was invalid. Either it was composed of the wrong number of parts, or contained a value over 255.",
            ),
        }
    }
}

impl RgbColor {
    /// Reads a color: `#RGB` or `#RRGGBB` in hexadecimal where the text starts
    /// with `#`, three bytes in decimal with commas between them otherwise.
    pub fn try_from(value: &str) -> (result: Result<RgbColor, RgbColorParseError>)
        ensures
            outcome(result) == color_of(value@),
    {
        let chars = chars_of(value);
        if chars.len() > 0 && chars[0] == '#' {
            let n = value.as_bytes().len();
            if n == 4 || n == 7 {
                if !value.is_ascii() {
                    proof {
                        if short_hex(value@) is Some || long_hex(value@) is Some {
                            assert(vstd::utf8::is_ascii_chars(value@));
                        }
                    }
                    return Err(hex_failure());
                }
                proof {
                    vstd::utf8::is_ascii_chars_encode_utf8(value@);
                }
                let color = if n == 4 {
                    match (
                        hex_byte(chars[1], chars[1]),
                        hex_byte(chars[2], chars[2]),
                        hex_byte(chars[3], chars[3]),
                    ) {
                        (Some(r), Some(g), Some(b)) => Some(RgbColor(r, g, b)),
                        _ => None,
                    }
                } else {
                    match (
                        hex_byte(chars[1], chars[2]),
                        hex_byte(chars[3], chars[4]),
                        hex_byte(chars[5], chars[6]),
                    ) {
                        (Some(r), Some(g), Some(b)) => Some(RgbColor(r, g, b)),
                        _ => None,
                    }
                };
                match color {
                    Some(color) => Ok(color),
                    None => Err(hex_failure()),
                }
            } else {
                let mut detail = String::from_str("Invalid length for a hex color (");
                push_decimal(&mut detail, n as u64);
                detail.append(")");
                assert(detail@ =~= invalid_length(n as nat));
                Err(RgbColorParseError::InvalidHexColor(detail))
            }
        } else {
            let parts = split(&chars, ',');
            let ghost pieces = split_on(value@, ',');
            assert(parts@.len() == pieces.len());
            if parts.len() != 3 {
                let mut detail = if parts.len() < 3 {
                    String::from_str("not enough")
                } else {
                    String::from_str("too many")
                };
                detail.append(" parts (");
                push_decimal(&mut detail, parts.len() as u64);
                detail.append(")");
                assert(detail@ =~= wrong_parts(pieces.len()));
                Err(RgbColorParseError::InvalidNumericColor(detail))
            } else {
                assert(parts@[0]@ == pieces[0] && parts@[1]@ == pieces[1] && parts@[2]@
                    == pieces[2]);
                let r = parse_byte(&parts[0]);
                let g = parse_byte(&parts[1]);
                let b = parse_byte(&parts[2]);
                match (r, g, b) {
                    (Some(r), Some(g), Some(b)) => Ok(RgbColor(r, g, b)),
                    _ => {
                        let mut parsed: u64 = 0;
                        if r.is_some() {
                            parsed += 1;
                        }
                        if g.is_some() {
                            parsed += 1;
                        }
                        if b.is_some() {
                            parsed += 1;
                        }
                        let mut detail = String::from_str("couldn't parse \"");
                        detail.append(value);
                        detail.append("\" to RgbColor - parsed ");
                        push_decimal(&mut detail, parsed);
                        detail.append(" segments, expected 3");
                        assert(detail@ =~= unparsed(value@, parsed as nat));
                        Err(RgbColorParseError::InvalidNumericColor(detail))
                    },
                }
            }
        }
    }
}

/// `#RRGGBB` with six hexadecimal digits is the color whose parts are the
/// three pairs of digits, read in base 16.
pub proof fn lemma_long_hex(text: Seq<char>)
    requires
        text.len() == 7,
        text[0] == '#',
        forall|i: int| 1 <= i < 7 ==> is_hex(#[trigger] text[i]),
    ensures
        color_of(text) == Ok::<RgbColor, ColorFault>(
            RgbColor(
                hex_pair(text[1], text[2]),
                hex_pair(text[3], text[4]),
                hex_pair(text[5], text[6]),
            ),
        ),
{
    assert(vstd::utf8::is_ascii_chars(text)) by {
        assert forall|i: int| 0 <= i < text.len() implies '\0' <= #[trigger] text[i]
            <= '\u{7f}' by {
            if i > 0 {
                assert(is_hex(text[i]));
            }
        }
    }
    vstd::utf8::is_ascii_chars_encode_utf8(text);
    assert(is_hex(text[1]) && is_hex(text[2]) && is_hex(text[3]) && is_hex(text[4]) && is_hex(
        text[5],
    ) && is_hex(text[6]));
}

/// `#RGB` with three hexadecimal digits is the color of `#RRGGBB` with each
/// digit written twice.
pub proof fn lemma_short_hex(r: char, g: char, b: char)
    requires
        is_hex(r),
        is_hex(g),
        is_hex(b),
    ensures
        color_of(seq!['#', r, g, b]) == color_of(seq!['#', r, r, g, g, b, b]),
        color_of(seq!['#', r, g, b]) == Ok::<RgbColor, ColorFault>(
            RgbColor(hex_pair(r, r), hex_pair(g, g), hex_pair(b, b)),
        ),
{
    let short = seq!['#', r, g, b];
    let long = seq!['#', r, r, g, g, b, b];
    assert(vstd::utf8::is_ascii_chars(short));
    vstd::utf8::is_ascii_chars_encode_utf8(short);
    lemma_long_hex(long);
}

/// Three bytes written in decimal with commas between them are the color
/// with those parts.
pub proof fn lemma_decimal_color(r: u8, g: u8, b: u8)
    ensures
        color_of(
            decimal_text(r as nat) + seq![','] + decimal_text(g as nat) + seq![',']
                + decimal_text(b as nat),
        ) == Ok::<RgbColor, ColorFault>(RgbColor(r, g, b)),
{
    let rt = decimal_text(r as nat);
    let gt = decimal_text(g as nat);
    let bt = decimal_text(b as nat);
    let text = rt + seq![','] + gt + seq![','] + bt;
    lemma_decimal_text(r as nat);
    lemma_decimal_text(g as nat);
    lemma_decimal_text(b as nat);
    assert(is_digit(rt[0]) && is_digit(rt.last()));
    assert(is_digit(gt[0]) && is_digit(gt.last()));
    assert(is_digit(bt[0]) && is_digit(bt.last()));
    assert(text[0] == rt[0]);
    lemma_split_three(rt, gt, bt, ',');
    lemma_trimmed_same(rt);
    lemma_trimmed_same(gt);
    lemma_trimmed_same(bt);
}

/// A text that does not start with `#` is no color unless it has three parts
/// between commas and each of them is a byte in decimal.
pub proof fn lemma_decimal_failure(text: Seq<char>)
    requires
        !(text.len() > 0 && text[0] == '#'),
    ensures
        color_of(text) is Ok <==> split_on(text, ',').len() == 3 && forall|i: int|
            0 <= i < 3 ==> byte_of(#[trigger] split_on(text, ',')[i]) is Some,
        color_of(text) is Err ==> color_of(text)->Err_0 is InvalidNumericColor,
{
    let parts = split_on(text, ',');
    if parts.len() == 3 {
        if color_of(text) is Ok {
            assert forall|i: int| 0 <= i < 3 implies byte_of(#[trigger] parts[i]) is Some by {}
        }
        if forall|i: int| 0 <= i < 3 ==> byte_of(#[trigger] parts[i]) is Some {
            assert(byte_of(parts[0]) is Some && byte_of(parts[1]) is Some && byte_of(parts[2])
                is Some);
        }
    }
}

/// A part is a byte exactly if, white space aside, it is an optional `+` and
/// then digits that write a number up to 255.
pub proof fn lemma_byte_of(part: Seq<char>)
    ensures
        byte_of(part) is Some <==> {
            let inner = trimmed(part);
            let digits = if inner.len() > 0 && inner[0] == '+' {
                inner.drop_first()
            } else {
                inner
            };
            digits.len() > 0 && all_digits(digits) && number_of(digits) <= 255
        },
{
}

/// A text that starts with `#` is a color only if it is `#` and three or six
/// hexadecimal digits, and fails as a hexadecimal color otherwise.
pub proof fn lemma_hex_failure(text: Seq<char>)
    requires
        text.len() > 0,
        text[0] == '#',
    ensures
        color_of(text) is Ok <==> (text.len() == 4 || text.len() == 7) && forall|i: int|
            1 <= i < text.len() ==> is_hex(#[trigger] text[i]),
        color_of(text) is Err ==> color_of(text)->Err_0 is InvalidHexColor,
{
    let hex = (text.len() == 4 || text.len() == 7) && forall|i: int|
        1 <= i < text.len() ==> is_hex(#[trigger] text[i]);
    if hex {
        assert(vstd::utf8::is_ascii_chars(text)) by {
            assert forall|i: int| 0 <= i < text.len() implies '\0' <= #[trigger] text[i]
                <= '\u{7f}' by {
                if i > 0 {
                    assert(is_hex(text[i]));
                }
            }
        }
        vstd::utf8::is_ascii_chars_encode_utf8(text);
        assert(is_hex(text[1]) && is_hex(text[2]) && is_hex(text[3]));
        if text.len() == 7 {
            assert(is_hex(text[4]) && is_hex(text[5]) && is_hex(text[6]));
        }
    }
    if color_of(text) is Ok {
        assert(hex);
    }
}

} // verus!
