//! What the commands share: colors and lights from the words of a command
//! line, and the checks on its numbers.

use crate::device::{all_lights, back_lights, flag_lights, LightSet, Lights, RgbColor};
use crate::rgb::{color_of, message_of};
use crate::text::{
    chars_of, count, count_of, decimal_up_to, lowercase, parse_decimal, same, to_lowercase,
    utf8_len,
};
use vstd::prelude::*;
use vstd::string::*;

verus! {

/// A color as a command line gives it: by name, or by its numbers.
#[derive(Clone, Copy, Debug)]
pub enum ColorSpec<'a> {
    NamedColor(&'a str),
    NumericColor(&'a str),
}

/// Where a color comes from: a text that may be a name or numbers, or one
/// that is already known to be the one or the other.
#[derive(Clone, Copy, Debug)]
pub enum ColorSource<'a> {
    Text(&'a str),
    Spec(&'a ColorSpec<'a>),
}

/// Why a text gave no color: the message for the user.
#[derive(Debug)]
pub struct ColorSpecParseError(pub String);

impl View for ColorSpecParseError {
    type V = Seq<char>;

    open spec fn view(&self) -> Seq<char> {
        self.0@
    }
}

impl From<ColorSpecParseError> for String {
    fn from(e: ColorSpecParseError) -> (message: String) {
        e.0
    }
}

impl vstd::std_specs::convert::FromSpecImpl<ColorSpecParseError> for String {
    open spec fn obeys_from_spec() -> bool {
        true
    }

    open spec fn from_spec(e: ColorSpecParseError) -> String {
        e.0
    }
}

/// Whether a color text is a name or numbers. A text that starts with `#`
/// is numbers if it is 4 or 7 bytes long and nothing otherwise; another text
/// is numbers if it has two commas, and a name if not. The empty text is
/// nothing.
pub open spec fn kind_of(text: Seq<char>) -> Option<bool> {
    if text.len() == 0 {
        None
    } else if text[0] == '#' {
        if utf8_len(text) == 4 || utf8_len(text) == 7 {
            Some(true)
        } else {
            None
        }
    } else {
        Some(count_of(text, ',') == 2)
    }
}

impl<'a> ColorSpec<'a> {
    /// Tells a name from numbers.
    pub fn try_from(value: &'a str) -> (result: Result<ColorSpec<'a>, ()>)
        ensures
            match result {
                Ok(ColorSpec::NumericColor(text)) => kind_of(value@) == Some(true) && text@
                    == value@,
                Ok(ColorSpec::NamedColor(text)) => kind_of(value@) == Some(false) && text@
                    == value@,
                Err(_) => kind_of(value@) is None,
            },
    {
        let chars = chars_of(value);
        if chars.len() == 0 {
            Err(())
        } else if chars[0] == '#' {
            let n = value.as_bytes().len();
            if n == 4 || n == 7 {
                Ok(ColorSpec::NumericColor(value))
            } else {
                Err(())
            }
        } else if count(&chars, ',') == 2 {
            Ok(ColorSpec::NumericColor(value))
        } else {
            Ok(ColorSpec::NamedColor(value))
        }
    }
}

/// The color of a name in lower case.
pub open spec fn palette(name: Seq<char>) -> Option<RgbColor> {
    if name == "red"@ {
        Some(RgbColor(255, 0, 0))
    } else if name == "green"@ {
        Some(RgbColor(0, 255, 0))
    } else if name == "blue"@ {
        Some(RgbColor(0, 0, 255))
    } else if name == "cyan"@ {
        Some(RgbColor(0, 255, 255))
    } else if name == "magenta"@ {
        Some(RgbColor(255, 0, 255))
    } else if name == "yellow"@ {
        Some(RgbColor(255, 255, 0))
    } else if name == "white"@ {
        Some(RgbColor(255, 255, 255))
    } else if name == "off"@ {
        Some(RgbColor(0, 0, 0))
    } else {
        None
    }
}

/// The color that numbers stand for.
pub open spec fn numbers_color(text: Seq<char>) -> Result<RgbColor, Seq<char>> {
    match color_of(text) {
        Ok(color) => Ok(color),
        Err(fault) => Err(message_of(fault)),
    }
}

/// The color of a text in lower case that may be a name or numbers.
pub open spec fn text_color(lowered: Seq<char>) -> Result<RgbColor, Seq<char>> {
    match palette(lowered) {
        Some(color) => Ok(color),
        None => numbers_color(lowered),
    }
}

/// The color of a name in lower case.
pub open spec fn name_color(lowered: Seq<char>) -> Result<RgbColor, Seq<char>> {
    match palette(lowered) {
        Some(color) => Ok(color),
        None => Err("Invalid color: \""@ + lowered + "\""@),
    }
}

/// The model of a result with a `ColorSpecParseError`.
pub open spec fn color_result(result: Result<RgbColor, ColorSpecParseError>) -> Result<
    RgbColor,
    Seq<char>,
> {
    match result {
        Ok(color) => Ok(color),
        Err(error) => Err(error@),
    }
}

/// The color of one of the eight names, in lower case.
pub fn named_color(lowered: &str) -> (color: Option<RgbColor>)
    ensures
        color == palette(lowered@),
{
    let name = chars_of(lowered);
    if same(&name, "red") {
        Some(RgbColor::red())
    } else if same(&name, "green") {
        Some(RgbColor::green())
    } else if same(&name, "blue") {
        Some(RgbColor::blue())
    } else if same(&name, "cyan") {
        Some(RgbColor::cyan())
    } else if same(&name, "magenta") {
        Some(RgbColor::magenta())
    } else if same(&name, "yellow") {
        Some(RgbColor::yellow())
    } else if same(&name, "white") {
        Some(RgbColor::white())
    } else if same(&name, "off") {
        Some(RgbColor::off())
    } else {
        None
    }
}

/// The color that numbers stand for, or what to tell the user.
pub fn numbers_to_rgb(text: &str) -> (result: Result<RgbColor, ColorSpecParseError>)
    ensures
        color_result(result) == numbers_color(text@),
{
    match RgbColor::try_from(text) {
        Ok(color) => Ok(color),
        Err(error) => Err(ColorSpecParseError(error.message())),
    }
}

/// The color of a text, already in lower case, that may be a name or
/// numbers.
pub fn text_to_rgb(lowered: &str) -> (result: Result<RgbColor, ColorSpecParseError>)
    ensures
        color_result(result) == text_color(lowered@),
{
    match named_color(lowered) {
        Some(color) => Ok(color),
        None => numbers_to_rgb(lowered),
    }
}

/// The color of a name, already in lower case.
pub fn name_to_rgb(lowered: &str) -> (result: Result<RgbColor, ColorSpecParseError>)
    ensures
        color_result(result) == name_color(lowered@),
{
    match named_color(lowered) {
        Some(color) => Ok(color),
        None => {
            let mut message = String::from_str("Invalid color: \"");
            message.append(lowered);
            message.append("\"");
            Err(ColorSpecParseError(message))
        },
    }
}

/// The color that a source stands for. Names count in any case: a text is
/// read in lower case.
pub open spec fn source_color(source: ColorSource) -> Result<RgbColor, Seq<char>> {
    match source {
        ColorSource::Text(text) => text_color(lowercase(text@)),
        ColorSource::Spec(ColorSpec::NamedColor(name)) => name_color(lowercase(name@)),
        ColorSource::Spec(ColorSpec::NumericColor(numbers)) => numbers_color(numbers@),
    }
}

/// The color of a source: one of the eight names, or numbers as
/// `RgbColor::try_from` reads them.
pub fn colorspec_to_rgb(color_spec: ColorSource) -> (result: Result<
    RgbColor,
    ColorSpecParseError,
>)
    ensures
        color_result(result) == source_color(color_spec),
{
    match color_spec {
        ColorSource::Text(text) => {
            let lowered = to_lowercase(text);
            text_to_rgb(lowered.as_str())
        },
        ColorSource::Spec(ColorSpec::NamedColor(name)) => {
            let lowered = to_lowercase(name);
            name_to_rgb(lowered.as_str())
        },
        ColorSource::Spec(ColorSpec::NumericColor(numbers)) => numbers_to_rgb(numbers),
    }
}

/// What the check of a number says when it fails.
pub open spec fn not_a_number() -> Seq<char> {
    "Value was out of range or not an integer."@
}

/// The byte that a text writes in decimal.
pub fn parse_u8(text: &str) -> (byte: Option<u8>)
    ensures
        match byte {
            Some(b) => decimal_up_to(text@, 255) == Some(b as nat),
            None => decimal_up_to(text@, 255) is None,
        },
{
    match parse_decimal(&chars_of(text), 255) {
        Some(n) => Some(n as u8),
        None => None,
    }
}

/// The number that a text writes in decimal, if 64 bits hold it.
pub fn parse_u64(text: &str) -> (number: Option<u64>)
    ensures
        match number {
            Some(n) => decimal_up_to(text@, u64::MAX as nat) == Some(n as nat),
            None => decimal_up_to(text@, u64::MAX as nat) is None,
        },
{
    parse_decimal(&chars_of(text), u64::MAX)
}

/// Accepts the texts that write a byte in decimal.
pub fn validate_string_is_u8(str: String) -> (result: Result<(), String>)
    ensures
        result is Ok <==> decimal_up_to(str@, 255) is Some,
        result matches Err(message) ==> message@ == not_a_number(),
{
    match parse_u8(str.as_str()) {
        Some(_) => Ok(()),
        None => Err(String::from_str("Value was out of range or not an integer.")),
    }
}

/// Whether a text writes a number above zero that 64 bits hold.
pub open spec fn is_nonzero_u64(text: Seq<char>) -> bool {
    decimal_up_to(text, u64::MAX as nat) matches Some(n) && n > 0
}

/// Accepts the texts that write, in decimal, a number above zero that 64
/// bits hold.
pub fn validate_string_is_nonzero_u64(str: String) -> (result: Result<(), String>)
    ensures
        result is Ok <==> is_nonzero_u64(str@),
        result matches Err(message) ==> message@ == not_a_number(),
{
    match parse_u64(str.as_str()) {
        Some(n) => if n > 0 {
            Ok(())
        } else {
            Err(String::from_str("Value was out of range or not an integer."))
        },
        None => Err(String::from_str("Value was out of range or not an integer.")),
    }
}

/// The lights that a word in lower case names: `all`; `flag` or `f`; `back`
/// or `b`; or one light, by its name or its number from 1 to 6. Any other
/// word names none.
pub open spec fn word_lights(word: Seq<char>) -> Set<Lights> {
    if word == "all"@ {
        all_lights()
    } else if word == "f"@ || word == "flag"@ {
        flag_lights()
    } else if word == "b"@ || word == "back"@ {
        back_lights()
    } else if word == "1"@ || word == "flag-bottom"@ {
        set![Lights::FlagBottom]
    } else if word == "2"@ || word == "flag-middle"@ {
        set![Lights::FlagMiddle]
    } else if word == "3"@ || word == "flag-top"@ {
        set![Lights::FlagTop]
    } else if word == "4"@ || word == "back-bottom"@ {
        set![Lights::BackBottom]
    } else if word == "5"@ || word == "back-middle"@ {
        set![Lights::BackMiddle]
    } else if word == "6"@ || word == "back-top"@ {
        set![Lights::BackTop]
    } else {
        Set::<Lights>::empty()
    }
}

/// The lights that any of the words names.
pub open spec fn words_lights(words: Seq<Seq<char>>) -> Set<Lights>
    decreases words.len(),
{
    if words.len() == 0 {
        Set::<Lights>::empty()
    } else {
        words_lights(words.drop_last()).union(word_lights(words.last()))
    }
}

/// The lights that words in lower case choose: nothing is chosen where there
/// are no words; `all` among them chooses every light, whatever the others
/// are; else the lights are those that the words name, and words that name
/// none are passed over.
pub open spec fn chosen_lights(words: Seq<Seq<char>>) -> Option<Set<Lights>> {
    if words.contains("all"@) {
        Some(all_lights())
    } else if words.len() == 0 {
        None
    } else {
        Some(words_lights(words))
    }
}

/// The model of an optional set of lights.
pub open spec fn lights_view(lights: Option<LightSet>) -> Option<Set<Lights>> {
    match lights {
        Some(set) => Some(set@),
        None => None,
    }
}

/// The views of a vector of words.
pub open spec fn word_views(words: Seq<String>) -> Seq<Seq<char>> {
    words.map_values(|word: String| word@)
}

/// The words in lower case.
pub open spec fn lowered_views(words: Seq<String>) -> Seq<Seq<char>> {
    words.map_values(|word: String| lowercase(word@))
}

/// The lights that a word in lower case names.
pub fn lights_of_word(word: &str) -> (lights: LightSet)
    ensures
        lights@ == word_lights(word@),
{
    let w = chars_of(word);
    if same(&w, "all") {
        Lights::all()
    } else if same(&w, "f") || same(&w, "flag") {
        Lights::flag()
    } else if same(&w, "b") || same(&w, "back") {
        Lights::back()
    } else if same(&w, "1") || same(&w, "flag-bottom") {
        LightSet::only(Lights::FlagBottom)
    } else if same(&w, "2") || same(&w, "flag-middle") {
        LightSet::only(Lights::FlagMiddle)
    } else if same(&w, "3") || same(&w, "flag-top") {
        LightSet::only(Lights::FlagTop)
    } else if same(&w, "4") || same(&w, "back-bottom") {
        LightSet::only(Lights::BackBottom)
    } else if same(&w, "5") || same(&w, "back-middle") {
        LightSet::only(Lights::BackMiddle)
    } else if same(&w, "6") || same(&w, "back-top") {
        LightSet::only(Lights::BackTop)
    } else {
        LightSet::empty()
    }
}

/// The lights that words, already in lower case, choose.
pub fn choose_lights(words: &Vec<String>) -> (lights: Option<LightSet>)
    ensures
        lights_view(lights) == chosen_lights(word_views(words@)),
{
    let ghost views = word_views(words@);
    let n = words.len();
    let mut has_all = false;
    let mut lights = LightSet::empty();
    let mut i: usize = 0;
    assert(views.take(0) =~= Seq::<Seq<char>>::empty());
    while i < n
        invariant
            i <= n,
            n == words@.len(),
            views == word_views(words@),
            has_all == views.take(i as int).contains("all"@),
            lights@ == words_lights(views.take(i as int)),
        decreases n - i,
    {
        let ghost prefix = views.take(i as int);
        let ghost next = views.take(i as int + 1);
        assert(next.drop_last() =~= prefix);
        assert(next.last() == words@[i as int]@);
        if same(&chars_of(words[i].as_str()), "all") {
            has_all = true;
            assert(next[i as int] == "all"@);
        } else {
            assert(next.contains("all"@) ==> prefix.contains("all"@)) by {
                if next.contains("all"@) {
                    let k = choose|k: int| 0 <= k < next.len() && next[k] == "all"@;
                    assert(prefix[k] == "all"@);
                }
            }
            assert(prefix.contains("all"@) ==> next.contains("all"@)) by {
                if prefix.contains("all"@) {
                    let k = choose|k: int| 0 <= k < prefix.len() && prefix[k] == "all"@;
                    assert(next[k] == "all"@);
                }
            }
        }
        lights = lights.union(lights_of_word(words[i].as_str()));
        i += 1;
    }
    assert(views.take(n as int) =~= views);
    if has_all {
        Some(Lights::all())
    } else if n == 0 {
        None
    } else {
        Some(lights)
    }
}

/// The lights that the words of a command line choose, if it has any. The
/// words count in any case.
pub fn parse_lights(values: Option<Vec<String>>) -> (lights: Option<LightSet>)
    ensures
        match values {
            Some(words) => lights_view(lights) == chosen_lights(lowered_views(words@)),
            None => lights is None,
        },
{
    match values {
        None => None,
        Some(words) => {
            let mut lowered: Vec<String> = Vec::new();
            let mut i: usize = 0;
            while i < words.len()
                invariant
                    i <= words@.len(),
                    lowered@.len() == i,
                    forall|k: int|
                        0 <= k < i ==> (#[trigger] lowered@[k])@ == lowercase(words@[k]@),
                decreases words@.len() - i,
            {
                lowered.push(to_lowercase(words[i].as_str()));
                i += 1;
            }
            assert(word_views(lowered@) =~= lowered_views(words@));
            choose_lights(&lowered)
        },
    }
}

} // verus!
