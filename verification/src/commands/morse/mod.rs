//! A message as a Morse signal: the pulses of a text and how long each of
//! them lasts.

pub mod morse_table;

use crate::commands::util::{
    colorspec_to_rgb, is_nonzero_u64, parse_u64, source_color, ColorSource,
};
use crate::device::{all_lights, LightSet, RgbColor, SimpleColor};
use crate::text::{
    ascii_upper, chars_of, decimal_up_to, is_space, lemma_words_append, lemma_words_space,
    split_whitespace, to_ascii_uppercase, views, words_of,
};
use crate::usb::{Command, Request};
use itertools::{Itertools, Position};
use morse_table::{char_to_morse, morse_of, GapType, Morsel};
use vstd::prelude::*;
use vstd::string::*;

verus! {

/// How long a dot lasts at `wpm` words a minute, in milliseconds.
pub open spec fn dot_millis(wpm: u64) -> int {
    1200int / (wpm as int)
}

/// How many dots a pulse lasts.
pub open spec fn dots_of(symbol: Morsel) -> int {
    match symbol {
        Morsel::Dot => 1,
        Morsel::Gap(GapType::Symbol) => 1,
        Morsel::Dash => 3,
        Morsel::Gap(GapType::Letter) => 3,
        Morsel::Gap(GapType::Word) => 7,
    }
}

/// The length of a dot in milliseconds.
pub fn dot_duration(wpm: u64) -> (millis: u64)
    requires
        wpm > 0,
    ensures
        millis == dot_millis(wpm),
        millis <= 1200,
{
    1200 / wpm
}

/// The length of a pulse in milliseconds, given that of a dot.
pub fn symbol_duration(symbol: &Morsel, dot_duration: u64) -> (millis: u64)
    requires
        dot_duration * 7 <= u64::MAX,
    ensures
        millis == dot_duration * dots_of(*symbol),
{
    match symbol {
        Morsel::Dot => dot_duration,
        Morsel::Gap(GapType::Symbol) => dot_duration,
        Morsel::Dash => dot_duration * 3,
        Morsel::Gap(GapType::Letter) => dot_duration * 3,
        Morsel::Gap(GapType::Word) => dot_duration * 7,
    }
}

/// Where an item stands among those it came with.
#[derive(Copy, Clone, Debug, PartialEq, Eq, Structural)]
pub enum Place {
    First,
    Middle,
    Last,
    Only,
}

/// The place of item `i` of `n`.
pub open spec fn place_of(i: int, n: int) -> Place {
    if n == 1 {
        Place::Only
    } else if i == 0 {
        Place::First
    } else if i == n - 1 {
        Place::Last
    } else {
        Place::Middle
    }
}

/// `Itertools::with_position` of itertools: every item comes back with its
/// place, in the same order. A single item is `Only`; of several, the first is
/// `First`, the last is `Last` and the others are `Middle`.
#[verifier::external_body]
fn with_position<T>(items: Vec<T>) -> (placed: Vec<(Place, T)>)
    ensures
        placed@.len() == items@.len(),
        forall|i: int|
            0 <= i < items@.len() ==> #[trigger] placed@[i] == (
                place_of(i, items@.len() as int),
                items@[i],
            ),
{
    items.into_iter().with_position().map(
        |item| match item {
            Position::First(item) => (Place::First, item),
            Position::Middle(item) => (Place::Middle, item),
            Position::Last(item) => (Place::Last, item),
            Position::Only(item) => (Place::Only, item),
        },
    ).collect()
}

/// The parts one after the other, with `gap` between one and the next.
pub open spec fn joined(parts: Seq<Seq<Morsel>>, gap: Morsel) -> Seq<Morsel>
    decreases parts.len(),
{
    if parts.len() == 0 {
        Seq::<Morsel>::empty()
    } else if parts.len() == 1 {
        parts[0]
    } else {
        joined(parts.drop_last(), gap) + seq![gap] + parts.last()
    }
}

/// The pulses of the characters of a word that have a code, each character
/// in upper case.
pub open spec fn letters_of(word: Seq<char>) -> Seq<Seq<Morsel>>
    decreases word.len(),
{
    if word.len() == 0 {
        Seq::<Seq<Morsel>>::empty()
    } else {
        let before = letters_of(word.drop_last());
        match morse_of(ascii_upper(word.last())) {
            Some(pulses) => before.push(pulses),
            None => before,
        }
    }
}

/// The pulses of a word: those of its characters with a gap between one
/// character and the next.
pub open spec fn word_pulses(word: Seq<char>) -> Seq<Morsel> {
    joined(letters_of(word), Morsel::Gap(GapType::Letter))
}

/// The pulses of words: those of each word with a gap between one word and
/// the next.
pub open spec fn words_pulses(words: Seq<Seq<char>>) -> Seq<Morsel> {
    joined(words.map_values(|word: Seq<char>| word_pulses(word)), Morsel::Gap(GapType::Word))
}

/// The pulses of a text: those of its words.
pub open spec fn text_pulses(text: Seq<char>) -> Seq<Morsel> {
    words_pulses(words_of(text))
}

/// Parts joined one behind the other, where there are parts on both sides,
/// are the joined parts of each side with a gap between them.
pub proof fn lemma_joined_append(first: Seq<Seq<Morsel>>, second: Seq<Seq<Morsel>>, gap: Morsel)
    requires
        first.len() > 0,
        second.len() > 0,
    ensures
        joined(first + second, gap) == joined(first, gap) + seq![gap] + joined(second, gap),
    decreases second.len(),
{
    let whole = first + second;
    assert(whole.drop_last() =~= first + second.drop_last());
    assert(whole.last() == second.last());
    if second.len() == 1 {
        assert(first + second.drop_last() =~= first);
        assert(joined(whole, gap) =~= joined(first, gap) + seq![gap] + joined(second, gap));
    } else {
        lemma_joined_append(first, second.drop_last(), gap);
        assert(joined(whole, gap) =~= joined(first, gap) + seq![gap] + joined(second, gap));
    }
}

/// The pulses of two texts with white space between them are the pulses of
/// the first, the gap between words, and the pulses of the second, where
/// each of the two has a word.
pub proof fn lemma_text_pulses_append(first: Seq<char>, space: char, second: Seq<char>)
    requires
        is_space(space),
        words_of(first).len() > 0,
        words_of(second).len() > 0,
    ensures
        text_pulses(first.push(space) + second) == text_pulses(first) + seq![
            Morsel::Gap(GapType::Word),
        ] + text_pulses(second),
{
    lemma_words_space(first, space);
    lemma_words_append(first.push(space), second);
    let a = words_of(first);
    let b = words_of(second);
    let pulses = |word: Seq<char>| word_pulses(word);
    assert((a + b).map_values(pulses) =~= a.map_values(pulses) + b.map_values(pulses));
    lemma_joined_append(a.map_values(pulses), b.map_values(pulses), Morsel::Gap(GapType::Word));
}

/// The views of a vector of pulse vectors.
pub open spec fn pulse_views(parts: Seq<Vec<Morsel>>) -> Seq<Seq<Morsel>> {
    parts.map_values(|part: Vec<Morsel>| part@)
}

/// The views of a vector of texts.
pub open spec fn text_views(texts: Seq<String>) -> Seq<Seq<char>> {
    texts.map_values(|text: String| text@)
}

/// Puts the parts one after the other, with `gap` behind each but the last.
fn join(parts: Vec<Vec<Morsel>>, gap: Morsel) -> (pulses: Vec<Morsel>)
    ensures
        pulses@ == joined(pulse_views(parts@), gap),
{
    let ghost views = pulse_views(parts@);
    let placed = with_position(parts);
    let n = placed.len();
    let mut pulses: Vec<Morsel> = Vec::new();
    let mut i: usize = 0;
    assert(views.take(0) =~= Seq::<Seq<Morsel>>::empty());
    while i < n
        invariant
            i <= n,
            n == placed@.len(),
            n == views.len(),
            forall|k: int|
                0 <= k < n ==> (#[trigger] placed@[k]).0 == place_of(k, n as int) && placed@[k].1@
                    == views[k],
            pulses@ == joined(views.take(i as int), gap) + (if 0 < i < n {
                seq![gap]
            } else {
                Seq::<Morsel>::empty()
            }),
        decreases n - i,
    {
        let ghost before = pulses@;
        let part = &placed[i].1;
        let mut j: usize = 0;
        while j < part.len()
            invariant
                j <= part@.len(),
                pulses@ == before + part@.take(j as int),
            decreases part@.len() - j,
        {
            pulses.push(part[j]);
            j += 1;
            assert(pulses@ =~= before + part@.take(j as int));
        }
        assert(part@.take(j as int) =~= part@);
        assert(views.take(i as int + 1).drop_last() =~= views.take(i as int));
        assert(pulses@ =~= joined(views.take(i as int + 1), gap));
        match placed[i].0 {
            Place::First => {
                pulses.push(gap);
            },
            Place::Middle => {
                pulses.push(gap);
            },
            Place::Last => {},
            Place::Only => {},
        }
        i += 1;
    }
    assert(views.take(n as int) =~= views);
    pulses
}

/// The pulses of the characters of a word.
fn letters(word: &Vec<char>) -> (pulses: Vec<Morsel>)
    ensures
        pulses@ == word_pulses(word@),
{
    let mut found: Vec<Vec<Morsel>> = Vec::new();
    let mut i: usize = 0;
    assert(word@.take(0) =~= Seq::<char>::empty());
    while i < word.len()
        invariant
            i <= word@.len(),
            pulse_views(found@) == letters_of(word@.take(i as int)),
        decreases word@.len() - i,
    {
        assert(word@.take(i as int + 1).drop_last() =~= word@.take(i as int));
        let ghost before = letters_of(word@.take(i as int));
        match char_to_morse(to_ascii_uppercase(word[i])) {
            Ok(pulses) => {
                found.push(pulses);
                assert(pulse_views(found@) =~= before.push(pulses@));
            },
            Err(_) => {},
        }
        i += 1;
    }
    assert(word@.take(i as int) =~= word@);
    join(found, Morsel::Gap(GapType::Letter))
}

/// The pulses of all the words.
fn all_words(words: &Vec<Vec<char>>) -> (pulses: Vec<Morsel>)
    ensures
        pulses@ == words_pulses(views(words@)),
{
    let mut found: Vec<Vec<Morsel>> = Vec::new();
    let mut i: usize = 0;
    while i < words.len()
        invariant
            i <= words@.len(),
            found@.len() == i,
            forall|k: int| 0 <= k < i ==> (#[trigger] found@[k])@ == word_pulses(words@[k]@),
        decreases words@.len() - i,
    {
        found.push(letters(&words[i]));
        i += 1;
    }
    assert(pulse_views(found@) =~= views(words@).map_values(
        |word: Seq<char>| word_pulses(word),
    ));
    join(found, Morsel::Gap(GapType::Word))
}

/// The pulses of a word: its characters in upper case, those without a code
/// left out, and a gap between one character and the next.
pub fn word_to_morse(word: &String) -> (pulses: Vec<Morsel>)
    ensures
        pulses@ == word_pulses(word@),
{
    letters(&chars_of(word.as_str()))
}

/// The pulses of the words, with a gap between one word and the next.
pub fn words_to_morse(words: &Vec<String>) -> (pulses: Vec<Morsel>)
    ensures
        pulses@ == words_pulses(text_views(words@)),
{
    let mut texts: Vec<Vec<char>> = Vec::new();
    let mut i: usize = 0;
    while i < words.len()
        invariant
            i <= words@.len(),
            texts@.len() == i,
            forall|k: int| 0 <= k < i ==> (#[trigger] texts@[k])@ == words@[k]@,
        decreases words@.len() - i,
    {
        texts.push(chars_of(words[i].as_str()));
        i += 1;
    }
    assert(views(texts@) =~= text_views(words@));
    all_words(&texts)
}

/// The pulses of a text: those of its words, which white space parts.
pub fn string_to_morse(words: &String) -> (pulses: Vec<Morsel>)
    ensures
        pulses@ == text_pulses(words@),
{
    let chars = chars_of(words.as_str());
    all_words(&split_whitespace(&chars))
}

/// One step of playing a signal.
#[derive(Debug, PartialEq, Eq)]
pub enum Step {
    /// Write the text to the terminal.
    Echo(String),
    /// Ask the device for something.
    Send(Command),
    /// Wait for so many milliseconds.
    Wait(u64),
}

/// The model of a `Step`.
pub enum StepView {
    Echo(Seq<char>),
    Send(Request),
    Wait(u64),
}

impl View for Step {
    type V = StepView;

    open spec fn view(&self) -> StepView {
        match self {
            Step::Echo(text) => StepView::Echo(text@),
            Step::Send(command) => StepView::Send(command@),
            Step::Wait(millis) => StepView::Wait(*millis),
        }
    }
}

/// The views of the steps.
pub open spec fn step_views(steps: Seq<Step>) -> Seq<StepView> {
    steps.map_values(|step: Step| step@)
}

/// How a pulse is written on the terminal.
pub open spec fn glyph_of(symbol: Morsel) -> Seq<char> {
    match symbol {
        Morsel::Dot => "•"@,
        Morsel::Dash => "-"@,
        Morsel::Gap(GapType::Symbol) => ""@,
        Morsel::Gap(GapType::Letter) => " "@,
        Morsel::Gap(GapType::Word) => " / "@,
    }
}

/// What a pulse asks of the device: the color on every light for a dot or a
/// dash, and the lights off for a gap.
pub open spec fn request_for(symbol: Morsel, color: RgbColor) -> Request {
    match symbol {
        Morsel::Dot => Request::RgbColor(color, all_lights()),
        Morsel::Dash => Request::RgbColor(color, all_lights()),
        Morsel::Gap(_) => Request::SimpleColor(SimpleColor::Off),
    }
}

/// The steps of one pulse: it is echoed unless the play is quiet, the device
/// is asked, and the pulse lasts its time.
pub open spec fn pulse_steps(symbol: Morsel, color: RgbColor, dot: u64, quiet: bool) -> Seq<
    StepView,
> {
    (if quiet {
        Seq::<StepView>::empty()
    } else {
        seq![StepView::Echo(glyph_of(symbol))]
    }) + seq![
        StepView::Send(request_for(symbol, color)),
        StepView::Wait((dot * dots_of(symbol)) as u64),
    ]
}

/// The steps of the pulses, one pulse after the other.
pub open spec fn pulses_steps(pulses: Seq<Morsel>, color: RgbColor, dot: u64, quiet: bool) -> Seq<
    StepView,
>
    decreases pulses.len(),
{
    if pulses.len() == 0 {
        Seq::<StepView>::empty()
    } else {
        pulses_steps(pulses.drop_last(), color, dot, quiet) + pulse_steps(
            pulses.last(),
            color,
            dot,
            quiet,
        )
    }
}

/// The steps of a signal: those of its pulses, and then the lights are
/// turned off once more, whatever the last pulse was; unless the play is
/// quiet, the line on the terminal ends.
pub open spec fn playback(pulses: Seq<Morsel>, color: RgbColor, wpm: u64, quiet: bool) -> Seq<
    StepView,
> {
    pulses_steps(pulses, color, dot_millis(wpm) as u64, quiet) + seq![
        StepView::Send(Request::SimpleColor(SimpleColor::Off)),
    ] + (if quiet {
        Seq::<StepView>::empty()
    } else {
        seq![StepView::Echo("\n"@)]
    })
}

/// How a pulse is written on the terminal.
pub fn glyph(symbol: &Morsel) -> (text: &'static str)
    ensures
        text@ == glyph_of(*symbol),
{
    match symbol {
        Morsel::Dot => "•",
        Morsel::Dash => "-",
        Morsel::Gap(GapType::Symbol) => "",
        Morsel::Gap(GapType::Letter) => " ",
        Morsel::Gap(GapType::Word) => " / ",
    }
}

/// The steps that play a signal in a color at `speed_wpm` words a minute.
pub fn play(pulses: &Vec<Morsel>, color: RgbColor, speed_wpm: u64, quiet: bool) -> (steps: Vec<
    Step,
>)
    requires
        speed_wpm > 0,
    ensures
        step_views(steps@) == playback(pulses@, color, speed_wpm, quiet),
{
    let dot = dot_duration(speed_wpm);
    let mut steps: Vec<Step> = Vec::new();
    let mut i: usize = 0;
    assert(pulses@.take(0) =~= Seq::<Morsel>::empty());
    while i < pulses.len()
        invariant
            i <= pulses@.len(),
            dot <= 1200,
            step_views(steps@) == pulses_steps(pulses@.take(i as int), color, dot, quiet),
        decreases pulses@.len() - i,
    {
        let ghost before = step_views(steps@);
        assert(pulses@.take(i as int + 1).drop_last() =~= pulses@.take(i as int));
        let symbol = pulses[i];
        if !quiet {
            steps.push(Step::Echo(String::from_str(glyph(&symbol))));
        }
        let command = match symbol {
            Morsel::Dot => Command::RgbColor(color, LightSet::all()),
            Morsel::Dash => Command::RgbColor(color, LightSet::all()),
            Morsel::Gap(_) => Command::SimpleColor(SimpleColor::Off),
        };
        steps.push(Step::Send(command));
        steps.push(Step::Wait(symbol_duration(&symbol, dot)));
        i += 1;
        assert(step_views(steps@) =~= before + pulse_steps(symbol, color, dot, quiet));
    }
    assert(pulses@.take(i as int) =~= pulses@);
    let ghost before = step_views(steps@);
    steps.push(Step::Send(Command::SimpleColor(SimpleColor::Off)));
    if !quiet {
        steps.push(Step::Echo(String::from_str("\n")));
    }
    assert(step_views(steps@) =~= playback(pulses@, color, speed_wpm, quiet));
    steps
}

pub struct Morse {}

/// What the Morse command does: it plays the pulses of the message in the
/// color, or tells the user why the color is none.
pub open spec fn morse_plan(color_value: &str, wpm: u64, message: Seq<char>, quiet: bool) -> Result<
    Seq<StepView>,
    Seq<char>,
> {
    match source_color(ColorSource::Text(color_value)) {
        Ok(color) => Ok(playback(text_pulses(message), color, wpm, quiet)),
        Err(fault) => Err(fault),
    }
}

/// The model of the result of the Morse command.
pub open spec fn plan_of(result: Result<Vec<Step>, String>) -> Result<Seq<StepView>, Seq<char>> {
    match result {
        Ok(steps) => Ok(step_views(steps@)),
        Err(fault) => Err(fault@),
    }
}

/// What the check of a message says when there is none.
pub open spec fn no_message() -> Seq<char> {
    "A message was not provided."@
}

/// Accepts every message but the empty one.
pub fn validate_message(message: String) -> (result: Result<(), String>)
    ensures
        result is Ok <==> message@.len() > 0,
        result matches Err(fault) ==> fault@ == no_message(),
{
    if message.as_str().unicode_len() == 0 {
        Err(String::from_str("A message was not provided."))
    } else {
        Ok(())
    }
}

impl Morse {
    /// The steps that signal a message in a color, at a speed in words a
    /// minute that is written in decimal and above zero. With `quiet` the
    /// signal is not echoed to the terminal.
    pub fn exec(color_value: &str, speed_value: &str, message: &String, quiet: bool) -> (result:
        Result<Vec<Step>, String>)
        requires
            is_nonzero_u64(speed_value@),
        ensures
            plan_of(result) == morse_plan(
                color_value,
                decimal_up_to(speed_value@, u64::MAX as nat)->0 as u64,
                message@,
                quiet,
            ),
    {
        match colorspec_to_rgb(ColorSource::Text(color_value)) {
            Err(error) => Err(String::from(error)),
            Ok(color) => {
                let speed = parse_u64(speed_value).unwrap();
                let morsels = string_to_morse(message);
                Ok(play(&morsels, color, speed, quiet))
            },
        }
    }
}

} // verus!
