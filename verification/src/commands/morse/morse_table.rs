//! The Morse code: the pulses of the letters, the digits and some
//! punctuation.

use crate::text::chars_of;
use vstd::prelude::*;

verus! {

/// One pulse of a signal: the light is on for a dot or a dash and off for a
/// gap.
#[derive(Copy, Clone, Debug, PartialEq, Eq, Structural)]
pub enum Morsel {
    Dot,
    Dash,
    Gap(GapType),
}

/// What a gap parts: the marks of one character, the characters of a word,
/// or the words.
#[derive(Copy, Clone, Debug, PartialEq, Eq, Structural)]
pub enum GapType {
    Symbol,
    Letter,
    Word,
}

/// The code of a character, written with `.` for a dot and `-` for a dash.
/// Letters are capitals; a character without a code has none.
pub open spec fn code_of(ch: char) -> Option<Seq<char>> {
    match ch {
        'A' => Some(".-"@),
        'B' => Some("-..."@),
        'C' => Some("-.-."@),
        'D' => Some("-.."@),
        'E' => Some("."@),
        'F' => Some("..-."@),
        'G' => Some("--."@),
        'H' => Some("...."@),
        'I' => Some(".."@),
        'J' => Some(".---"@),
        'K' => Some("-.-"@),
        'L' => Some(".-.."@),
        'M' => Some("--"@),
        'N' => Some("-."@),
        'O' => Some("---"@),
        'P' => Some(".--."@),
        'Q' => Some("--.-"@),
        'R' => Some(".-."@),
        'S' => Some("..."@),
        'T' => Some("-"@),
        'U' => Some("..-"@),
        'V' => Some("...-"@),
        'W' => Some(".--"@),
        'X' => Some("-..-"@),
        'Y' => Some("-.--"@),
        'Z' => Some("--.."@),
        '0' => Some("-----"@),
        '1' => Some(".----"@),
        '2' => Some("..---"@),
        '3' => Some("...--"@),
        '4' => Some("....-"@),
        '5' => Some("....."@),
        '6' => Some("-...."@),
        '7' => Some("--..."@),
        '8' => Some("---.."@),
        '9' => Some("----."@),
        '.' => Some(".-.-.-"@),
        ',' => Some("--..--"@),
        '?' => Some("..--.."@),
        '\\' => Some(".----."@),
        '!' => Some("-.-.--"@),
        '(' => Some("-.--."@),
        ')' => Some("-.--.-"@),
        '&' => Some(".-..."@),
        ':' => Some("---..."@),
        ';' => Some("-.-.-."@),
        '=' => Some("-...-"@),
        '+' => Some(".-.-."@),
        '-' => Some("-....-"@),
        '_' => Some("..--.-"@),
        '"' => Some(".-..-."@),
        '$' => Some("...-..-"@),
        '@' => Some(".--.-."@),
        _ => None,
    }
}

/// The mark that a character of a code stands for.
pub open spec fn mark_of(c: char) -> Morsel {
    if c == '-' {
        Morsel::Dash
    } else {
        Morsel::Dot
    }
}

/// The pulses of a code: its marks, with a gap between one and the next.
pub open spec fn pulses_of(code: Seq<char>) -> Seq<Morsel>
    decreases code.len(),
{
    if code.len() == 0 {
        Seq::<Morsel>::empty()
    } else if code.len() == 1 {
        seq![mark_of(code[0])]
    } else {
        pulses_of(code.drop_last()) + seq![Morsel::Gap(GapType::Symbol), mark_of(code.last())]
    }
}

/// The pulses of a code are its marks with a gap after each but the last.
pub proof fn lemma_pulses_of(code: Seq<char>)
    requires
        code.len() > 0,
    ensures
        pulses_of(code).len() == 2 * code.len() - 1,
        forall|i: int|
            0 <= i < code.len() ==> #[trigger] pulses_of(code)[2 * i] == mark_of(code[i]),
        forall|i: int|
            0 <= i < code.len() - 1 ==> #[trigger] pulses_of(code)[2 * i + 1] == Morsel::Gap(
                GapType::Symbol,
            ),
    decreases code.len(),
{
    if code.len() > 1 {
        let front = code.drop_last();
        lemma_pulses_of(front);
        assert forall|i: int| 0 <= i < code.len() implies #[trigger] pulses_of(code)[2 * i]
            == mark_of(code[i]) by {
            if i < code.len() - 1 {
                assert(pulses_of(front)[2 * i] == mark_of(front[i]));
            }
        }
        assert forall|i: int| 0 <= i < code.len() - 1 implies #[trigger] pulses_of(code)[2 * i
            + 1] == Morsel::Gap(GapType::Symbol) by {
            if i < code.len() - 2 {
                assert(pulses_of(front)[2 * i + 1] == Morsel::Gap(GapType::Symbol));
            }
        }
    }
}

/// The pulses of a character, if it has a code.
pub open spec fn morse_of(ch: char) -> Option<Seq<Morsel>> {
    match code_of(ch) {
        Some(code) => Some(pulses_of(code)),
        None => None,
    }
}

/// The code of a character as text.
fn code(ch: char) -> (code: Option<&'static str>)
    ensures
        match code {
            Some(text) => code_of(ch) == Some(text@),
            None => code_of(ch) is None,
        },
{
    match ch {
        'A' => Some(".-"),
        'B' => Some("-..."),
        'C' => Some("-.-."),
        'D' => Some("-.."),
        'E' => Some("."),
        'F' => Some("..-."),
        'G' => Some("--."),
        'H' => Some("...."),
        'I' => Some(".."),
        'J' => Some(".---"),
        'K' => Some("-.-"),
        'L' => Some(".-.."),
        'M' => Some("--"),
        'N' => Some("-."),
        'O' => Some("---"),
        'P' => Some(".--."),
        'Q' => Some("--.-"),
        'R' => Some(".-."),
        'S' => Some("..."),
        'T' => Some("-"),
        'U' => Some("..-"),
        'V' => Some("...-"),
        'W' => Some(".--"),
        'X' => Some("-..-"),
        'Y' => Some("-.--"),
        'Z' => Some("--.."),
        '0' => Some("-----"),
        '1' => Some(".----"),
        '2' => Some("..---"),
        '3' => Some("...--"),
        '4' => Some("....-"),
        '5' => Some("....."),
        '6' => Some("-...."),
        '7' => Some("--..."),
        '8' => Some("---.."),
        '9' => Some("----."),
        '.' => Some(".-.-.-"),
        ',' => Some("--..--"),
        '?' => Some("..--.."),
        '\\' => Some(".----."),
        '!' => Some("-.-.--"),
        '(' => Some("-.--."),
        ')' => Some("-.--.-"),
        '&' => Some(".-..."),
        ':' => Some("---..."),
        ';' => Some("-.-.-."),
        '=' => Some("-...-"),
        '+' => Some(".-.-."),
        '-' => Some("-....-"),
        '_' => Some("..--.-"),
        '"' => Some(".-..-."),
        '$' => Some("...-..-"),
        '@' => Some(".--.-."),
        _ => None,
    }
}

/// The pulses of a character: `Err` for one that has no code.
pub fn char_to_morse(ch: char) -> (result: Result<Vec<Morsel>, ()>)
    ensures
        match result {
            Ok(pulses) => morse_of(ch) == Some(pulses@),
            Err(_) => morse_of(ch) is None,
        },
{
    match code(ch) {
        None => Err(()),
        Some(text) => {
            let marks = chars_of(text);
            let mut pulses: Vec<Morsel> = Vec::new();
            let mut i: usize = 0;
            assert(marks@.take(0) =~= Seq::<char>::empty());
            while i < marks.len()
                invariant
                    i <= marks@.len(),
                    pulses@ == pulses_of(marks@.take(i as int)),
                decreases marks@.len() - i,
            {
                assert(marks@.take(i as int + 1).drop_last() =~= marks@.take(i as int));
                if i > 0 {
                    pulses.push(Morsel::Gap(GapType::Symbol));
                }
                let mark = if marks[i] == '-' {
                    Morsel::Dash
                } else {
                    Morsel::Dot
                };
                pulses.push(mark);
                i += 1;
                assert(pulses@ =~= pulses_of(marks@.take(i as int)));
            }
            assert(marks@.take(i as int) =~= marks@);
            Ok(pulses)
        },
    }
}

} // verus!
