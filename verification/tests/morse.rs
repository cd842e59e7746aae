use luxide::commands::morse;
use luxide::commands::morse::morse_table::{
    char_to_morse,
    GapType::{Letter, Symbol, Word},
    Morsel,
    Morsel::{Dash, Dot, Gap},
};
use luxide::commands::morse::{Morse, Step};
use luxide::device::{LightSet, RgbColor, SimpleColor};
use luxide::usb::Command;

fn sos() -> Vec<Morsel> {
    vec![
        Dot,
        Gap(Symbol),
        Dot,
        Gap(Symbol),
        Dot,
        Gap(Letter),
        Dash,
        Gap(Symbol),
        Dash,
        Gap(Symbol),
        Dash,
        Gap(Letter),
        Dot,
        Gap(Symbol),
        Dot,
        Gap(Symbol),
        Dot,
    ]
}

fn lol() -> Vec<Morsel> {
    vec![
        Dot,
        Gap(Symbol),
        Dash,
        Gap(Symbol),
        Dot,
        Gap(Symbol),
        Dot,
        Gap(Letter),
        Dash,
        Gap(Symbol),
        Dash,
        Gap(Symbol),
        Dash,
        Gap(Letter),
        Dot,
        Gap(Symbol),
        Dash,
        Gap(Symbol),
        Dot,
        Gap(Symbol),
        Dot,
    ]
}

fn sos_lol() -> Vec<Morsel> {
    let mut expected = sos();
    expected.push(Gap(Word));
    expected.extend(lol());
    expected
}

#[test]
fn word_to_morse() {
    let word = String::from("sos");
    let morse = morse::word_to_morse(&word);
    let expected = sos();

    println!("{}", word);
    println!("expected: {:?}", expected);
    println!("got:      {:?}", morse);

    assert_eq!(morse.len(), expected.len(), "Arrays aren't the same length");
    assert_eq!(
        format!("{:?}", morse),
        format!("{:?}", expected),
        "Debug output differs"
    );
}

#[test]
fn words_to_morse() {
    let words = vec![String::from("sos"), String::from("lol")];
    let morse = morse::words_to_morse(&words);
    let expected = sos_lol();

    println!("{:?}", words);
    println!("expected: {:?}", expected);
    println!("got:      {:?}", morse);

    assert_eq!(morse.len(), expected.len(), "Arrays aren't the same length");
    assert_eq!(
        format!("{:?}", morse),
        format!("{:?}", expected),
        "Debug output differs"
    );
}

#[test]
fn string_to_morse() {
    let string = String::from("sos lol");
    let morse = morse::string_to_morse(&string);
    let expected = sos_lol();

    println!("{:?}", string);
    println!("expected: {:?}", expected);
    println!("got:      {:?}", morse);

    assert_eq!(morse.len(), expected.len(), "Arrays aren't the same length");
    assert_eq!(
        format!("{:?}", morse),
        format!("{:?}", expected),
        "Debug output differs"
    );
}

#[test]
fn sos_is_seventeen_pulses_without_a_trailing_gap() {
    let morse = morse::string_to_morse(&String::from("SOS"));
    assert_eq!(morse.len(), 17);
    assert_eq!(morse, sos());
}

#[test]
fn two_words_are_joined_by_a_word_gap() {
    let both = morse::string_to_morse(&String::from("SOS LOL"));
    let mut expected = morse::string_to_morse(&String::from("SOS"));
    expected.push(Gap(Word));
    expected.extend(morse::string_to_morse(&String::from("LOL")));
    assert_eq!(both, expected);
}

#[test]
fn white_space_of_any_kind_and_length_parts_words() {
    let plain = morse::string_to_morse(&String::from("sos lol"));
    assert_eq!(morse::string_to_morse(&String::from("  sos \t\n lol  ")), plain);
    assert_eq!(morse::string_to_morse(&String::from("sos\u{3000}lol")), plain);
    assert_eq!(morse::string_to_morse(&String::from("")), vec![]);
    assert_eq!(morse::string_to_morse(&String::from("   ")), vec![]);
}

#[test]
fn characters_without_a_code_are_left_out() {
    assert_eq!(
        morse::word_to_morse(&String::from("s#o~s")),
        sos()
    );
    assert_eq!(morse::word_to_morse(&String::from("#")), vec![]);
    // A word that comes to nothing still stands between two gaps.
    assert_eq!(
        morse::string_to_morse(&String::from("e # t")),
        vec![Dot, Gap(Word), Gap(Word), Dash]
    );
}

#[test]
fn letters_count_in_either_case() {
    for (lower, upper) in ('a'..='z').zip('A'..='Z') {
        assert_eq!(
            morse::word_to_morse(&lower.to_string()),
            char_to_morse(upper).unwrap()
        );
    }
}

#[test]
fn the_table_holds_letters_digits_and_punctuation() {
    let coded = "ABCDEFGHIJKLMNOPQRSTUVWXYZ0123456789.,?\\!()&:;=+-_\"$@";
    let mut count = 0;
    for c in (0..0x3000u32).filter_map(char::from_u32) {
        match char_to_morse(c) {
            Ok(pulses) => {
                count += 1;
                assert!(coded.contains(c));
                assert!(pulses.len() % 2 == 1);
                for (i, pulse) in pulses.iter().enumerate() {
                    if i % 2 == 1 {
                        assert_eq!(*pulse, Gap(Symbol));
                    } else {
                        assert!(*pulse == Dot || *pulse == Dash);
                    }
                }
            }
            Err(()) => assert!(!coded.contains(c)),
        }
    }
    assert_eq!(count, 53);
    assert_eq!(char_to_morse('a'), Err(()));
}

#[test]
fn some_codes() {
    assert_eq!(char_to_morse('E'), Ok(vec![Dot]));
    assert_eq!(char_to_morse('T'), Ok(vec![Dash]));
    assert_eq!(char_to_morse('A'), Ok(vec![Dot, Gap(Symbol), Dash]));
    assert_eq!(
        char_to_morse('0'),
        Ok(vec![
            Dash,
            Gap(Symbol),
            Dash,
            Gap(Symbol),
            Dash,
            Gap(Symbol),
            Dash,
            Gap(Symbol),
            Dash
        ])
    );
    assert_eq!(
        char_to_morse('$'),
        Ok(vec![
            Dot,
            Gap(Symbol),
            Dot,
            Gap(Symbol),
            Dot,
            Gap(Symbol),
            Dash,
            Gap(Symbol),
            Dot,
            Gap(Symbol),
            Dot,
            Gap(Symbol),
            Dash
        ])
    );
    assert_eq!(
        char_to_morse('\\'),
        Ok(vec![
            Dot,
            Gap(Symbol),
            Dash,
            Gap(Symbol),
            Dash,
            Gap(Symbol),
            Dash,
            Gap(Symbol),
            Dash,
            Gap(Symbol),
            Dot
        ])
    );
}

#[test]
fn a_dot_lasts_120_ms_at_ten_words_a_minute() {
    let dot = morse::dot_duration(10);
    assert_eq!(dot, 120);
    assert_eq!(morse::symbol_duration(&Dot, dot), 120);
    assert_eq!(morse::symbol_duration(&Gap(Symbol), dot), 120);
    assert_eq!(morse::symbol_duration(&Dash, dot), 360);
    assert_eq!(morse::symbol_duration(&Gap(Letter), dot), 360);
    assert_eq!(morse::symbol_duration(&Gap(Word), dot), 840);
}

#[test]
fn the_length_of_a_dot_is_rounded_down() {
    assert_eq!(morse::dot_duration(1), 1200);
    assert_eq!(morse::dot_duration(7), 171);
    assert_eq!(morse::dot_duration(1200), 1);
    assert_eq!(morse::dot_duration(1201), 0);
    assert_eq!(morse::dot_duration(u64::MAX), 0);
}

fn on(color: RgbColor) -> Step {
    Step::Send(Command::RgbColor(color, LightSet::all()))
}

fn off() -> Step {
    Step::Send(Command::SimpleColor(SimpleColor::Off))
}

#[test]
fn a_dash_holds_the_color_for_360_ms() {
    let color = RgbColor(1, 2, 3);
    let steps = morse::play(&vec![Dash], color, 10, true);
    assert_eq!(steps, vec![on(color), Step::Wait(360), off()]);
}

#[test]
fn playing_ends_with_the_lights_off() {
    let color = RgbColor(9, 8, 7);
    assert_eq!(morse::play(&vec![], color, 10, true), vec![off()]);
    let steps = morse::play(&vec![Dot, Gap(Symbol), Dash, Gap(Word)], color, 20, true);
    assert_eq!(
        steps,
        vec![
            on(color),
            Step::Wait(60),
            off(),
            Step::Wait(60),
            on(color),
            Step::Wait(180),
            off(),
            Step::Wait(420),
            off(),
        ]
    );
}

#[test]
fn playing_aloud_echoes_every_pulse() {
    let color = RgbColor::white();
    let steps = morse::play(
        &vec![Dot, Gap(Symbol), Dash, Gap(Letter), Dot, Gap(Word), Dash],
        color,
        1200,
        false,
    );
    let echo = |text: &str| Step::Echo(String::from(text));
    assert_eq!(
        steps,
        vec![
            echo("•"),
            on(color),
            Step::Wait(1),
            echo(""),
            off(),
            Step::Wait(1),
            echo("-"),
            on(color),
            Step::Wait(3),
            echo(" "),
            off(),
            Step::Wait(3),
            echo("•"),
            on(color),
            Step::Wait(1),
            echo(" / "),
            off(),
            Step::Wait(7),
            echo("-"),
            on(color),
            Step::Wait(3),
            off(),
            echo("\n"),
        ]
    );
}

#[test]
fn the_morse_command_plays_the_message() {
    let steps = Morse::exec("Red", "10", &String::from("e t"), true).unwrap();
    let red = RgbColor(255, 0, 0);
    assert_eq!(
        steps,
        vec![
            on(red),
            Step::Wait(120),
            off(),
            Step::Wait(840),
            on(red),
            Step::Wait(360),
            off(),
        ]
    );
    let steps = Morse::exec("#00f", "+600", &String::from("E"), true).unwrap();
    assert_eq!(steps, vec![on(RgbColor(0, 0, 255)), Step::Wait(2), off()]);
}

#[test]
fn the_morse_command_refuses_what_is_no_color() {
    assert_eq!(
        Morse::exec("pink", "10", &String::from("e"), true),
        Err(String::from(
            "The R,G,B color was invalid. Either it was composed of the wrong number of parts, or contained a value over 255."
        ))
    );
    assert_eq!(
        Morse::exec("#12", "10", &String::from("e"), true),
        Err(String::from(
            "The hex color was invalid. Either it was the incorrect length or contained non-hex digits."
        ))
    );
}

#[test]
fn a_message_must_not_be_empty() {
    assert_eq!(morse::validate_message(String::from("x")), Ok(()));
    assert_eq!(morse::validate_message(String::from(" ")), Ok(()));
    assert_eq!(
        morse::validate_message(String::new()),
        Err(String::from("A message was not provided."))
    );
}

#[test]
fn glyphs() {
    assert_eq!(morse::glyph(&Dot), "•");
    assert_eq!(morse::glyph(&Dash), "-");
    assert_eq!(morse::glyph(&Gap(Symbol)), "");
    assert_eq!(morse::glyph(&Gap(Letter)), " ");
    assert_eq!(morse::glyph(&Gap(Word)), " / ");
}
