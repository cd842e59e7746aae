use luxide::device::{
    is_luxafor, Descriptor, LightSet, Lights, Luxafor, PatternType, RgbColor, SimpleColor, Target,
    WaveType,
};
use luxide::protocol;
use luxide::usb::{
    lights_to_targets, Action, Command, Event, Transmission, LUXAFOR_PID, LUXAFOR_VID,
};
use luxide::LuxaforError;

const SIX: [Lights; 6] = [
    Lights::FlagBottom,
    Lights::FlagMiddle,
    Lights::FlagTop,
    Lights::BackBottom,
    Lights::BackMiddle,
    Lights::BackTop,
];

fn set_of(lights: &[Lights]) -> LightSet {
    lights.iter().fold(LightSet::empty(), |set, light| set.union(LightSet::only(*light)))
}

fn device() -> Luxafor {
    Luxafor::new(Descriptor::Unknown, Descriptor::Unknown, Descriptor::Unknown).unwrap()
}

#[test]
fn the_masks_of_the_sets() {
    assert_eq!(LightSet::empty().bits(), 0);
    assert_eq!(LightSet::all().bits(), 0b111111);
    assert_eq!(Lights::all().bits(), 0b111111);
    assert_eq!(Lights::flag().bits(), 0b000111);
    assert_eq!(Lights::back().bits(), 0b111000);
    for (i, light) in SIX.iter().enumerate() {
        assert_eq!(LightSet::only(*light).bits(), 1 << i);
    }
}

#[test]
fn every_mask_of_six_bits_is_a_set() {
    for bits in 0..=255u8 {
        match LightSet::from_bits(bits) {
            Some(set) => {
                assert!(bits < 64);
                assert_eq!(set.bits(), bits);
                assert_eq!(set.is_empty(), bits == 0);
                assert_eq!(set.is_all(), bits == 63);
                let members = set.iter();
                assert_eq!(members.len() as u32, bits.count_ones());
                for (i, light) in SIX.iter().enumerate() {
                    assert_eq!(set.contains(*light), bits & (1 << i) != 0);
                    assert_eq!(members.contains(light), set.contains(*light));
                }
                assert!(set.same_as(&set_of(&members)));
            }
            None => assert!(bits >= 64),
        }
    }
}

#[test]
fn union_and_comparison() {
    for a in 0..64u8 {
        for b in 0..64u8 {
            let x = LightSet::from_bits(a).unwrap();
            let y = LightSet::from_bits(b).unwrap();
            assert_eq!(x.union(y).bits(), a | b);
            assert_eq!(x.same_as(&y), a == b);
            assert_eq!(x == y, a == b);
        }
    }
}

#[test]
fn the_lights_come_in_order() {
    assert_eq!(Lights::all().iter(), SIX.to_vec());
    assert_eq!(
        set_of(&[Lights::BackTop, Lights::FlagBottom]).iter(),
        vec![Lights::FlagBottom, Lights::BackTop]
    );
    assert_eq!(LightSet::empty().iter(), vec![]);
}

#[test]
fn no_light_comes_to_no_target() {
    assert_eq!(lights_to_targets(LightSet::empty()), vec![]);
}

#[test]
fn all_lights_come_to_one_target() {
    assert_eq!(lights_to_targets(Lights::all()), vec![Target::All]);
    assert_eq!(lights_to_targets(Lights::flag().union(Lights::back())), vec![Target::All]);
}

#[test]
fn a_whole_side_comes_to_one_target() {
    assert_eq!(lights_to_targets(Lights::flag()), vec![Target::Tab]);
    assert_eq!(lights_to_targets(Lights::back()), vec![Target::Back]);
}

#[test]
fn other_sets_come_to_one_target_for_each_light() {
    assert_eq!(
        lights_to_targets(set_of(&[Lights::FlagBottom, Lights::BackTop])),
        vec![Target::TabBottomLed, Target::BackTopLed]
    );
    assert_eq!(
        lights_to_targets(set_of(&[Lights::BackTop, Lights::FlagBottom])),
        vec![Target::TabBottomLed, Target::BackTopLed]
    );
    assert_eq!(lights_to_targets(LightSet::only(Lights::FlagTop)), vec![Target::TabTopLed]);
    assert_eq!(
        lights_to_targets(Lights::flag().union(LightSet::only(Lights::BackMiddle))),
        vec![
            Target::TabBottomLed,
            Target::TabMiddleLed,
            Target::TabTopLed,
            Target::BackMiddleLed
        ]
    );
    let leds = [
        Target::TabBottomLed,
        Target::TabMiddleLed,
        Target::TabTopLed,
        Target::BackBottomLed,
        Target::BackMiddleLed,
        Target::BackTopLed,
    ];
    for bits in 1..63u8 {
        if bits == 0b000111 || bits == 0b111000 {
            continue;
        }
        let expected: Vec<Target> =
            (0..6).filter(|i| bits & (1 << i) != 0).map(|i| leds[i]).collect();
        assert_eq!(lights_to_targets(LightSet::from_bits(bits).unwrap()), expected);
    }
}

#[test]
fn the_codes_on_the_wire() {
    assert_eq!(Target::All.code(), 0xFF);
    assert_eq!(Target::Back.code(), b'B');
    assert_eq!(Target::Tab.code(), b'A');
    assert_eq!(Target::TabBottomLed.code(), 1);
    assert_eq!(Target::TabMiddleLed.code(), 2);
    assert_eq!(Target::TabTopLed.code(), 3);
    assert_eq!(Target::BackBottomLed.code(), 4);
    assert_eq!(Target::BackMiddleLed.code(), 5);
    assert_eq!(Target::BackTopLed.code(), 6);
    assert_eq!(WaveType::Short.code(), 1);
    assert_eq!(WaveType::Long.code(), 2);
    assert_eq!(WaveType::OverlappingShort.code(), 3);
    assert_eq!(WaveType::OverlappingLong.code(), 4);
    assert_eq!(PatternType::Luxafor.code(), 1);
    assert_eq!(PatternType::Random1.code(), 2);
    assert_eq!(PatternType::Random2.code(), 3);
    assert_eq!(PatternType::Random3.code(), 4);
    assert_eq!(PatternType::Police.code(), 5);
    assert_eq!(PatternType::Random4.code(), 6);
    assert_eq!(PatternType::Random5.code(), 7);
    assert_eq!(PatternType::RainbowWave.code(), 8);
}

#[test]
fn the_code_of_a_named_color_is_its_letter() {
    let colors = [
        (SimpleColor::Red, "Red"),
        (SimpleColor::Green, "Green"),
        (SimpleColor::Blue, "Blue"),
        (SimpleColor::Cyan, "Cyan"),
        (SimpleColor::Magenta, "Magenta"),
        (SimpleColor::Yellow, "Yellow"),
        (SimpleColor::White, "White"),
        (SimpleColor::Off, "Off"),
    ];
    for (color, name) in colors {
        assert_eq!(format!("{:?}", color), name);
        assert_eq!(color.code(), name.as_bytes()[0]);
        assert_eq!(protocol::set_simple_color(color), [0, 0, name.as_bytes()[0]]);
    }
    assert_eq!(protocol::set_simple_color(SimpleColor::Red), [0, 0, 'R' as u8]);
    assert_eq!(protocol::set_simple_color(SimpleColor::Red), [0, 0, 0x52]);
}

#[test]
fn the_reports() {
    assert_eq!(protocol::set_rgb_color(RgbColor(1, 2, 3), Target::All), [0, 1, 0xFF, 1, 2, 3]);
    assert_eq!(
        protocol::set_rgb_color(RgbColor(9, 8, 7), Target::BackTopLed),
        [0, 1, 6, 9, 8, 7]
    );
    assert_eq!(
        protocol::fade_to_color(RgbColor(1, 2, 3), Target::Tab, 44),
        [0, 2, 0x41, 1, 2, 3, 44]
    );
    assert_eq!(
        protocol::strobe(RgbColor(1, 2, 3), Target::Back, 31, 5),
        [0, 3, 0x42, 1, 2, 3, 31, 0, 5]
    );
    assert_eq!(
        protocol::wave(RgbColor(1, 2, 3), WaveType::OverlappingShort, 31, 5),
        [0, 4, 3, 1, 2, 3, 0, 5, 31]
    );
    assert_eq!(protocol::pattern(PatternType::Police, 3), [0, 6, 5, 3]);
    assert_eq!(protocol::_get_status(), [0x80, 0, 0, 0, 0, 0, 0, 0]);
}

#[test]
fn a_fade_of_the_flag_is_one_report() {
    let reports = device().fade_to_color(RgbColor(0, 255, 0), Lights::flag(), 0);
    assert_eq!(reports, vec![vec![0, 2, 0x41, 0, 255, 0, 0]]);
    let command = Command::FadeToColor(RgbColor(0, 255, 0), Lights::flag(), 0);
    assert_eq!(device().execute(&command), reports);
}

#[test]
fn one_report_for_each_target() {
    let lux = device();
    let color = RgbColor(10, 20, 30);
    let two = set_of(&[Lights::FlagMiddle, Lights::BackBottom]);
    assert_eq!(
        lux.set_rgb_color(color, two),
        vec![vec![0, 1, 2, 10, 20, 30], vec![0, 1, 4, 10, 20, 30]]
    );
    assert_eq!(
        lux.fade_to_color(color, two, 7),
        vec![vec![0, 2, 2, 10, 20, 30, 7], vec![0, 2, 4, 10, 20, 30, 7]]
    );
    assert_eq!(
        lux.strobe(color, two, 8, 9),
        vec![vec![0, 3, 2, 10, 20, 30, 8, 0, 9], vec![0, 3, 4, 10, 20, 30, 8, 0, 9]]
    );
    assert_eq!(lux.set_rgb_color(color, Lights::all()), vec![vec![0, 1, 0xFF, 10, 20, 30]]);
    assert_eq!(lux.set_rgb_color(color, LightSet::empty()), Vec::<Vec<u8>>::new());
    assert_eq!(lux.fade_to_color(color, LightSet::empty(), 1), Vec::<Vec<u8>>::new());
    assert_eq!(lux.strobe(color, LightSet::empty(), 1, 1), Vec::<Vec<u8>>::new());
    assert_eq!(lux.set_simple_color(SimpleColor::Off), vec![vec![0, 0, b'O']]);
    assert_eq!(
        lux.wave(color, WaveType::Long, 8, 9),
        vec![vec![0, 4, 2, 10, 20, 30, 0, 9, 8]]
    );
    assert_eq!(lux.pattern(PatternType::RainbowWave, 2), vec![vec![0, 6, 8, 2]]);
}

#[test]
fn a_command_gives_the_reports_of_its_method() {
    let lux = device();
    let color = RgbColor(10, 20, 30);
    let lights = Lights::back();
    assert_eq!(
        lux.execute(&Command::SimpleColor(SimpleColor::Cyan)),
        lux.set_simple_color(SimpleColor::Cyan)
    );
    assert_eq!(lux.execute(&Command::RgbColor(color, lights)), lux.set_rgb_color(color, lights));
    assert_eq!(lux.execute(&Command::Strobe(color, lights, 3, 4)), lux.strobe(color, lights, 3, 4));
    assert_eq!(
        lux.execute(&Command::Wave(color, WaveType::Short, 3, 4)),
        lux.wave(color, WaveType::Short, 3, 4)
    );
    assert_eq!(
        lux.execute(&Command::Pattern(PatternType::Random3, 4)),
        lux.pattern(PatternType::Random3, 4)
    );
}

#[test]
fn the_ids_of_the_device() {
    assert_eq!(LUXAFOR_VID, 0x04D8);
    assert_eq!(LUXAFOR_PID, 0xF372);
}

fn known(text: &str) -> Descriptor {
    Descriptor::Known(String::from(text))
}

#[test]
fn a_device_is_taken_by_its_product_text() {
    assert!(Luxafor::new(Descriptor::Unknown, known("LUXAFOR FLAG"), Descriptor::Unknown).is_ok());
    assert!(Luxafor::new(Descriptor::Unknown, known("my Luxafor"), Descriptor::Unknown).is_ok());
    assert!(Luxafor::new(known("x"), Descriptor::Unknown, known("y")).is_ok());
    assert_eq!(
        Luxafor::new(known("x"), known("Blink(1)"), known("y")).unwrap_err(),
        "Unexpected product string: Blink(1)"
    );
    assert_eq!(
        Luxafor::new(known("luxafor"), known(""), known("luxafor")).unwrap_err(),
        "Unexpected product string: "
    );
    assert_eq!(
        Luxafor::new(
            Descriptor::Unknown,
            Descriptor::Unreadable(String::from("hid error")),
            Descriptor::Unknown
        )
        .unwrap_err(),
        "hid error"
    );
    assert!(is_luxafor("a luxafor"));
    assert!(!is_luxafor("a Luxafor"));
}

#[test]
fn the_description_of_a_device() {
    let lux = Luxafor::new(known("Microchip"), known("LUXAFOR FLAG"), known("123")).unwrap();
    assert_eq!(
        lux.describe(),
        "Luxafor device, manufacturer \"Microchip\", product \"LUXAFOR FLAG\", s/n: 123"
    );
    assert_eq!(
        device().describe(),
        "Luxafor device <manufacturer unknown> <product unknown>, <serial number unknown>"
    );
    let failed = || Descriptor::Unreadable(String::from("no"));
    let lux = Luxafor::new(failed(), Descriptor::Unknown, failed()).unwrap();
    assert_eq!(
        lux.describe(),
        "Luxafor device <error getting manufacturer string> <product unknown>"
    );
}

#[test]
fn an_error_says_its_message() {
    assert_eq!(LuxaforError::new("no device").message(), "no device");
}

fn run(reports: Vec<Vec<u8>>, write_ok: &[bool], read_ok: &[bool]) -> (Vec<Vec<u8>>, usize) {
    let mut transmission = Transmission::new(reports);
    let mut event = Event::Start;
    let mut written = Vec::new();
    let mut reads = 0;
    loop {
        event = match transmission.next(event) {
            Action::Write(report) => {
                written.push(report);
                if write_ok[written.len() - 1] {
                    Event::Written
                } else {
                    Event::WriteFailed
                }
            }
            Action::Read => {
                reads += 1;
                if read_ok[written.len() - 1] {
                    Event::Answered
                } else {
                    Event::ReadFailed
                }
            }
            Action::Done => break,
        };
    }
    (written, reads)
}

#[test]
fn every_report_is_written_once_whatever_fails() {
    let reports = vec![vec![1u8], vec![2, 2], vec![3, 3, 3]];
    for mask in 0..64u8 {
        let write_ok: Vec<bool> = (0..3).map(|i| mask & (1 << i) != 0).collect();
        let read_ok: Vec<bool> = (3..6).map(|i| mask & (1 << i) != 0).collect();
        let (written, reads) = run(reports.clone(), &write_ok, &read_ok);
        assert_eq!(written, reports);
        assert_eq!(reads, write_ok.iter().filter(|ok| **ok).count());
    }
}

#[test]
fn an_answer_is_read_only_after_a_report_was_written() {
    let mut transmission = Transmission::new(vec![vec![7u8], vec![8u8]]);
    assert_eq!(transmission.next(Event::Start), Action::Write(vec![7]));
    assert_eq!(transmission.next(Event::Written), Action::Read);
    assert_eq!(transmission.next(Event::ReadFailed), Action::Write(vec![8]));
    assert_eq!(transmission.next(Event::WriteFailed), Action::Done);
    assert_eq!(transmission.next(Event::Answered), Action::Done);
    let mut nothing = Transmission::new(vec![]);
    assert_eq!(nothing.next(Event::Start), Action::Done);
}
