use luxide::device::RgbColor;
use luxide::rgb::{hex_digit, parse_byte, RgbColorParseError};
use std::str::FromStr;

fn hex_detail(text: &str) -> String {
    match RgbColor::try_from(text) {
        Err(RgbColorParseError::InvalidHexColor(detail)) => detail,
        other => panic!("{:?} gave {:?}", text, other),
    }
}

fn numeric_detail(text: &str) -> String {
    match RgbColor::try_from(text) {
        Err(RgbColorParseError::InvalidNumericColor(detail)) => detail,
        other => panic!("{:?} gave {:?}", text, other),
    }
}

#[test]
fn the_palette() {
    assert_eq!(RgbColor::red(), RgbColor(255, 0, 0));
    assert_eq!(RgbColor::green(), RgbColor(0, 255, 0));
    assert_eq!(RgbColor::blue(), RgbColor(0, 0, 255));
    assert_eq!(RgbColor::cyan(), RgbColor(0, 255, 255));
    assert_eq!(RgbColor::magenta(), RgbColor(255, 0, 255));
    assert_eq!(RgbColor::yellow(), RgbColor(255, 255, 0));
    assert_eq!(RgbColor::white(), RgbColor(255, 255, 255));
    assert_eq!(RgbColor::off(), RgbColor(0, 0, 0));
}

#[test]
fn six_hex_digits_are_three_bytes() {
    assert_eq!(RgbColor::try_from("#000000").unwrap(), RgbColor(0, 0, 0));
    assert_eq!(RgbColor::try_from("#ffffff").unwrap(), RgbColor(255, 255, 255));
    assert_eq!(RgbColor::try_from("#FFFFFF").unwrap(), RgbColor(255, 255, 255));
    assert_eq!(RgbColor::try_from("#12aBcD").unwrap(), RgbColor(0x12, 0xab, 0xcd));
    assert_eq!(RgbColor::try_from("#0a0B90").unwrap(), RgbColor(10, 11, 0x90));
}

#[test]
fn every_pair_of_hex_digits_reads_as_std_reads_it() {
    let digits = "0123456789abcdefABCDEF";
    for high in digits.chars() {
        for low in digits.chars() {
            let pair = format!("{}{}", high, low);
            let byte = u8::from_str_radix(&pair, 16).unwrap();
            let text = format!("#{}00{}", pair, pair);
            assert_eq!(RgbColor::try_from(&text).unwrap(), RgbColor(byte, 0, byte));
        }
    }
}

#[test]
fn three_hex_digits_stand_for_themselves_twice() {
    assert_eq!(RgbColor::try_from("#b0b").unwrap(), RgbColor(0xbb, 0x00, 0xbb));
    assert_eq!(RgbColor::try_from("#FfF").unwrap(), RgbColor(255, 255, 255));
    assert_eq!(RgbColor::try_from("#19a").unwrap(), RgbColor(0x11, 0x99, 0xaa));
    let digits = "0123456789abcdefABCDEF";
    for r in digits.chars() {
        for g in digits.chars() {
            for b in digits.chars() {
                let short = format!("#{}{}{}", r, g, b);
                let long = format!("#{}{}{}{}{}{}", r, r, g, g, b, b);
                assert_eq!(
                    RgbColor::try_from(&short).unwrap(),
                    RgbColor::try_from(&long).unwrap()
                );
            }
        }
    }
}

#[test]
fn a_hex_color_of_another_length_is_none() {
    assert_eq!(hex_detail("#"), "Invalid length for a hex color (1)");
    assert_eq!(hex_detail("#1"), "Invalid length for a hex color (2)");
    assert_eq!(hex_detail("#12"), "Invalid length for a hex color (3)");
    assert_eq!(hex_detail("#1234"), "Invalid length for a hex color (5)");
    assert_eq!(hex_detail("#12345"), "Invalid length for a hex color (6)");
    assert_eq!(hex_detail("#1234567"), "Invalid length for a hex color (8)");
    assert_eq!(hex_detail("#123456789abc"), "Invalid length for a hex color (13)");
    // The length is that in bytes.
    assert_eq!(hex_detail("#é"), "Invalid length for a hex color (3)");
    assert_eq!(hex_detail("#ééé1"), "Invalid length for a hex color (8)");
}

#[test]
fn a_hex_color_with_another_character_is_none() {
    let std_says = u8::from_str_radix("g", 16).unwrap_err().to_string();
    assert_eq!(std_says, "invalid digit found in string");
    for text in [
        "#12g", "#g12", "#1g2", "#12345g", "#g12345", "#12 456", "#1 2", "# 12", "#+12", "#-12",
        "#+1+2+3", "#12,34,", "#ééé", "#é1", "#1é", "#0000é",
    ] {
        assert_eq!(hex_detail(text), std_says, "{:?}", text);
    }
}

#[test]
fn three_bytes_in_decimal() {
    assert_eq!(RgbColor::try_from("0,0,0").unwrap(), RgbColor(0, 0, 0));
    assert_eq!(RgbColor::try_from("1,2,3").unwrap(), RgbColor(1, 2, 3));
    assert_eq!(RgbColor::try_from("255,255,255").unwrap(), RgbColor(255, 255, 255));
    assert_eq!(RgbColor::try_from("10,200,30").unwrap(), RgbColor(10, 200, 30));
}

#[test]
fn every_byte_reads_back() {
    for n in 0..=255u8 {
        let text = format!("{},{},{}", n, 255 - n, n / 2);
        assert_eq!(RgbColor::try_from(&text).unwrap(), RgbColor(n, 255 - n, n / 2));
    }
}

#[test]
fn white_space_around_a_part_does_not_count() {
    assert_eq!(RgbColor::try_from(" 1 , 2 , 3 ").unwrap(), RgbColor(1, 2, 3));
    assert_eq!(RgbColor::try_from("\t1,\n2,\u{a0}3\u{3000}").unwrap(), RgbColor(1, 2, 3));
    assert_eq!(RgbColor::try_from(" #fff").unwrap_err().message().len() > 0, true);
    assert_eq!(numeric_detail("1 2,3,4"), "couldn't parse \"1 2,3,4\" to RgbColor - parsed 2 segments, expected 3");
}

#[test]
fn a_part_may_have_a_plus_and_leading_zeros() {
    assert_eq!(RgbColor::try_from("+1,+02,0003").unwrap(), RgbColor(1, 2, 3));
    assert_eq!(RgbColor::try_from("000000000000000000000000255,0,0").unwrap(), RgbColor(255, 0, 0));
}

#[test]
fn a_color_with_other_than_three_parts_is_none() {
    assert_eq!(numeric_detail(""), "not enough parts (1)");
    assert_eq!(numeric_detail("12"), "not enough parts (1)");
    assert_eq!(numeric_detail("red"), "not enough parts (1)");
    assert_eq!(numeric_detail("1,2"), "not enough parts (2)");
    assert_eq!(numeric_detail(","), "not enough parts (2)");
    assert_eq!(numeric_detail("1,2,3,4"), "too many parts (4)");
    assert_eq!(numeric_detail("1,2,3,"), "too many parts (4)");
    assert_eq!(numeric_detail(",,,,,,,,,,,"), "too many parts (12)");
}

#[test]
fn a_part_that_is_no_byte_spoils_the_color() {
    assert_eq!(
        numeric_detail("256,0,0"),
        "couldn't parse \"256,0,0\" to RgbColor - parsed 2 segments, expected 3"
    );
    assert_eq!(
        numeric_detail("1,x,300"),
        "couldn't parse \"1,x,300\" to RgbColor - parsed 1 segments, expected 3"
    );
    assert_eq!(
        numeric_detail(",,"),
        "couldn't parse \",,\" to RgbColor - parsed 0 segments, expected 3"
    );
    for text in [
        "-1,2,3", "1,2,3.0", "1,2,0x3", "1,,3", "1,2,+", "1,2,3 4", "1_0,2,3", "1,2,१", "a,b,c",
        "1,2,99999999999999999999999",
    ] {
        assert!(matches!(
            RgbColor::try_from(text),
            Err(RgbColorParseError::InvalidNumericColor(_))
        ));
    }
}

#[test]
fn a_part_reads_as_std_reads_a_trimmed_byte() {
    let pieces = [
        "", " ", "0", "7", "42", "255", "256", "0255", "+", "+0", "++1", "-0", "1 1", " 12\t",
        "\u{2003}9\u{205f}", "\u{200b}9", "12a", "999", "18446744073709551616", "٣",
    ];
    for piece in pieces {
        let chars: Vec<char> = piece.chars().collect();
        assert_eq!(parse_byte(&chars), u8::from_str(piece.trim()).ok(), "{:?}", piece);
    }
}

#[test]
fn hex_digits_read_as_std_reads_them() {
    for c in (0..0x500u32).filter_map(char::from_u32) {
        assert_eq!(hex_digit(c), c.to_digit(16).map(|d| d as u8), "{:?}", c);
    }
}

#[test]
fn what_the_errors_say() {
    assert_eq!(
        RgbColor::try_from("#1").unwrap_err().message(),
        "The hex color was invalid. Either it was the incorrect length or contained non-hex digits."
    );
    assert_eq!(
        RgbColor::try_from("1").unwrap_err().message(),
        "The R,G,B color was invalid. Either it was composed of the wrong number of parts, or contained a value over 255."
    );
}
