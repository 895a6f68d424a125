use byte_unit::{Bit, ParseError, Unit, ValueParseError};

fn is_white_space(c: char) -> bool {
    matches!(
        c as u32,
        0x0009..=0x000D
            | 0x0020
            | 0x0085
            | 0x00A0
            | 0x1680
            | 0x2000..=0x200A
            | 0x2028
            | 0x2029
            | 0x202F
            | 0x205F
            | 0x3000
    )
}

#[test]
fn white_space_is_trimmed() {
    let mut count = 0;
    for code in 0..=0x10FFFFu32 {
        let c = match char::from_u32(code) {
            Some(c) => c,
            None => continue,
        };
        assert_eq!(c.is_whitespace(), is_white_space(c), "{code:x}");
        if is_white_space(c) || code % 1021 == 0 || code < 0x3100 {
            let around = format!("{c}KiB{c}");
            let result = Unit::parse_str(&around, false, false);
            if is_white_space(c) {
                assert_eq!(Unit::KiB, result.unwrap(), "{code:x}");
                count += 1;
            } else if c != 'b' && c != 'B' {
                assert!(result.is_err(), "{code:x}");
            }
        }
    }
    assert_eq!(25, count);
    assert_eq!(Unit::MB, Unit::parse_str(" \t\r\n MB \u{2003}\u{3000}", false, false).unwrap());
    assert_eq!(12, Bit::parse_str("\u{a0}12\u{85}").unwrap().as_u128());
    assert!(Unit::parse_str("\u{200b}MB", false, false).is_err());
    assert!(Unit::parse_str("MB\u{180e}", false, false).is_err());
}

#[test]
fn every_character_is_reported_as_it_is() {
    for code in 0..=0x10FFFFu32 {
        let c = match char::from_u32(code) {
            Some(c) => c,
            None => continue,
        };
        if c.is_whitespace() || c.is_ascii_alphanumeric() {
            continue;
        }
        let mut text = String::from("K");
        text.push(c);
        text.push('x');
        match Unit::parse_str(&text, false, false) {
            Err(e) => assert_eq!(c, e.character, "{code:x}"),
            Ok(_) => panic!("{code:x}"),
        }
        if code % 7 == 0 {
            let mut text = String::new();
            text.push(c);
            text.push('1');
            match Bit::parse_str(&text) {
                Err(ParseError::Value(ValueParseError::NotNumber(found))) => {
                    assert_eq!(c, found, "{code:x}")
                },
                _ => panic!("{code:x}"),
            }
        }
    }
}
