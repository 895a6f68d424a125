use byte_unit::decimal::Decimal;
use byte_unit::errors::{ByteError, ExceededBoundsError};
use byte_unit::{Bit, Byte, ByteUnit, ParseError, Unit, UnitParseError, ValueParseError};

fn unit_error(r: Result<Unit, UnitParseError>) -> (char, Vec<char>, bool) {
    match r {
        Err(e) => (e.character, e.expected_characters.to_vec(), e.also_expect_no_character),
        Ok(unit) => panic!("{}", unit.as_str()),
    }
}

#[test]
fn no_value() {
    assert!(matches!(Bit::parse_str(""), Err(ParseError::Value(ValueParseError::NoValue))));
    assert!(matches!(Bit::parse_str("   "), Err(ParseError::Value(ValueParseError::NoValue))));
    assert!(matches!(
        Byte::parse_str(" \t\n", true),
        Err(ParseError::Value(ValueParseError::NoValue))
    ));
    assert_eq!("no value can be found", Bit::parse_str("").unwrap_err().to_string());
}

#[test]
fn not_a_number() {
    assert!(matches!(
        Bit::parse_str("-1"),
        Err(ParseError::Value(ValueParseError::NotNumber('-')))
    ));
    assert!(matches!(
        Bit::parse_str("b"),
        Err(ParseError::Value(ValueParseError::NotNumber('b')))
    ));
    assert!(matches!(
        Bit::parse_str("1."),
        Err(ParseError::Value(ValueParseError::NotNumber('.')))
    ));
    assert!(matches!(
        Bit::parse_str("1.x"),
        Err(ParseError::Value(ValueParseError::NotNumber('x')))
    ));
    assert!(matches!(
        Bit::parse_str("1. 5"),
        Err(ParseError::Value(ValueParseError::NotNumber(' ')))
    ));
    assert!(matches!(
        Byte::parse_str(".5", false),
        Err(ParseError::Value(ValueParseError::NotNumber('.')))
    ));
    assert_eq!(
        "the character '-' is not a number",
        Bit::parse_str("-1").unwrap_err().to_string()
    );
}

#[test]
fn characters_of_several_bytes() {
    assert!(matches!(
        Bit::parse_str("é"),
        Err(ParseError::Value(ValueParseError::NotNumber('é')))
    ));
    assert!(matches!(
        Bit::parse_str("1.中"),
        Err(ParseError::Value(ValueParseError::NotNumber('中')))
    ));
    assert_eq!('é', unit_error(Unit::parse_str("é", false, false)).0);
    assert_eq!('中', unit_error(Unit::parse_str("K中", false, false)).0);
    assert_eq!('😀', unit_error(Unit::parse_str("Kib😀", false, false)).0);
    assert_eq!('\u{7ff}', unit_error(Unit::parse_str("\u{7ff}", false, false)).0);
    assert_eq!('\u{800}', unit_error(Unit::parse_str("\u{800}", false, false)).0);
    assert_eq!('\u{ffff}', unit_error(Unit::parse_str("\u{ffff}", false, false)).0);
    assert_eq!('\u{10000}', unit_error(Unit::parse_str("\u{10000}", false, false)).0);
    assert_eq!('\u{10ffff}', unit_error(Unit::parse_str("\u{10ffff}", false, false)).0);
    match Bit::parse_str("12 ü") {
        Err(ParseError::Unit(e)) => assert_eq!('ü', e.character),
        _ => panic!("12 ü"),
    }
    match ByteUnit::from_str("Kö") {
        Err(e) => assert_eq!('ö', e.character),
        Ok(_) => panic!("Kö"),
    }
}

#[test]
fn number_too_long() {
    assert!(matches!(
        Bit::parse_str("79228162514264337593543950336"),
        Err(ParseError::Value(ValueParseError::NumberTooLong))
    ));
    assert!(matches!(
        Bit::parse_str("100000000000000000000000000000"),
        Err(ParseError::Value(ValueParseError::NumberTooLong))
    ));
    assert!(matches!(
        Bit::parse_str("0.00000000000000000000000000001"),
        Err(ParseError::Value(ValueParseError::NumberTooLong))
    ));
    assert!(matches!(
        Byte::parse_str("79228162514264337593543950335.9", false),
        Err(ParseError::Value(ValueParseError::NumberTooLong))
    ));
    assert_eq!(
        "value number is too long",
        Bit::parse_str("100000000000000000000000000000").unwrap_err().to_string()
    );
    assert_eq!(1, Bit::parse_str("0.0000000000000000000000000001").unwrap().as_u128());
}

#[test]
fn exceeded_bounds() {
    match Bit::parse_str("79228162514264337593543950335") {
        Err(ParseError::Value(ValueParseError::ExceededBounds(value))) => {
            assert_eq!(79228162514264337593543950335, value.mantissa());
            assert_eq!(0, value.scale());
        },
        _ => panic!("the largest decimal"),
    }
    match Byte::parse_str("1.5 YiB", false) {
        Ok(byte) => assert_eq!(1813388729421943762059264, byte.as_u128()),
        Err(e) => panic!("{}", e.to_string()),
    }
    match Byte::parse_str("1000.5 YB", false) {
        Err(ParseError::Value(ValueParseError::ExceededBounds(value))) => {
            assert_eq!(Decimal::try_from_i128_with_scale(10005, 1).unwrap(), value);
        },
        _ => panic!("1000.5 YB"),
    }
    assert_eq!(
        "the value 1000.5 exceeds the valid range",
        Byte::parse_str("1000.5 YB", false).unwrap_err().to_string()
    );
    assert_eq!("value exceeds the valid range", ExceededBoundsError.to_string());
}

#[test]
fn unexpected_in_unit() {
    let prefixes = vec!['B', 'K', 'M', 'G', 'T', 'P', 'E', 'Z', 'Y'];
    assert_eq!(('c', prefixes.clone(), true), unit_error(Unit::parse_str("c", true, false)));
    assert_eq!(('i', prefixes, true), unit_error(Unit::parse_str("i", true, false)));
    assert_eq!(('c', vec!['i'], true), unit_error(Unit::parse_str("bc", true, false)));
    assert_eq!(('i', vec![], true), unit_error(Unit::parse_str("bi", true, false)));
    assert_eq!(('i', vec![], true), unit_error(Unit::parse_str("BI", true, false)));
    assert_eq!(('c', vec!['t'], false), unit_error(Unit::parse_str("bic", true, false)));
    assert_eq!(('c', vec!['s'], true), unit_error(Unit::parse_str("bitc", true, false)));
    assert_eq!(('c', vec![], true), unit_error(Unit::parse_str("bitsc", true, false)));
    assert_eq!(('c', vec!['B', 'b'], true), unit_error(Unit::parse_str("Kc", false, true)));
    assert_eq!(('c', vec!['B'], true), unit_error(Unit::parse_str("Kc", true, true)));
    assert_eq!(('c', vec!['b'], true), unit_error(Unit::parse_str("Kc", true, false)));
    assert_eq!(('c', vec!['B', 'b'], true), unit_error(Unit::parse_str("Kic", false, true)));
    assert_eq!(('c', vec!['i'], true), unit_error(Unit::parse_str("Kibc", true, false)));
    assert_eq!(('i', vec!['B', 'b'], true), unit_error(Unit::parse_str("Kii", false, false)));
}

#[test]
fn messages_of_unit_errors() {
    let message = |text: &str| Unit::parse_str(text, false, false).unwrap_err().to_string();

    assert_eq!("the character 'i' is incorrect (no character is expected)", message("bi"));
    assert_eq!("the character 'c' is incorrect ('t' is expected)", message("bic"));
    assert_eq!("the character 'c' is incorrect ('i' or no character is expected)", message("bc"));
    assert_eq!(
        "the character 'c' is incorrect ('B', 'b' or no character or no character is expected)",
        message("Kc")
    );
    assert_eq!(
        "the character 'c' is incorrect ('B', 'K', 'M', 'G', 'T', 'P', 'E', 'Z', 'Y' or no character or no character is expected)",
        message("c")
    );
    assert_eq!(
        "the character '\\'' is incorrect ('i' or no character is expected)",
        message("b'")
    );
    assert_eq!(
        "the character 'x' is incorrect ('B' or 'i' is expected) is expected)",
        ByteUnit::from_str("Kx").unwrap_err().to_string()
    );
    assert_eq!(
        "the character '2' is incorrect ('B', 'K', 'M', 'G', 'T', 'P', 'E', 'Z', 'Y' or no character or no character is expected)",
        Bit::parse_str("1 2").unwrap_err().to_string()
    );
}

#[test]
fn errors_in_words() {
    assert_eq!(Ok(8), Byte::from_str("8 B").map(|b| b.get_bytes()));
    assert_eq!(Ok(8), Byte::from_str("8").map(|b| b.get_bytes()));
    assert_eq!(Ok(8), Byte::from_str("8 b").map(|b| b.get_bytes()));
    assert_eq!(Ok(8000), Byte::from_str("8 kb").map(|b| b.get_bytes()));
    assert_eq!(Ok(8192), Byte::from_str("8 kib").map(|b| b.get_bytes()));
    assert_eq!(Ok(8000), Byte::from_str("8 k").map(|b| b.get_bytes()));
    assert_eq!(Ok(125952), Byte::from_str("123KiB").map(|b| b.get_bytes()));
    assert_eq!(Ok(50840000), Byte::from_str("50.84 MB").map(|b| b.get_bytes()));
    assert_eq!(
        Err(ByteError::ValueIncorrect(String::from("no value can be found"))),
        Byte::from_str("")
    );
    assert_eq!(
        Err(ByteError::ValueIncorrect(String::from("the character 'x' is not a number"))),
        Byte::from_str("x")
    );
    assert_eq!(
        Err(ByteError::UnitIncorrect(String::from(
            "the character 'x' is incorrect ('i' or no character is expected)"
        ))),
        Byte::from_str("1 bx")
    );
    assert_eq!(Some(1500000), Byte::from_bytes(1500000).map(|b| b.get_bytes()));
    assert_eq!(None, Byte::from_bytes(u128::MAX));
}
