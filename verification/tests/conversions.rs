use std::str::FromStr;

use byte_unit::{Bit, Byte, ByteUnit, ExceededBoundsError, ParseError, Unit, ValueParseError};

#[test]
fn sizes_from_integers() {
    assert_eq!(Bit::from_u64(7), Bit::from(7u64));
    assert_eq!(Bit::from_u64(7), Bit::from(7u32));
    assert_eq!(Bit::from_u64(7), Bit::from(7u16));
    assert_eq!(Bit::from_u64(7), Bit::from(7u8));
    assert_eq!(Bit::from_u64(7), Bit::from(7usize));
    assert_eq!(Ok(Bit::from_u64(7)), Bit::try_from(7u128));
    assert_eq!(Ok(Bit::from_u64(7)), Bit::try_from(7i128));
    assert_eq!(Ok(Bit::from_u64(7)), Bit::try_from(7i64));
    assert_eq!(Ok(Bit::from_u64(7)), Bit::try_from(7i32));
    assert_eq!(Ok(Bit::from_u64(7)), Bit::try_from(7i16));
    assert_eq!(Ok(Bit::from_u64(7)), Bit::try_from(7i8));
    assert_eq!(Ok(Bit::from_u64(7)), Bit::try_from(7isize));
    assert_eq!(Err(ExceededBoundsError), Bit::try_from(1_000_000_000_000_000_000_000_000_000u128));
    assert_eq!(Err(ExceededBoundsError), Bit::try_from(1_000_000_000_000_000_000_000_000_000i128));
    assert_eq!(Err(ExceededBoundsError), Bit::try_from(-1i128));
    assert_eq!(Err(ExceededBoundsError), Bit::try_from(-1i64));
    assert_eq!(Err(ExceededBoundsError), Bit::try_from(-1i32));
    assert_eq!(Err(ExceededBoundsError), Bit::try_from(-1i16));
    assert_eq!(Err(ExceededBoundsError), Bit::try_from(-1i8));
    assert_eq!(Err(ExceededBoundsError), Bit::try_from(-1isize));

    assert_eq!(Byte::from_u64(7), Byte::from(7u64));
    assert_eq!(Byte::from_u64(7), Byte::from(7u32));
    assert_eq!(Byte::from_u64(7), Byte::from(7u16));
    assert_eq!(Byte::from_u64(7), Byte::from(7u8));
    assert_eq!(Byte::from_u64(7), Byte::from(7usize));
    assert_eq!(Ok(Byte::from_u64(7)), Byte::try_from(7u128));
    assert_eq!(Ok(Byte::from_u64(7)), Byte::try_from(7i128));
    assert_eq!(Ok(Byte::from_u64(7)), Byte::try_from(7i64));
    assert_eq!(Ok(Byte::from_u64(7)), Byte::try_from(7i32));
    assert_eq!(Ok(Byte::from_u64(7)), Byte::try_from(7i16));
    assert_eq!(Ok(Byte::from_u64(7)), Byte::try_from(7i8));
    assert_eq!(Ok(Byte::from_u64(7)), Byte::try_from(7isize));
    assert_eq!(Err(ExceededBoundsError), Byte::try_from(u128::MAX));
    assert_eq!(Err(ExceededBoundsError), Byte::try_from(i128::MIN));
    assert_eq!(Err(ExceededBoundsError), Byte::try_from(i64::MIN));
    assert_eq!(Err(ExceededBoundsError), Byte::try_from(-5i8));
}

#[test]
fn integers_from_sizes() {
    let small = Bit::from_u64(200);
    let large = Bit::from_u128(u64::MAX as u128 + 1).unwrap();

    assert_eq!(200u128, u128::from(small));
    assert_eq!(u64::MAX as u128 + 1, u128::from(large));
    assert_eq!(200u64, u64::from(small));
    assert_eq!(u64::MAX, u64::from(large));
    assert_eq!(Ok(200u32), u32::try_from(small));
    assert_eq!(Ok(200u16), u16::try_from(small));
    assert_eq!(Ok(200u8), u8::try_from(small));
    assert_eq!(Ok(200usize), usize::try_from(small));
    assert!(u8::try_from(Bit::from_u64(256)).is_err());
    assert!(u16::try_from(Bit::from_u64(65536)).is_err());
    assert!(u32::try_from(Bit::from_u64(1 << 32)).is_err());
    assert!(u32::try_from(large).is_err());
    assert!(small == 200u64);
    assert!(small == 200u128);
    assert!(200u64 == small);
    assert!(200u128 == small);
    assert!(small != 201u64);
    assert!(large != u64::MAX);

    let small = Byte::from_u64(200);
    let large = Byte::from_u128(u64::MAX as u128 + 1).unwrap();

    assert_eq!(200u128, u128::from(small));
    assert_eq!(200u64, u64::from(small));
    assert_eq!(u64::MAX, u64::from(large));
    assert_eq!(Ok(200u32), u32::try_from(small));
    assert_eq!(Ok(200u16), u16::try_from(small));
    assert_eq!(Ok(200u8), u8::try_from(small));
    assert_eq!(Ok(200usize), usize::try_from(small));
    assert!(u8::try_from(Byte::from_u64(256)).is_err());
    assert!(u32::try_from(large).is_err());
    assert!(small == 200u64);
    assert!(200u128 == small);
    assert!(large != u64::MAX);
}

#[test]
fn values_from_text() {
    assert_eq!(1000, Bit::from_str("1kb").unwrap().as_u128());
    assert_eq!(Ok(1000), Byte::from_str("1kb").map(|b| b.as_u128()));
    assert_eq!(8000, "1kB".parse::<Bit>().unwrap().as_u128());
    assert!("".parse::<Bit>().is_err());
    assert_eq!(Unit::KB, "K".parse::<Unit>().unwrap());
    assert_eq!(Unit::Kbit, "Kb".parse::<Unit>().unwrap());
    assert_eq!(Unit::B, "".parse::<Unit>().unwrap());
    assert!("Kx".parse::<Unit>().is_err());
    assert_eq!(ByteUnit::KiB, "Ki".parse::<ByteUnit>().unwrap());
    assert!("Y".parse::<ByteUnit>().is_err());
    assert_eq!(8192u128, u128::from(Unit::KiB));
    assert_eq!(1u128, u128::from(Unit::Bit));

    let error = ParseError::from(ValueParseError::NoValue);
    assert_eq!("no value can be found", error.to_string());
    let error = ParseError::from(Unit::parse_str("bi", false, false).unwrap_err());
    assert_eq!("the character 'i' is incorrect (no character is expected)", error.to_string());
}
