use byte_unit::decimal::Decimal;
use byte_unit::{Bit, Byte, Unit};

#[test]
fn sizes_from_units() {
    assert_eq!(15000000, Bit::from_u128_with_unit(15, Unit::Mbit).unwrap().as_u128());
    assert_eq!(15728640, Bit::from_i128_with_unit(15, Unit::Mibit).unwrap().as_u128());
    assert_eq!(120000000, Bit::from_u64_with_unit(15, Unit::MB).unwrap().as_u128());
    assert_eq!(15, Bit::from_i64_with_unit(15, Unit::Bit).unwrap().as_u128());
    assert_eq!(120, Bit::from_u64_with_unit(15, Unit::B).unwrap().as_u128());
    assert_eq!(15000000, Byte::from_u128_with_unit(15, Unit::MB).unwrap().as_u128());
    assert_eq!(1875000, Byte::from_u64_with_unit(15, Unit::Mbit).unwrap().as_u128());
    assert_eq!(15, Byte::from_i64_with_unit(15, Unit::B).unwrap().as_u128());
}

#[test]
fn bits_become_whole_bytes() {
    let cases: [(u128, u128); 10] =
        [(0, 0), (1, 1), (4, 1), (7, 1), (8, 1), (9, 2), (11, 2), (16, 2), (17, 3), (24, 3)];
    for (bits, bytes) in cases {
        assert_eq!(bytes, Byte::from_u128_with_unit(bits, Unit::Bit).unwrap().as_u128());
        assert_eq!(bytes, Byte::from_u64_with_unit(bits as u64, Unit::Bit).unwrap().as_u128());
        assert_eq!(bytes, Byte::from_i128_with_unit(bits as i128, Unit::Bit).unwrap().as_u128());
        let d = Decimal::from_u128(bits).unwrap();
        assert_eq!(bytes, Byte::from_decimal_with_unit(d, Unit::Bit).unwrap().as_u128());
    }
    assert_eq!(1, Byte::parse_str("1.1b", false).unwrap().as_u128());
    assert_eq!(2, Byte::parse_str("8.1b", false).unwrap().as_u128());
    assert_eq!(
        999_999_999_999_999_999_999_999_999,
        Byte::from_u128_with_unit(7_999_999_999_999_999_999_999_999_992, Unit::Bit)
            .unwrap()
            .as_u128()
    );
    assert_eq!(None, Byte::from_u128_with_unit(7_999_999_999_999_999_999_999_999_993, Unit::Bit));
    assert_eq!(None, Byte::from_u128_with_unit(u128::MAX, Unit::Bit));
}

#[test]
fn sizes_from_decimals_with_units() {
    let one_and_a_half = Decimal::try_from_i128_with_scale(15, 1).unwrap();
    assert_eq!(1500, Bit::from_decimal_with_unit(one_and_a_half, Unit::Kbit).unwrap().as_u128());
    assert_eq!(2, Bit::from_decimal_with_unit(one_and_a_half, Unit::Bit).unwrap().as_u128());
    assert_eq!(12, Bit::from_decimal_with_unit(one_and_a_half, Unit::B).unwrap().as_u128());
    assert_eq!(1536, Byte::from_decimal_with_unit(one_and_a_half, Unit::KiB).unwrap().as_u128());
    assert_eq!(2, Byte::from_decimal_with_unit(one_and_a_half, Unit::B).unwrap().as_u128());
    assert_eq!(188, Byte::from_decimal_with_unit(one_and_a_half, Unit::Kbit).unwrap().as_u128());
    let third = Decimal::try_from_i128_with_scale(3333333333333333333333333333, 28).unwrap();
    assert_eq!(334, Bit::from_decimal_with_unit(third, Unit::Kbit).unwrap().as_u128());
    let below = Decimal::try_from_i128_with_scale(-15, 1).unwrap();
    assert_eq!(None, Bit::from_decimal_with_unit(below, Unit::Kbit));
    assert_eq!(None, Byte::from_decimal_with_unit(below, Unit::Bit));
    let large = Decimal::from_u128(79228162514264337593543950335).unwrap();
    assert_eq!(None, Bit::from_decimal_with_unit(large, Unit::Kbit));
    assert_eq!(None, Bit::from_decimal(large));
}

#[test]
fn sizes_as_integers() {
    assert_eq!(1000, Bit::parse_str("1kb").unwrap().as_u64());
    assert_eq!(u64::MAX, Bit::parse_str("1zb").unwrap().as_u64());
    assert_eq!(Some(1000), Bit::parse_str("1k").unwrap().as_u64_checked());
    assert_eq!(None, Bit::parse_str("1zb").unwrap().as_u64_checked());
    assert_eq!(u64::MAX, Byte::from_u128(u64::MAX as u128).unwrap().as_u64());
    assert_eq!(Some(u64::MAX), Byte::from_u128(u64::MAX as u128).unwrap().as_u64_checked());
    assert_eq!(u64::MAX, Byte::from_u128(u64::MAX as u128 + 1).unwrap().as_u64());
    assert_eq!(None, Byte::from_u128(u64::MAX as u128 + 1).unwrap().as_u64_checked());
    assert_eq!(5, Bit::from_u128_unsafe(5).as_u128());
    assert_eq!(5, Byte::from_u128_unsafe(5).as_u128());
}

#[test]
fn arithmetic() {
    let a = Bit::from_u64(1024);
    let b = Bit::from_u64(512);

    assert_eq!(1536, a.add(b).unwrap().as_u64());
    assert_eq!(512, a.subtract(b).unwrap().as_u64());
    assert_eq!(0, a.subtract(a).unwrap().as_u64());
    assert_eq!(None, b.subtract(a));
    assert_eq!(102400, a.multiply(100).unwrap().as_u64());
    assert_eq!(0, a.multiply(0).unwrap().as_u64());
    assert_eq!(10, a.divide(100).unwrap().as_u64());
    assert_eq!(0, b.divide(513).unwrap().as_u64());
    assert_eq!(None, a.divide(0));
    assert_eq!(8192, a.mul_8().as_u64());

    let max = Bit::max_value();
    assert_eq!(None, max.add(Bit::from_u64(1)));
    assert_eq!(Some(max), max.add(Bit::from_u64(0)));
    assert_eq!(None, max.multiply(2));
    assert_eq!(Some(max), max.multiply(1));
    assert_eq!(None, max.multiply(usize::MAX));

    let a = Byte::from_u64(1024);
    let b = Byte::from_u64(512);

    assert_eq!(1536, a.add(b).unwrap().as_u64());
    assert_eq!(512, a.subtract(b).unwrap().as_u64());
    assert_eq!(None, b.subtract(a));
    assert_eq!(102400, a.multiply(100).unwrap().as_u64());
    assert_eq!(10, a.divide(100).unwrap().as_u64());
    assert_eq!(None, a.divide(0));
    assert_eq!(128, a.div_8().as_u64());
    assert_eq!(0, Byte::from_u64(7).div_8().as_u64());
    assert_eq!(None, Byte::max_value().add(b));
    assert!(a > b);
    assert!(Bit::from_u64(3) < Bit::from_u64(4));
    assert_eq!(Bit::default(), Bit::min_value());
}

#[test]
fn decimals() {
    assert_eq!(None, Decimal::try_from_i128_with_scale(1, 29));
    assert_eq!(None, Decimal::try_from_i128_with_scale(79228162514264337593543950336, 0));
    assert_eq!(None, Decimal::try_from_i128_with_scale(-79228162514264337593543950336, 0));
    assert_eq!(None, Decimal::from_u128(79228162514264337593543950336));
    let d = Decimal::try_from_i128_with_scale(-12345, 3).unwrap();
    assert_eq!(-12345, d.mantissa());
    assert_eq!(3, d.scale());
    assert_eq!("-12.345", d.to_string());
    assert_eq!("0.05", Decimal::try_from_i128_with_scale(5, 2).unwrap().to_string());
    assert_eq!("0.00", Decimal::try_from_i128_with_scale(0, 2).unwrap().to_string());
    assert_eq!("0", Decimal::from_u8(0).to_string());
    assert_eq!("255", Decimal::from_u8(255).to_string());
    assert_eq!("12.340", Decimal::try_from_i128_with_scale(12340, 3).unwrap().to_string());
    assert_eq!(
        Decimal::try_from_i128_with_scale(10, 1).unwrap(),
        Decimal::try_from_i128_with_scale(1000, 3).unwrap()
    );
    assert_ne!(
        Decimal::try_from_i128_with_scale(10, 1).unwrap(),
        Decimal::try_from_i128_with_scale(10, 0).unwrap()
    );
    assert_ne!(Decimal::from_u8(1), Decimal::try_from_i128_with_scale(-1, 0).unwrap());
}

#[test]
fn numbers_with_spaces() {
    assert_eq!(1, Bit::parse_str("  1  ").unwrap().as_u128());
    assert_eq!(1000, Bit::parse_str("\t1   Kb\n").unwrap().as_u128());
    assert_eq!(1500, Bit::parse_str("1.5    Kb").unwrap().as_u128());
    assert_eq!(12, Bit::parse_str("012").unwrap().as_u128());
    assert_eq!(1, Bit::parse_str("0.5").unwrap().as_u128());
    assert_eq!(1, Bit::parse_str("1.000").unwrap().as_u128());
    assert_eq!(11, Bit::parse_str("10.10").unwrap().as_u128());
    assert!(Bit::parse_str("1 2").is_err());
    assert!(Bit::parse_str("1.5.3").is_err());
    assert!(Bit::parse_str("1 .5").is_err());
    assert!(Bit::parse_str("1\tKb").is_err());
    assert!(Bit::parse_str("1 K b").is_err());
    assert_eq!(1000, Bit::parse_str("1Kbit").unwrap().as_u128());
    assert_eq!(1024, Bit::parse_str("1 Kibits").unwrap().as_u128());
    assert_eq!(1000, Byte::parse_str("8Kbit", false).unwrap().as_u128());
    assert_eq!(1000, Byte::parse_str("8KBit", true).unwrap().as_u128());
    assert_eq!(8000, Byte::parse_str("8Kb", true).unwrap().as_u128());
}
