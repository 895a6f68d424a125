use byte_unit::decimal::Decimal;
use byte_unit::format::Formatting;
use byte_unit::{Bit, Byte, Unit, UnitType};

fn with_unit(precision: usize) -> Formatting {
    Formatting {
        with_unit: true,
        precision: Some(precision),
        width: None,
        align: None,
        wide: false,
        compact: false,
    }
}

fn samples() -> Vec<u128> {
    let mut sizes: Vec<u128> = vec![
        0,
        1,
        7,
        8,
        9,
        124,
        125,
        999,
        1000,
        1001,
        1023,
        1024,
        1025,
        1536,
        123456,
        3211776,
        3670016,
        15000000,
        15000001,
        18446744073709551615,
        18446744073709551616,
        1208925819614629174706176,
        999_999_999_999_999_999_999_999_999,
    ];
    let mut v: u128 = 3;
    while v < 999_999_999_999_999_999_999_999_999 / 7 {
        sizes.push(v);
        sizes.push(v + 1);
        v = v * 7 + 5;
    }
    for unit in Unit::get_multiples() {
        sizes.push(unit.as_bits_u128());
        sizes.push(unit.as_bits_u128() - 1);
        sizes.push(unit.as_bits_u128() + 1);
        sizes.push(unit.as_bits_u128() * 3 / 2);
    }
    sizes
}

#[test]
fn written_sizes_are_read_back() {
    for size in samples() {
        for precision in [0usize, 1, 3, 6, 12, 28, 40] {
            let bit = Bit::from_u128(size).unwrap();
            let text = bit.format(&with_unit(precision));
            assert_eq!(bit, Bit::parse_str(&text).unwrap(), "{text}");

            let byte = Byte::from_u128(size).unwrap();
            let text = byte.format(&with_unit(precision));
            assert_eq!(byte, Byte::parse_str(&text, false).unwrap(), "{text}");
        }
    }
}

#[test]
fn recoverable_pairs_give_the_size_back() {
    for size in samples() {
        for cross in [false, true] {
            for precision in [0usize, 3, 9, 28] {
                let bit = Bit::from_u128(size).unwrap();
                let (value, unit) = bit.get_recoverable_unit(cross, precision);
                assert_eq!(Some(bit), Bit::from_decimal_with_unit(value, unit));

                let byte = Byte::from_u128(size).unwrap();
                let (value, unit) = byte.get_recoverable_unit(cross, precision);
                assert_eq!(Some(byte), Byte::from_decimal_with_unit(value, unit));
            }
        }
    }
}

#[test]
fn exact_units_divide_the_size() {
    for size in samples() {
        for cross in [false, true] {
            let bit = Bit::from_u128(size).unwrap();
            let (count, unit) = bit.get_exact_unit(cross);
            assert_eq!(size, count * unit.as_bits_u128());
            assert_eq!(Some(bit), Bit::from_u128_with_unit(count, unit));
            assert!(cross || unit.is_bit());

            let byte = Byte::from_u128(size).unwrap();
            let (count, unit) = byte.get_exact_unit(cross);
            assert_eq!(size, count * (unit.as_bits_u128() / 8));
            assert_eq!(Some(byte), Byte::from_u128_with_unit(count, unit));
            assert!(cross || !unit.is_bit());
        }
    }
    assert_eq!((3, Unit::Mibit), Bit::from_u64(3145728).get_exact_unit(true));
    assert_eq!((3, Unit::MB), Bit::from_u64(24000000).get_exact_unit(true));
    assert_eq!((24, Unit::Mbit), Bit::from_u64(24000000).get_exact_unit(false));
    assert_eq!((3, Unit::MiB), Byte::from_u64(3145728).get_exact_unit(true));
    assert_eq!((3, Unit::Mbit), Byte::from_u64(375000).get_exact_unit(true));
    assert_eq!((375, Unit::KB), Byte::from_u64(375000).get_exact_unit(false));
}

#[test]
fn appropriate_units_grow_with_the_size() {
    let mut sizes = samples();
    sizes.sort();
    for unit_type in [UnitType::Binary, UnitType::Decimal, UnitType::Both] {
        let mut last_bits: u128 = 0;
        let mut last_bytes: u128 = 0;
        for size in sizes.iter() {
            let unit = Bit::from_u128(*size).unwrap().get_appropriate_unit(unit_type).get_unit();
            assert!(unit.as_bits_u128() >= last_bits);
            assert!(*size == 0 || unit.as_bits_u128() <= *size);
            assert!(unit.is_bit());
            last_bits = unit.as_bits_u128();

            let unit = Byte::from_u128(*size).unwrap().get_appropriate_unit(unit_type).get_unit();
            assert!(unit.as_bits_u128() >= last_bytes);
            assert!(*size == 0 || unit.as_bits_u128() / 8 <= *size);
            assert!(!unit.is_bit());
            last_bytes = unit.as_bits_u128();
        }
    }
    assert_eq!(Unit::Bit, Bit::from_u64(999).get_appropriate_unit(UnitType::Both).get_unit());
    assert_eq!(Unit::Kbit, Bit::from_u64(1000).get_appropriate_unit(UnitType::Both).get_unit());
    assert_eq!(Unit::Kbit, Bit::from_u64(1023).get_appropriate_unit(UnitType::Both).get_unit());
    assert_eq!(Unit::Kibit, Bit::from_u64(1024).get_appropriate_unit(UnitType::Both).get_unit());
    assert_eq!(Unit::Bit, Bit::from_u64(1023).get_appropriate_unit(UnitType::Binary).get_unit());
    assert_eq!(Unit::Kbit, Bit::from_u64(1024).get_appropriate_unit(UnitType::Decimal).get_unit());
    assert_eq!(Unit::B, Byte::from_u64(999).get_appropriate_unit(UnitType::Both).get_unit());
    assert_eq!(Unit::B, Byte::from_u64(1023).get_appropriate_unit(UnitType::Binary).get_unit());
}

#[test]
fn decimals_are_rounded_up() {
    let cases: [(i128, u32, u128); 8] = [
        (0, 0, 0),
        (1, 0, 1),
        (11, 1, 2),
        (10, 1, 1),
        (1, 28, 1),
        (15000000, 0, 15000000),
        (150000001, 1, 15000001),
        (9999999999999999999999999991, 1, 1000000000000000000000000000),
    ];
    for (mantissa, scale, size) in cases {
        let d = Decimal::try_from_i128_with_scale(mantissa, scale).unwrap();
        assert_eq!(Bit::from_u128(size), Bit::from_decimal(d));
        assert_eq!(Byte::from_u128(size), Byte::from_decimal(d));
    }
    let below = Decimal::try_from_i128_with_scale(-1, 1).unwrap();
    assert_eq!(None, Bit::from_decimal(below));
    assert_eq!(None, Byte::from_decimal(below));
}

#[test]
fn sizes_out_of_range_are_rejected() {
    let ronna: u128 = 1_000_000_000_000_000_000_000_000_000;
    assert_eq!(Some(ronna - 1), Bit::from_u128(ronna - 1).map(|b| b.as_u128()));
    assert_eq!(None, Bit::from_u128(ronna));
    assert_eq!(None, Bit::from_u128(u128::MAX));
    assert_eq!(None, Bit::from_i128(-1));
    assert_eq!(None, Bit::from_i128(i128::MIN));
    assert_eq!(None, Bit::from_i128(ronna as i128));
    assert_eq!(Some(0), Bit::from_i128(0).map(|b| b.as_u128()));
    assert_eq!(None, Bit::from_i64(-1));
    assert_eq!(Some(5), Bit::from_i64(5).map(|b| b.as_u128()));
    assert_eq!(None, Byte::from_u128(ronna));
    assert_eq!(None, Byte::from_i128(-1));
    assert_eq!(None, Byte::from_i64(i64::MIN));
    assert_eq!(Some(ronna - 1), Byte::from_i128(ronna as i128 - 1).map(|b| b.as_u128()));
    assert_eq!(Bit::max_value().as_u128(), ronna - 1);
    assert_eq!(Byte::min_value().as_u128(), 0);
    assert_eq!(None, Bit::from_u128_with_unit(1000, Unit::Ybit));
    assert_eq!(None, Bit::from_u128_with_unit(u128::MAX, Unit::Kbit));
    assert_eq!(None, Bit::from_i128_with_unit(-1, Unit::Kbit));
    assert_eq!(None, Byte::from_i64_with_unit(-1, Unit::KB));
    assert_eq!(None, Byte::from_u64_with_unit(1000, Unit::YB));
}
