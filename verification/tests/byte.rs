use byte_unit::{Byte, Unit, UnitType};
use rust_decimal::prelude::FromPrimitive;

#[test]
fn byte_parse_str() {
    let mut cases = vec![
        (Err(()) as Result<Byte, ()>, "", false),
        (Ok(Byte::from_u64(0)), "0", false),
        (Err(()), "-0", false),
        (Err(()), "b", false),
        (Err(()), "i", false),
        (Err(()), "c", false),
        (Ok(Byte::from_u64(0)), "0b", false),
        (Ok(Byte::from_u64(1)), "1", false),
        (Err(()), "-1", false),
        (Ok(Byte::from_u64(1)), "1b", false),
        (Ok(Byte::from_u64(1)), "1b", true),
        (Err(()), "1i", false),
        (Err(()), "1c", false),
        (Err(()), "1bc", false),
        (Ok(Byte::from_u64(1)), "1 b", true),
        (Ok(Byte::from_u64(1)), "1  b", true),
        (Ok(Byte::from_u64(1)), "1  b", true),
        (Ok(Byte::from_u64(2)), "1.1", false),
        (Ok(Byte::from_u64(1)), "1.1b", false),
        (Ok(Byte::from_u64(2)), "1.1b", true),
        (Ok(Byte::from_u64(0)), "0kb", false),
        (Ok(Byte::from_u64(150)), "1.2kb", false),
        (Ok(Byte::from_u64(1200)), "1.2kb", true),
        (Ok(Byte::from_u64(2048)), "2 kiB", true),
        (Ok(Byte::from_u64(76650000)), "76.65 MB", false),
        (Ok(Byte::from_u64(16000000000000000000)), "16 EB", false),
        (Ok(Byte::from_u64(18446744073709551615)), "18446744073709551615", false),
    ];

    cases.extend_from_slice(&[
        (Ok(Byte::from_u128(u64::MAX as u128 + 1).unwrap()), "16 EiB", false),
        (Ok(Byte::from_u128(16000000000000000000000000).unwrap()), "16 YB", false),
        (Ok(Byte::from_u128(999000000000000000000000000).unwrap()), "999 YB", false),
        (Err(()), "1000 YB", false),
    ]);

    for (i, case) in cases.iter().enumerate() {
        let result = Byte::parse_str(case.1, case.2);

        match case.0 {
            Ok(unit) => match result {
                Ok(result) => {
                    assert_eq!(unit, result, "{i}");
                },
                Err(error) => {
                    panic!("{i}\n{}", error.to_string());
                },
            },
            Err(_) => {
                assert!(result.is_err(), "{i}")
            },
        }
    }
}

#[test]
fn byte_exact_unit() {
    let mut cases = vec![
        ((0, Unit::B), "0"),
        ((1, Unit::B), "1"),
        ((123456, Unit::B), "123456B"),
        ((1, Unit::TB), "1T"),
        ((1, Unit::TiB), "1Ti"),
        ((10, Unit::TB), "10T"),
        ((10, Unit::TiB), "10Ti"),
        ((1000, Unit::TiB), "1000Ti"),
        ((1, Unit::PiB), "1024Ti"),
    ];

    cases.extend_from_slice(&[((1, Unit::YiB), "1Yi")]);

    for (i, case) in cases.iter().enumerate() {
        assert_eq!(case.0, Byte::parse_str(case.1, true).unwrap().get_exact_unit(true), "{i}");
    }
}

#[test]
fn byte_recoverable_unit() {
    let mut cases = vec![
        ((0.0, Unit::B), "0"),
        ((1.0, Unit::B), "1"),
        ((123.456, Unit::KB), "123456B"),
        ((1.0, Unit::TB), "1T"),
        ((1.0, Unit::TiB), "1Ti"),
        ((10.0, Unit::TB), "10T"),
        ((10.0, Unit::TiB), "10Ti"),
        ((1000.0, Unit::TiB), "1000Ti"),
        ((1.0, Unit::PiB), "1024Ti"),
    ];

    cases.extend_from_slice(&[((1.0, Unit::YiB), "1Yi")]);

    for (i, case) in cases.iter().enumerate() {
        let (value, unit) = Byte::parse_str(case.1, true).unwrap().get_recoverable_unit(true, 3);

        assert_eq!(
            (rust_decimal::Decimal::from_f64(case.0 .0).unwrap(), case.0 .1),
            (rust_decimal::Decimal::from_i128_with_scale(value.mantissa(), value.scale()), unit),
            "{i}"
        );
    }
}

#[test]
fn byte_adjusted_unit() {
    let mut cases = vec![
        ("15 MB", 15000000.0, UnitType::Decimal),
        ("15.000001 MB", 15000001.0, UnitType::Decimal),
        ("14.30511474609375 MiB", 15000000.0, UnitType::Binary),
        ("14.30511474609375 MiB", 15000000.0, UnitType::Both),
    ];

    cases.extend_from_slice(&[("100 YB", 100000000000000000000000000.0, UnitType::Decimal)]);

    for (i, case) in cases.iter().enumerate() {
        let size: f64 = case.1;
        let adjusted = Byte::from_u128(size.ceil() as u128).unwrap().get_appropriate_unit(case.2);
        let (bits, unit_bits) = adjusted.get_ratio();
        let value = bits as f64 / unit_bits as f64;

        assert_eq!(case.0, format!("{value} {}", adjusted.get_unit().as_str()), "{i}");
    }
}
