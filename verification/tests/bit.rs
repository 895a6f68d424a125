use byte_unit::{Bit, Unit, UnitType};
use rust_decimal::prelude::FromPrimitive;

#[test]
fn bit_parse_str() {
    let mut cases = vec![
        (Err(()) as Result<Bit, ()>, ""),
        (Ok(Bit::from_u64(0)), "0"),
        (Err(()), "-0"),
        (Err(()), "b"),
        (Err(()), "i"),
        (Err(()), "c"),
        (Ok(Bit::from_u64(0)), "0b"),
        (Ok(Bit::from_u64(1)), "1"),
        (Err(()), "-1"),
        (Ok(Bit::from_u64(1)), "1b"),
        (Ok(Bit::from_u64(8)), "1B"),
        (Err(()), "1i"),
        (Err(()), "1c"),
        (Err(()), "1bc"),
        (Ok(Bit::from_u64(1)), "1 b"),
        (Ok(Bit::from_u64(1)), "1  b"),
        (Ok(Bit::from_u64(1)), "1  b"),
        (Ok(Bit::from_u64(2)), "1.1"),
        (Ok(Bit::from_u64(2)), "1.1b"),
        (Ok(Bit::from_u64(0)), "0kb"),
        (Ok(Bit::from_u64(1200)), "1.2kb"),
        (Ok(Bit::from_u64(9600)), "1.2kB"),
        (Ok(Bit::from_u64(2048)), "2 kib"),
        (Ok(Bit::from_u64(76650000)), "76.65 Mb"),
        (Ok(Bit::from_u64(16000000000000000000)), "16 Eb"),
        (Ok(Bit::from_u64(18446744073709551615)), "18446744073709551615"),
    ];

    cases.extend_from_slice(&[
        (Ok(Bit::from_u128(u64::MAX as u128 + 1).unwrap()), "16 Eib"),
        (Ok(Bit::from_u128(16000000000000000000000000).unwrap()), "16 Yb"),
        (Ok(Bit::from_u128(999000000000000000000000000).unwrap()), "999 Yb"),
        (Err(()), "1000 Yb"),
    ]);

    for (i, case) in cases.iter().enumerate() {
        let result = Bit::parse_str(case.1);

        match case.0 {
            Ok(unit) => match result {
                Ok(result) => {
                    assert_eq!(unit, result, "{i}");
                },
                Err(error) => {
                    panic!("{i}\n{}", error.to_string());
                },
            },
            Err(_) => {
                assert!(result.is_err(), "{i}")
            },
        }
    }
}

#[test]
fn bit_exact_unit() {
    let mut cases = vec![
        ((0, Unit::Bit), "0"),
        ((1, Unit::Bit), "1"),
        ((123456, Unit::Bit), "123456b"),
        ((1, Unit::Tbit), "1T"),
        ((1, Unit::Tibit), "1Ti"),
        ((10, Unit::Tbit), "10T"),
        ((10, Unit::Tibit), "10Ti"),
        ((125, Unit::TiB), "1000Ti"),
        ((1, Unit::Pibit), "1024Ti"),
    ];

    cases.extend_from_slice(&[((1, Unit::Yibit), "1Yi")]);

    for (i, case) in cases.iter().enumerate() {
        assert_eq!(case.0, Bit::parse_str(case.1).unwrap().get_exact_unit(true), "{i}");
    }
}

#[test]
fn bit_recoverable_unit() {
    let mut cases = vec![
        ((0.0, Unit::Bit), "0"),
        ((1.0, Unit::Bit), "1"),
        ((15.432, Unit::KB), "123456b"),
        ((1.0, Unit::Tbit), "1T"),
        ((1.0, Unit::Tibit), "1Ti"),
        ((1.25, Unit::TB), "10T"),
        ((1.25, Unit::TiB), "10Ti"),
        ((125.0, Unit::TiB), "1000Ti"),
        ((1.0, Unit::Pibit), "1024Ti"),
    ];

    cases.extend_from_slice(&[((1.0, Unit::Yibit), "1Yi")]);

    for (i, case) in cases.iter().enumerate() {
        let (value, unit) = Bit::parse_str(case.1).unwrap().get_recoverable_unit(true, 3);

        assert_eq!(
            (rust_decimal::Decimal::from_f64(case.0 .0).unwrap(), case.0 .1),
            (rust_decimal::Decimal::from_i128_with_scale(value.mantissa(), value.scale()), unit),
            "{i}"
        );
    }
}

#[test]
fn bit_adjusted_unit() {
    let mut cases = vec![
        ("15 Mb", 15000000.0, UnitType::Decimal),
        ("15.000001 Mb", 15000001.0, UnitType::Decimal),
        ("14.30511474609375 Mib", 15000000.0, UnitType::Binary),
        ("14.30511474609375 Mib", 15000000.0, UnitType::Both),
    ];

    cases.extend_from_slice(&[("100 Yb", 100000000000000000000000000.0, UnitType::Decimal)]);

    for (i, case) in cases.iter().enumerate() {
        let size: f64 = case.1;
        let adjusted = Bit::from_u128(size.ceil() as u128).unwrap().get_appropriate_unit(case.2);
        let (bits, unit_bits) = adjusted.get_ratio();
        let value = bits as f64 / unit_bits as f64;

        assert_eq!(case.0, format!("{value} {}", adjusted.get_unit().as_str()), "{i}");
    }
}
