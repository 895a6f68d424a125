use byte_unit::format::{Alignment, Formatting};
use byte_unit::{Bit, Byte, Unit};

fn plain() -> Formatting {
    Formatting {
        with_unit: false,
        precision: None,
        width: None,
        align: None,
        wide: false,
        compact: false,
    }
}

fn with_unit() -> Formatting {
    Formatting { with_unit: true, ..plain() }
}

#[test]
fn digits_alone() {
    assert_eq!("1555000", Bit::from_u64_with_unit(1555, Unit::Kbit).unwrap().format(&plain()));
    assert_eq!("10240", Bit::from_u64(10240).format(&plain()));
    assert_eq!("0", Bit::from_u64(0).format(&plain()));
    assert_eq!("1555000", Byte::from_u64_with_unit(1555, Unit::KB).unwrap().format(&plain()));
    assert_eq!(
        "999999999999999999999999999",
        Byte::max_value().format(&Formatting { width: Some(40), ..plain() })
    );
}

#[test]
fn number_and_unit() {
    let based_2 = Bit::from_u64(10240);
    let based_10 = Bit::from_u64(10000);

    assert_eq!("10 Kib", based_2.format(&with_unit()));
    assert_eq!("10 Kb", based_10.format(&with_unit()));
    assert_eq!("0 b", Bit::from_u64(0).format(&with_unit()));

    let based_2 = Byte::from_u64(10240);
    let based_10 = Byte::from_u64(10000);

    assert_eq!("10 KiB", based_2.format(&with_unit()));
    assert_eq!("10 KB", based_10.format(&with_unit()));
    assert_eq!("0 B", Byte::from_u64(0).format(&with_unit()));
}

#[test]
fn compact_and_wide() {
    let based_2 = Bit::from_u64(10240);
    let based_10 = Bit::from_u64(10000);

    let compact = Formatting { compact: true, ..with_unit() };
    assert_eq!("10Kib", based_2.format(&compact));
    assert_eq!("10Kb", based_10.format(&compact));

    let wide = Formatting { wide: true, ..with_unit() };
    assert_eq!("10 Kib", based_2.format(&wide));
    assert_eq!("10  Kb", based_10.format(&wide));
    assert_eq!("1   b", Bit::from_u64(1).format(&wide));

    let both = Formatting { wide: true, compact: true, ..with_unit() };
    assert_eq!("10  Kb", based_10.format(&both));
}

#[test]
fn width_and_alignment() {
    let based_2 = Bit::from_u64(10240);
    let based_10 = Bit::from_u64(10000);

    let left = Formatting { width: Some(10), ..with_unit() };
    assert_eq!("10     Kib", based_2.format(&left));
    assert_eq!("10      Kb", based_10.format(&left));

    let center = Formatting { width: Some(10), align: Some(Alignment::Center), ..with_unit() };
    assert_eq!("10     Kib", based_2.format(&center));

    let right = Formatting { width: Some(10), align: Some(Alignment::Right), ..with_unit() };
    assert_eq!("    10 Kib", based_2.format(&right));
    assert_eq!("     10 Kb", based_10.format(&right));

    let right_wide = Formatting { wide: true, ..right };
    assert_eq!("    10 Kib", based_2.format(&right_wide));
    assert_eq!("    10  Kb", based_10.format(&right_wide));

    let narrow = Formatting { width: Some(5), align: Some(Alignment::Right), ..with_unit() };
    assert_eq!("10 Kib", based_2.format(&narrow));
    let just = Formatting { width: Some(6), align: Some(Alignment::Right), ..with_unit() };
    assert_eq!("10 Kib", based_2.format(&just));
    let one_more = Formatting { width: Some(7), align: Some(Alignment::Right), ..with_unit() };
    assert_eq!(" 10 Kib", based_2.format(&one_more));

    let byte = Byte::from_u64(10240);
    assert_eq!("10     KiB", byte.format(&left));
    assert_eq!("    10 KiB", byte.format(&right));
}

#[test]
fn precision() {
    let bit = Bit::from_u64(3211776);

    assert_eq!("3211776", bit.format(&plain()));
    assert_eq!("3136.5 Kib", bit.format(&with_unit()));
    assert_eq!("3.211776 Mb", bit.format(&Formatting { precision: Some(6), ..with_unit() }));
    assert_eq!("3211776 b", bit.format(&Formatting { precision: Some(0), ..with_unit() }));

    let byte = Byte::from_u64(3211776);

    assert_eq!("3136.5 KiB", byte.format(&with_unit()));
    assert_eq!("3.211776 MB", byte.format(&Formatting { precision: Some(6), ..with_unit() }));
    assert_eq!("3211776 B", byte.format(&Formatting { precision: Some(0), ..with_unit() }));
    assert_eq!("1.234 MB", Byte::from_u64(1234000).format(&with_unit()));
    assert_eq!("1234.5 KB", Byte::from_u64(1234500).format(&with_unit()));
    assert_eq!("5.5 Kib", Bit::from_u64(5632).format(&with_unit()));
}
