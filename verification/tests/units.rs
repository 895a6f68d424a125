use byte_unit::common::Measure;
use byte_unit::{ByteUnit, Unit, UnitType};

#[test]
fn sizes_of_units() {
    assert_eq!(1, Unit::Bit.as_bits_u128());
    assert_eq!(8, Unit::B.as_bits_u128());
    assert_eq!(1000, Unit::Kbit.as_bits_u128());
    assert_eq!(1024, Unit::Kibit.as_bits_u128());
    assert_eq!(8000, Unit::KB.as_bits_u128());
    assert_eq!(8192, Unit::KiB.as_bits_u128());
    assert_eq!(1_000_000_000_000_000_000, Unit::Ebit.as_bits_u128());
    assert_eq!(1 << 60, Unit::Eibit.as_bits_u128());
    assert_eq!(1 << 63, Unit::EiB.as_bits_u128());
    assert_eq!(8_000_000_000_000_000_000_000_000, Unit::YB.as_bits_u128());
    assert_eq!(1 << 83, Unit::YiB.as_bits_u128());
    assert_eq!(0, Unit::Bit.as_bytes_u128());
    assert_eq!(1, Unit::B.as_bytes_u128());
    assert_eq!(125, Unit::Kbit.as_bytes_u128());
    assert_eq!(128, Unit::Kibit.as_bytes_u128());
    assert_eq!(1 << 80, Unit::YiB.as_bytes_u128());
    assert_eq!(1000, Unit::Kbit.as_bits_u64());
    assert_eq!(1 << 63, Unit::EiB.as_bits_u64());
    assert_eq!(u64::MAX, Unit::Zbit.as_bits_u64());
    assert_eq!(1024, Unit::KiB.as_weight_u128(Measure::Bytes));
    assert_eq!(8192, Unit::KiB.as_weight_u128(Measure::Bits));
}

#[test]
fn every_multiple_is_a_power() {
    let all = Unit::get_multiples();
    assert_eq!(32, all.len());
    for (i, unit) in all.iter().enumerate() {
        let rank = (i / 4 + 1) as u32;
        let step: u128 = if unit.is_binary_multiples() { 1024 } else { 1000 };
        let width: u128 = if unit.is_bit() { 1 } else { 8 };
        assert_eq!(step.pow(rank) * width, unit.as_bits_u128());
        assert_eq!(*unit, Unit::from_parts(rank as u8, i % 2 == 1, (i / 2) % 2 == 1));
        if i > 0 {
            assert!(all[i - 1].as_bits_u128() < unit.as_bits_u128());
        }
    }
    let bits = Unit::get_multiples_bits();
    let bytes = Unit::get_multiples_bytes();
    assert_eq!(16, bits.len());
    assert_eq!(16, bytes.len());
    for i in 0..16 {
        assert!(bits[i].is_bit());
        assert!(!bytes[i].is_bit());
        assert_eq!(bits[i].as_bits_u128() * 8, bytes[i].as_bits_u128());
        assert_eq!(i % 2 == 1, bits[i].is_binary_multiples());
    }
    assert_eq!(Unit::Bit, Unit::from_base(false));
    assert_eq!(Unit::B, Unit::from_base(true));
    assert_eq!(Unit::Bit, Measure::Bits.get_base_unit());
    assert_eq!(Unit::B, Measure::Bytes.get_base_unit());
}

#[test]
fn symbols_and_kinds() {
    assert_eq!("b", Unit::Bit.as_str());
    assert_eq!("B", Unit::B.as_str());
    assert_eq!("KB", Unit::KB.as_str());
    assert_eq!("MiB", Unit::MiB.as_str());
    assert_eq!("Gb", Unit::Gbit.as_str());
    assert_eq!("Tib", Unit::Tibit.as_str());
    assert_eq!("YiB", Unit::YiB.as_str());
    assert!(!Unit::KB.is_bit());
    assert!(Unit::Kbit.is_bit());
    assert!(Unit::Bit.is_bit());
    assert!(!Unit::B.is_bit());
    assert!(!Unit::KB.is_binary_multiples());
    assert!(Unit::KiB.is_binary_multiples());
    assert!(Unit::B.is_binary_multiples());
    assert!(!Unit::Bit.is_binary_multiples());
    assert!(Unit::Yibit.is_binary_multiples());
    assert_ne!(UnitType::Binary, UnitType::Both);
}

#[test]
fn symbols_are_read_back() {
    for prefer_byte in [false, true] {
        assert_eq!(Unit::Bit, Unit::parse_str(Unit::Bit.as_str(), false, prefer_byte).unwrap());
        assert_eq!(Unit::B, Unit::parse_str(Unit::B.as_str(), false, prefer_byte).unwrap());
        for unit in Unit::get_multiples() {
            assert_eq!(*unit, Unit::parse_str(unit.as_str(), false, prefer_byte).unwrap());
            let padded = format!("  {}\t", unit.as_str());
            assert_eq!(*unit, Unit::parse_str(&padded, false, prefer_byte).unwrap());
        }
    }
    assert_eq!(Unit::KiB, Unit::parse_str("Kib", true, true).unwrap());
    assert_eq!(Unit::Kibit, Unit::parse_str("Kib", false, true).unwrap());
    assert_eq!(Unit::Kbit, Unit::parse_str("KBit", false, true).unwrap());
    assert_eq!(Unit::Kbit, Unit::parse_str("kBITS", true, true).unwrap());
    assert_eq!(Unit::Bit, Unit::parse_str("Bit", true, true).unwrap());
    assert_eq!(Unit::Yibit, Unit::parse_str("yIbIt", false, true).unwrap());
    assert_eq!(Unit::B, Unit::parse_str("\u{a0}B\u{3000}", false, false).unwrap());
    assert!(Unit::parse_str("K B", false, false).is_err());
}

#[test]
fn byte_units() {
    assert_eq!(ByteUnit::B, ByteUnit::from_str("").unwrap());
    assert_eq!(ByteUnit::B, ByteUnit::from_str("B").unwrap());
    assert_eq!(ByteUnit::KB, ByteUnit::from_str("K").unwrap());
    assert_eq!(ByteUnit::Kb, ByteUnit::from_str("Kb").unwrap());
    assert_eq!(ByteUnit::KiB, ByteUnit::from_str("KiB").unwrap());
    assert_eq!(ByteUnit::KiB, ByteUnit::from_str("Ki").unwrap());
    assert_eq!(ByteUnit::MB, ByteUnit::from_str("MB").unwrap());
    assert_eq!(ByteUnit::Mb, ByteUnit::from_str("Mb").unwrap());
    assert_eq!(ByteUnit::MiB, ByteUnit::from_str("miB").unwrap());
    assert_eq!(ByteUnit::GB, ByteUnit::from_str("GB").unwrap());
    assert_eq!(ByteUnit::Gb, ByteUnit::from_str("Gb").unwrap());
    assert_eq!(ByteUnit::GiB, ByteUnit::from_str("GiB").unwrap());
    assert_eq!(ByteUnit::TB, ByteUnit::from_str("TB").unwrap());
    assert_eq!(ByteUnit::Tb, ByteUnit::from_str("Tb").unwrap());
    assert_eq!(ByteUnit::TiB, ByteUnit::from_str("TIB").unwrap());
    assert_eq!(ByteUnit::PB, ByteUnit::from_str("PB").unwrap());
    assert_eq!(ByteUnit::Pb, ByteUnit::from_str("Pb").unwrap());
    assert_eq!(ByteUnit::PiB, ByteUnit::from_str("PiB").unwrap());
    assert_eq!(ByteUnit::EiB, ByteUnit::from_str(" eiB ").unwrap());
    assert_eq!(ByteUnit::Zb, ByteUnit::from_str("zb").unwrap());
    assert!(ByteUnit::from_str("b").is_err());
    assert!(ByteUnit::from_str("Y").is_err());
    assert!(ByteUnit::from_str("Kib").is_err());
    assert!(ByteUnit::from_str("KBB").is_err());
    assert!(ByteUnit::from_str("KiBB").is_err());
    assert!(ByteUnit::from_str("Bx").is_err());

    assert_eq!("B", ByteUnit::B.as_str());
    assert_eq!("KB", ByteUnit::KB.as_str());
    assert_eq!("Kb", ByteUnit::Kb.as_str());
    assert_eq!("KiB", ByteUnit::KiB.as_str());
    assert_eq!("ZiB", ByteUnit::ZiB.as_str());

    assert_eq!(1, ByteUnit::B.get_unit_bytes());
    assert_eq!(125, ByteUnit::Kb.get_unit_bytes());
    assert_eq!(1024, ByteUnit::KiB.get_unit_bytes());
    assert_eq!(1000000000, ByteUnit::GB.get_unit_bytes());
    assert_eq!(125000000000000000000, ByteUnit::Zb.get_unit_bytes());
    assert_eq!(1000000000000000000000, ByteUnit::ZB.get_unit_bytes());
    assert_eq!(1152921504606846976, ByteUnit::EiB.get_unit_bytes());
    assert_eq!(1180591620717411303424, ByteUnit::ZiB.get_unit_bytes());
}

#[test]
fn numbers_of_units_in_bytes() {
    assert_eq!(4000, byte_unit::u128::constants::n_kb_bytes(4));
    assert_eq!(4096, byte_unit::u128::constants::n_kib_bytes(4));
    assert_eq!(500, byte_unit::u128::constants::n_kb_bits(4));
    assert_eq!(4000000, byte_unit::u128::constants::n_mb_bytes(4));
    assert_eq!(4194304, byte_unit::u128::constants::n_mib_bytes(4));
    assert_eq!(4000000000, byte_unit::u128::constants::n_gb_bytes(4));
    assert_eq!(2 << 70, byte_unit::u128::constants::n_zib_bytes(2));
    assert_eq!(3_000_000_000_000_000_000_000, byte_unit::u128::constants::n_zb_bytes(3));
    assert_eq!(375_000_000_000_000_000_000, byte_unit::u128::constants::n_zb_bits(3));
    assert_eq!(0, byte_unit::u128::constants::n_eib_bytes(0));
    assert_eq!(4000, byte_unit::u64::constants::n_kb_bytes(4));
    assert_eq!(4096, byte_unit::u64::constants::n_kib_bytes(4));
    assert_eq!(500, byte_unit::u64::constants::n_kb_bits(4));
    assert_eq!(5 << 50, byte_unit::u64::constants::n_pib_bytes(5));
    assert_eq!(7_000_000_000_000_000, byte_unit::u64::constants::n_pb_bytes(7));
    assert_eq!(875_000_000_000_000, byte_unit::u64::constants::n_pb_bits(7));
    assert_eq!(byte_unit::u128::constants::ZEBIBYTE, 1 << 70);
    assert_eq!(byte_unit::u64::constants::PEBIBYTE, 1 << 50);
    assert_eq!(byte_unit::bit::constants::YOBIBYTE, Unit::YiB.as_bits_u128());
    assert_eq!(byte_unit::bit::constants::KILOBIT, Unit::Kbit.as_bits_u128());
    assert_eq!(byte_unit::byte::constants::KILOBIT, Unit::Kbit.as_bytes_u128());
    assert_eq!(byte_unit::byte::constants::YOBIBYTE, Unit::YiB.as_bytes_u128());
    assert_eq!(byte_unit::bit::constants::MAX, byte_unit::Bit::max_value().as_u128());
    assert_eq!(byte_unit::byte::constants::MAX, byte_unit::Byte::max_value().as_u128());
}
