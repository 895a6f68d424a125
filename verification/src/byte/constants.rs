//! The sizes of the units, in bytes.

use vstd::prelude::*;
use crate::common::RONNA;
use crate::unit::Unit;

verus! {

/// One byte.
pub const BYTE: u128 = 1;

/// 1 KB = 10<sup>3</sup> bytes.
pub const KILOBYTE: u128 = 1_000;

/// 1 MB = 10<sup>6</sup> bytes.
pub const MEGABYTE: u128 = 1_000_000;

/// 1 GB = 10<sup>9</sup> bytes.
pub const GIGABYTE: u128 = 1_000_000_000;

/// 1 TB = 10<sup>12</sup> bytes.
pub const TERABYTE: u128 = 1_000_000_000_000;

/// 1 PB = 10<sup>15</sup> bytes.
pub const PETABYTE: u128 = 1_000_000_000_000_000;

/// 1 EB = 10<sup>18</sup> bytes.
pub const EXABYTE: u128 = 1_000_000_000_000_000_000;

/// 1 ZB = 10<sup>21</sup> bytes.
pub const ZETTABYTE: u128 = 1_000_000_000_000_000_000_000;

/// 1 YB = 10<sup>24</sup> bytes.
pub const YOTTABYTE: u128 = 1_000_000_000_000_000_000_000_000;

/// 1 KiB = 2<sup>10</sup> bytes.
pub const KIBIBYTE: u128 = 1_024;

/// 1 MiB = 2<sup>20</sup> bytes.
pub const MEBIBYTE: u128 = 1_048_576;

/// 1 GiB = 2<sup>30</sup> bytes.
pub const GIBIBYTE: u128 = 1_073_741_824;

/// 1 TiB = 2<sup>40</sup> bytes.
pub const TEBIBYTE: u128 = 1_099_511_627_776;

/// 1 PiB = 2<sup>50</sup> bytes.
pub const PEBIBYTE: u128 = 1_125_899_906_842_624;

/// 1 EiB = 2<sup>60</sup> bytes.
pub const EXBIBYTE: u128 = 1_152_921_504_606_846_976;

/// 1 ZiB = 2<sup>70</sup> bytes.
pub const ZEBIBYTE: u128 = 1_180_591_620_717_411_303_424;

/// 1 YiB = 2<sup>80</sup> bytes.
pub const YOBIBYTE: u128 = 1_208_925_819_614_629_174_706_176;

/// 1 Kbit = 125 * 10<sup>0</sup> bytes.
pub const KILOBIT: u128 = 125;

/// 1 Mbit = 125 * 10<sup>3</sup> bytes.
pub const MEGABIT: u128 = 125_000;

/// 1 Gbit = 125 * 10<sup>6</sup> bytes.
pub const GIGABIT: u128 = 125_000_000;

/// 1 Tbit = 125 * 10<sup>9</sup> bytes.
pub const TERABIT: u128 = 125_000_000_000;

/// 1 Pbit = 125 * 10<sup>12</sup> bytes.
pub const PETABIT: u128 = 125_000_000_000_000;

/// 1 Ebit = 125 * 10<sup>15</sup> bytes.
pub const EXABIT: u128 = 125_000_000_000_000_000;

/// 1 Zbit = 125 * 10<sup>18</sup> bytes.
pub const ZETTABIT: u128 = 125_000_000_000_000_000_000;

/// 1 Ybit = 125 * 10<sup>21</sup> bytes.
pub const YOTTABIT: u128 = 125_000_000_000_000_000_000_000;

/// 1 Kibit = 2<sup>7</sup> bytes.
pub const KIBIBIT: u128 = 128;

/// 1 Mibit = 2<sup>17</sup> bytes.
pub const MEBIBIT: u128 = 131_072;

/// 1 Gibit = 2<sup>27</sup> bytes.
pub const GIBIBIT: u128 = 134_217_728;

/// 1 Tibit = 2<sup>37</sup> bytes.
pub const TEBIBIT: u128 = 137_438_953_472;

/// 1 Pibit = 2<sup>47</sup> bytes.
pub const PEBIBIT: u128 = 140_737_488_355_328;

/// 1 Eibit = 2<sup>57</sup> bytes.
pub const EXBIBIT: u128 = 144_115_188_075_855_872;

/// 1 Zibit = 2<sup>67</sup> bytes.
pub const ZEBIBIT: u128 = 147_573_952_589_676_412_928;

/// 1 Yibit = 2<sup>77</sup> bytes.
pub const YOBIBIT: u128 = 151_115_727_451_828_646_838_272;

/// 0 bytes.
pub const MIN: u128 = 0;

/// 10<sup>27</sup> - 1 bytes.
pub const MAX: u128 = 999_999_999_999_999_999_999_999_999;

/// Each constant is the size of the unit it is named after, and the
/// largest size is the last below 10<sup>27</sup>.
pub proof fn lemma_constants()
    ensures
        BYTE == Unit::B.bytes(),
        KILOBIT == Unit::Kbit.bytes(),
        KIBIBIT == Unit::Kibit.bytes(),
        KILOBYTE == Unit::KB.bytes(),
        KIBIBYTE == Unit::KiB.bytes(),
        MEGABIT == Unit::Mbit.bytes(),
        MEBIBIT == Unit::Mibit.bytes(),
        MEGABYTE == Unit::MB.bytes(),
        MEBIBYTE == Unit::MiB.bytes(),
        GIGABIT == Unit::Gbit.bytes(),
        GIBIBIT == Unit::Gibit.bytes(),
        GIGABYTE == Unit::GB.bytes(),
        GIBIBYTE == Unit::GiB.bytes(),
        TERABIT == Unit::Tbit.bytes(),
        TEBIBIT == Unit::Tibit.bytes(),
        TERABYTE == Unit::TB.bytes(),
        TEBIBYTE == Unit::TiB.bytes(),
        PETABIT == Unit::Pbit.bytes(),
        PEBIBIT == Unit::Pibit.bytes(),
        PETABYTE == Unit::PB.bytes(),
        PEBIBYTE == Unit::PiB.bytes(),
        EXABIT == Unit::Ebit.bytes(),
        EXBIBIT == Unit::Eibit.bytes(),
        EXABYTE == Unit::EB.bytes(),
        EXBIBYTE == Unit::EiB.bytes(),
        ZETTABIT == Unit::Zbit.bytes(),
        ZEBIBIT == Unit::Zibit.bytes(),
        ZETTABYTE == Unit::ZB.bytes(),
        ZEBIBYTE == Unit::ZiB.bytes(),
        YOTTABIT == Unit::Ybit.bytes(),
        YOBIBIT == Unit::Yibit.bytes(),
        YOTTABYTE == Unit::YB.bytes(),
        YOBIBYTE == Unit::YiB.bytes(),
        MIN == 0,
        MAX == RONNA - 1,
{
    Unit::Bit.lemma_bits_values();
    Unit::B.lemma_bits_values();
    Unit::Kbit.lemma_bits_values();
    Unit::Kibit.lemma_bits_values();
    Unit::KB.lemma_bits_values();
    Unit::KiB.lemma_bits_values();
    Unit::Mbit.lemma_bits_values();
    Unit::Mibit.lemma_bits_values();
    Unit::MB.lemma_bits_values();
    Unit::MiB.lemma_bits_values();
    Unit::Gbit.lemma_bits_values();
    Unit::Gibit.lemma_bits_values();
    Unit::GB.lemma_bits_values();
    Unit::GiB.lemma_bits_values();
    Unit::Tbit.lemma_bits_values();
    Unit::Tibit.lemma_bits_values();
    Unit::TB.lemma_bits_values();
    Unit::TiB.lemma_bits_values();
    Unit::Pbit.lemma_bits_values();
    Unit::Pibit.lemma_bits_values();
    Unit::PB.lemma_bits_values();
    Unit::PiB.lemma_bits_values();
    Unit::Ebit.lemma_bits_values();
    Unit::Eibit.lemma_bits_values();
    Unit::EB.lemma_bits_values();
    Unit::EiB.lemma_bits_values();
    Unit::Zbit.lemma_bits_values();
    Unit::Zibit.lemma_bits_values();
    Unit::ZB.lemma_bits_values();
    Unit::ZiB.lemma_bits_values();
    Unit::Ybit.lemma_bits_values();
    Unit::Yibit.lemma_bits_values();
    Unit::YB.lemma_bits_values();
    Unit::YiB.lemma_bits_values();
}

} // verus!
