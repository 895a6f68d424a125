//! The sizes of the units, in bits.

use vstd::prelude::*;
use crate::common::RONNA;
use crate::unit::Unit;

verus! {

/// One bit.
pub const BIT: u128 = 1;

/// 1 Kbit = 10<sup>3</sup> bits.
pub const KILOBIT: u128 = 1_000;

/// 1 Mbit = 10<sup>6</sup> bits.
pub const MEGABIT: u128 = 1_000_000;

/// 1 Gbit = 10<sup>9</sup> bits.
pub const GIGABIT: u128 = 1_000_000_000;

/// 1 Tbit = 10<sup>12</sup> bits.
pub const TERABIT: u128 = 1_000_000_000_000;

/// 1 Pbit = 10<sup>15</sup> bits.
pub const PETABIT: u128 = 1_000_000_000_000_000;

/// 1 Ebit = 10<sup>18</sup> bits.
pub const EXABIT: u128 = 1_000_000_000_000_000_000;

/// 1 Zbit = 10<sup>21</sup> bits.
pub const ZETTABIT: u128 = 1_000_000_000_000_000_000_000;

/// 1 Ybit = 10<sup>24</sup> bits.
pub const YOTTABIT: u128 = 1_000_000_000_000_000_000_000_000;

/// 1 Kibit = 2<sup>10</sup> bits.
pub const KIBIBIT: u128 = 1_024;

/// 1 Mibit = 2<sup>20</sup> bits.
pub const MEBIBIT: u128 = 1_048_576;

/// 1 Gibit = 2<sup>30</sup> bits.
pub const GIBIBIT: u128 = 1_073_741_824;

/// 1 Tibit = 2<sup>40</sup> bits.
pub const TEBIBIT: u128 = 1_099_511_627_776;

/// 1 Pibit = 2<sup>50</sup> bits.
pub const PEBIBIT: u128 = 1_125_899_906_842_624;

/// 1 Eibit = 2<sup>60</sup> bits.
pub const EXBIBIT: u128 = 1_152_921_504_606_846_976;

/// 1 Zibit = 2<sup>70</sup> bits.
pub const ZEBIBIT: u128 = 1_180_591_620_717_411_303_424;

/// 1 Yibit = 2<sup>80</sup> bits.
pub const YOBIBIT: u128 = 1_208_925_819_614_629_174_706_176;

/// 1 KB = 8 * 10<sup>3</sup> bits.
pub const KILOBYTE: u128 = 8_000;

/// 1 MB = 8 * 10<sup>6</sup> bits.
pub const MEGABYTE: u128 = 8_000_000;

/// 1 GB = 8 * 10<sup>9</sup> bits.
pub const GIGABYTE: u128 = 8_000_000_000;

/// 1 TB = 8 * 10<sup>12</sup> bits.
pub const TERABYTE: u128 = 8_000_000_000_000;

/// 1 PB = 8 * 10<sup>15</sup> bits.
pub const PETABYTE: u128 = 8_000_000_000_000_000;

/// 1 EB = 8 * 10<sup>18</sup> bits.
pub const EXABYTE: u128 = 8_000_000_000_000_000_000;

/// 1 ZB = 8 * 10<sup>21</sup> bits.
pub const ZETTABYTE: u128 = 8_000_000_000_000_000_000_000;

/// 1 YB = 8 * 10<sup>24</sup> bits.
pub const YOTTABYTE: u128 = 8_000_000_000_000_000_000_000_000;

/// 1 KiB = 2<sup>13</sup> bits.
pub const KIBIBYTE: u128 = 8_192;

/// 1 MiB = 2<sup>23</sup> bits.
pub const MEBIBYTE: u128 = 8_388_608;

/// 1 GiB = 2<sup>33</sup> bits.
pub const GIBIBYTE: u128 = 8_589_934_592;

/// 1 TiB = 2<sup>43</sup> bits.
pub const TEBIBYTE: u128 = 8_796_093_022_208;

/// 1 PiB = 2<sup>53</sup> bits.
pub const PEBIBYTE: u128 = 9_007_199_254_740_992;

/// 1 EiB = 2<sup>63</sup> bits.
pub const EXBIBYTE: u128 = 9_223_372_036_854_775_808;

/// 1 ZiB = 2<sup>73</sup> bits.
pub const ZEBIBYTE: u128 = 9_444_732_965_739_290_427_392;

/// 1 YiB = 2<sup>83</sup> bits.
pub const YOBIBYTE: u128 = 9_671_406_556_917_033_397_649_408;

/// 0 bits.
pub const MIN: u128 = 0;

/// 10<sup>27</sup> - 1 bits.
pub const MAX: u128 = 999_999_999_999_999_999_999_999_999;

/// Each constant is the size of the unit it is named after, and the
/// largest size is the last below 10<sup>27</sup>.
pub proof fn lemma_constants()
    ensures
        BIT == Unit::Bit.bits(),
        KILOBIT == Unit::Kbit.bits(),
        KIBIBIT == Unit::Kibit.bits(),
        KILOBYTE == Unit::KB.bits(),
        KIBIBYTE == Unit::KiB.bits(),
        MEGABIT == Unit::Mbit.bits(),
        MEBIBIT == Unit::Mibit.bits(),
        MEGABYTE == Unit::MB.bits(),
        MEBIBYTE == Unit::MiB.bits(),
        GIGABIT == Unit::Gbit.bits(),
        GIBIBIT == Unit::Gibit.bits(),
        GIGABYTE == Unit::GB.bits(),
        GIBIBYTE == Unit::GiB.bits(),
        TERABIT == Unit::Tbit.bits(),
        TEBIBIT == Unit::Tibit.bits(),
        TERABYTE == Unit::TB.bits(),
        TEBIBYTE == Unit::TiB.bits(),
        PETABIT == Unit::Pbit.bits(),
        PEBIBIT == Unit::Pibit.bits(),
        PETABYTE == Unit::PB.bits(),
        PEBIBYTE == Unit::PiB.bits(),
        EXABIT == Unit::Ebit.bits(),
        EXBIBIT == Unit::Eibit.bits(),
        EXABYTE == Unit::EB.bits(),
        EXBIBYTE == Unit::EiB.bits(),
        ZETTABIT == Unit::Zbit.bits(),
        ZEBIBIT == Unit::Zibit.bits(),
        ZETTABYTE == Unit::ZB.bits(),
        ZEBIBYTE == Unit::ZiB.bits(),
        YOTTABIT == Unit::Ybit.bits(),
        YOBIBIT == Unit::Yibit.bits(),
        YOTTABYTE == Unit::YB.bits(),
        YOBIBYTE == Unit::YiB.bits(),
        MIN == 0,
        MAX == RONNA - 1,
{
    Unit::Bit.lemma_bits_values();
    Unit::B.lemma_bits_values();
    Unit::Kbit.lemma_bits_values();
    Unit::Kibit.lemma_bits_values();
    Unit::KB.lemma_bits_values();
    Unit::KiB.lemma_bits_values();
    Unit::Mbit.lemma_bits_values();
    Unit::Mibit.lemma_bits_values();
    Unit::MB.lemma_bits_values();
    Unit::MiB.lemma_bits_values();
    Unit::Gbit.lemma_bits_values();
    Unit::Gibit.lemma_bits_values();
    Unit::GB.lemma_bits_values();
    Unit::GiB.lemma_bits_values();
    Unit::Tbit.lemma_bits_values();
    Unit::Tibit.lemma_bits_values();
    Unit::TB.lemma_bits_values();
    Unit::TiB.lemma_bits_values();
    Unit::Pbit.lemma_bits_values();
    Unit::Pibit.lemma_bits_values();
    Unit::PB.lemma_bits_values();
    Unit::PiB.lemma_bits_values();
    Unit::Ebit.lemma_bits_values();
    Unit::Eibit.lemma_bits_values();
    Unit::EB.lemma_bits_values();
    Unit::EiB.lemma_bits_values();
    Unit::Zbit.lemma_bits_values();
    Unit::Zibit.lemma_bits_values();
    Unit::ZB.lemma_bits_values();
    Unit::ZiB.lemma_bits_values();
    Unit::Ybit.lemma_bits_values();
    Unit::Yibit.lemma_bits_values();
    Unit::YB.lemma_bits_values();
    Unit::YiB.lemma_bits_values();
}

} // verus!
