//! The sizes of the multiples of the byte, in bytes, as `u128` values, and
//! the functions that convert a number of units to bytes.

use vstd::prelude::*;

verus! {

/// The bytes in 1 Kb: 10<sup>3</sup> / 8.
pub const KILOBIT: u128 = 125;

/// The bytes in 1 KB: 10<sup>3</sup>.
pub const KILOBYTE: u128 = 1_000;

/// The bytes in 1 KiB: 2<sup>10</sup>.
pub const KIBIBYTE: u128 = 1_024;

/// The bytes in 1 Mb: 10<sup>6</sup> / 8.
pub const MEGABIT: u128 = 125_000;

/// The bytes in 1 MB: 10<sup>6</sup>.
pub const MEGABYTE: u128 = 1_000_000;

/// The bytes in 1 MiB: 2<sup>20</sup>.
pub const MEBIBYTE: u128 = 1_048_576;

/// The bytes in 1 Gb: 10<sup>9</sup> / 8.
pub const GIGABIT: u128 = 125_000_000;

/// The bytes in 1 GB: 10<sup>9</sup>.
pub const GIGABYTE: u128 = 1_000_000_000;

/// The bytes in 1 GiB: 2<sup>30</sup>.
pub const GIBIBYTE: u128 = 1_073_741_824;

/// The bytes in 1 Tb: 10<sup>12</sup> / 8.
pub const TERABIT: u128 = 125_000_000_000;

/// The bytes in 1 TB: 10<sup>12</sup>.
pub const TERABYTE: u128 = 1_000_000_000_000;

/// The bytes in 1 TiB: 2<sup>40</sup>.
pub const TEBIBYTE: u128 = 1_099_511_627_776;

/// The bytes in 1 Pb: 10<sup>15</sup> / 8.
pub const PETABIT: u128 = 125_000_000_000_000;

/// The bytes in 1 PB: 10<sup>15</sup>.
pub const PETABYTE: u128 = 1_000_000_000_000_000;

/// The bytes in 1 PiB: 2<sup>50</sup>.
pub const PEBIBYTE: u128 = 1_125_899_906_842_624;

/// The bytes in 1 Eb: 10<sup>18</sup> / 8.
pub const EXABIT: u128 = 125_000_000_000_000_000;

/// The bytes in 1 EB: 10<sup>18</sup>.
pub const EXABYTE: u128 = 1_000_000_000_000_000_000;

/// The bytes in 1 EiB: 2<sup>60</sup>.
pub const EXBIBYTE: u128 = 1_152_921_504_606_846_976;

/// The bytes in 1 Zb: 10<sup>21</sup> / 8.
pub const ZETTABIT: u128 = 125_000_000_000_000_000_000;

/// The bytes in 1 ZB: 10<sup>21</sup>.
pub const ZETTABYTE: u128 = 1_000_000_000_000_000_000_000;

/// The bytes in 1 ZiB: 2<sup>70</sup>.
pub const ZEBIBYTE: u128 = 1_180_591_620_717_411_303_424;

/// Convert n Kb to bytes. The product has to fit in a `u128`.
pub fn n_kb_bits(bits: u128) -> (r: u128)
    requires
        bits * KILOBIT <= u128::MAX,
    ensures
        r == bits * KILOBIT,
{
    bits * KILOBIT
}

/// Convert n KB to bytes. The product has to fit in a `u128`.
pub fn n_kb_bytes(bytes: u128) -> (r: u128)
    requires
        bytes * KILOBYTE <= u128::MAX,
    ensures
        r == bytes * KILOBYTE,
{
    bytes * KILOBYTE
}

/// Convert n KiB to bytes. The product has to fit in a `u128`.
pub fn n_kib_bytes(bytes: u128) -> (r: u128)
    requires
        bytes * KIBIBYTE <= u128::MAX,
    ensures
        r == bytes * KIBIBYTE,
{
    bytes * KIBIBYTE
}

/// Convert n Mb to bytes. The product has to fit in a `u128`.
pub fn n_mb_bits(bits: u128) -> (r: u128)
    requires
        bits * MEGABIT <= u128::MAX,
    ensures
        r == bits * MEGABIT,
{
    bits * MEGABIT
}

/// Convert n MB to bytes. The product has to fit in a `u128`.
pub fn n_mb_bytes(bytes: u128) -> (r: u128)
    requires
        bytes * MEGABYTE <= u128::MAX,
    ensures
        r == bytes * MEGABYTE,
{
    bytes * MEGABYTE
}

/// Convert n MiB to bytes. The product has to fit in a `u128`.
pub fn n_mib_bytes(bytes: u128) -> (r: u128)
    requires
        bytes * MEBIBYTE <= u128::MAX,
    ensures
        r == bytes * MEBIBYTE,
{
    bytes * MEBIBYTE
}

/// Convert n Gb to bytes. The product has to fit in a `u128`.
pub fn n_gb_bits(bits: u128) -> (r: u128)
    requires
        bits * GIGABIT <= u128::MAX,
    ensures
        r == bits * GIGABIT,
{
    bits * GIGABIT
}

/// Convert n GB to bytes. The product has to fit in a `u128`.
pub fn n_gb_bytes(bytes: u128) -> (r: u128)
    requires
        bytes * GIGABYTE <= u128::MAX,
    ensures
        r == bytes * GIGABYTE,
{
    bytes * GIGABYTE
}

/// Convert n GiB to bytes. The product has to fit in a `u128`.
pub fn n_gib_bytes(bytes: u128) -> (r: u128)
    requires
        bytes * GIBIBYTE <= u128::MAX,
    ensures
        r == bytes * GIBIBYTE,
{
    bytes * GIBIBYTE
}

/// Convert n Tb to bytes. The product has to fit in a `u128`.
pub fn n_tb_bits(bits: u128) -> (r: u128)
    requires
        bits * TERABIT <= u128::MAX,
    ensures
        r == bits * TERABIT,
{
    bits * TERABIT
}

/// Convert n TB to bytes. The product has to fit in a `u128`.
pub fn n_tb_bytes(bytes: u128) -> (r: u128)
    requires
        bytes * TERABYTE <= u128::MAX,
    ensures
        r == bytes * TERABYTE,
{
    bytes * TERABYTE
}

/// Convert n TiB to bytes. The product has to fit in a `u128`.
pub fn n_tib_bytes(bytes: u128) -> (r: u128)
    requires
        bytes * TEBIBYTE <= u128::MAX,
    ensures
        r == bytes * TEBIBYTE,
{
    bytes * TEBIBYTE
}

/// Convert n Pb to bytes. The product has to fit in a `u128`.
pub fn n_pb_bits(bits: u128) -> (r: u128)
    requires
        bits * PETABIT <= u128::MAX,
    ensures
        r == bits * PETABIT,
{
    bits * PETABIT
}

/// Convert n PB to bytes. The product has to fit in a `u128`.
pub fn n_pb_bytes(bytes: u128) -> (r: u128)
    requires
        bytes * PETABYTE <= u128::MAX,
    ensures
        r == bytes * PETABYTE,
{
    bytes * PETABYTE
}

/// Convert n PiB to bytes. The product has to fit in a `u128`.
pub fn n_pib_bytes(bytes: u128) -> (r: u128)
    requires
        bytes * PEBIBYTE <= u128::MAX,
    ensures
        r == bytes * PEBIBYTE,
{
    bytes * PEBIBYTE
}

/// Convert n Eb to bytes. The product has to fit in a `u128`.
pub fn n_eb_bits(bits: u128) -> (r: u128)
    requires
        bits * EXABIT <= u128::MAX,
    ensures
        r == bits * EXABIT,
{
    bits * EXABIT
}

/// Convert n EB to bytes. The product has to fit in a `u128`.
pub fn n_eb_bytes(bytes: u128) -> (r: u128)
    requires
        bytes * EXABYTE <= u128::MAX,
    ensures
        r == bytes * EXABYTE,
{
    bytes * EXABYTE
}

/// Convert n EiB to bytes. The product has to fit in a `u128`.
pub fn n_eib_bytes(bytes: u128) -> (r: u128)
    requires
        bytes * EXBIBYTE <= u128::MAX,
    ensures
        r == bytes * EXBIBYTE,
{
    bytes * EXBIBYTE
}

/// Convert n Zb to bytes. The product has to fit in a `u128`.
pub fn n_zb_bits(bits: u128) -> (r: u128)
    requires
        bits * ZETTABIT <= u128::MAX,
    ensures
        r == bits * ZETTABIT,
{
    bits * ZETTABIT
}

/// Convert n ZB to bytes. The product has to fit in a `u128`.
pub fn n_zb_bytes(bytes: u128) -> (r: u128)
    requires
        bytes * ZETTABYTE <= u128::MAX,
    ensures
        r == bytes * ZETTABYTE,
{
    bytes * ZETTABYTE
}

/// Convert n ZiB to bytes. The product has to fit in a `u128`.
pub fn n_zib_bytes(bytes: u128) -> (r: u128)
    requires
        bytes * ZEBIBYTE <= u128::MAX,
    ensures
        r == bytes * ZEBIBYTE,
{
    bytes * ZEBIBYTE
}

} // verus!
