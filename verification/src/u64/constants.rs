//! The sizes of the multiples of the byte, in bytes, as `u64` values, and
//! the functions that convert a number of units to bytes.

use vstd::prelude::*;

verus! {

/// The bytes in 1 Kb: 10<sup>3</sup> / 8.
pub const KILOBIT: u64 = 125;

/// The bytes in 1 KB: 10<sup>3</sup>.
pub const KILOBYTE: u64 = 1_000;

/// The bytes in 1 KiB: 2<sup>10</sup>.
pub const KIBIBYTE: u64 = 1_024;

/// The bytes in 1 Mb: 10<sup>6</sup> / 8.
pub const MEGABIT: u64 = 125_000;

/// The bytes in 1 MB: 10<sup>6</sup>.
pub const MEGABYTE: u64 = 1_000_000;

/// The bytes in 1 MiB: 2<sup>20</sup>.
pub const MEBIBYTE: u64 = 1_048_576;

/// The bytes in 1 Gb: 10<sup>9</sup> / 8.
pub const GIGABIT: u64 = 125_000_000;

/// The bytes in 1 GB: 10<sup>9</sup>.
pub const GIGABYTE: u64 = 1_000_000_000;

/// The bytes in 1 GiB: 2<sup>30</sup>.
pub const GIBIBYTE: u64 = 1_073_741_824;

/// The bytes in 1 Tb: 10<sup>12</sup> / 8.
pub const TERABIT: u64 = 125_000_000_000;

/// The bytes in 1 TB: 10<sup>12</sup>.
pub const TERABYTE: u64 = 1_000_000_000_000;

/// The bytes in 1 TiB: 2<sup>40</sup>.
pub const TEBIBYTE: u64 = 1_099_511_627_776;

/// The bytes in 1 Pb: 10<sup>15</sup> / 8.
pub const PETABIT: u64 = 125_000_000_000_000;

/// The bytes in 1 PB: 10<sup>15</sup>.
pub const PETABYTE: u64 = 1_000_000_000_000_000;

/// The bytes in 1 PiB: 2<sup>50</sup>.
pub const PEBIBYTE: u64 = 1_125_899_906_842_624;

/// Convert n Kb to bytes. The product has to fit in a `u64`.
pub fn n_kb_bits(bits: u64) -> (r: u64)
    requires
        bits * KILOBIT <= u64::MAX,
    ensures
        r == bits * KILOBIT,
{
    bits * KILOBIT
}

/// Convert n KB to bytes. The product has to fit in a `u64`.
pub fn n_kb_bytes(bytes: u64) -> (r: u64)
    requires
        bytes * KILOBYTE <= u64::MAX,
    ensures
        r == bytes * KILOBYTE,
{
    bytes * KILOBYTE
}

/// Convert n KiB to bytes. The product has to fit in a `u64`.
pub fn n_kib_bytes(bytes: u64) -> (r: u64)
    requires
        bytes * KIBIBYTE <= u64::MAX,
    ensures
        r == bytes * KIBIBYTE,
{
    bytes * KIBIBYTE
}

/// Convert n Mb to bytes. The product has to fit in a `u64`.
pub fn n_mb_bits(bits: u64) -> (r: u64)
    requires
        bits * MEGABIT <= u64::MAX,
    ensures
        r == bits * MEGABIT,
{
    bits * MEGABIT
}

/// Convert n MB to bytes. The product has to fit in a `u64`.
pub fn n_mb_bytes(bytes: u64) -> (r: u64)
    requires
        bytes * MEGABYTE <= u64::MAX,
    ensures
        r == bytes * MEGABYTE,
{
    bytes * MEGABYTE
}

/// Convert n MiB to bytes. The product has to fit in a `u64`.
pub fn n_mib_bytes(bytes: u64) -> (r: u64)
    requires
        bytes * MEBIBYTE <= u64::MAX,
    ensures
        r == bytes * MEBIBYTE,
{
    bytes * MEBIBYTE
}

/// Convert n Gb to bytes. The product has to fit in a `u64`.
pub fn n_gb_bits(bits: u64) -> (r: u64)
    requires
        bits * GIGABIT <= u64::MAX,
    ensures
        r == bits * GIGABIT,
{
    bits * GIGABIT
}

/// Convert n GB to bytes. The product has to fit in a `u64`.
pub fn n_gb_bytes(bytes: u64) -> (r: u64)
    requires
        bytes * GIGABYTE <= u64::MAX,
    ensures
        r == bytes * GIGABYTE,
{
    bytes * GIGABYTE
}

/// Convert n GiB to bytes. The product has to fit in a `u64`.
pub fn n_gib_bytes(bytes: u64) -> (r: u64)
    requires
        bytes * GIBIBYTE <= u64::MAX,
    ensures
        r == bytes * GIBIBYTE,
{
    bytes * GIBIBYTE
}

/// Convert n Tb to bytes. The product has to fit in a `u64`.
pub fn n_tb_bits(bits: u64) -> (r: u64)
    requires
        bits * TERABIT <= u64::MAX,
    ensures
        r == bits * TERABIT,
{
    bits * TERABIT
}

/// Convert n TB to bytes. The product has to fit in a `u64`.
pub fn n_tb_bytes(bytes: u64) -> (r: u64)
    requires
        bytes * TERABYTE <= u64::MAX,
    ensures
        r == bytes * TERABYTE,
{
    bytes * TERABYTE
}

/// Convert n TiB to bytes. The product has to fit in a `u64`.
pub fn n_tib_bytes(bytes: u64) -> (r: u64)
    requires
        bytes * TEBIBYTE <= u64::MAX,
    ensures
        r == bytes * TEBIBYTE,
{
    bytes * TEBIBYTE
}

/// Convert n Pb to bytes. The product has to fit in a `u64`.
pub fn n_pb_bits(bits: u64) -> (r: u64)
    requires
        bits * PETABIT <= u64::MAX,
    ensures
        r == bits * PETABIT,
{
    bits * PETABIT
}

/// Convert n PB to bytes. The product has to fit in a `u64`.
pub fn n_pb_bytes(bytes: u64) -> (r: u64)
    requires
        bytes * PETABYTE <= u64::MAX,
    ensures
        r == bytes * PETABYTE,
{
    bytes * PETABYTE
}

/// Convert n PiB to bytes. The product has to fit in a `u64`.
pub fn n_pib_bytes(bytes: u64) -> (r: u64)
    requires
        bytes * PEBIBYTE <= u64::MAX,
    ensures
        r == bytes * PEBIBYTE,
{
    bytes * PEBIBYTE
}

} // verus!
