//! Multiples of the byte as `u64` values.

pub mod constants;
