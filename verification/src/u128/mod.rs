//! Multiples of the byte as `u128` values.

pub mod constants;
