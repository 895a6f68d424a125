//! Sizes in bytes from decimal numbers, and back.

use vstd::prelude::*;
use crate::byte::Byte;
use crate::common::{
    decimal_size, scale_decimal, scaled_decimal_size, size_from_decimal, Measure,
};
use crate::decimal::Decimal;
use crate::search::{clamped, is_recoverable_unit, recoverable_unit};
use crate::unit::Unit;

verus! {

/// Whether an executable size is the one that a contract names.
pub open spec fn is_byte(r: Option<Byte>, size: Option<nat>) -> bool {
    match r {
        Some(byte) => size == Some(byte@),
        None => size.is_none(),
    }
}

/// Associated functions for building `Byte` instances using `Decimal`.
impl Byte {
    /// Create a new `Byte` instance from a size in bytes, which has to be
    /// at least 0. The fractional part is rounded up, and the size has to
    /// stay below 10<sup>27</sup>.
    pub fn from_decimal(size: Decimal) -> (r: Option<Byte>)
        ensures
            is_byte(r, decimal_size(size@)),
    {
        match size_from_decimal(size) {
            Some(n) => Byte::from_u128(n),
            None => None,
        }
    }

    /// Create a new `Byte` instance from a number of units, which has to
    /// be at least 0. The size in bytes is rounded up, and it has to stay
    /// below 10<sup>27</sup>.
    pub fn from_decimal_with_unit(size: Decimal, unit: Unit) -> (r: Option<Byte>)
        ensures
            is_byte(r, scaled_decimal_size(size@, unit, Measure::Bytes)),
    {
        match scale_decimal(size, unit, Measure::Bytes) {
            Some(n) => Byte::from_u128(n),
            None => None,
        }
    }
}

/// Methods for finding a unit using `Decimal`.
impl Byte {
    /// Find the largest unit, and the number of such units, from which
    /// this size is recovered exactly when the number is written with at
    /// most `precision` fractional digits. With `allow_in_bits` the
    /// units of bits are searched too. A precision above 28 counts as
    /// 28.
    pub fn get_recoverable_unit(self, allow_in_bits: bool, precision: usize) -> (r: (
        Decimal,
        Unit,
    ))
        ensures
            is_recoverable_unit(
                self@,
                Measure::Bytes,
                allow_in_bits,
                clamped(precision as nat),
                r.0@,
                r.1,
            ),
    {
        recoverable_unit(self.as_u128(), Measure::Bytes, allow_in_bits, precision)
    }
}

} // verus!
