//! Sizes in bits from decimal numbers, and back.

use vstd::prelude::*;
use crate::bit::Bit;
use crate::common::{
    decimal_size, scale_decimal, scaled_decimal_size, size_from_decimal, Measure,
};
use crate::decimal::Decimal;
use crate::search::{clamped, is_recoverable_unit, recoverable_unit};
use crate::unit::Unit;

verus! {

/// Whether an executable size is the one that a contract names.
pub open spec fn is_bit(r: Option<Bit>, size: Option<nat>) -> bool {
    match r {
        Some(bit) => size == Some(bit@),
        None => size.is_none(),
    }
}

/// Associated functions for building `Bit` instances using `Decimal`.
impl Bit {
    /// Create a new `Bit` instance from a size in bits, which has to be
    /// at least 0. The fractional part is rounded up, and the size has to
    /// stay below 10<sup>27</sup>.
    pub fn from_decimal(size: Decimal) -> (r: Option<Bit>)
        ensures
            is_bit(r, decimal_size(size@)),
    {
        match size_from_decimal(size) {
            Some(n) => Bit::from_u128(n),
            None => None,
        }
    }

    /// Create a new `Bit` instance from a number of units, which has to
    /// be at least 0. The size in bits is rounded up, and it has to stay
    /// below 10<sup>27</sup>.
    pub fn from_decimal_with_unit(size: Decimal, unit: Unit) -> (r: Option<Bit>)
        ensures
            is_bit(r, scaled_decimal_size(size@, unit, Measure::Bits)),
    {
        match scale_decimal(size, unit, Measure::Bits) {
            Some(n) => Bit::from_u128(n),
            None => None,
        }
    }
}

/// Methods for finding a unit using `Decimal`.
impl Bit {
    /// Find the largest unit, and the number of such units, from which
    /// this size is recovered exactly when the number is written with at
    /// most `precision` fractional digits. With `allow_in_bytes` the
    /// units of bytes are searched too. A precision above 28 counts as
    /// 28.
    pub fn get_recoverable_unit(self, allow_in_bytes: bool, precision: usize) -> (r: (
        Decimal,
        Unit,
    ))
        ensures
            is_recoverable_unit(
                self@,
                Measure::Bits,
                allow_in_bytes,
                clamped(precision as nat),
                r.0@,
                r.1,
            ),
    {
        recoverable_unit(self.as_u128(), Measure::Bits, allow_in_bytes, precision)
    }
}

} // verus!
