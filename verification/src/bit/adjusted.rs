//! A size in bits together with the unit it is to be shown in.

use vstd::prelude::*;
use crate::bit::Bit;
use crate::common::Measure;
use crate::search::{appropriate_unit, is_appropriate_unit};
use crate::unit::{Unit, UnitType};

verus! {

/// Generated from the `Bit::get_adjusted_unit` method or the
/// `Bit::get_appropriate_unit` method: a size and a unit. The value it
/// shows is the size divided by the unit.
#[derive(Clone, Copy, Debug)]
pub struct AdjustedBit {
    bit: Bit,
    unit: Unit,
}

/// An `AdjustedBit` as a mathematical value.
pub ghost struct AdjustedBitView {
    pub bits: nat,
    pub unit: Unit,
}

impl View for AdjustedBit {
    type V = AdjustedBitView;

    closed spec fn view(&self) -> AdjustedBitView {
        AdjustedBitView { bits: self.bit@, unit: self.unit }
    }
}

/// Methods for getting values.
impl AdjustedBit {
    /// Get the unit.
    pub fn get_unit(&self) -> (r: Unit)
        ensures
            r == self@.unit,
    {
        self.unit
    }

    /// Get the size that this instance was made from.
    pub fn get_bit(&self) -> (r: Bit)
        ensures
            r@ == self@.bits,
    {
        self.bit
    }

    /// Get the value as a fraction: the number of bits, and the number
    /// of bits in one unit.
    pub fn get_ratio(&self) -> (r: (u128, u128))
        ensures
            r.0 == self@.bits,
            r.1 == self@.unit.bits(),
            r.1 > 0,
    {
        proof {
            self.unit.lemma_bits_values();
        }
        (self.bit.as_u128(), self.unit.as_bits_u128())
    }
}

/// Associated functions for generating `AdjustedBit`.
impl Bit {
    /// Adjust the unit for this `Bit` instance.
    pub fn get_adjusted_unit(self, unit: Unit) -> (r: AdjustedBit)
        ensures
            r@ == (AdjustedBitView { bits: self@, unit }),
    {
        AdjustedBit { bit: self, unit }
    }

    /// Find the appropriate unit for this `Bit` instance: the largest
    /// multiple of the bit, of the given type, that the size reaches, or
    /// the bit itself.
    pub fn get_appropriate_unit(&self, unit_type: UnitType) -> (r: AdjustedBit)
        ensures
            r@.bits == self@,
            is_appropriate_unit(self@, Measure::Bits, unit_type, r@.unit),
    {
        let unit = appropriate_unit(self.as_u128(), Measure::Bits, unit_type);
        AdjustedBit { bit: *self, unit }
    }
}

/// Two instances are equal where their sizes are, whatever their units.
impl PartialEq for AdjustedBit {
    fn eq(&self, other: &AdjustedBit) -> (r: bool) {
        self.bit.as_u128() == other.bit.as_u128()
    }
}

impl Eq for AdjustedBit {

}

impl vstd::std_specs::cmp::PartialEqSpecImpl for AdjustedBit {
    open spec fn obeys_eq_spec() -> bool {
        true
    }

    open spec fn eq_spec(&self, other: &AdjustedBit) -> bool {
        self@.bits == other@.bits
    }
}

} // verus!
