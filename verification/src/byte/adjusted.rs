//! A size in bytes together with the unit it is to be shown in.

use vstd::prelude::*;
use crate::byte::Byte;
use crate::common::Measure;
use crate::search::{appropriate_unit, is_appropriate_unit};
use crate::unit::{Unit, UnitType};

verus! {

/// Generated from the `Byte::get_adjusted_unit` method or the
/// `Byte::get_appropriate_unit` method: a size and a unit. The value it
/// shows is the size divided by the unit.
#[derive(Clone, Copy, Debug)]
pub struct AdjustedByte {
    byte: Byte,
    unit: Unit,
}

/// An `AdjustedByte` as a mathematical value.
pub ghost struct AdjustedByteView {
    pub bytes: nat,
    pub unit: Unit,
}

impl View for AdjustedByte {
    type V = AdjustedByteView;

    closed spec fn view(&self) -> AdjustedByteView {
        AdjustedByteView { bytes: self.byte@, unit: self.unit }
    }
}

/// Methods for getting values.
impl AdjustedByte {
    /// Get the unit.
    pub fn get_unit(&self) -> (r: Unit)
        ensures
            r == self@.unit,
    {
        self.unit
    }

    /// Get the size that this instance was made from.
    pub fn get_byte(&self) -> (r: Byte)
        ensures
            r@ == self@.bytes,
    {
        self.byte
    }

    /// Get the value as a fraction: the size in bits, and the number of
    /// bits in one unit.
    pub fn get_ratio(&self) -> (r: (u128, u128))
        ensures
            r.0 == self@.bytes * 8,
            r.1 == self@.unit.bits(),
            r.1 > 0,
    {
        proof {
            self.unit.lemma_bits_values();
        }
        (self.byte.as_u128() * 8, self.unit.as_bits_u128())
    }
}

/// Associated functions for generating `AdjustedByte`.
impl Byte {
    /// Adjust the unit for this `Byte` instance.
    pub fn get_adjusted_unit(self, unit: Unit) -> (r: AdjustedByte)
        ensures
            r@ == (AdjustedByteView { bytes: self@, unit }),
    {
        AdjustedByte { byte: self, unit }
    }

    /// Find the appropriate unit for this `Byte` instance: the largest
    /// multiple of the byte, of the given type, that the size reaches, or
    /// the byte itself.
    pub fn get_appropriate_unit(&self, unit_type: UnitType) -> (r: AdjustedByte)
        ensures
            r@.bytes == self@,
            is_appropriate_unit(self@, Measure::Bytes, unit_type, r@.unit),
    {
        let unit = appropriate_unit(self.as_u128(), Measure::Bytes, unit_type);
        AdjustedByte { byte: *self, unit }
    }
}

/// Two instances are equal where their sizes are, whatever their units.
impl PartialEq for AdjustedByte {
    fn eq(&self, other: &AdjustedByte) -> (r: bool) {
        self.byte.as_u128() == other.byte.as_u128()
    }
}

impl Eq for AdjustedByte {

}

impl vstd::std_specs::cmp::PartialEqSpecImpl for AdjustedByte {
    open spec fn obeys_eq_spec() -> bool {
        true
    }

    open spec fn eq_spec(&self, other: &AdjustedByte) -> bool {
        self@.bytes == other@.bytes
    }
}

} // verus!
