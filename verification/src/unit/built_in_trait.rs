//! Units from text, and units as numbers of bits.

use core::str::FromStr;
use vstd::prelude::*;
use vstd::std_specs::convert::FromSpecImpl;
use crate::errors::UnitParseError;
use crate::unit::Unit;

verus! {

impl FromStr for Unit {
    type Err = UnitParseError;

    /// Case counts, and a suffix that names no base is read as a unit of
    /// bytes. See `Unit::parse_str`.
    fn from_str(s: &str) -> (r: Result<Unit, UnitParseError>)
        ensures
            Unit::is_parsed(r, s@, false, true),
    {
        Unit::parse_str(s, false, true)
    }
}

impl From<Unit> for u128 {
    fn from(unit: Unit) -> (r: u128) {
        proof {
            unit.lemma_bits_values();
        }
        unit.as_bits_u128()
    }
}

impl FromSpecImpl<Unit> for u128 {
    open spec fn obeys_from_spec() -> bool {
        true
    }

    open spec fn from_spec(unit: Unit) -> u128 {
        unit.bits() as u128
    }
}

} // verus!
