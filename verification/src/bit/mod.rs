//! Sizes in bits.

pub mod adjusted;
pub mod built_in_traits;
pub mod constants;
pub mod decimal;
pub mod parse;

use vstd::prelude::*;
use crate::common::{lemma_scaled_by_weight, scale_integer, Measure, RONNA};
use crate::format::{format_size, is_formatted, Formatting};
use crate::search::{exact_unit, is_exact_unit};
use crate::unit::Unit;

pub use adjusted::AdjustedBit;

verus! {

/// Representing the size in bits: a whole number below 10<sup>27</sup>.
#[derive(Clone, Copy, Debug, PartialEq, Eq, Structural, PartialOrd, Ord, Hash, Default)]
pub struct Bit(u128);

impl View for Bit {
    type V = nat;

    closed spec fn view(&self) -> nat {
        self.0 as nat
    }
}

impl Bit {
    /// The size of `size` bits.
    pub closed spec fn of(size: nat) -> Bit {
        Bit(size as u128)
    }

    /// The size of `size` bits is `size` bits.
    pub proof fn lemma_of(size: nat)
        requires
            size <= u128::MAX,
        ensures
            Bit::of(size)@ == size,
    {
    }

    /// Two sizes of the same number of bits are the same size.
    pub proof fn lemma_same(self, other: Bit)
        requires
            self@ == other@,
        ensures
            self == other,
    {
    }
}

/// Associated functions for building `Bit` instances.
impl Bit {
    #[verifier::type_invariant]
    spec fn in_range(self) -> bool {
        self.0 < RONNA
    }

    /// The smallest size: 0 bits.
    pub fn min_value() -> (r: Bit)
        ensures
            r@ == 0,
    {
        Bit(0)
    }

    /// The largest size: 10<sup>27</sup> - 1 bits.
    pub fn max_value() -> (r: Bit)
        ensures
            r@ == RONNA - 1,
    {
        Bit(RONNA - 1)
    }

    /// Create a new `Bit` instance from a size in bits, which has to be
    /// below 10<sup>27</sup>.
    pub fn from_u128(size: u128) -> (r: Option<Bit>)
        ensures
            match r {
                Some(bit) => bit@ == size && size < RONNA,
                None => size >= RONNA,
            },
    {
        if size < RONNA {
            Some(Bit(size))
        } else {
            None
        }
    }

    /// Create a new `Bit` instance from a size in bits that the caller
    /// knows to be below 10<sup>27</sup>.
    pub fn from_u128_unsafe(size: u128) -> (r: Bit)
        requires
            size < RONNA,
        ensures
            r@ == size,
    {
        Bit(size)
    }

    /// Create a new `Bit` instance from a size in bits.
    pub fn from_u64(size: u64) -> (r: Bit)
        ensures
            r@ == size,
    {
        Bit(size as u128)
    }

    /// Create a new `Bit` instance from a size in bits, which has to be
    /// at least 0 and below 10<sup>27</sup>.
    pub fn from_i128(size: i128) -> (r: Option<Bit>)
        ensures
            match r {
                Some(bit) => bit@ == size && 0 <= size < RONNA,
                None => size < 0 || size >= RONNA,
            },
    {
        if size >= 0 {
            Bit::from_u128(size as u128)
        } else {
            None
        }
    }

    /// Create a new `Bit` instance from a size in bits, which has to be
    /// at least 0.
    pub fn from_i64(size: i64) -> (r: Option<Bit>)
        ensures
            match r {
                Some(bit) => bit@ == size && 0 <= size,
                None => size < 0,
            },
    {
        if size >= 0 {
            Some(Bit::from_u64(size as u64))
        } else {
            None
        }
    }
}

/// Associated functions for building `Bit` instances (with `Unit`).
impl Bit {
    /// Create a new `Bit` instance from a number of units. The size has
    /// to stay below 10<sup>27</sup> bits.
    pub fn from_u128_with_unit(size: u128, unit: Unit) -> (r: Option<Bit>)
        ensures
            match r {
                Some(bit) => bit@ == size * unit.bits() && bit@ < RONNA,
                None => size * unit.bits() >= RONNA,
            },
    {
        proof {
            lemma_scaled_by_weight(size as nat, unit, Measure::Bits);
        }
        match scale_integer(size, unit, Measure::Bits) {
            Some(v) => Some(Bit(v)),
            None => None,
        }
    }

    /// Create a new `Bit` instance from a number of units. The size has
    /// to stay below 10<sup>27</sup> bits.
    pub fn from_u64_with_unit(size: u64, unit: Unit) -> (r: Option<Bit>)
        ensures
            match r {
                Some(bit) => bit@ == size * unit.bits() && bit@ < RONNA,
                None => size * unit.bits() >= RONNA,
            },
    {
        Bit::from_u128_with_unit(size as u128, unit)
    }

    /// Create a new `Bit` instance from a number of units, which has to
    /// be at least 0. The size has to stay below 10<sup>27</sup> bits.
    pub fn from_i128_with_unit(size: i128, unit: Unit) -> (r: Option<Bit>)
        ensures
            match r {
                Some(bit) => size >= 0 && bit@ == size * unit.bits() && bit@ < RONNA,
                None => size < 0 || size * unit.bits() >= RONNA,
            },
    {
        if size >= 0 {
            Bit::from_u128_with_unit(size as u128, unit)
        } else {
            None
        }
    }

    /// Create a new `Bit` instance from a number of units, which has to
    /// be at least 0. The size has to stay below 10<sup>27</sup> bits.
    pub fn from_i64_with_unit(size: i64, unit: Unit) -> (r: Option<Bit>)
        ensures
            match r {
                Some(bit) => size >= 0 && bit@ == size * unit.bits() && bit@ < RONNA,
                None => size < 0 || size * unit.bits() >= RONNA,
            },
    {
        if size >= 0 {
            Bit::from_u64_with_unit(size as u64, unit)
        } else {
            None
        }
    }
}

/// Methods for converting a `Bit` instance into a primitive integer.
impl Bit {
    /// Retrieve the number of bits.
    pub fn as_u128(self) -> (r: u128)
        ensures
            r == self@,
            r < RONNA,
    {
        proof {
            use_type_invariant(self);
        }
        self.0
    }

    /// Retrieve the number of bits, or 2<sup>64</sup> - 1 where the
    /// number is larger than that.
    pub fn as_u64(self) -> (r: u64)
        ensures
            self@ <= u64::MAX ==> r == self@,
            self@ > u64::MAX ==> r == u64::MAX,
    {
        if self.0 <= 0xffff_ffff_ffff_ffff {
            self.0 as u64
        } else {
            u64::MAX
        }
    }

    /// Retrieve the number of bits, where 64 bits hold it.
    pub fn as_u64_checked(self) -> (r: Option<u64>)
        ensures
            match r {
                Some(v) => v == self@,
                None => self@ > u64::MAX,
            },
    {
        if self.0 <= 0xffff_ffff_ffff_ffff {
            Some(self.0 as u64)
        } else {
            None
        }
    }
}

/// Methods for calculation.
impl Bit {
    /// Add another `Bit` instance. The sum has to stay below
    /// 10<sup>27</sup>.
    pub fn add(self, rhs: Bit) -> (r: Option<Bit>)
        ensures
            match r {
                Some(bit) => bit@ == self@ + rhs@,
                None => self@ + rhs@ >= RONNA,
            },
    {
        proof {
            use_type_invariant(self);
            use_type_invariant(rhs);
        }
        Bit::from_u128(self.0 + rhs.0)
    }

    /// Subtract another `Bit` instance, which must not be the larger
    /// one.
    pub fn subtract(self, rhs: Bit) -> (r: Option<Bit>)
        ensures
            match r {
                Some(bit) => bit@ == self@ - rhs@,
                None => self@ < rhs@,
            },
    {
        proof {
            use_type_invariant(self);
        }
        if self.0 >= rhs.0 {
            Some(Bit(self.0 - rhs.0))
        } else {
            None
        }
    }

    /// Multiply by an unsigned integer. The product has to stay below
    /// 10<sup>27</sup>.
    pub fn multiply(self, rhs: usize) -> (r: Option<Bit>)
        ensures
            match r {
                Some(bit) => bit@ == self@ * rhs,
                None => self@ * rhs >= RONNA,
            },
    {
        match self.0.checked_mul(rhs as u128) {
            Some(v) => Bit::from_u128(v),
            None => None,
        }
    }

    /// Divide by an unsigned integer other than 0, rounding down.
    pub fn divide(self, rhs: usize) -> (r: Option<Bit>)
        ensures
            match r {
                Some(bit) => rhs != 0 && bit@ == self@ / (rhs as nat),
                None => rhs == 0,
            },
    {
        proof {
            use_type_invariant(self);
        }
        if rhs == 0 {
            None
        } else {
            let v = self.0 / (rhs as u128);
            assert(v <= self.0) by (nonlinear_arith)
                requires
                    v == self.0 / (rhs as u128),
                    rhs > 0,
            ;
            Some(Bit(v))
        }
    }

    /// Eight times the size.
    pub fn mul_8(self) -> (r: Bit)
        requires
            self@ * 8 < RONNA,
        ensures
            r@ == self@ * 8,
    {
        Bit(self.0 * 8)
    }
}

/// Methods for finding a unit.
impl Bit {
    /// Obtain the largest unit that evenly divides this size, and the
    /// number of such units in it. With `allow_in_bytes` the units of
    /// bytes are searched too.
    pub fn get_exact_unit(self, allow_in_bytes: bool) -> (r: (u128, Unit))
        ensures
            is_exact_unit(self@, Measure::Bits, allow_in_bytes, r.0 as nat, r.1),
            r.0 * r.1.bits() == self@,
    {
        let r = exact_unit(self.0, Measure::Bits, allow_in_bytes);
        assert(r.1.weight(Measure::Bits) == r.1.bits());
        r
    }
}

/// Methods for writing a size out.
impl Bit {
    /// Write the size as `f` says: the number of bits alone, or a number
    /// with at most `precision` fractional digits and the largest unit in
    /// which that number gives the size back exactly.
    pub fn format(self, f: &Formatting) -> (r: String)
        ensures
            is_formatted(r@, self@, Measure::Bits, *f),
    {
        proof {
            use_type_invariant(self);
        }
        format_size(self.0, Measure::Bits, f)
    }
}

} // verus!
