//! Sizes in bytes.

pub mod adjusted;
pub mod built_in_traits;
pub mod constants;
pub mod decimal;
pub mod parse;

use vstd::prelude::*;
use vstd::utf8::encode_utf8;
use crate::common::{scale_integer, scaled, Measure, RONNA};
use crate::errors::{ByteError, ParseError, ParseErrorView};
use crate::format::{format_size, is_formatted, Formatting};
use crate::parse::parsed_size;
use crate::text::trimmed;
use crate::search::{exact_unit, is_exact_unit};
use crate::unit::Unit;

pub use adjusted::AdjustedByte;

verus! {

/// Representing the size in bytes: a whole number below 10<sup>27</sup>.
#[derive(Clone, Copy, Debug, PartialEq, Eq, Structural, PartialOrd, Ord, Hash, Default)]
pub struct Byte(u128);

impl View for Byte {
    type V = nat;

    closed spec fn view(&self) -> nat {
        self.0 as nat
    }
}

impl Byte {
    /// The size of `size` bytes.
    pub closed spec fn of(size: nat) -> Byte {
        Byte(size as u128)
    }

    /// The size of `size` bytes is `size` bytes.
    pub proof fn lemma_of(size: nat)
        requires
            size <= u128::MAX,
        ensures
            Byte::of(size)@ == size,
    {
    }

    /// Two sizes of the same number of bytes are the same size.
    pub proof fn lemma_same(self, other: Byte)
        requires
            self@ == other@,
        ensures
            self == other,
    {
    }
}

/// Associated functions for building `Byte` instances.
impl Byte {
    #[verifier::type_invariant]
    spec fn in_range(self) -> bool {
        self.0 < RONNA
    }

    /// The smallest size: 0 bytes.
    pub fn min_value() -> (r: Byte)
        ensures
            r@ == 0,
    {
        Byte(0)
    }

    /// The largest size: 10<sup>27</sup> - 1 bytes.
    pub fn max_value() -> (r: Byte)
        ensures
            r@ == RONNA - 1,
    {
        Byte(RONNA - 1)
    }

    /// Create a new `Byte` instance from a size in bytes, which has to be
    /// below 10<sup>27</sup>.
    pub fn from_u128(size: u128) -> (r: Option<Byte>)
        ensures
            match r {
                Some(byte) => byte@ == size && size < RONNA,
                None => size >= RONNA,
            },
    {
        if size < RONNA {
            Some(Byte(size))
        } else {
            None
        }
    }

    /// Create a new `Byte` instance from a size in bytes that the caller
    /// knows to be below 10<sup>27</sup>.
    pub fn from_u128_unsafe(size: u128) -> (r: Byte)
        requires
            size < RONNA,
        ensures
            r@ == size,
    {
        Byte(size)
    }

    /// Create a new `Byte` instance from a size in bytes.
    pub fn from_u64(size: u64) -> (r: Byte)
        ensures
            r@ == size,
    {
        Byte(size as u128)
    }

    /// Create a new `Byte` instance from a size in bytes, which has to be
    /// at least 0 and below 10<sup>27</sup>.
    pub fn from_i128(size: i128) -> (r: Option<Byte>)
        ensures
            match r {
                Some(byte) => byte@ == size && 0 <= size < RONNA,
                None => size < 0 || size >= RONNA,
            },
    {
        if size >= 0 {
            Byte::from_u128(size as u128)
        } else {
            None
        }
    }

    /// Create a new `Byte` instance from a size in bytes, which has to be
    /// at least 0.
    pub fn from_i64(size: i64) -> (r: Option<Byte>)
        ensures
            match r {
                Some(byte) => byte@ == size && 0 <= size,
                None => size < 0,
            },
    {
        if size >= 0 {
            Some(Byte::from_u64(size as u64))
        } else {
            None
        }
    }
}

/// Associated functions for building `Byte` instances (with `Unit`).
impl Byte {
    /// Create a new `Byte` instance from a number of units. A number of
    /// bits is rounded up to whole bytes. The size has to stay below
    /// 10<sup>27</sup> bytes.
    pub fn from_u128_with_unit(size: u128, unit: Unit) -> (r: Option<Byte>)
        ensures
            match r {
                Some(byte) => byte@ == scaled(size as nat, unit, Measure::Bytes) && byte@ < RONNA,
                None => scaled(size as nat, unit, Measure::Bytes) >= RONNA,
            },
    {
        match scale_integer(size, unit, Measure::Bytes) {
            Some(v) => Some(Byte(v)),
            None => None,
        }
    }

    /// Create a new `Byte` instance from a number of units. A number of
    /// bits is rounded up to whole bytes. The size has to stay below
    /// 10<sup>27</sup> bytes.
    pub fn from_u64_with_unit(size: u64, unit: Unit) -> (r: Option<Byte>)
        ensures
            match r {
                Some(byte) => byte@ == scaled(size as nat, unit, Measure::Bytes) && byte@ < RONNA,
                None => scaled(size as nat, unit, Measure::Bytes) >= RONNA,
            },
    {
        Byte::from_u128_with_unit(size as u128, unit)
    }

    /// Create a new `Byte` instance from a number of units, which has to
    /// be at least 0. A number of bits is rounded up to whole bytes. The
    /// size has to stay below 10<sup>27</sup> bytes.
    pub fn from_i128_with_unit(size: i128, unit: Unit) -> (r: Option<Byte>)
        ensures
            match r {
                Some(byte) => size >= 0 && byte@ == scaled(size as nat, unit, Measure::Bytes) && byte@ < RONNA,
                None => size < 0 || scaled(size as nat, unit, Measure::Bytes) >= RONNA,
            },
    {
        if size >= 0 {
            Byte::from_u128_with_unit(size as u128, unit)
        } else {
            None
        }
    }

    /// Create a new `Byte` instance from a number of units, which has to
    /// be at least 0. A number of bits is rounded up to whole bytes. The
    /// size has to stay below 10<sup>27</sup> bytes.
    pub fn from_i64_with_unit(size: i64, unit: Unit) -> (r: Option<Byte>)
        ensures
            match r {
                Some(byte) => size >= 0 && byte@ == scaled(size as nat, unit, Measure::Bytes) && byte@ < RONNA,
                None => size < 0 || scaled(size as nat, unit, Measure::Bytes) >= RONNA,
            },
    {
        if size >= 0 {
            Byte::from_u64_with_unit(size as u64, unit)
        } else {
            None
        }
    }
}

/// Methods for converting a `Byte` instance into a primitive integer.
impl Byte {
    /// Retrieve the number of bytes.
    pub fn as_u128(self) -> (r: u128)
        ensures
            r == self@,
            r < RONNA,
    {
        proof {
            use_type_invariant(self);
        }
        self.0
    }

    /// Retrieve the number of bytes, or 2<sup>64</sup> - 1 where the
    /// number is larger than that.
    pub fn as_u64(self) -> (r: u64)
        ensures
            self@ <= u64::MAX ==> r == self@,
            self@ > u64::MAX ==> r == u64::MAX,
    {
        if self.0 <= 0xffff_ffff_ffff_ffff {
            self.0 as u64
        } else {
            u64::MAX
        }
    }

    /// Retrieve the number of bytes, where 64 bits hold it.
    pub fn as_u64_checked(self) -> (r: Option<u64>)
        ensures
            match r {
                Some(v) => v == self@,
                None => self@ > u64::MAX,
            },
    {
        if self.0 <= 0xffff_ffff_ffff_ffff {
            Some(self.0 as u64)
        } else {
            None
        }
    }
}

/// Methods for calculation.
impl Byte {
    /// Add another `Byte` instance. The sum has to stay below
    /// 10<sup>27</sup>.
    pub fn add(self, rhs: Byte) -> (r: Option<Byte>)
        ensures
            match r {
                Some(byte) => byte@ == self@ + rhs@,
                None => self@ + rhs@ >= RONNA,
            },
    {
        proof {
            use_type_invariant(self);
            use_type_invariant(rhs);
        }
        Byte::from_u128(self.0 + rhs.0)
    }

    /// Subtract another `Byte` instance, which must not be the larger
    /// one.
    pub fn subtract(self, rhs: Byte) -> (r: Option<Byte>)
        ensures
            match r {
                Some(byte) => byte@ == self@ - rhs@,
                None => self@ < rhs@,
            },
    {
        proof {
            use_type_invariant(self);
        }
        if self.0 >= rhs.0 {
            Some(Byte(self.0 - rhs.0))
        } else {
            None
        }
    }

    /// Multiply by an unsigned integer. The product has to stay below
    /// 10<sup>27</sup>.
    pub fn multiply(self, rhs: usize) -> (r: Option<Byte>)
        ensures
            match r {
                Some(byte) => byte@ == self@ * rhs,
                None => self@ * rhs >= RONNA,
            },
    {
        match self.0.checked_mul(rhs as u128) {
            Some(v) => Byte::from_u128(v),
            None => None,
        }
    }

    /// Divide by an unsigned integer other than 0, rounding down.
    pub fn divide(self, rhs: usize) -> (r: Option<Byte>)
        ensures
            match r {
                Some(byte) => rhs != 0 && byte@ == self@ / (rhs as nat),
                None => rhs == 0,
            },
    {
        proof {
            use_type_invariant(self);
        }
        if rhs == 0 {
            None
        } else {
            let v = self.0 / (rhs as u128);
            assert(v <= self.0) by (nonlinear_arith)
                requires
                    v == self.0 / (rhs as u128),
                    rhs > 0,
            ;
            Some(Byte(v))
        }
    }

    /// An eighth of the size, rounded down.
    pub fn div_8(self) -> (r: Byte)
        ensures
            r@ == self@ / 8,
    {
        proof {
            use_type_invariant(self);
        }
        Byte(self.0 / 8)
    }
}

/// Methods for finding a unit.
impl Byte {
    /// Obtain the largest unit that evenly divides this size, and the
    /// number of such units in it. With `allow_in_bits` the units of
    /// bits are searched too.
    pub fn get_exact_unit(self, allow_in_bits: bool) -> (r: (u128, Unit))
        ensures
            is_exact_unit(self@, Measure::Bytes, allow_in_bits, r.0 as nat, r.1),
            r.0 * r.1.bytes() == self@,
    {
        let r = exact_unit(self.0, Measure::Bytes, allow_in_bits);
        assert(r.1.weight(Measure::Bytes) == r.1.bytes());
        r
    }
}

/// Methods for writing a size out.
impl Byte {
    /// Write the size as `f` says: the number of bytes alone, or a number
    /// with at most `precision` fractional digits and the largest unit in
    /// which that number gives the size back exactly.
    pub fn format(self, f: &Formatting) -> (r: String)
        ensures
            is_formatted(r@, self@, Measure::Bytes, *f),
    {
        proof {
            use_type_invariant(self);
        }
        format_size(self.0, Measure::Bytes, f)
    }
}

/// Whether a result with its error in words is the one that the grammar
/// gives: the size, or the message of the error.
pub open spec fn is_first_result(r: Result<Byte, ByteError>, expected: Result<nat, ParseErrorView>) -> bool {
    match r {
        Ok(byte) => expected == Ok::<nat, ParseErrorView>(byte@),
        Err(ByteError::ValueIncorrect(text)) => match expected {
            Err(ParseErrorView::Value(e)) => text@ == e.message(),
            _ => false,
        },
        Err(ByteError::UnitIncorrect(text)) => match expected {
            Err(ParseErrorView::Unit(e)) => text@ == e.message(),
            _ => false,
        },
    }
}

/// Functions that take and give plain numbers of bytes, and errors in
/// words.
impl Byte {
    /// Create a new `Byte` instance from a size in bytes, which has to be
    /// below 10<sup>27</sup>.
    pub fn from_bytes(bytes: u128) -> (r: Option<Byte>)
        ensures
            match r {
                Some(byte) => byte@ == bytes && bytes < RONNA,
                None => bytes >= RONNA,
            },
    {
        Byte::from_u128(bytes)
    }

    /// Get the number of bytes.
    pub fn get_bytes(&self) -> (r: u128)
        ensures
            r == self@,
            r < RONNA,
    {
        self.as_u128()
    }

    /// Create a new `Byte` instance from a string such as `"123"`,
    /// `"123KiB"` or `"50.84 MB"`, in which a `b` means bytes as a `B`
    /// does. An error tells in words what was wrong, with the value or
    /// with the unit.
    pub fn from_str(s: &str) -> (r: Result<Byte, ByteError>)
        ensures
            is_first_result(r, parsed_size(encode_utf8(trimmed(s@)), Measure::Bytes, true)),
    {
        match Byte::parse_str(s, true) {
            Ok(byte) => Ok(byte),
            Err(ParseError::Value(e)) => Err(ByteError::ValueIncorrect(e.to_string())),
            Err(ParseError::Unit(e)) => Err(ByteError::UnitIncorrect(e.to_string())),
        }
    }
}

} // verus!
