//! Conversions between sizes in bits and integers, and sizes in bits
//! from text.

use core::num::TryFromIntError;
use core::str::FromStr;
use vstd::prelude::*;
use vstd::std_specs::cmp::PartialEqSpecImpl;
use vstd::std_specs::convert::{FromSpecImpl, TryFromSpec, TryFromSpecImpl};
use crate::bit::Bit;
use crate::common::RONNA;
use crate::errors::{ExceededBoundsError, ParseError};

verus! {

impl Bit {
    /// The size that an integer gives: the size of as many bits, where
    /// the integer is at least 0 and below 10<sup>27</sup>.
    pub open spec fn checked(value: int) -> Result<Bit, ExceededBoundsError> {
        if 0 <= value < RONNA {
            Ok(Bit::of(value as nat))
        } else {
            Err(ExceededBoundsError)
        }
    }

    /// The number of bits, or 2<sup>64</sup> - 1 where the number is
    /// larger than that.
    pub open spec fn saturated(self) -> u64 {
        if self@ <= u64::MAX {
            self@ as u64
        } else {
            u64::MAX
        }
    }
}

impl From<u64> for Bit {
    fn from(value: u64) -> (r: Bit) {
        let r = Bit::from_u64(value);
        proof {
            Bit::lemma_of(value as nat);
            r.lemma_same(Bit::of(value as nat));
        }
        r
    }
}

impl FromSpecImpl<u64> for Bit {
    open spec fn obeys_from_spec() -> bool {
        true
    }

    open spec fn from_spec(value: u64) -> Bit {
        Bit::of(value as nat)
    }
}

impl From<u32> for Bit {
    fn from(value: u32) -> (r: Bit) {
        let r = Bit::from_u64(value as u64);
        proof {
            Bit::lemma_of(value as nat);
            r.lemma_same(Bit::of(value as nat));
        }
        r
    }
}

impl FromSpecImpl<u32> for Bit {
    open spec fn obeys_from_spec() -> bool {
        true
    }

    open spec fn from_spec(value: u32) -> Bit {
        Bit::of(value as nat)
    }
}

impl From<u16> for Bit {
    fn from(value: u16) -> (r: Bit) {
        let r = Bit::from_u64(value as u64);
        proof {
            Bit::lemma_of(value as nat);
            r.lemma_same(Bit::of(value as nat));
        }
        r
    }
}

impl FromSpecImpl<u16> for Bit {
    open spec fn obeys_from_spec() -> bool {
        true
    }

    open spec fn from_spec(value: u16) -> Bit {
        Bit::of(value as nat)
    }
}

impl From<u8> for Bit {
    fn from(value: u8) -> (r: Bit) {
        let r = Bit::from_u64(value as u64);
        proof {
            Bit::lemma_of(value as nat);
            r.lemma_same(Bit::of(value as nat));
        }
        r
    }
}

impl FromSpecImpl<u8> for Bit {
    open spec fn obeys_from_spec() -> bool {
        true
    }

    open spec fn from_spec(value: u8) -> Bit {
        Bit::of(value as nat)
    }
}

impl From<usize> for Bit {
    fn from(value: usize) -> (r: Bit) {
        let r = Bit::from_u64(value as u64);
        proof {
            Bit::lemma_of(value as nat);
            r.lemma_same(Bit::of(value as nat));
        }
        r
    }
}

impl FromSpecImpl<usize> for Bit {
    open spec fn obeys_from_spec() -> bool {
        true
    }

    open spec fn from_spec(value: usize) -> Bit {
        Bit::of(value as nat)
    }
}

impl TryFrom<u128> for Bit {
    type Error = ExceededBoundsError;

    fn try_from(value: u128) -> (r: Result<Bit, ExceededBoundsError>) {
        match Bit::from_u128(value) {
            Some(size) => {
                proof {
                    Bit::lemma_of(value as nat);
                    size.lemma_same(Bit::of(value as nat));
                }
                Ok(size)
            },
            None => Err(ExceededBoundsError),
        }
    }
}

impl TryFromSpecImpl<u128> for Bit {
    open spec fn obeys_try_from_spec() -> bool {
        true
    }

    open spec fn try_from_spec(value: u128) -> Result<Bit, ExceededBoundsError> {
        Bit::checked(value as int)
    }
}

impl TryFrom<i128> for Bit {
    type Error = ExceededBoundsError;

    fn try_from(value: i128) -> (r: Result<Bit, ExceededBoundsError>) {
        match Bit::from_i128(value) {
            Some(size) => {
                proof {
                    Bit::lemma_of(value as nat);
                    size.lemma_same(Bit::of(value as nat));
                }
                Ok(size)
            },
            None => Err(ExceededBoundsError),
        }
    }
}

impl TryFromSpecImpl<i128> for Bit {
    open spec fn obeys_try_from_spec() -> bool {
        true
    }

    open spec fn try_from_spec(value: i128) -> Result<Bit, ExceededBoundsError> {
        Bit::checked(value as int)
    }
}

impl TryFrom<i64> for Bit {
    type Error = ExceededBoundsError;

    fn try_from(value: i64) -> (r: Result<Bit, ExceededBoundsError>) {
        match Bit::from_i64(value) {
            Some(size) => {
                proof {
                    Bit::lemma_of(value as nat);
                    size.lemma_same(Bit::of(value as nat));
                }
                Ok(size)
            },
            None => Err(ExceededBoundsError),
        }
    }
}

impl TryFromSpecImpl<i64> for Bit {
    open spec fn obeys_try_from_spec() -> bool {
        true
    }

    open spec fn try_from_spec(value: i64) -> Result<Bit, ExceededBoundsError> {
        Bit::checked(value as int)
    }
}

impl TryFrom<i32> for Bit {
    type Error = ExceededBoundsError;

    fn try_from(value: i32) -> (r: Result<Bit, ExceededBoundsError>) {
        match Bit::from_i64(value as i64) {
            Some(size) => {
                proof {
                    Bit::lemma_of(value as nat);
                    size.lemma_same(Bit::of(value as nat));
                }
                Ok(size)
            },
            None => Err(ExceededBoundsError),
        }
    }
}

impl TryFromSpecImpl<i32> for Bit {
    open spec fn obeys_try_from_spec() -> bool {
        true
    }

    open spec fn try_from_spec(value: i32) -> Result<Bit, ExceededBoundsError> {
        Bit::checked(value as int)
    }
}

impl TryFrom<i16> for Bit {
    type Error = ExceededBoundsError;

    fn try_from(value: i16) -> (r: Result<Bit, ExceededBoundsError>) {
        match Bit::from_i64(value as i64) {
            Some(size) => {
                proof {
                    Bit::lemma_of(value as nat);
                    size.lemma_same(Bit::of(value as nat));
                }
                Ok(size)
            },
            None => Err(ExceededBoundsError),
        }
    }
}

impl TryFromSpecImpl<i16> for Bit {
    open spec fn obeys_try_from_spec() -> bool {
        true
    }

    open spec fn try_from_spec(value: i16) -> Result<Bit, ExceededBoundsError> {
        Bit::checked(value as int)
    }
}

impl TryFrom<i8> for Bit {
    type Error = ExceededBoundsError;

    fn try_from(value: i8) -> (r: Result<Bit, ExceededBoundsError>) {
        match Bit::from_i64(value as i64) {
            Some(size) => {
                proof {
                    Bit::lemma_of(value as nat);
                    size.lemma_same(Bit::of(value as nat));
                }
                Ok(size)
            },
            None => Err(ExceededBoundsError),
        }
    }
}

impl TryFromSpecImpl<i8> for Bit {
    open spec fn obeys_try_from_spec() -> bool {
        true
    }

    open spec fn try_from_spec(value: i8) -> Result<Bit, ExceededBoundsError> {
        Bit::checked(value as int)
    }
}

impl TryFrom<isize> for Bit {
    type Error = ExceededBoundsError;

    fn try_from(value: isize) -> (r: Result<Bit, ExceededBoundsError>) {
        match Bit::from_i64(value as i64) {
            Some(size) => {
                proof {
                    Bit::lemma_of(value as nat);
                    size.lemma_same(Bit::of(value as nat));
                }
                Ok(size)
            },
            None => Err(ExceededBoundsError),
        }
    }
}

impl TryFromSpecImpl<isize> for Bit {
    open spec fn obeys_try_from_spec() -> bool {
        true
    }

    open spec fn try_from_spec(value: isize) -> Result<Bit, ExceededBoundsError> {
        Bit::checked(value as int)
    }
}

impl From<Bit> for u128 {
    fn from(size: Bit) -> (r: u128) {
        size.as_u128()
    }
}

impl FromSpecImpl<Bit> for u128 {
    open spec fn obeys_from_spec() -> bool {
        true
    }

    open spec fn from_spec(size: Bit) -> u128 {
        size@ as u128
    }
}

impl From<Bit> for u64 {
    fn from(size: Bit) -> (r: u64) {
        size.as_u64()
    }
}

impl FromSpecImpl<Bit> for u64 {
    open spec fn obeys_from_spec() -> bool {
        true
    }

    open spec fn from_spec(size: Bit) -> u64 {
        size.saturated()
    }
}

impl TryFrom<Bit> for u32 {
    type Error = TryFromIntError;

    fn try_from(size: Bit) -> (r: Result<u32, TryFromIntError>) {
        u32::try_from(size.as_u64())
    }
}

impl TryFromSpecImpl<Bit> for u32 {
    open spec fn obeys_try_from_spec() -> bool {
        true
    }

    open spec fn try_from_spec(size: Bit) -> Result<u32, TryFromIntError> {
        <u32 as TryFromSpec<u64>>::try_from_spec(size.saturated())
    }
}

impl TryFrom<Bit> for u16 {
    type Error = TryFromIntError;

    fn try_from(size: Bit) -> (r: Result<u16, TryFromIntError>) {
        u16::try_from(size.as_u64())
    }
}

impl TryFromSpecImpl<Bit> for u16 {
    open spec fn obeys_try_from_spec() -> bool {
        true
    }

    open spec fn try_from_spec(size: Bit) -> Result<u16, TryFromIntError> {
        <u16 as TryFromSpec<u64>>::try_from_spec(size.saturated())
    }
}

impl TryFrom<Bit> for u8 {
    type Error = TryFromIntError;

    fn try_from(size: Bit) -> (r: Result<u8, TryFromIntError>) {
        u8::try_from(size.as_u64())
    }
}

impl TryFromSpecImpl<Bit> for u8 {
    open spec fn obeys_try_from_spec() -> bool {
        true
    }

    open spec fn try_from_spec(size: Bit) -> Result<u8, TryFromIntError> {
        <u8 as TryFromSpec<u64>>::try_from_spec(size.saturated())
    }
}

impl TryFrom<Bit> for usize {
    type Error = TryFromIntError;

    fn try_from(size: Bit) -> (r: Result<usize, TryFromIntError>) {
        usize::try_from(size.as_u64())
    }
}

impl TryFromSpecImpl<Bit> for usize {
    open spec fn obeys_try_from_spec() -> bool {
        true
    }

    open spec fn try_from_spec(size: Bit) -> Result<usize, TryFromIntError> {
        <usize as TryFromSpec<u64>>::try_from_spec(size.saturated())
    }
}

impl PartialEq<u64> for Bit {
    fn eq(&self, other: &u64) -> (r: bool) {
        self.as_u128() == *other as u128
    }
}

impl PartialEqSpecImpl<u64> for Bit {
    open spec fn obeys_eq_spec() -> bool {
        true
    }

    open spec fn eq_spec(&self, other: &u64) -> bool {
        self@ == *other
    }
}

impl PartialEq<Bit> for u64 {
    fn eq(&self, other: &Bit) -> (r: bool) {
        *self as u128 == other.as_u128()
    }
}

impl PartialEqSpecImpl<Bit> for u64 {
    open spec fn obeys_eq_spec() -> bool {
        true
    }

    open spec fn eq_spec(&self, other: &Bit) -> bool {
        *self == other@
    }
}

impl PartialEq<u128> for Bit {
    fn eq(&self, other: &u128) -> (r: bool) {
        self.as_u128() == *other as u128
    }
}

impl PartialEqSpecImpl<u128> for Bit {
    open spec fn obeys_eq_spec() -> bool {
        true
    }

    open spec fn eq_spec(&self, other: &u128) -> bool {
        self@ == *other
    }
}

impl PartialEq<Bit> for u128 {
    fn eq(&self, other: &Bit) -> (r: bool) {
        *self as u128 == other.as_u128()
    }
}

impl PartialEqSpecImpl<Bit> for u128 {
    open spec fn obeys_eq_spec() -> bool {
        true
    }

    open spec fn eq_spec(&self, other: &Bit) -> bool {
        *self == other@
    }
}

impl FromStr for Bit {
    type Err = ParseError;

    /// See `Bit::parse_str`.
    fn from_str(s: &str) -> (r: Result<Bit, ParseError>)
        ensures
            Bit::is_parsed(r, s@),
    {
        Bit::parse_str(s)
    }
}

} // verus!
