//! Conversions between sizes in bytes and integers.

use core::num::TryFromIntError;
use vstd::prelude::*;
use vstd::std_specs::cmp::PartialEqSpecImpl;
use vstd::std_specs::convert::{FromSpecImpl, TryFromSpec, TryFromSpecImpl};
use crate::byte::Byte;
use crate::common::RONNA;
use crate::errors::ExceededBoundsError;

verus! {

impl Byte {
    /// The size that an integer gives: the size of as many bytes, where
    /// the integer is at least 0 and below 10<sup>27</sup>.
    pub open spec fn checked(value: int) -> Result<Byte, ExceededBoundsError> {
        if 0 <= value < RONNA {
            Ok(Byte::of(value as nat))
        } else {
            Err(ExceededBoundsError)
        }
    }

    /// The number of bytes, or 2<sup>64</sup> - 1 where the number is
    /// larger than that.
    pub open spec fn saturated(self) -> u64 {
        if self@ <= u64::MAX {
            self@ as u64
        } else {
            u64::MAX
        }
    }
}

impl From<u64> for Byte {
    fn from(value: u64) -> (r: Byte) {
        let r = Byte::from_u64(value);
        proof {
            Byte::lemma_of(value as nat);
            r.lemma_same(Byte::of(value as nat));
        }
        r
    }
}

impl FromSpecImpl<u64> for Byte {
    open spec fn obeys_from_spec() -> bool {
        true
    }

    open spec fn from_spec(value: u64) -> Byte {
        Byte::of(value as nat)
    }
}

impl From<u32> for Byte {
    fn from(value: u32) -> (r: Byte) {
        let r = Byte::from_u64(value as u64);
        proof {
            Byte::lemma_of(value as nat);
            r.lemma_same(Byte::of(value as nat));
        }
        r
    }
}

impl FromSpecImpl<u32> for Byte {
    open spec fn obeys_from_spec() -> bool {
        true
    }

    open spec fn from_spec(value: u32) -> Byte {
        Byte::of(value as nat)
    }
}

impl From<u16> for Byte {
    fn from(value: u16) -> (r: Byte) {
        let r = Byte::from_u64(value as u64);
        proof {
            Byte::lemma_of(value as nat);
            r.lemma_same(Byte::of(value as nat));
        }
        r
    }
}

impl FromSpecImpl<u16> for Byte {
    open spec fn obeys_from_spec() -> bool {
        true
    }

    open spec fn from_spec(value: u16) -> Byte {
        Byte::of(value as nat)
    }
}

impl From<u8> for Byte {
    fn from(value: u8) -> (r: Byte) {
        let r = Byte::from_u64(value as u64);
        proof {
            Byte::lemma_of(value as nat);
            r.lemma_same(Byte::of(value as nat));
        }
        r
    }
}

impl FromSpecImpl<u8> for Byte {
    open spec fn obeys_from_spec() -> bool {
        true
    }

    open spec fn from_spec(value: u8) -> Byte {
        Byte::of(value as nat)
    }
}

impl From<usize> for Byte {
    fn from(value: usize) -> (r: Byte) {
        let r = Byte::from_u64(value as u64);
        proof {
            Byte::lemma_of(value as nat);
            r.lemma_same(Byte::of(value as nat));
        }
        r
    }
}

impl FromSpecImpl<usize> for Byte {
    open spec fn obeys_from_spec() -> bool {
        true
    }

    open spec fn from_spec(value: usize) -> Byte {
        Byte::of(value as nat)
    }
}

impl TryFrom<u128> for Byte {
    type Error = ExceededBoundsError;

    fn try_from(value: u128) -> (r: Result<Byte, ExceededBoundsError>) {
        match Byte::from_u128(value) {
            Some(size) => {
                proof {
                    Byte::lemma_of(value as nat);
                    size.lemma_same(Byte::of(value as nat));
                }
                Ok(size)
            },
            None => Err(ExceededBoundsError),
        }
    }
}

impl TryFromSpecImpl<u128> for Byte {
    open spec fn obeys_try_from_spec() -> bool {
        true
    }

    open spec fn try_from_spec(value: u128) -> Result<Byte, ExceededBoundsError> {
        Byte::checked(value as int)
    }
}

impl TryFrom<i128> for Byte {
    type Error = ExceededBoundsError;

    fn try_from(value: i128) -> (r: Result<Byte, ExceededBoundsError>) {
        match Byte::from_i128(value) {
            Some(size) => {
                proof {
                    Byte::lemma_of(value as nat);
                    size.lemma_same(Byte::of(value as nat));
                }
                Ok(size)
            },
            None => Err(ExceededBoundsError),
        }
    }
}

impl TryFromSpecImpl<i128> for Byte {
    open spec fn obeys_try_from_spec() -> bool {
        true
    }

    open spec fn try_from_spec(value: i128) -> Result<Byte, ExceededBoundsError> {
        Byte::checked(value as int)
    }
}

impl TryFrom<i64> for Byte {
    type Error = ExceededBoundsError;

    fn try_from(value: i64) -> (r: Result<Byte, ExceededBoundsError>) {
        match Byte::from_i64(value) {
            Some(size) => {
                proof {
                    Byte::lemma_of(value as nat);
                    size.lemma_same(Byte::of(value as nat));
                }
                Ok(size)
            },
            None => Err(ExceededBoundsError),
        }
    }
}

impl TryFromSpecImpl<i64> for Byte {
    open spec fn obeys_try_from_spec() -> bool {
        true
    }

    open spec fn try_from_spec(value: i64) -> Result<Byte, ExceededBoundsError> {
        Byte::checked(value as int)
    }
}

impl TryFrom<i32> for Byte {
    type Error = ExceededBoundsError;

    fn try_from(value: i32) -> (r: Result<Byte, ExceededBoundsError>) {
        match Byte::from_i64(value as i64) {
            Some(size) => {
                proof {
                    Byte::lemma_of(value as nat);
                    size.lemma_same(Byte::of(value as nat));
                }
                Ok(size)
            },
            None => Err(ExceededBoundsError),
        }
    }
}

impl TryFromSpecImpl<i32> for Byte {
    open spec fn obeys_try_from_spec() -> bool {
        true
    }

    open spec fn try_from_spec(value: i32) -> Result<Byte, ExceededBoundsError> {
        Byte::checked(value as int)
    }
}

impl TryFrom<i16> for Byte {
    type Error = ExceededBoundsError;

    fn try_from(value: i16) -> (r: Result<Byte, ExceededBoundsError>) {
        match Byte::from_i64(value as i64) {
            Some(size) => {
                proof {
                    Byte::lemma_of(value as nat);
                    size.lemma_same(Byte::of(value as nat));
                }
                Ok(size)
            },
            None => Err(ExceededBoundsError),
        }
    }
}

impl TryFromSpecImpl<i16> for Byte {
    open spec fn obeys_try_from_spec() -> bool {
        true
    }

    open spec fn try_from_spec(value: i16) -> Result<Byte, ExceededBoundsError> {
        Byte::checked(value as int)
    }
}

impl TryFrom<i8> for Byte {
    type Error = ExceededBoundsError;

    fn try_from(value: i8) -> (r: Result<Byte, ExceededBoundsError>) {
        match Byte::from_i64(value as i64) {
            Some(size) => {
                proof {
                    Byte::lemma_of(value as nat);
                    size.lemma_same(Byte::of(value as nat));
                }
                Ok(size)
            },
            None => Err(ExceededBoundsError),
        }
    }
}

impl TryFromSpecImpl<i8> for Byte {
    open spec fn obeys_try_from_spec() -> bool {
        true
    }

    open spec fn try_from_spec(value: i8) -> Result<Byte, ExceededBoundsError> {
        Byte::checked(value as int)
    }
}

impl TryFrom<isize> for Byte {
    type Error = ExceededBoundsError;

    fn try_from(value: isize) -> (r: Result<Byte, ExceededBoundsError>) {
        match Byte::from_i64(value as i64) {
            Some(size) => {
                proof {
                    Byte::lemma_of(value as nat);
                    size.lemma_same(Byte::of(value as nat));
                }
                Ok(size)
            },
            None => Err(ExceededBoundsError),
        }
    }
}

impl TryFromSpecImpl<isize> for Byte {
    open spec fn obeys_try_from_spec() -> bool {
        true
    }

    open spec fn try_from_spec(value: isize) -> Result<Byte, ExceededBoundsError> {
        Byte::checked(value as int)
    }
}

impl From<Byte> for u128 {
    fn from(size: Byte) -> (r: u128) {
        size.as_u128()
    }
}

impl FromSpecImpl<Byte> for u128 {
    open spec fn obeys_from_spec() -> bool {
        true
    }

    open spec fn from_spec(size: Byte) -> u128 {
        size@ as u128
    }
}

impl From<Byte> for u64 {
    fn from(size: Byte) -> (r: u64) {
        size.as_u64()
    }
}

impl FromSpecImpl<Byte> for u64 {
    open spec fn obeys_from_spec() -> bool {
        true
    }

    open spec fn from_spec(size: Byte) -> u64 {
        size.saturated()
    }
}

impl TryFrom<Byte> for u32 {
    type Error = TryFromIntError;

    fn try_from(size: Byte) -> (r: Result<u32, TryFromIntError>) {
        u32::try_from(size.as_u64())
    }
}

impl TryFromSpecImpl<Byte> for u32 {
    open spec fn obeys_try_from_spec() -> bool {
        true
    }

    open spec fn try_from_spec(size: Byte) -> Result<u32, TryFromIntError> {
        <u32 as TryFromSpec<u64>>::try_from_spec(size.saturated())
    }
}

impl TryFrom<Byte> for u16 {
    type Error = TryFromIntError;

    fn try_from(size: Byte) -> (r: Result<u16, TryFromIntError>) {
        u16::try_from(size.as_u64())
    }
}

impl TryFromSpecImpl<Byte> for u16 {
    open spec fn obeys_try_from_spec() -> bool {
        true
    }

    open spec fn try_from_spec(size: Byte) -> Result<u16, TryFromIntError> {
        <u16 as TryFromSpec<u64>>::try_from_spec(size.saturated())
    }
}

impl TryFrom<Byte> for u8 {
    type Error = TryFromIntError;

    fn try_from(size: Byte) -> (r: Result<u8, TryFromIntError>) {
        u8::try_from(size.as_u64())
    }
}

impl TryFromSpecImpl<Byte> for u8 {
    open spec fn obeys_try_from_spec() -> bool {
        true
    }

    open spec fn try_from_spec(size: Byte) -> Result<u8, TryFromIntError> {
        <u8 as TryFromSpec<u64>>::try_from_spec(size.saturated())
    }
}

impl TryFrom<Byte> for usize {
    type Error = TryFromIntError;

    fn try_from(size: Byte) -> (r: Result<usize, TryFromIntError>) {
        usize::try_from(size.as_u64())
    }
}

impl TryFromSpecImpl<Byte> for usize {
    open spec fn obeys_try_from_spec() -> bool {
        true
    }

    open spec fn try_from_spec(size: Byte) -> Result<usize, TryFromIntError> {
        <usize as TryFromSpec<u64>>::try_from_spec(size.saturated())
    }
}

impl PartialEq<u64> for Byte {
    fn eq(&self, other: &u64) -> (r: bool) {
        self.as_u128() == *other as u128
    }
}

impl PartialEqSpecImpl<u64> for Byte {
    open spec fn obeys_eq_spec() -> bool {
        true
    }

    open spec fn eq_spec(&self, other: &u64) -> bool {
        self@ == *other
    }
}

impl PartialEq<Byte> for u64 {
    fn eq(&self, other: &Byte) -> (r: bool) {
        *self as u128 == other.as_u128()
    }
}

impl PartialEqSpecImpl<Byte> for u64 {
    open spec fn obeys_eq_spec() -> bool {
        true
    }

    open spec fn eq_spec(&self, other: &Byte) -> bool {
        *self == other@
    }
}

impl PartialEq<u128> for Byte {
    fn eq(&self, other: &u128) -> (r: bool) {
        self.as_u128() == *other as u128
    }
}

impl PartialEqSpecImpl<u128> for Byte {
    open spec fn obeys_eq_spec() -> bool {
        true
    }

    open spec fn eq_spec(&self, other: &u128) -> bool {
        self@ == *other
    }
}

impl PartialEq<Byte> for u128 {
    fn eq(&self, other: &Byte) -> (r: bool) {
        *self as u128 == other.as_u128()
    }
}

impl PartialEqSpecImpl<Byte> for u128 {
    open spec fn obeys_eq_spec() -> bool {
        true
    }

    open spec fn eq_spec(&self, other: &Byte) -> bool {
        *self == other@
    }
}

} // verus!
