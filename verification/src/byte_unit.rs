//! The units as a size in bytes sees them: the byte and, up to zetta and
//! zebi, the multiples of the byte and the decimal multiples of the bit,
//! each with its size in bytes.

use core::str::FromStr;
use vstd::prelude::*;
use vstd::utf8::*;
use crate::errors::{UnitParseError, UnitParseErrorView};
use crate::text::{
    get_char_from_bytes, lemma_step_over_ascii, tail, trim, trimmed, UPPER_B, UPPER_E, UPPER_G,
    UPPER_I, UPPER_K, UPPER_M, UPPER_P, UPPER_T, UPPER_Z,
};
use crate::unit::parse::{agrees, is_letter, unexpected};
use crate::unit::Unit;

verus! {

/// The unit of bytes.
#[derive(Clone, Copy, Debug, PartialEq, Eq, Structural)]
pub enum ByteUnit {
    /// 1 B = 1 byte.
    B,
    /// 1 Kb = 10<sup>3</sup> / 8 bytes.
    Kb,
    /// 1 KB = 10<sup>3</sup> bytes.
    KB,
    /// 1 KiB = 2<sup>10</sup> bytes.
    KiB,
    /// 1 Mb = 10<sup>6</sup> / 8 bytes.
    Mb,
    /// 1 MB = 10<sup>6</sup> bytes.
    MB,
    /// 1 MiB = 2<sup>20</sup> bytes.
    MiB,
    /// 1 Gb = 10<sup>9</sup> / 8 bytes.
    Gb,
    /// 1 GB = 10<sup>9</sup> bytes.
    GB,
    /// 1 GiB = 2<sup>30</sup> bytes.
    GiB,
    /// 1 Tb = 10<sup>12</sup> / 8 bytes.
    Tb,
    /// 1 TB = 10<sup>12</sup> bytes.
    TB,
    /// 1 TiB = 2<sup>40</sup> bytes.
    TiB,
    /// 1 Pb = 10<sup>15</sup> / 8 bytes.
    Pb,
    /// 1 PB = 10<sup>15</sup> bytes.
    PB,
    /// 1 PiB = 2<sup>50</sup> bytes.
    PiB,
    /// 1 Eb = 10<sup>18</sup> / 8 bytes.
    Eb,
    /// 1 EB = 10<sup>18</sup> bytes.
    EB,
    /// 1 EiB = 2<sup>60</sup> bytes.
    EiB,
    /// 1 Zb = 10<sup>21</sup> / 8 bytes.
    Zb,
    /// 1 ZB = 10<sup>21</sup> bytes.
    ZB,
    /// 1 ZiB = 2<sup>70</sup> bytes.
    ZiB,
}

/// What follows a prefix letter: a `b` for bits, a `B` or nothing for
/// bytes, an `i` or `iB` for the binary multiple of the byte.
#[derive(Clone, Copy, Debug, PartialEq, Eq, Structural)]
pub enum ByteUnitPostfix {
    It,
    Yte,
    Ibit,
}

impl ByteUnit {
    /// The same unit among the units of bits and bytes.
    pub open spec fn unit(self) -> Unit {
        match self {
            ByteUnit::B => Unit::B,
            ByteUnit::Kb => Unit::Kbit,
            ByteUnit::KB => Unit::KB,
            ByteUnit::KiB => Unit::KiB,
            ByteUnit::Mb => Unit::Mbit,
            ByteUnit::MB => Unit::MB,
            ByteUnit::MiB => Unit::MiB,
            ByteUnit::Gb => Unit::Gbit,
            ByteUnit::GB => Unit::GB,
            ByteUnit::GiB => Unit::GiB,
            ByteUnit::Tb => Unit::Tbit,
            ByteUnit::TB => Unit::TB,
            ByteUnit::TiB => Unit::TiB,
            ByteUnit::Pb => Unit::Pbit,
            ByteUnit::PB => Unit::PB,
            ByteUnit::PiB => Unit::PiB,
            ByteUnit::Eb => Unit::Ebit,
            ByteUnit::EB => Unit::EB,
            ByteUnit::EiB => Unit::EiB,
            ByteUnit::Zb => Unit::Zbit,
            ByteUnit::ZB => Unit::ZB,
            ByteUnit::ZiB => Unit::ZiB,
        }
    }

    /// The unit with the prefix of rank `rank` and the given postfix.
    /// Ranks run from 1 to 7.
    pub open spec fn with_prefix(rank: nat, postfix: ByteUnitPostfix) -> ByteUnit {
        match postfix {
            ByteUnitPostfix::It => ByteUnit::pick(rank, ByteUnit::Kb, ByteUnit::Mb, ByteUnit::Gb, ByteUnit::Tb, ByteUnit::Pb, ByteUnit::Eb, ByteUnit::Zb),
            ByteUnitPostfix::Yte => ByteUnit::pick(rank, ByteUnit::KB, ByteUnit::MB, ByteUnit::GB, ByteUnit::TB, ByteUnit::PB, ByteUnit::EB, ByteUnit::ZB),
            ByteUnitPostfix::Ibit => ByteUnit::pick(rank, ByteUnit::KiB, ByteUnit::MiB, ByteUnit::GiB, ByteUnit::TiB, ByteUnit::PiB, ByteUnit::EiB, ByteUnit::ZiB),
        }
    }

    /// The unit of rank `rank` among seven.
    pub open spec fn pick(
        rank: nat,
        k: ByteUnit,
        m: ByteUnit,
        g: ByteUnit,
        t: ByteUnit,
        p: ByteUnit,
        e: ByteUnit,
        z: ByteUnit,
    ) -> ByteUnit {
        if rank == 1 {
            k
        } else if rank == 2 {
            m
        } else if rank == 3 {
            g
        } else if rank == 4 {
            t
        } else if rank == 5 {
            p
        } else if rank == 6 {
            e
        } else {
            z
        }
    }

    /// Retrieve the unit with the prefix of rank `rank` and the given
    /// postfix.
    pub fn from_parts(rank: u8, postfix: ByteUnitPostfix) -> (r: ByteUnit)
        requires
            1 <= rank <= 7,
        ensures
            r == ByteUnit::with_prefix(rank as nat, postfix),
            r.unit().prefix_rank() == rank,
            r.unit().has_binary_prefix() == (postfix == ByteUnitPostfix::Ibit),
            r.unit().counts_bits() == (postfix == ByteUnitPostfix::It),
    {
        match (rank, postfix) {
            (1, ByteUnitPostfix::It) => ByteUnit::Kb,
            (1, ByteUnitPostfix::Yte) => ByteUnit::KB,
            (1, ByteUnitPostfix::Ibit) => ByteUnit::KiB,
            (2, ByteUnitPostfix::It) => ByteUnit::Mb,
            (2, ByteUnitPostfix::Yte) => ByteUnit::MB,
            (2, ByteUnitPostfix::Ibit) => ByteUnit::MiB,
            (3, ByteUnitPostfix::It) => ByteUnit::Gb,
            (3, ByteUnitPostfix::Yte) => ByteUnit::GB,
            (3, ByteUnitPostfix::Ibit) => ByteUnit::GiB,
            (4, ByteUnitPostfix::It) => ByteUnit::Tb,
            (4, ByteUnitPostfix::Yte) => ByteUnit::TB,
            (4, ByteUnitPostfix::Ibit) => ByteUnit::TiB,
            (5, ByteUnitPostfix::It) => ByteUnit::Pb,
            (5, ByteUnitPostfix::Yte) => ByteUnit::PB,
            (5, ByteUnitPostfix::Ibit) => ByteUnit::PiB,
            (6, ByteUnitPostfix::It) => ByteUnit::Eb,
            (6, ByteUnitPostfix::Yte) => ByteUnit::EB,
            (6, ByteUnitPostfix::Ibit) => ByteUnit::EiB,
            (_, ByteUnitPostfix::It) => ByteUnit::Zb,
            (_, ByteUnitPostfix::Yte) => ByteUnit::ZB,
            (_, ByteUnitPostfix::Ibit) => ByteUnit::ZiB,
        }
    }

    /// Get an instance of `ByteUnit` from a string slice such as `""`,
    /// `"B"`, `"K"`, `"Kb"`, `"KB"`, `"Ki"` or `"KiB"`, without regard to
    /// the white space around it. The prefix letter and the `i` may stand
    /// in either case; `B` means bytes and `b` means bits.
    pub fn from_str(unit: &str) -> (r: Result<ByteUnit, UnitParseError>)
        ensures
            agrees(r, byte_unit_suffix(encode_utf8(trimmed(unit@)), 0)),
    {
        let t = trim(unit);
        let bytes = t.as_bytes();
        proof {
            encode_utf8_valid_utf8(t@);
            assert(tail(bytes@, 0) =~= bytes@);
        }
        read_xib(bytes, 0)
    }

    /// Use string slice to represent this `ByteUnit`.
    pub fn as_str(self) -> (r: &'static str)
        ensures
            r@ == self.unit().symbol(),
    {
        match self {
            ByteUnit::B => "B",
            ByteUnit::Kb => "Kb",
            ByteUnit::KB => "KB",
            ByteUnit::KiB => "KiB",
            ByteUnit::Mb => "Mb",
            ByteUnit::MB => "MB",
            ByteUnit::MiB => "MiB",
            ByteUnit::Gb => "Gb",
            ByteUnit::GB => "GB",
            ByteUnit::GiB => "GiB",
            ByteUnit::Tb => "Tb",
            ByteUnit::TB => "TB",
            ByteUnit::TiB => "TiB",
            ByteUnit::Pb => "Pb",
            ByteUnit::PB => "PB",
            ByteUnit::PiB => "PiB",
            ByteUnit::Eb => "Eb",
            ByteUnit::EB => "EB",
            ByteUnit::EiB => "EiB",
            ByteUnit::Zb => "Zb",
            ByteUnit::ZB => "ZB",
            ByteUnit::ZiB => "ZiB",
        }
    }

    /// Get bytes represented by this `ByteUnit`.
    pub fn get_unit_bytes(self) -> (r: u128)
        ensures
            r == self.unit().bytes(),
    {
        proof {
            self.unit().lemma_bits_values();
        }
        match self {
            ByteUnit::B => 1,
            ByteUnit::Kb => 125,
            ByteUnit::KB => 1_000,
            ByteUnit::KiB => 1_024,
            ByteUnit::Mb => 125_000,
            ByteUnit::MB => 1_000_000,
            ByteUnit::MiB => 1_048_576,
            ByteUnit::Gb => 125_000_000,
            ByteUnit::GB => 1_000_000_000,
            ByteUnit::GiB => 1_073_741_824,
            ByteUnit::Tb => 125_000_000_000,
            ByteUnit::TB => 1_000_000_000_000,
            ByteUnit::TiB => 1_099_511_627_776,
            ByteUnit::Pb => 125_000_000_000_000,
            ByteUnit::PB => 1_000_000_000_000_000,
            ByteUnit::PiB => 1_125_899_906_842_624,
            ByteUnit::Eb => 125_000_000_000_000_000,
            ByteUnit::EB => 1_000_000_000_000_000_000,
            ByteUnit::EiB => 1_152_921_504_606_846_976,
            ByteUnit::Zb => 125_000_000_000_000_000_000,
            ByteUnit::ZB => 1_000_000_000_000_000_000_000,
            ByteUnit::ZiB => 1_180_591_620_717_411_303_424,
        }
    }
}

/// The rank of the prefix that the letter `e` names, in either case, up
/// to zetta.
pub open spec fn letter_rank(e: u8) -> Option<nat> {
    if is_letter(e, UPPER_K) {
        Some(1)
    } else if is_letter(e, UPPER_M) {
        Some(2)
    } else if is_letter(e, UPPER_G) {
        Some(3)
    } else if is_letter(e, UPPER_T) {
        Some(4)
    } else if is_letter(e, UPPER_P) {
        Some(5)
    } else if is_letter(e, UPPER_E) {
        Some(6)
    } else if is_letter(e, UPPER_Z) {
        Some(7)
    } else {
        None
    }
}

/// Nothing may stand at index `i`.
pub open spec fn ended<T>(bytes: Seq<u8>, i: int, value: T) -> Result<T, UnitParseErrorView> {
    if i >= bytes.len() {
        Ok(value)
    } else {
        Err(unexpected(bytes, i, seq![], false))
    }
}

/// The postfix that runs from index `i` to the end of `bytes`: nothing
/// or `B` for bytes, `b` for bits, `i` or `iB` for the binary multiple,
/// the `i` in either case.
pub open spec fn postfix(bytes: Seq<u8>, i: int) -> Result<ByteUnitPostfix, UnitParseErrorView> {
    if i >= bytes.len() {
        Ok(ByteUnitPostfix::Yte)
    } else if is_letter(bytes[i], UPPER_I) {
        if i + 1 >= bytes.len() {
            Ok(ByteUnitPostfix::Ibit)
        } else if bytes[i + 1] == UPPER_B {
            ended(bytes, i + 2, ByteUnitPostfix::Ibit)
        } else {
            Err(unexpected(bytes, i + 1, seq!['B'], false))
        }
    } else if bytes[i] == UPPER_B {
        ended(bytes, i + 1, ByteUnitPostfix::Yte)
    } else if bytes[i] == UPPER_B + 32 {
        ended(bytes, i + 1, ByteUnitPostfix::It)
    } else {
        Err(unexpected(bytes, i, seq!['B', 'i'], false))
    }
}

/// The unit that the suffix from index `i` to the end of `bytes` names:
/// nothing or `B` for the byte, or a prefix letter and its postfix.
pub open spec fn byte_unit_suffix(bytes: Seq<u8>, i: int) -> Result<ByteUnit, UnitParseErrorView> {
    if i >= bytes.len() {
        Ok(ByteUnit::B)
    } else if bytes[i] == UPPER_B {
        ended(bytes, i + 1, ByteUnit::B)
    } else {
        match letter_rank(bytes[i]) {
            Some(rank) => match postfix(bytes, i + 1) {
                Ok(p) => Ok(ByteUnit::with_prefix(rank, p)),
                Err(e) => Err(e),
            },
            None => Err(
                unexpected(
                    bytes,
                    i,
                    seq![
                        'B',
                        'K',
                        'k',
                        'M',
                        'm',
                        'G',
                        'g',
                        'T',
                        't',
                        'P',
                        'p',
                        'E',
                        'e',
                        'Z',
                        'z',
                    ],
                    true,
                ),
            ),
        }
    }
}

fn expect_end<T>(bytes: &[u8], i: usize, value: T) -> (r: Result<T, UnitParseError>)
    requires
        i <= bytes@.len(),
        valid_utf8(tail(bytes@, i as int)),
    ensures
        agrees(r, ended(bytes@, i as int, value)),
{
    if i >= bytes.len() {
        Ok(value)
    } else {
        let expected: &'static [char] = &[];
        assert(expected@ =~= seq![]);
        Err(
            UnitParseError {
                character: get_char_from_bytes(bytes, i),
                expected_characters: expected,
                also_expect_no_character: false,
            },
        )
    }
}

/// Read the postfix that runs from index `i` to the end of `bytes`.
pub fn read_postfix(bytes: &[u8], i: usize) -> (r: Result<ByteUnitPostfix, UnitParseError>)
    requires
        i <= bytes@.len(),
        valid_utf8(tail(bytes@, i as int)),
    ensures
        agrees(r, postfix(bytes@, i as int)),
{
    let n = bytes.len();
    if i >= n {
        return Ok(ByteUnitPostfix::Yte);
    }
    let e: u8 = bytes[i];
    if e == UPPER_I || e == UPPER_I + 32 {
        proof {
            lemma_step_over_ascii(bytes@, i as int);
        }
        if i + 1 >= n {
            Ok(ByteUnitPostfix::Ibit)
        } else if bytes[i + 1] == UPPER_B {
            proof {
                lemma_step_over_ascii(bytes@, i + 1);
            }
            expect_end(bytes, i + 2, ByteUnitPostfix::Ibit)
        } else {
            let expected: &'static [char] = &['B'];
            assert(expected@ =~= seq!['B']);
            Err(
                UnitParseError {
                    character: get_char_from_bytes(bytes, i + 1),
                    expected_characters: expected,
                    also_expect_no_character: false,
                },
            )
        }
    } else if e == UPPER_B {
        proof {
            lemma_step_over_ascii(bytes@, i as int);
        }
        expect_end(bytes, i + 1, ByteUnitPostfix::Yte)
    } else if e == UPPER_B + 32 {
        proof {
            lemma_step_over_ascii(bytes@, i as int);
        }
        expect_end(bytes, i + 1, ByteUnitPostfix::It)
    } else {
        let expected: &'static [char] = &['B', 'i'];
        assert(expected@ =~= seq!['B', 'i']);
        Err(
            UnitParseError {
                character: get_char_from_bytes(bytes, i),
                expected_characters: expected,
                also_expect_no_character: false,
            },
        )
    }
}

fn read_rank(e: u8) -> (r: Option<u8>)
    ensures
        match r {
            Some(rank) => letter_rank(e) == Some(rank as nat) && 1 <= rank <= 7,
            None => letter_rank(e).is_none(),
        },
{
    if e == UPPER_K || e == UPPER_K + 32 {
        Some(1)
    } else if e == UPPER_M || e == UPPER_M + 32 {
        Some(2)
    } else if e == UPPER_G || e == UPPER_G + 32 {
        Some(3)
    } else if e == UPPER_T || e == UPPER_T + 32 {
        Some(4)
    } else if e == UPPER_P || e == UPPER_P + 32 {
        Some(5)
    } else if e == UPPER_E || e == UPPER_E + 32 {
        Some(6)
    } else if e == UPPER_Z || e == UPPER_Z + 32 {
        Some(7)
    } else {
        None
    }
}

/// Read the unit suffix that runs from index `i` to the end of `bytes`.
pub fn read_xib(bytes: &[u8], i: usize) -> (r: Result<ByteUnit, UnitParseError>)
    requires
        i <= bytes@.len(),
        valid_utf8(tail(bytes@, i as int)),
    ensures
        agrees(r, byte_unit_suffix(bytes@, i as int)),
{
    if i >= bytes.len() {
        return Ok(ByteUnit::B);
    }
    let e: u8 = bytes[i];
    if e == UPPER_B {
        proof {
            lemma_step_over_ascii(bytes@, i as int);
        }
        return expect_end(bytes, i + 1, ByteUnit::B);
    }
    match read_rank(e) {
        Some(rank) => {
            proof {
                lemma_step_over_ascii(bytes@, i as int);
            }
            match read_postfix(bytes, i + 1) {
                Ok(p) => Ok(ByteUnit::from_parts(rank, p)),
                Err(e) => Err(e),
            }
        },
        None => {
            let expected: &'static [char] = &[
                'B',
                'K',
                'k',
                'M',
                'm',
                'G',
                'g',
                'T',
                't',
                'P',
                'p',
                'E',
                'e',
                'Z',
                'z',
            ];
            assert(expected@ =~= seq![
                'B',
                'K',
                'k',
                'M',
                'm',
                'G',
                'g',
                'T',
                't',
                'P',
                'p',
                'E',
                'e',
                'Z',
                'z',
            ]);
            Err(
                UnitParseError {
                    character: get_char_from_bytes(bytes, i),
                    expected_characters: expected,
                    also_expect_no_character: true,
                },
            )
        },
    }
}

impl FromStr for ByteUnit {
    type Err = UnitParseError;

    /// See `ByteUnit::from_str`.
    fn from_str(s: &str) -> (r: Result<ByteUnit, UnitParseError>)
        ensures
            agrees(r, byte_unit_suffix(encode_utf8(trimmed(s@)), 0)),
    {
        ByteUnit::from_str(s)
    }
}

} // verus!
