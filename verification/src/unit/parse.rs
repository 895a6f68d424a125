//! The grammar of unit suffixes, read from bytes.
//!
//! A suffix is empty, or `b` or `B` alone, or one of the prefix letters
//! `K M G T P E Z Y` followed by an optional `i` and an optional `b` or
//! `B`. After a `b` or `B` the letters `it` or `its` may follow, and the
//! unit then counts bits whatever the case of the `b`.

use vstd::prelude::*;
use vstd::utf8::*;
use crate::errors::{UnitParseError, UnitParseErrorView};
use crate::text::{
    char_at, get_char_from_bytes, lemma_step_over_ascii, tail, trim, trimmed, UPPER_B, UPPER_E,
    UPPER_G, UPPER_I, UPPER_K, UPPER_M, UPPER_P, UPPER_S, UPPER_T, UPPER_Y, UPPER_Z,
};
use crate::unit::Unit;

verus! {

/// Whether `e` is the ASCII letter `upper`, in either case.
pub open spec fn is_letter(e: u8, upper: u8) -> bool {
    e == upper || e == upper + 32
}

/// The rank of the prefix that the letter `e` names, in either case.
pub open spec fn letter_rank(e: u8) -> Option<nat> {
    if is_letter(e, UPPER_K) {
        Some(1)
    } else if is_letter(e, UPPER_M) {
        Some(2)
    } else if is_letter(e, UPPER_G) {
        Some(3)
    } else if is_letter(e, UPPER_T) {
        Some(4)
    } else if is_letter(e, UPPER_P) {
        Some(5)
    } else if is_letter(e, UPPER_E) {
        Some(6)
    } else if is_letter(e, UPPER_Z) {
        Some(7)
    } else if is_letter(e, UPPER_Y) {
        Some(8)
    } else {
        None
    }
}

/// The error for the character that starts at index `i`.
pub open spec fn unexpected(
    bytes: Seq<u8>,
    i: int,
    expected: Seq<char>,
    or_nothing: bool,
) -> UnitParseErrorView {
    UnitParseErrorView {
        character: char_at(bytes, i),
        expected_characters: expected,
        also_expect_no_character: or_nothing,
    }
}

/// What follows a `b` or `B`, from index `i`: nothing, and the unit
/// counts bytes exactly if `byte` says so; or `it` or `its` in any case,
/// and the unit counts bits.
pub open spec fn bit_suffix(bytes: Seq<u8>, i: int, byte: bool) -> Result<
    bool,
    UnitParseErrorView,
> {
    if i >= bytes.len() {
        Ok(byte)
    } else if !is_letter(bytes[i], UPPER_I) {
        Err(unexpected(bytes, i, seq!['i'], true))
    } else if i + 1 >= bytes.len() {
        Err(
            UnitParseErrorView {
                character: 'i',
                expected_characters: seq![],
                also_expect_no_character: true,
            },
        )
    } else if !is_letter(bytes[i + 1], UPPER_T) {
        Err(unexpected(bytes, i + 1, seq!['t'], false))
    } else if i + 2 >= bytes.len() {
        Ok(false)
    } else if !is_letter(bytes[i + 2], UPPER_S) {
        Err(unexpected(bytes, i + 2, seq!['s'], true))
    } else if i + 3 >= bytes.len() {
        Ok(false)
    } else {
        Err(unexpected(bytes, i + 3, seq![], true))
    }
}

/// The characters that may stand where a `b` or `B` is looked for.
pub open spec fn base_letters(ignore_case: bool, prefer_byte: bool) -> Seq<char> {
    if ignore_case {
        if prefer_byte {
            seq!['B']
        } else {
            seq!['b']
        }
    } else {
        seq!['B', 'b']
    }
}

/// What follows a prefix letter, from index `i`: whether an `i` marks the
/// prefix as binary, and whether the unit counts bytes. A `B` counts
/// bytes, a `b` counts bytes exactly if case is ignored, and without
/// either `prefer_byte` decides.
pub open spec fn prefix_suffix(
    bytes: Seq<u8>,
    i: int,
    ignore_case: bool,
    prefer_byte: bool,
) -> Result<(bool, bool), UnitParseErrorView> {
    if i >= bytes.len() {
        Ok((false, prefer_byte))
    } else {
        let binary = is_letter(bytes[i], UPPER_I);
        let j = if binary {
            i + 1
        } else {
            i
        };
        if j >= bytes.len() {
            Ok((true, prefer_byte))
        } else if is_letter(bytes[j], UPPER_B) {
            match bit_suffix(bytes, j + 1, ignore_case || bytes[j] == UPPER_B) {
                Ok(byte) => Ok((binary, byte)),
                Err(e) => Err(e),
            }
        } else {
            Err(unexpected(bytes, j, base_letters(ignore_case, prefer_byte), true))
        }
    }
}

/// The unit that the suffix from index `i` to the end of `bytes` names,
/// or the error at the first character that no suffix has in its place.
pub open spec fn unit_suffix(
    bytes: Seq<u8>,
    i: int,
    ignore_case: bool,
    prefer_byte: bool,
) -> Result<Unit, UnitParseErrorView> {
    if i >= bytes.len() {
        Ok(Unit::base(prefer_byte))
    } else if is_letter(bytes[i], UPPER_B) {
        match bit_suffix(bytes, i + 1, ignore_case || bytes[i] == UPPER_B) {
            Ok(byte) => Ok(Unit::base(byte)),
            Err(e) => Err(e),
        }
    } else {
        match letter_rank(bytes[i]) {
            Some(rank) => match prefix_suffix(bytes, i + 1, ignore_case, prefer_byte) {
                Ok((binary, byte)) => Ok(Unit::multiple(rank, binary, byte)),
                Err(e) => Err(e),
            },
            None => Err(
                unexpected(bytes, i, seq!['B', 'K', 'M', 'G', 'T', 'P', 'E', 'Z', 'Y'], true),
            ),
        }
    }
}

/// Whether an executable result is the one that the grammar gives.
pub open spec fn agrees<T>(r: Result<T, UnitParseError>, expected: Result<T, UnitParseErrorView>) -> bool {
    match r {
        Ok(v) => expected == Ok::<T, UnitParseErrorView>(v),
        Err(e) => expected == Err::<T, UnitParseErrorView>(e@),
    }
}

fn unexpected_at(bytes: &[u8], i: usize, expected: &'static [char], or_nothing: bool) -> (e:
    UnitParseError)
    requires
        i < bytes@.len(),
        valid_utf8(tail(bytes@, i as int)),
    ensures
        e@ == unexpected(bytes@, i as int, expected@, or_nothing),
{
    UnitParseError {
        character: get_char_from_bytes(bytes, i),
        expected_characters: expected,
        also_expect_no_character: or_nothing,
    }
}

fn letter(e: u8, upper: u8) -> (r: bool)
    requires
        upper <= 127,
    ensures
        r == is_letter(e, upper),
{
    e == upper || e == upper + 32
}

/// Read what follows a `b` or `B`, from index `i`.
pub fn read_b(bytes: &[u8], i: usize, byte: bool) -> (r: Result<bool, UnitParseError>)
    requires
        i <= bytes@.len(),
        valid_utf8(tail(bytes@, i as int)),
    ensures
        agrees(r, bit_suffix(bytes@, i as int, byte)),
{
    let n = bytes.len();
    if i >= n {
        return Ok(byte);
    }
    if !letter(bytes[i], UPPER_I) {
        let expected: &'static [char] = &['i'];
        assert(expected@ =~= seq!['i']);
        return Err(unexpected_at(bytes, i, expected, true));
    }
    proof {
        lemma_step_over_ascii(bytes@, i as int);
    }
    if i + 1 >= n {
        let expected: &'static [char] = &[];
        assert(expected@ =~= seq![]);
        return Err(
            UnitParseError {
                character: 'i',
                expected_characters: expected,
                also_expect_no_character: true,
            },
        );
    }
    if !letter(bytes[i + 1], UPPER_T) {
        let expected: &'static [char] = &['t'];
        assert(expected@ =~= seq!['t']);
        return Err(unexpected_at(bytes, i + 1, expected, false));
    }
    proof {
        lemma_step_over_ascii(bytes@, i + 1);
    }
    if i + 2 >= n {
        return Ok(false);
    }
    if !letter(bytes[i + 2], UPPER_S) {
        let expected: &'static [char] = &['s'];
        assert(expected@ =~= seq!['s']);
        return Err(unexpected_at(bytes, i + 2, expected, true));
    }
    proof {
        lemma_step_over_ascii(bytes@, i + 2);
    }
    if i + 3 >= n {
        return Ok(false);
    }
    let expected: &'static [char] = &[];
    assert(expected@ =~= seq![]);
    Err(unexpected_at(bytes, i + 3, expected, true))
}

/// Read what follows a prefix letter, from index `i`.
pub fn read_ib(bytes: &[u8], i: usize, ignore_case: bool, default_upper_case: bool) -> (r: Result<
    (bool, bool),
    UnitParseError,
>)
    requires
        i <= bytes@.len(),
        valid_utf8(tail(bytes@, i as int)),
    ensures
        agrees(r, prefix_suffix(bytes@, i as int, ignore_case, default_upper_case)),
{
    let n = bytes.len();
    if i >= n {
        return Ok((false, default_upper_case));
    }
    let binary = letter(bytes[i], UPPER_I);
    let mut j: usize = i;
    if binary {
        proof {
            lemma_step_over_ascii(bytes@, i as int);
        }
        j = i + 1;
        if j >= n {
            return Ok((true, default_upper_case));
        }
    }
    let e: u8 = bytes[j];
    if letter(e, UPPER_B) {
        proof {
            lemma_step_over_ascii(bytes@, j as int);
        }
        match read_b(bytes, j + 1, ignore_case || e == UPPER_B) {
            Ok(byte) => Ok((binary, byte)),
            Err(e) => Err(e),
        }
    } else {
        let expected: &'static [char] = if ignore_case {
            if default_upper_case {
                &['B']
            } else {
                &['b']
            }
        } else {
            &['B', 'b']
        };
        assert(expected@ =~= base_letters(ignore_case, default_upper_case));
        Err(unexpected_at(bytes, j, expected, true))
    }
}

fn read_rank(e: u8) -> (r: Option<u8>)
    ensures
        match r {
            Some(rank) => letter_rank(e) == Some(rank as nat),
            None => letter_rank(e).is_none(),
        },
{
    if letter(e, UPPER_K) {
        Some(1)
    } else if letter(e, UPPER_M) {
        Some(2)
    } else if letter(e, UPPER_G) {
        Some(3)
    } else if letter(e, UPPER_T) {
        Some(4)
    } else if letter(e, UPPER_P) {
        Some(5)
    } else if letter(e, UPPER_E) {
        Some(6)
    } else if letter(e, UPPER_Z) {
        Some(7)
    } else if letter(e, UPPER_Y) {
        Some(8)
    } else {
        None
    }
}

/// Read the unit suffix that runs from index `i` to the end of `bytes`.
pub fn read_xib(bytes: &[u8], i: usize, ignore_case: bool, prefer_byte: bool) -> (r: Result<
    Unit,
    UnitParseError,
>)
    requires
        i <= bytes@.len(),
        valid_utf8(tail(bytes@, i as int)),
    ensures
        agrees(r, unit_suffix(bytes@, i as int, ignore_case, prefer_byte)),
{
    if i >= bytes.len() {
        return Ok(Unit::from_base(prefer_byte));
    }
    let e: u8 = bytes[i];
    if letter(e, UPPER_B) {
        proof {
            lemma_step_over_ascii(bytes@, i as int);
        }
        return match read_b(bytes, i + 1, ignore_case || e == UPPER_B) {
            Ok(byte) => Ok(Unit::from_base(byte)),
            Err(e) => Err(e),
        };
    }
    match read_rank(e) {
        Some(rank) => {
            proof {
                lemma_step_over_ascii(bytes@, i as int);
            }
            match read_ib(bytes, i + 1, ignore_case, prefer_byte) {
                Ok((binary, byte)) => Ok(Unit::from_parts(rank, binary, byte)),
                Err(e) => Err(e),
            }
        },
        None => {
            let expected: &'static [char] = &['B', 'K', 'M', 'G', 'T', 'P', 'E', 'Z', 'Y'];
            assert(expected@ =~= seq!['B', 'K', 'M', 'G', 'T', 'P', 'E', 'Z', 'Y']);
            Err(unexpected_at(bytes, i, expected, true))
        },
    }
}

impl Unit {
    /// Whether `r` is what `text` is read as: the unit that its suffix
    /// names, once the white space around it is gone, or the error at
    /// the first character that no suffix has in its place.
    pub open spec fn is_parsed(
        r: Result<Unit, UnitParseError>,
        text: Seq<char>,
        ignore_case: bool,
        prefer_byte: bool,
    ) -> bool {
        agrees(r, unit_suffix(encode_utf8(trimmed(text)), 0, ignore_case, prefer_byte))
    }

    /// Create a new `Unit` instance from a string such as `""`, `"B"`,
    /// `"M"`, `"MB"`, `"MiB"`, `"b"`, `"Mb"` or `"Mbit"`, without regard to
    /// the white space around it.
    ///
    /// With `ignore_case`, a `b` means bytes as a `B` does. Where the
    /// string names no base, `prefer_byte` chooses between bytes and bits.
    pub fn parse_str(s: &str, ignore_case: bool, prefer_byte: bool) -> (r: Result<
        Unit,
        UnitParseError,
    >)
        ensures
            agrees(r, unit_suffix(encode_utf8(trimmed(s@)), 0, ignore_case, prefer_byte)),
    {
        let t = trim(s);
        let bytes = t.as_bytes();
        proof {
            encode_utf8_valid_utf8(t@);
            assert(tail(bytes@, 0) =~= bytes@);
        }
        read_xib(bytes, 0, ignore_case, prefer_byte)
    }
}

} // verus!
