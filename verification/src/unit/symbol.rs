//! The symbols of the units as bytes, the proof that each symbol is read
//! back as its unit, and what the preferred unit decides.

use vstd::prelude::*;
use vstd::utf8::*;
use crate::errors::UnitParseErrorView;
use crate::text::{is_white_space, tail, trimmed};
use crate::text::UPPER_I;
use crate::unit::parse::{is_letter, letter_rank, unit_suffix};
use crate::unit::Unit;

verus! {

impl Unit {
    /// The ASCII codes of the unit's symbol.
    pub open spec fn symbol_bytes(self) -> Seq<u8> {
        match self {
            Unit::Bit => seq![98u8],
            Unit::B => seq![66u8],
            Unit::Kbit => seq![75u8, 98u8],
            Unit::Kibit => seq![75u8, 105u8, 98u8],
            Unit::KB => seq![75u8, 66u8],
            Unit::KiB => seq![75u8, 105u8, 66u8],
            Unit::Mbit => seq![77u8, 98u8],
            Unit::Mibit => seq![77u8, 105u8, 98u8],
            Unit::MB => seq![77u8, 66u8],
            Unit::MiB => seq![77u8, 105u8, 66u8],
            Unit::Gbit => seq![71u8, 98u8],
            Unit::Gibit => seq![71u8, 105u8, 98u8],
            Unit::GB => seq![71u8, 66u8],
            Unit::GiB => seq![71u8, 105u8, 66u8],
            Unit::Tbit => seq![84u8, 98u8],
            Unit::Tibit => seq![84u8, 105u8, 98u8],
            Unit::TB => seq![84u8, 66u8],
            Unit::TiB => seq![84u8, 105u8, 66u8],
            Unit::Pbit => seq![80u8, 98u8],
            Unit::Pibit => seq![80u8, 105u8, 98u8],
            Unit::PB => seq![80u8, 66u8],
            Unit::PiB => seq![80u8, 105u8, 66u8],
            Unit::Ebit => seq![69u8, 98u8],
            Unit::Eibit => seq![69u8, 105u8, 98u8],
            Unit::EB => seq![69u8, 66u8],
            Unit::EiB => seq![69u8, 105u8, 66u8],
            Unit::Zbit => seq![90u8, 98u8],
            Unit::Zibit => seq![90u8, 105u8, 98u8],
            Unit::ZB => seq![90u8, 66u8],
            Unit::ZiB => seq![90u8, 105u8, 66u8],
            Unit::Ybit => seq![89u8, 98u8],
            Unit::Yibit => seq![89u8, 105u8, 98u8],
            Unit::YB => seq![89u8, 66u8],
            Unit::YiB => seq![89u8, 105u8, 66u8],
        }
    }

    /// The symbol is made of ASCII letters, and its bytes are their
    /// codes.
    pub proof fn lemma_symbol_bytes(self)
        ensures
            1 <= self.symbol().len() <= 3,
            is_ascii_chars(self.symbol()),
            encode_utf8(self.symbol()) == self.symbol_bytes(),
            forall|i: int|
                0 <= i < self.symbol().len() ==> 65 <= (#[trigger] self.symbol()[i]) as u32 <= 122,
    {
        reveal_strlit("b");
        reveal_strlit("B");
        reveal_strlit("Kb");
        reveal_strlit("Kib");
        reveal_strlit("KB");
        reveal_strlit("KiB");
        reveal_strlit("Mb");
        reveal_strlit("Mib");
        reveal_strlit("MB");
        reveal_strlit("MiB");
        reveal_strlit("Gb");
        reveal_strlit("Gib");
        reveal_strlit("GB");
        reveal_strlit("GiB");
        reveal_strlit("Tb");
        reveal_strlit("Tib");
        reveal_strlit("TB");
        reveal_strlit("TiB");
        reveal_strlit("Pb");
        reveal_strlit("Pib");
        reveal_strlit("PB");
        reveal_strlit("PiB");
        reveal_strlit("Eb");
        reveal_strlit("Eib");
        reveal_strlit("EB");
        reveal_strlit("EiB");
        reveal_strlit("Zb");
        reveal_strlit("Zib");
        reveal_strlit("ZB");
        reveal_strlit("ZiB");
        reveal_strlit("Yb");
        reveal_strlit("Yib");
        reveal_strlit("YB");
        reveal_strlit("YiB");
        let s = self.symbol();
        is_ascii_chars_encode_utf8(s);
    }
}

/// A suffix that is the symbol of a unit is read as that unit, whatever
/// unit is preferred: where case counts, and for a unit of bytes also
/// where it does not.
pub proof fn lemma_symbol_is_read(
    bytes: Seq<u8>,
    i: int,
    unit: Unit,
    ignore_case: bool,
    prefer_byte: bool,
)
    requires
        0 <= i <= bytes.len(),
        tail(bytes, i) == unit.symbol_bytes(),
        ignore_case ==> !unit.counts_bits(),
    ensures
        unit_suffix(bytes, i, ignore_case, prefer_byte) == Ok::<Unit, UnitParseErrorView>(unit),
{
    let t = tail(bytes, i);
    assert(bytes.len() == i + t.len());
    assert(forall|k: int| 0 <= k < t.len() ==> bytes[i + k] == #[trigger] t[k]);
}

/// Text that neither begins nor ends with white space is its own
/// trimmed text.
pub proof fn lemma_nothing_to_trim(s: Seq<char>)
    requires
        s.len() > 0,
        !is_white_space(s[0]),
        !is_white_space(s.last()),
    ensures
        trimmed(s) == s,
{
}

/// The symbol of a unit, as text, is read back as the unit, where case
/// counts, whatever unit is preferred.
pub proof fn lemma_symbol_round_trip(unit: Unit, prefer_byte: bool)
    ensures
        unit_suffix(encode_utf8(trimmed(unit.symbol())), 0, false, prefer_byte) == Ok::<
            Unit,
            UnitParseErrorView,
        >(unit),
{
    unit.lemma_symbol_bytes();
    let s = unit.symbol();
    lemma_nothing_to_trim(s);
    let bytes = encode_utf8(s);
    assert(tail(bytes, 0) =~= bytes);
    lemma_symbol_is_read(bytes, 0, unit, false, prefer_byte);
}

/// Whether the suffix from index `i` names no base: it is empty, or a
/// prefix letter, alone or with an `i` behind it.
pub open spec fn names_no_base(bytes: Seq<u8>, i: int) -> bool {
    ||| bytes.len() - i == 0
    ||| (bytes.len() - i == 1 && letter_rank(bytes[i]).is_some())
    ||| (bytes.len() - i == 2 && letter_rank(bytes[i]).is_some() && is_letter(
        bytes[i + 1],
        UPPER_I,
    ))
}

/// The preferred unit decides only between bits and bytes, and only
/// where the suffix names no base: a suffix is read with either
/// preference or with neither; the two units have the same prefix; and
/// they are the same unit unless the suffix names no base, where they
/// are the unit of bytes and the unit of bits.
pub proof fn lemma_preference(bytes: Seq<u8>, i: int, ignore_case: bool)
    requires
        0 <= i <= bytes.len(),
    ensures
        match (
            unit_suffix(bytes, i, ignore_case, true),
            unit_suffix(bytes, i, ignore_case, false),
        ) {
            (Ok(bytes_preferred), Ok(bits_preferred)) => {
                &&& bytes_preferred.prefix_rank() == bits_preferred.prefix_rank()
                &&& bytes_preferred.has_binary_prefix() == bits_preferred.has_binary_prefix()
                &&& if names_no_base(bytes, i) {
                    !bytes_preferred.counts_bits() && bits_preferred.counts_bits()
                } else {
                    bytes_preferred == bits_preferred
                }
            },
            (Err(with_bytes), Err(with_bits)) => {
                &&& with_bytes.character == with_bits.character
                &&& with_bytes.also_expect_no_character == with_bits.also_expect_no_character
            },
            _ => false,
        },
{
}

/// Regard to case decides only between bits and bytes: a suffix is read
/// with and without it, or neither way; the two units have the same
/// prefix; and where they differ, the one read without regard to case
/// counts bytes and the other counts bits.
pub proof fn lemma_regard_to_case(bytes: Seq<u8>, i: int, prefer_byte: bool)
    requires
        0 <= i <= bytes.len(),
    ensures
        match (unit_suffix(bytes, i, true, prefer_byte), unit_suffix(bytes, i, false, prefer_byte)) {
            (Ok(without), Ok(with)) => {
                &&& without.prefix_rank() == with.prefix_rank()
                &&& without.has_binary_prefix() == with.has_binary_prefix()
                &&& without == with || (!without.counts_bits() && with.counts_bits())
            },
            (Err(without), Err(with)) => {
                &&& without.character == with.character
                &&& without.also_expect_no_character == with.also_expect_no_character
            },
            _ => false,
        },
{
}

} // verus!
