//! Sizes in bits read from text.

use vstd::prelude::*;
use vstd::utf8::*;
use crate::bit::Bit;
use crate::common::Measure;
use crate::errors::{ParseError, ParseErrorView};
use crate::parse::{parsed_size, read_size};
use crate::text::{trim, trimmed};

verus! {

/// Whether an executable result is the one that the grammar gives.
pub open spec fn is_parsed_bit(r: Result<Bit, ParseError>, expected: Result<nat, ParseErrorView>) -> bool {
    match r {
        Ok(bit) => expected == Ok::<nat, ParseErrorView>(bit@),
        Err(e) => expected == Err::<nat, ParseErrorView>(e@),
    }
}

/// Associated functions for parsing strings.
impl Bit {
    /// Whether `r` is what `text` is read as: the size in bits that the
    /// number and the unit in it name, once the white space around it is
    /// gone, or the error that the grammar gives. Case counts.
    pub open spec fn is_parsed(r: Result<Bit, ParseError>, text: Seq<char>) -> bool {
        is_parsed_bit(r, parsed_size(encode_utf8(trimmed(text)), Measure::Bits, false))
    }

    /// Create a new `Bit` instance from a string such as `"10"`, `"10B"`,
    /// `"10M"`, `"10MB"`, `"10MiB"`, `"80b"`, `"80Mb"` or `"80Mbit"`,
    /// without regard to the white space around it.
    ///
    /// A `b` means bits and a `B` means bytes; a number without either
    /// counts bits. The size is rounded up to a whole number of bits.
    pub fn parse_str(s: &str) -> (r: Result<Bit, ParseError>)
        ensures
            is_parsed_bit(r, parsed_size(encode_utf8(trimmed(s@)), Measure::Bits, false)),
    {
        let t = trim(s);
        let bytes = t.as_bytes();
        proof {
            encode_utf8_valid_utf8(t@);
        }
        match read_size(bytes, Measure::Bits, false) {
            Ok(size) => Ok(Bit::from_u128_unsafe(size)),
            Err(e) => Err(e),
        }
    }
}

} // verus!
