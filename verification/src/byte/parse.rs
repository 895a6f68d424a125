//! Sizes in bytes read from text.

use vstd::prelude::*;
use vstd::utf8::*;
use crate::byte::Byte;
use crate::common::Measure;
use crate::errors::{ParseError, ParseErrorView};
use crate::parse::{parsed_size, read_size};
use crate::text::{trim, trimmed};

verus! {

/// Whether an executable result is the one that the grammar gives.
pub open spec fn is_parsed_byte(r: Result<Byte, ParseError>, expected: Result<nat, ParseErrorView>) -> bool {
    match r {
        Ok(byte) => expected == Ok::<nat, ParseErrorView>(byte@),
        Err(e) => expected == Err::<nat, ParseErrorView>(e@),
    }
}

/// Associated functions for parsing strings.
impl Byte {
    /// Create a new `Byte` instance from a string such as `"10"`, `"10B"`,
    /// `"10M"`, `"10MB"`, `"10MiB"`, `"80b"`, `"80Mb"` or `"80Mbit"`,
    /// without regard to the white space around it.
    ///
    /// A `B` means bytes, and a `b` means bits unless `ignore_case` makes
    /// it mean bytes too; a number without either counts bytes. The size
    /// is rounded up to a whole number of bytes.
    pub fn parse_str(s: &str, ignore_case: bool) -> (r: Result<Byte, ParseError>)
        ensures
            is_parsed_byte(
                r,
                parsed_size(encode_utf8(trimmed(s@)), Measure::Bytes, ignore_case),
            ),
    {
        let t = trim(s);
        let bytes = t.as_bytes();
        proof {
            encode_utf8_valid_utf8(t@);
        }
        match read_size(bytes, Measure::Bytes, ignore_case) {
            Ok(size) => Ok(Byte::from_u128_unsafe(size)),
            Err(e) => Err(e),
        }
    }
}

} // verus!
