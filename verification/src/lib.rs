//! Sizes in bits and bytes: exact magnitudes, the units that name their
//! multiples, parsing from text and the search for a unit to show them in.
//!
//! A size is a whole number below 10<sup>27</sup>, of bits in a [`Bit`]
//! and of bytes in a [`Byte`]. A [`Unit`] is a bit, a byte, or one of
//! their decimal and binary multiples up to yotta and yobi. Text such as
//! `"123"`, `"123KiB"` or `"50.84 MB"` is read by `parse_str`; `format`
//! writes a size with the largest unit from which it can be read back
//! exactly.
//!
//! The modules, from the ground up:
//!
//! - [`text`]: bytes of UTF-8 and the characters they encode;
//! - [`unit`]: the units, their sizes and symbols, and the grammar of
//!   unit suffixes;
//! - [`decimal`]: decimal numbers, with the arithmetic of `rust_decimal`
//!   behind contracts that are believed, not proved;
//! - [`common`]: the two measures, the weight of a unit in each, and the
//!   size of a number of units;
//! - [`search`]: the three searches for a unit;
//! - [`parse`] and [`format`]: sizes from text and to text;
//! - [`bit`], [`byte`]: the two types of sizes;
//! - [`byte_unit`], [`u128`], [`u64`]: units and constants in bytes;
//! - [`laws`], [`literal`], [`round_trip`]: what is proved of all this
//!   taken together.

pub mod bit;
pub mod byte;
pub mod byte_unit;
pub mod common;
pub mod decimal;
pub mod errors;
pub mod format;
pub mod laws;
pub mod literal;
pub mod parse;
pub mod round_trip;
pub mod search;
pub mod text;
pub mod u128;
pub mod u64;
pub mod unit;

pub use bit::{AdjustedBit, Bit};
pub use byte::{AdjustedByte, Byte};
pub use byte_unit::ByteUnit;
pub use common::Measure;
pub use decimal::Decimal;
pub use errors::{ByteError, ExceededBoundsError, ParseError, UnitParseError, ValueParseError};
pub use format::{Alignment, Formatting};
pub use unit::{Unit, UnitType};
