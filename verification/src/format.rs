//! Sizes written out: the digits alone, or a number and a unit laid out
//! in a field.

use vstd::prelude::*;
use vstd::string::*;
use crate::common::{Measure, RONNA};
use crate::decimal::{decimal_text, integer_text, DecimalView};
use crate::search::{clamped, is_recoverable_unit, recoverable_unit};
use crate::unit::Unit;

verus! {

/// Where a number stands in a field that is wider than the number.
#[derive(Clone, Copy, Debug, PartialEq, Eq, Structural)]
pub enum Alignment {
    Left,
    Right,
    Center,
}

/// How a size is to be written.
#[derive(Clone, Copy, Debug)]
pub struct Formatting {
    /// Write a number and a unit in place of the digits alone.
    pub with_unit: bool,
    /// The number of fractional digits that the number may have. Without
    /// it they are 3.
    pub precision: Option<usize>,
    /// The least width of the whole text. The number is filled with
    /// spaces to reach it.
    pub width: Option<usize>,
    /// Where the number stands among its spaces. Without it, on the left.
    pub align: Option<Alignment>,
    /// Fill the unit's symbol with spaces in front, to four places.
    pub wide: bool,
    /// Leave no space between the number and the unit.
    pub compact: bool,
}

/// `n` spaces.
pub open spec fn spaces(n: nat) -> Seq<char> {
    Seq::new(n, |i: int| ' ')
}

/// The number of spaces between the number and the unit's symbol.
pub open spec fn gap(unit: Unit, f: Formatting) -> nat {
    if f.wide {
        (4 - unit.symbol().len()) as nat
    } else if f.compact {
        0
    } else {
        1
    }
}

/// The width that is left for the number, where the text is to have a
/// least width that the unit and the gap leave room in.
pub open spec fn field(unit: Unit, f: Formatting) -> Option<nat> {
    let taken = unit.symbol().len() + gap(unit, f);
    match f.width {
        Some(width) => if width > taken + 1 {
            Some((width - taken) as nat)
        } else {
            None
        },
        None => None,
    }
}

/// `number` in its field: filled with spaces behind it, or in front of
/// it where it is aligned to the right.
pub open spec fn in_field(number: Seq<char>, unit: Unit, f: Formatting) -> Seq<char> {
    match field(unit, f) {
        Some(width) => {
            let fill = spaces((if width > number.len() { width - number.len() } else { 0 }) as nat);
            if f.align == Some(Alignment::Right) {
                fill + number
            } else {
                number + fill
            }
        },
        None => number,
    }
}

/// A number and a unit laid out: the number in its field, the gap, and
/// the unit's symbol.
pub open spec fn laid_out(number: Seq<char>, unit: Unit, f: Formatting) -> Seq<char> {
    in_field(number, unit, f) + spaces(gap(unit, f)) + unit.symbol()
}

/// The precision that a text is written with.
pub open spec fn precision_of(f: Formatting) -> nat {
    match f.precision {
        Some(p) => clamped(p as nat),
        None => 3,
    }
}

/// Whether `text` is `size` written as `f` says: the digits alone, or
/// the number of units and the unit that can be read back exactly.
pub open spec fn is_formatted(text: Seq<char>, size: nat, measure: Measure, f: Formatting) -> bool {
    if f.with_unit {
        exists|value: DecimalView, unit: Unit|
            is_recoverable_unit(size, measure, false, precision_of(f), value, unit) && text
                == laid_out(decimal_text(value.normalized()), unit, f)
    } else {
        text == integer_text(size)
    }
}

/// `to_string` of `u128` in the standard library. Trusted: the text is
/// the decimal digits of the number, without leading zeros.
#[verifier::external_body]
fn integer_string(n: u128) -> (r: String)
    ensures
        r@ == integer_text(n as nat),
{
    n.to_string()
}

/// Append `n` spaces.
fn push_spaces(text: &mut String, n: usize)
    ensures
        final(text)@ == old(text)@ + spaces(n as nat),
{
    let ghost before = text@;
    let mut i: usize = 0;
    while i < n
        invariant
            i <= n,
            text@ == before + spaces(i as nat),
        decreases n - i,
    {
        proof {
            reveal_strlit(" ");
        }
        text.append(" ");
        i += 1;
    }
}

/// Lay out a number and a unit: the number in its field, the gap, and
/// the unit's symbol.
pub fn lay_out(number: &str, unit: Unit, f: &Formatting) -> (r: String)
    ensures
        r@ == laid_out(number@, unit, *f),
{
    let symbol = unit.as_str();
    proof {
        lemma_symbol_length(unit);
    }
    let symbol_length: usize = symbol.unicode_len();
    let space_length: usize = if f.wide {
        4 - symbol_length
    } else if f.compact {
        0
    } else {
        1
    };
    let number_length: usize = number.unicode_len();
    let taken: usize = symbol_length + space_length;
    let fill: usize = match f.width {
        Some(width) => if width > taken + 1 && width - taken > number_length {
            width - taken - number_length
        } else {
            0
        },
        None => 0,
    };
    let right = match f.align {
        Some(Alignment::Right) => true,
        _ => false,
    };
    let mut text = String::new();
    if right {
        push_spaces(&mut text, fill);
    }
    text.append(number);
    if !right {
        push_spaces(&mut text, fill);
    }
    push_spaces(&mut text, space_length);
    text.append(symbol);
    text
}

/// Write a size as `f` says.
pub fn format_size(size: u128, measure: Measure, f: &Formatting) -> (r: String)
    requires
        size < RONNA,
    ensures
        is_formatted(r@, size as nat, measure, *f),
{
    if !f.with_unit {
        return integer_string(size);
    }
    let precision: usize = match f.precision {
        Some(p) => p,
        None => 3,
    };
    let (value, unit) = recoverable_unit(size, measure, false, precision);
    let number = value.normalize().to_string();
    let text = lay_out(number.as_str(), unit, f);
    proof {
        assert(is_recoverable_unit(size as nat, measure, false, precision_of(*f), value@, unit));
    }
    text
}

/// A unit's symbol has one, two or three characters.
pub proof fn lemma_symbol_length(unit: Unit)
    ensures
        1 <= unit.symbol().len() <= 3,
{
    reveal_strlit("b");
    reveal_strlit("B");
    reveal_strlit("Kb");
    reveal_strlit("Kib");
    reveal_strlit("KB");
    reveal_strlit("KiB");
    reveal_strlit("Mb");
    reveal_strlit("Mib");
    reveal_strlit("MB");
    reveal_strlit("MiB");
    reveal_strlit("Gb");
    reveal_strlit("Gib");
    reveal_strlit("GB");
    reveal_strlit("GiB");
    reveal_strlit("Tb");
    reveal_strlit("Tib");
    reveal_strlit("TB");
    reveal_strlit("TiB");
    reveal_strlit("Pb");
    reveal_strlit("Pib");
    reveal_strlit("PB");
    reveal_strlit("PiB");
    reveal_strlit("Eb");
    reveal_strlit("Eib");
    reveal_strlit("EB");
    reveal_strlit("EiB");
    reveal_strlit("Zb");
    reveal_strlit("Zib");
    reveal_strlit("ZB");
    reveal_strlit("ZiB");
    reveal_strlit("Yb");
    reveal_strlit("Yib");
    reveal_strlit("YB");
    reveal_strlit("YiB");
}

} // verus!
