//! Sizes read from text: an unsigned decimal number, spaces, and a unit
//! suffix.

use vstd::prelude::*;
use vstd::utf8::*;
use crate::common::{scale_decimal, scaled_decimal_size, Measure, RONNA};
use crate::decimal::{product, sum, view_of, whole, Decimal, DecimalView};
use crate::errors::{ParseError, ParseErrorView, ValueParseError, ValueParseErrorView};
use crate::text::{
    char_at, get_char_from_bytes, lemma_step_over_ascii, tail, DIGIT_0, DIGIT_9, DOT, SPACE,
};
use crate::unit::parse::{read_xib, unit_suffix};

verus! {

/// Whether `e` is an ASCII digit.
pub open spec fn is_digit(e: u8) -> bool {
    DIGIT_0 <= e <= DIGIT_9
}

/// The number that the digit `e` stands for.
pub open spec fn digit_value(e: u8) -> int {
    e - DIGIT_0
}

/// The index at which the run of digits that starts at `i` ends.
pub open spec fn digits_end(bytes: Seq<u8>, i: int) -> int
    decreases bytes.len() - i,
{
    if 0 <= i < bytes.len() && is_digit(bytes[i]) {
        digits_end(bytes, i + 1)
    } else {
        i
    }
}

/// The index at which the run of spaces that starts at `i` ends.
pub open spec fn spaces_end(bytes: Seq<u8>, i: int) -> int
    decreases bytes.len() - i,
{
    if 0 <= i < bytes.len() && bytes[i] == SPACE {
        spaces_end(bytes, i + 1)
    } else {
        i
    }
}

/// The whole number `value` with the digit `e` written behind it: ten
/// times the value, plus the digit.
pub open spec fn appended(value: Option<DecimalView>, e: u8) -> Option<DecimalView> {
    match value {
        Some(v) => match product(v, whole(10)) {
            Some(t) => sum(t, whole(digit_value(e))),
            None => None,
        },
        None => None,
    }
}

/// The whole number `value` with the digits from index `i` up to `j`
/// written behind it, or `None` where a decimal cannot hold it.
pub open spec fn with_digits(value: Option<DecimalView>, bytes: Seq<u8>, i: int, j: int) -> Option<
    DecimalView,
>
    decreases j - i,
{
    if i >= j {
        value
    } else {
        with_digits(appended(value, bytes[i]), bytes, i + 1, j)
    }
}

/// `value` plus the digit `e` at the fractional place `scale`.
pub open spec fn added(value: Option<DecimalView>, e: u8, scale: nat) -> Option<DecimalView> {
    match value {
        Some(v) => if scale > 28 {
            None
        } else {
            sum(v, DecimalView { mantissa: digit_value(e), scale })
        },
        None => None,
    }
}

/// `value` plus the fractional digits from index `i` up to `j`, the
/// first of them at the place `scale`.
pub open spec fn with_fraction(
    value: Option<DecimalView>,
    bytes: Seq<u8>,
    i: int,
    j: int,
    scale: nat,
) -> Option<DecimalView>
    decreases j - i,
{
    if i >= j {
        value
    } else {
        with_fraction(added(value, bytes[i], scale), bytes, i + 1, j, scale + 1)
    }
}

/// What a dot and the digits behind it add to the whole number `value`,
/// where the first of these digits stands at index `start`: the digits
/// at the places 1, 2 and so on, and then the index behind the spaces
/// that follow. At least one digit has to follow the dot.
pub open spec fn after_dot(bytes: Seq<u8>, value: DecimalView, start: int) -> Result<
    (DecimalView, int),
    ValueParseErrorView,
> {
    let k = digits_end(bytes, start);
    if k == start {
        Err(
            ValueParseErrorView::NotNumber(
                if k < bytes.len() {
                    char_at(bytes, k)
                } else {
                    '.'
                },
            ),
        )
    } else {
        match with_fraction(Some(value), bytes, start, k, 1) {
            None => Err(ValueParseErrorView::NumberTooLong),
            Some(w) => Ok((w, spaces_end(bytes, k))),
        }
    }
}

/// What follows the whole number `value`, whose digits end at index `j`:
/// a dot and a fractional part, or nothing but spaces.
pub open spec fn after_whole(bytes: Seq<u8>, value: DecimalView, j: int) -> Result<
    (DecimalView, int),
    ValueParseErrorView,
> {
    if j < bytes.len() && bytes[j] == DOT {
        after_dot(bytes, value, j + 1)
    } else {
        Ok((value, spaces_end(bytes, j)))
    }
}

/// The whole number that the digits at the beginning of `bytes` write.
pub open spec fn whole_part(bytes: Seq<u8>) -> Option<DecimalView> {
    with_digits(Some(whole(digit_value(bytes[0]))), bytes, 1, digits_end(bytes, 1))
}

/// The number that `bytes` begins with, and the index at which the unit
/// suffix begins: digits, then optionally a dot and more digits, then
/// spaces.
pub open spec fn parsed_value(bytes: Seq<u8>) -> Result<(DecimalView, int), ValueParseErrorView> {
    if bytes.len() == 0 {
        Err(ValueParseErrorView::NoValue)
    } else if !is_digit(bytes[0]) {
        Err(ValueParseErrorView::NotNumber(char_at(bytes, 0)))
    } else {
        match whole_part(bytes) {
            None => Err(ValueParseErrorView::NumberTooLong),
            Some(v) => after_whole(bytes, v, digits_end(bytes, 1)),
        }
    }
}

/// The size that `bytes` names: the number, times the unit that follows
/// it, rounded up to a whole number of what `measure` counts. Without a
/// unit the number counts what the measure counts.
pub open spec fn parsed_size(bytes: Seq<u8>, measure: Measure, ignore_case: bool) -> Result<
    nat,
    ParseErrorView,
> {
    match parsed_value(bytes) {
        Err(e) => Err(ParseErrorView::Value(e)),
        Ok((value, i)) => match unit_suffix(bytes, i, ignore_case, measure == Measure::Bytes) {
            Err(e) => Err(ParseErrorView::Unit(e)),
            Ok(unit) => match scaled_decimal_size(value, unit, measure) {
                Some(size) => Ok(size),
                None => Err(ParseErrorView::Value(ValueParseErrorView::ExceededBounds(value))),
            },
        },
    }
}

/// Whether an executable result is the one that `parsed_value` gives.
pub open spec fn value_agrees(
    r: Result<(Decimal, usize), ValueParseError>,
    expected: Result<(DecimalView, int), ValueParseErrorView>,
) -> bool {
    match r {
        Ok((value, i)) => expected == Ok::<(DecimalView, int), ValueParseErrorView>(
            (value@, i as int),
        ),
        Err(e) => expected == Err::<(DecimalView, int), ValueParseErrorView>(e@),
    }
}

/// Whether an executable result is the one that `parsed_size` gives.
pub open spec fn size_agrees(r: Result<u128, ParseError>, expected: Result<nat, ParseErrorView>) -> bool {
    match r {
        Ok(size) => expected == Ok::<nat, ParseErrorView>(size as nat),
        Err(e) => expected == Err::<nat, ParseErrorView>(e@),
    }
}

fn digit(e: u8) -> (r: bool)
    ensures
        r == is_digit(e),
{
    DIGIT_0 <= e && e <= DIGIT_9
}

/// Skip the spaces from index `i` on.
fn skip_spaces(bytes: &[u8], i: usize) -> (r: usize)
    requires
        i <= bytes@.len(),
        valid_utf8(tail(bytes@, i as int)),
    ensures
        r == spaces_end(bytes@, i as int),
        i <= r <= bytes@.len(),
        valid_utf8(tail(bytes@, r as int)),
{
    let mut k: usize = i;
    while k < bytes.len() && bytes[k] == SPACE
        invariant
            i <= k <= bytes@.len(),
            valid_utf8(tail(bytes@, k as int)),
            spaces_end(bytes@, k as int) == spaces_end(bytes@, i as int),
        decreases bytes@.len() - k,
    {
        proof {
            lemma_step_over_ascii(bytes@, k as int);
        }
        k += 1;
    }
    k
}

/// A run of digits ends at or behind the index it starts at.
pub proof fn lemma_digits_end(bytes: Seq<u8>, i: int)
    requires
        0 <= i <= bytes.len(),
    ensures
        i <= digits_end(bytes, i) <= bytes.len(),
    decreases bytes.len() - i,
{
    if i < bytes.len() && is_digit(bytes[i]) {
        lemma_digits_end(bytes, i + 1);
    }
}

/// Read the number that `bytes` begins with, and find where the unit
/// suffix begins.
pub fn read_value(bytes: &[u8]) -> (r: Result<(Decimal, usize), ValueParseError>)
    requires
        valid_utf8(bytes@),
    ensures
        value_agrees(r, parsed_value(bytes@)),
        match r {
            Ok((_, i)) => i <= bytes@.len() && valid_utf8(tail(bytes@, i as int)),
            Err(_) => true,
        },
{
    let n = bytes.len();
    assert(tail(bytes@, 0) =~= bytes@);
    if n == 0 {
        return Err(ValueParseError::NoValue);
    }
    if !digit(bytes[0]) {
        return Err(ValueParseError::NotNumber(get_char_from_bytes(bytes, 0)));
    }
    let mut value = Decimal::from_u8(bytes[0] - DIGIT_0);
    let ghost j = digits_end(bytes@, 1);
    proof {
        lemma_step_over_ascii(bytes@, 0);
    }
    let mut i: usize = 1;
    while i < n && digit(bytes[i])
        invariant
            n == bytes@.len(),
            n > 0,
            is_digit(bytes@[0]),
            1 <= i <= n,
            valid_utf8(tail(bytes@, i as int)),
            j == digits_end(bytes@, 1),
            digits_end(bytes@, i as int) == j,
            with_digits(Some(value@), bytes@, i as int, j) == whole_part(bytes@),
        decreases n - i,
    {
        let d = Decimal::from_u8(bytes[i] - DIGIT_0);
        let next = match value.checked_mul(Decimal::from_u8(10)) {
            Some(t) => t.checked_add(d),
            None => None,
        };
        proof {
            lemma_step_over_ascii(bytes@, i as int);
            lemma_digits_end(bytes@, i + 1);
            assert(with_digits(Some(value@), bytes@, i as int, j) == with_digits(
                appended(Some(value@), bytes@[i as int]),
                bytes@,
                i + 1,
                j,
            ));
        }
        match next {
            Some(v) => {
                value = v;
            },
            None => {
                proof {
                    lemma_digits_lost(bytes@, i + 1, j);
                }
                return Err(ValueParseError::NumberTooLong);
            },
        }
        i += 1;
    }
    if i < n && bytes[i] == DOT {
        proof {
            lemma_step_over_ascii(bytes@, i as int);
        }
        let start: usize = i + 1;
        let ghost whole_value = value@;
        let ghost k = digits_end(bytes@, start as int);
        let mut scale: u32 = 1;
        i = start;
        while i < n && digit(bytes[i])
            invariant
                n == bytes@.len(),
                start <= i <= n,
                scale == i - start + 1,
                valid_utf8(tail(bytes@, i as int)),
                k == digits_end(bytes@, start as int),
                digits_end(bytes@, i as int) == k,
                parsed_value(bytes@) == after_dot(bytes@, whole_value, start as int),
                with_fraction(Some(value@), bytes@, i as int, k, scale as nat) == with_fraction(
                    Some(whole_value),
                    bytes@,
                    start as int,
                    k,
                    1,
                ),
                i == start ==> value@ == whole_value,
            decreases n - i,
        {
            let next = match Decimal::try_from_i128_with_scale((bytes[i] - DIGIT_0) as i128, scale) {
                Some(d) => value.checked_add(d),
                None => None,
            };
            proof {
                lemma_step_over_ascii(bytes@, i as int);
                lemma_digits_end(bytes@, i + 1);
                assert(view_of(next) == added(
                    Some(value@),
                    bytes@[i as int],
                    scale as nat,
                ));
                assert(with_fraction(Some(value@), bytes@, i as int, k, scale as nat)
                    == with_fraction(
                    added(Some(value@), bytes@[i as int], scale as nat),
                    bytes@,
                    i + 1,
                    k,
                    (scale + 1) as nat,
                ));
            }
            match next {
                Some(v) => {
                    value = v;
                },
                None => {
                    proof {
                        lemma_fraction_lost(bytes@, i + 1, k, (scale + 1) as nat);
                    }
                    return Err(ValueParseError::NumberTooLong);
                },
            }
            i += 1;
            scale += 1;
        }
        if i == start {
            return Err(
                ValueParseError::NotNumber(
                    if i < n {
                        get_char_from_bytes(bytes, i)
                    } else {
                        '.'
                    },
                ),
            );
        }
    }
    let rest = skip_spaces(bytes, i);
    Ok((value, rest))
}

/// Once a decimal could not hold the number, more digits do not help.
pub proof fn lemma_digits_lost(bytes: Seq<u8>, i: int, j: int)
    ensures
        with_digits(None, bytes, i, j).is_none(),
    decreases j - i,
{
    if i < j {
        lemma_digits_lost(bytes, i + 1, j);
    }
}

/// Once a decimal could not hold the number, more fractional digits do
/// not help.
pub proof fn lemma_fraction_lost(bytes: Seq<u8>, i: int, j: int, scale: nat)
    ensures
        with_fraction(None, bytes, i, j, scale).is_none(),
    decreases j - i,
{
    if i < j {
        lemma_fraction_lost(bytes, i + 1, j, scale + 1);
    }
}

/// Read a size from `bytes`: a number, spaces, and a unit suffix.
pub fn read_size(bytes: &[u8], measure: Measure, ignore_case: bool) -> (r: Result<u128, ParseError>)
    requires
        valid_utf8(bytes@),
    ensures
        size_agrees(r, parsed_size(bytes@, measure, ignore_case)),
        r.is_ok() ==> r.unwrap() < RONNA,
{
    let (value, i) = match read_value(bytes) {
        Ok(found) => found,
        Err(e) => {
            return Err(ParseError::Value(e));
        },
    };
    let prefer_byte = match measure {
        Measure::Bits => false,
        Measure::Bytes => true,
    };
    let unit = match read_xib(bytes, i, ignore_case, prefer_byte) {
        Ok(unit) => unit,
        Err(e) => {
            return Err(ParseError::Unit(e));
        },
    };
    match scale_decimal(value, unit, measure) {
        Some(size) => Ok(size),
        None => Err(ParseError::Value(ValueParseError::ExceededBounds(value))),
    }
}

} // verus!
