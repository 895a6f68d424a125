//! What a text that is read as a size stands for: the number that its
//! digits write, and the proof that reading it gives that number times
//! the unit, rounded up.

use vstd::prelude::*;
use crate::common::{ceil_div, scaled_decimal_size, Measure, RONNA};
use crate::decimal::{aligned_sum, exact_product, whole, DecimalView, MAX_MANTISSA};
use crate::errors::{ParseErrorView, UnitParseErrorView, ValueParseErrorView};
use crate::parse::{
    added, appended, digit_value, digits_end, is_digit, lemma_digits_lost, lemma_fraction_lost,
    parsed_size, parsed_value, spaces_end, with_digits, with_fraction,
};
use crate::text::DOT;
use crate::unit::parse::unit_suffix;
use crate::unit::{lemma_power_positive, power, Unit};

verus! {

/// The number that the digits from index `i` up to `j` write.
pub open spec fn digits_value(bytes: Seq<u8>, i: int, j: int) -> nat
    decreases j - i,
{
    if i >= j {
        0
    } else {
        (digits_value(bytes, i, j - 1) * 10 + digit_value(bytes[j - 1])) as nat
    }
}

/// The index at which the digits of the integer part end.
pub open spec fn whole_end(bytes: Seq<u8>) -> int {
    digits_end(bytes, 1)
}

/// Whether a dot follows the integer part.
pub open spec fn has_fraction(bytes: Seq<u8>) -> bool {
    whole_end(bytes) < bytes.len() && bytes[whole_end(bytes)] == DOT
}

/// The index at which the digits of the number end.
pub open spec fn number_end(bytes: Seq<u8>) -> int {
    if has_fraction(bytes) {
        digits_end(bytes, whole_end(bytes) + 1)
    } else {
        whole_end(bytes)
    }
}

/// The number of digits behind the dot.
pub open spec fn places(bytes: Seq<u8>) -> nat {
    if has_fraction(bytes) {
        (number_end(bytes) - whole_end(bytes) - 1) as nat
    } else {
        0
    }
}

/// The number that all digits write, those behind the dot included: the
/// text stands for this number divided by 10 to the power `places`.
pub open spec fn all_digits(bytes: Seq<u8>) -> nat {
    digits_value(bytes, 0, whole_end(bytes)) * power(10, places(bytes)) + digits_value(
        bytes,
        whole_end(bytes) + 1,
        number_end(bytes),
    )
}

/// Whether `bytes` begins with a number that a decimal holds as it is
/// written: at least one digit, behind a dot at least one and at most 28
/// digits, and all digits together a number of at most 96 bits.
pub open spec fn is_plain_number(bytes: Seq<u8>) -> bool {
    &&& bytes.len() > 0
    &&& is_digit(bytes[0])
    &&& has_fraction(bytes) ==> 1 <= places(bytes) <= 28
    &&& all_digits(bytes) <= MAX_MANTISSA
}

/// The decimal that reading `bytes` gives, where it gives one.
pub open spec fn read_number(bytes: Seq<u8>) -> DecimalView {
    match parsed_value(bytes) {
        Ok((value, _)) => value,
        Err(_) => whole(0),
    }
}

/// The index at which reading `bytes` finds the unit, where it finds a
/// number.
pub open spec fn read_end(bytes: Seq<u8>) -> int {
    match parsed_value(bytes) {
        Ok((_, i)) => i,
        Err(_) => 0,
    }
}

/// Whether `value` stands for `digits` divided by 10 to the power
/// `places`, with a scale of at most `places`.
pub open spec fn holds(value: DecimalView, digits: nat, places: nat) -> bool {
    &&& value.scale <= places
    &&& value.mantissa * power(10, (places - value.scale) as nat) == digits
}

/// A run of digits ends behind its start, and only digits stand in it.
pub proof fn lemma_digit_run(bytes: Seq<u8>, i: int)
    requires
        0 <= i <= bytes.len(),
    ensures
        i <= digits_end(bytes, i) <= bytes.len(),
        forall|k: int| i <= k < digits_end(bytes, i) ==> is_digit(#[trigger] bytes[k]),
        digits_end(bytes, i) < bytes.len() ==> !is_digit(bytes[digits_end(bytes, i)]),
    decreases bytes.len() - i,
{
    if i < bytes.len() && is_digit(bytes[i]) {
        lemma_digit_run(bytes, i + 1);
    }
}

/// More digits write a number that is not smaller.
pub proof fn lemma_digits_value_grows(bytes: Seq<u8>, i: int, j: int, k: int)
    requires
        i <= j <= k,
        forall|m: int| i <= m < k ==> is_digit(#[trigger] bytes[m]),
    ensures
        digits_value(bytes, i, j) <= digits_value(bytes, i, k),
    decreases k - j,
{
    if j < k {
        lemma_digits_value_grows(bytes, i, j, k - 1);
    }
}

/// Writing a digit behind a whole number gives ten times the number plus
/// the digit, where that has at most 96 bits, and nothing where it has
/// more.
pub proof fn lemma_appended(v: nat, e: u8)
    requires
        is_digit(e),
        v <= MAX_MANTISSA,
    ensures
        appended(Some(whole(v as int)), e) == if v * 10 + digit_value(e) <= MAX_MANTISSA {
            Some(whole(v * 10 + digit_value(e)))
        } else {
            None
        },
{
    let d = digit_value(e);
    assert(power(10, 0) == 1) by {
        reveal_with_fuel(power, 1);
    }
    if v * 10 <= MAX_MANTISSA && v != 0 && d != 0 {
        assert((v * 10) * power(10, 0) == v * 10) by (nonlinear_arith)
            requires
                power(10, 0) == 1,
        ;
        assert(d * power(10, 0) == d) by (nonlinear_arith)
            requires
                power(10, 0) == 1,
        ;
    }
}

/// The digits of the integer part, read one after the other, give the
/// number they write, where it has at most 96 bits, and nothing where it
/// has more.
pub proof fn lemma_whole_digits(bytes: Seq<u8>, i: int, j: int)
    requires
        1 <= i <= j <= bytes.len(),
        forall|k: int| 0 <= k < j ==> is_digit(#[trigger] bytes[k]),
        digits_value(bytes, 0, i) <= MAX_MANTISSA,
    ensures
        with_digits(Some(whole(digits_value(bytes, 0, i) as int)), bytes, i, j) == if digits_value(
            bytes,
            0,
            j,
        ) <= MAX_MANTISSA {
            Some(whole(digits_value(bytes, 0, j) as int))
        } else {
            None
        },
    decreases j - i,
{
    if i < j {
        let v = digits_value(bytes, 0, i);
        lemma_appended(v, bytes[i]);
        if digits_value(bytes, 0, i + 1) <= MAX_MANTISSA {
            lemma_whole_digits(bytes, i + 1, j);
        } else {
            lemma_digits_lost(bytes, i + 1, j);
            lemma_digits_value_grows(bytes, 0, i + 1, j);
        }
    }
}

/// Adding a digit at the next fractional place gives ten times the
/// digits so far plus the digit, over one more place.
pub proof fn lemma_added(value: DecimalView, digits: nat, places: nat, e: u8)
    requires
        is_digit(e),
        value.mantissa >= 0,
        holds(value, digits, places),
        places < 28,
        digits * 10 + digit_value(e) <= MAX_MANTISSA,
    ensures
        added(Some(value), e, places + 1).is_some(),
        added(Some(value), e, places + 1).unwrap().mantissa >= 0,
        holds(
            added(Some(value), e, places + 1).unwrap(),
            (digits * 10 + digit_value(e)) as nat,
            places + 1,
        ),
{
    let d = digit_value(e);
    let digit = DecimalView { mantissa: d, scale: places + 1 };
    let gap = (places - value.scale) as nat;
    assert(power(10, 0) == 1) by {
        reveal_with_fuel(power, 1);
    }
    assert(power(10, gap + 1) == 10 * power(10, gap)) by {
        reveal_with_fuel(power, 1);
    }
    assert(value.mantissa * power(10, gap + 1) == digits * 10) by (nonlinear_arith)
        requires
            value.mantissa * power(10, gap) == digits,
            power(10, gap + 1) == 10 * power(10, gap),
    ;
    if value.mantissa != 0 && d != 0 {
        assert(d * power(10, 0) == d) by (nonlinear_arith)
            requires
                power(10, 0) == 1,
        ;
        assert(aligned_sum(value, digit).mantissa == value.mantissa * power(10, gap + 1) + d
            * power(10, 0));
        assert((digits * 10 + d) * power(10, 0) == digits * 10 + d) by (nonlinear_arith)
            requires
                power(10, 0) == 1,
        ;
    } else if value.mantissa == 0 {
        assert(digits == 0) by (nonlinear_arith)
            requires
                value.mantissa == 0,
                value.mantissa * power(10, gap) == digits,
        ;
        assert(d * power(10, 0) == d) by (nonlinear_arith)
            requires
                power(10, 0) == 1,
        ;
    }
}

/// The digits behind the dot, read one after the other, give all digits
/// so far over one place more for each of them.
pub proof fn lemma_fraction_digits(
    bytes: Seq<u8>,
    value: DecimalView,
    digits: nat,
    start: int,
    i: int,
    k: int,
)
    requires
        0 <= start <= i <= k <= bytes.len(),
        forall|m: int| start <= m < k ==> is_digit(#[trigger] bytes[m]),
        k - start <= 28,
        value.mantissa >= 0,
        holds(value, digits, (i - start) as nat),
        digits * power(10, (k - i) as nat) + digits_value(bytes, i, k) <= MAX_MANTISSA,
    ensures
        with_fraction(Some(value), bytes, i, k, (i - start + 1) as nat).is_some(),
        with_fraction(Some(value), bytes, i, k, (i - start + 1) as nat).unwrap().mantissa >= 0,
        holds(
            with_fraction(Some(value), bytes, i, k, (i - start + 1) as nat).unwrap(),
            digits * power(10, (k - i) as nat) + digits_value(bytes, i, k),
            (k - start) as nat,
        ),
    decreases k - i,
{
    assert(power(10, 0) == 1) by {
        reveal_with_fuel(power, 1);
    }
    if i < k {
        let e = bytes[i];
        let next = (digits * 10 + digit_value(e)) as nat;
        let rest = (k - i - 1) as nat;
        lemma_shift(bytes, digits, i, k);
        lemma_power_positive(10, rest);
        assert(next <= next * power(10, rest)) by (nonlinear_arith)
            requires
                power(10, rest) > 0,
        ;
        lemma_added(value, digits, (i - start) as nat, e);
        let value_next = added(Some(value), e, (i - start + 1) as nat).unwrap();
        assert(with_fraction(Some(value), bytes, i, k, (i - start + 1) as nat) == with_fraction(
            Some(value_next),
            bytes,
            i + 1,
            k,
            (i + 1 - start + 1) as nat,
        ));
        lemma_fraction_digits(bytes, value_next, next, start, i + 1, k);
    } else {
        assert(digits * power(10, 0) == digits) by (nonlinear_arith)
            requires
                power(10, 0) == 1,
        ;
    }
}

/// The digits so far and the digits to come write the same number,
/// whether the next digit counts among the first or among the second.
pub proof fn lemma_shift(bytes: Seq<u8>, digits: nat, i: int, k: int)
    requires
        0 <= i < k <= bytes.len(),
        forall|m: int| i <= m < k ==> is_digit(#[trigger] bytes[m]),
    ensures
        digits * power(10, (k - i) as nat) + digits_value(bytes, i, k) == (digits * 10 + digit_value(
            bytes[i],
        )) * power(10, (k - i - 1) as nat) + digits_value(bytes, i + 1, k),
    decreases k - i,
{
    assert(power(10, 0) == 1) by {
        reveal_with_fuel(power, 1);
    }
    let d = digit_value(bytes[i]);
    if k == i + 1 {
        assert(digits_value(bytes, i, i) == 0);
        assert(power(10, 1) == 10) by {
            reveal_with_fuel(power, 2);
        }
        assert(digits * power(10, 1) == digits * 10) by (nonlinear_arith)
            requires
                power(10, 1) == 10,
        ;
        assert((digits * 10 + d) * power(10, 0) == digits * 10 + d) by (nonlinear_arith)
            requires
                power(10, 0) == 1,
        ;
    } else {
        lemma_shift(bytes, digits, i, k - 1);
        let last = digit_value(bytes[k - 1]);
        let p = power(10, (k - 1 - i) as nat);
        let q = power(10, (k - 2 - i) as nat);
        assert(power(10, (k - i) as nat) == 10 * p) by {
            reveal_with_fuel(power, 1);
        }
        assert(p == 10 * q) by {
            reveal_with_fuel(power, 1);
        }
        assert(digits * (10 * p) + (digits_value(bytes, i, k - 1) * 10 + last) == ((digits * 10 + d)
            * (10 * q)) + (digits_value(bytes, i + 1, k - 1) * 10 + last)) by (nonlinear_arith)
            requires
                digits * p + digits_value(bytes, i, k - 1) == (digits * 10 + d) * q + digits_value(
                    bytes,
                    i + 1,
                    k - 1,
                ),
        ;
    }
}

/// Reading a plain number gives a decimal that stands for the number as
/// it is written, and the index behind the spaces that follow it.
pub proof fn lemma_parsed_value(bytes: Seq<u8>)
    requires
        is_plain_number(bytes),
    ensures
        parsed_value(bytes).is_ok(),
        read_end(bytes) == spaces_end(bytes, number_end(bytes)),
        read_number(bytes).mantissa >= 0,
        holds(read_number(bytes), all_digits(bytes), places(bytes)),
{
    let j = whole_end(bytes);
    lemma_digit_run(bytes, 1);
    assert(digits_value(bytes, 0, 1) == digit_value(bytes[0])) by {
        assert(digits_value(bytes, 0, 0) == 0);
    }
    let w = digits_value(bytes, 0, j);
    assert(power(10, 0) == 1) by {
        reveal_with_fuel(power, 1);
    }
    lemma_power_positive(10, places(bytes));
    assert(w <= w * power(10, places(bytes))) by (nonlinear_arith)
        requires
            power(10, places(bytes)) > 0,
    ;
    lemma_digits_value_grows(bytes, 0, 1, j);
    lemma_whole_digits(bytes, 1, j);
    if has_fraction(bytes) {
        let start = j + 1;
        let k = number_end(bytes);
        lemma_digit_run(bytes, start);
        assert(w * power(10, 0) == w) by (nonlinear_arith)
            requires
                power(10, 0) == 1,
        ;
        lemma_fraction_digits(bytes, whole(w as int), w, start, start, k);
    } else {
        assert(parsed_value(bytes) == Ok::<(DecimalView, int), ValueParseErrorView>(
            (whole(w as int), spaces_end(bytes, j)),
        ));
    }
}

/// A number with more than 96 bits before the dot, or with more than 28
/// digits behind it, is too long.
pub proof fn lemma_number_too_long(bytes: Seq<u8>)
    requires
        bytes.len() > 0,
        is_digit(bytes[0]),
        digits_value(bytes, 0, whole_end(bytes)) > MAX_MANTISSA || (digits_value(
            bytes,
            0,
            whole_end(bytes),
        ) <= MAX_MANTISSA && places(bytes) > 28),
    ensures
        parsed_value(bytes) == Err::<(DecimalView, int), ValueParseErrorView>(
            ValueParseErrorView::NumberTooLong,
        ),
{
    let j = whole_end(bytes);
    lemma_digit_run(bytes, 1);
    assert(digits_value(bytes, 0, 1) == digit_value(bytes[0])) by {
        assert(digits_value(bytes, 0, 0) == 0);
    }
    lemma_whole_digits(bytes, 1, j);
    if digits_value(bytes, 0, j) <= MAX_MANTISSA {
        let v = whole(digits_value(bytes, 0, j) as int);
        lemma_digit_run(bytes, j + 1);
        lemma_too_many_places(bytes, Some(v), j + 1, number_end(bytes), 1);
    }
}

/// Digits that reach behind the place 28 give nothing.
pub proof fn lemma_too_many_places(
    bytes: Seq<u8>,
    value: Option<DecimalView>,
    i: int,
    k: int,
    scale: nat,
)
    requires
        0 <= i < k <= bytes.len(),
        scale + (k - i) > 29,
    ensures
        with_fraction(value, bytes, i, k, scale).is_none(),
    decreases k - i,
{
    if scale > 28 || value.is_none() {
        lemma_fraction_lost(bytes, i + 1, k, scale + 1);
    } else {
        lemma_too_many_places(bytes, added(value, bytes[i], scale), i + 1, k, scale + 1);
    }
}

/// Where `quotient` times `by` is at least `number` and less than
/// `number` plus `by`, it is `number` divided by `by` and rounded up.
pub proof fn lemma_ceil_div_is(number: nat, by: nat, quotient: int)
    requires
        by > 0,
        (quotient - 1) * by < number <= quotient * by,
    ensures
        quotient == ceil_div(number, by),
{
    let q = (number + by - 1) / (by as int);
    assert(q * by <= number + by - 1 < (q + 1) * by) by (nonlinear_arith)
        requires
            q == (number + by - 1) / (by as int),
            by > 0,
    ;
    assert(q == quotient) by (nonlinear_arith)
        requires
            q * by <= number + by - 1 < (q + 1) * by,
            (quotient - 1) * by < number <= quotient * by,
            by > 0,
    ;
}

/// The ceiling of a decimal that stands for `digits` over `places` is
/// `digits` divided by 10 to the power `places`, rounded up.
pub proof fn lemma_ceiling_of(value: DecimalView, digits: nat, places: nat)
    requires
        value.mantissa >= 0,
        holds(value, digits, places),
    ensures
        value.ceiling() == ceil_div(digits, power(10, places)),
{
    let p = power(10, value.scale) as int;
    let gap = (places - value.scale) as nat;
    let g = power(10, gap) as int;
    lemma_power_positive(10, value.scale);
    lemma_power_positive(10, gap);
    lemma_power_positive(10, places);
    lemma_power_adds(value.scale, gap);
    let m = value.mantissa;
    let c = value.ceiling();
    let q = (-m) / p;
    assert(q * p <= -m < (q + 1) * p) by (nonlinear_arith)
        requires
            q == (-m) / p,
            p > 0,
    ;
    assert((c - 1) * (p * g) < m * g <= c * (p * g)) by (nonlinear_arith)
        requires
            c == -q,
            q * p <= -m < (q + 1) * p,
            g > 0,
    ;
    lemma_ceil_div_is(digits, power(10, places), c);
}

/// Powers of 10 multiply as their exponents add.
pub proof fn lemma_power_adds(a: nat, b: nat)
    ensures
        power(10, a + b) == power(10, a) * power(10, b),
    decreases b,
{
    if b == 0 {
        assert(power(10, 0) == 1) by {
            reveal_with_fuel(power, 1);
        }
    } else {
        lemma_power_adds(a, (b - 1) as nat);
        assert(power(10, a + b) == 10 * power(10, (a + b - 1) as nat)) by {
            reveal_with_fuel(power, 1);
        }
        assert(power(10, b) == 10 * power(10, (b - 1) as nat)) by {
            reveal_with_fuel(power, 1);
        }
        assert(10 * (power(10, a) * power(10, (b - 1) as nat)) == power(10, a) * (10 * power(
            10,
            (b - 1) as nat,
        ))) by (nonlinear_arith);
    }
}

/// The size of a count that stands for `digits` over `places`, in a unit
/// whose weight times the digits has at most 96 bits: the digits times
/// the weight, divided by 10 to the power `places` and rounded up, where
/// that is below 10<sup>27</sup>.
pub proof fn lemma_scaled_size(
    value: DecimalView,
    digits: nat,
    places: nat,
    unit: Unit,
    measure: Measure,
)
    requires
        value.mantissa >= 0,
        places <= 28,
        holds(value, digits, places),
        unit != Unit::Bit || measure == Measure::Bits,
        digits * unit.weight(measure) <= MAX_MANTISSA,
    ensures
        scaled_decimal_size(value, unit, measure) == if ceil_div(
            digits * unit.weight(measure),
            power(10, places),
        ) < RONNA {
            Some(ceil_div(digits * unit.weight(measure), power(10, places)))
        } else {
            None
        },
{
    let w = unit.weight(measure);
    let gap = (places - value.scale) as nat;
    let g = power(10, gap);
    lemma_power_positive(10, gap);
    unit.lemma_bits_values();
    if unit == measure.base_unit() {
        assert(digits * w == digits) by (nonlinear_arith)
            requires
                w == 1,
        ;
        lemma_ceiling_of(value, digits, places);
    } else {
        let by = whole(w as int);
        assert(value.mantissa * w <= digits * w) by (nonlinear_arith)
            requires
                value.mantissa * g == digits,
                g > 0,
                value.mantissa >= 0,
                w >= 0,
        ;
        assert(value.mantissa * w >= 0) by (nonlinear_arith)
            requires
                value.mantissa >= 0,
                w >= 0,
        ;
        let p = exact_product(value, by);
        if value.mantissa * w == 0 {
            assert(value.mantissa == 0) by (nonlinear_arith)
                requires
                    value.mantissa * w == 0,
                    w >= 1,
                    value.mantissa >= 0,
            ;
            assert(digits == 0) by (nonlinear_arith)
                requires
                    value.mantissa == 0,
                    value.mantissa * g == digits,
            ;
            assert(digits * w == 0) by (nonlinear_arith)
                requires
                    digits == 0,
            ;
            assert(holds(p, 0, places)) by (nonlinear_arith)
                requires
                    p.mantissa == 0,
                    p.scale == 0,
            ;
        } else {
            assert(p.mantissa * g == digits * w) by (nonlinear_arith)
                requires
                    p.mantissa == value.mantissa * w,
                    value.mantissa * g == digits,
            ;
        }
        lemma_ceiling_of(p, digits * w, places);
    }
}

/// Reading a plain number with a unit gives the number times the unit,
/// rounded up to a whole size, where the digits times the unit's weight
/// have at most 96 bits; and where that size is not below
/// 10<sup>27</sup>, the error that the bounds are exceeded. This does not
/// speak of a number of bits that is read as a size in bytes.
pub proof fn lemma_parsed_size(bytes: Seq<u8>, measure: Measure, ignore_case: bool, unit: Unit)
    requires
        is_plain_number(bytes),
        unit_suffix(
            bytes,
            spaces_end(bytes, number_end(bytes)),
            ignore_case,
            measure == Measure::Bytes,
        ) == Ok::<Unit, UnitParseErrorView>(unit),
        unit != Unit::Bit || measure == Measure::Bits,
        all_digits(bytes) * unit.weight(measure) <= MAX_MANTISSA,
    ensures
        ceil_div(all_digits(bytes) * unit.weight(measure), power(10, places(bytes))) < RONNA
            ==> parsed_size(bytes, measure, ignore_case) == Ok::<nat, ParseErrorView>(
            ceil_div(all_digits(bytes) * unit.weight(measure), power(10, places(bytes))),
        ),
        ceil_div(all_digits(bytes) * unit.weight(measure), power(10, places(bytes))) >= RONNA
            ==> parsed_size(bytes, measure, ignore_case) == Err::<nat, ParseErrorView>(
            ParseErrorView::Value(
                ValueParseErrorView::ExceededBounds(read_number(bytes)),
            ),
        ),
{
    lemma_parsed_value(bytes);
    let value = read_number(bytes);
    lemma_scaled_size(value, all_digits(bytes), places(bytes), unit, measure);
}

} // verus!
