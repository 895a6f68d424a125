//! The proof that a size written with a unit is read back as the same
//! size.

use vstd::prelude::*;
use vstd::utf8::*;
use crate::common::{lemma_base_weight, Measure, RONNA};
use crate::decimal::{
    decimal_text, fraction_text, integer_text, multiplies_exactly, product, whole, DecimalView,
    MAX_MANTISSA,
};
use crate::errors::ParseErrorView;
use crate::format::{gap, in_field, laid_out, spaces, Formatting};
use crate::literal::{
    all_digits, digits_value, has_fraction, lemma_ceil_div_is, lemma_parsed_size, lemma_power_adds,
    number_end, places, whole_end,
};
use crate::parse::{digits_end, is_digit, parsed_size, spaces_end};
use crate::search::{is_recoverable_unit, recovers};
use crate::text::{is_white_space, tail, trimmed, trimmed_start, DOT, SPACE};
use crate::unit::symbol::lemma_symbol_is_read;
use crate::unit::{lemma_power_positive, power, Unit};

verus! {

/// The number that a sequence of digits writes.
pub open spec fn written_value(digits: Seq<u8>) -> nat
    decreases digits.len(),
{
    if digits.len() == 0 {
        0
    } else {
        (written_value(digits.drop_last()) * 10 + (digits.last() - 48)) as nat
    }
}

/// Whether every byte is a digit.
pub open spec fn all_digit_bytes(digits: Seq<u8>) -> bool {
    forall|i: int| 0 <= i < digits.len() ==> is_digit(#[trigger] digits[i])
}

/// The codes of ASCII characters.
pub open spec fn codes(text: Seq<char>) -> Seq<u8> {
    Seq::new(text.len(), |i: int| text[i] as u8)
}

/// The digits of a number are digits, at least one, and they write the
/// number.
pub proof fn lemma_integer_text(n: nat)
    ensures
        integer_text(n).len() >= 1,
        is_ascii_chars(integer_text(n)),
        all_digit_bytes(codes(integer_text(n))),
        written_value(codes(integer_text(n))) == n,
    decreases n,
{
    let t = integer_text(n);
    if n < 10 {
        assert(written_value(codes(t).drop_last()) == 0);
    } else {
        lemma_integer_text(n / 10);
        let head = integer_text(n / 10);
        let d = (n % 10) as int;
        assert(codes(t) =~= codes(head).push((48 + d) as u8));
        assert(codes(t).drop_last() =~= codes(head));
    }
}

/// The fractional digits of a number are as many digits as there are
/// places, and they write the number, where it has no more digits.
pub proof fn lemma_fraction_text(n: nat, places: nat)
    requires
        n < power(10, places),
    ensures
        fraction_text(n, places).len() == places,
        is_ascii_chars(fraction_text(n, places)),
        all_digit_bytes(codes(fraction_text(n, places))),
        written_value(codes(fraction_text(n, places))) == n,
    decreases places,
{
    let t = fraction_text(n, places);
    if places == 0 {
        assert(power(10, 0) == 1) by {
            reveal_with_fuel(power, 1);
        }
    } else {
        assert(power(10, places) == 10 * power(10, (places - 1) as nat)) by {
            reveal_with_fuel(power, 1);
        }
        lemma_fraction_text(n / 10, (places - 1) as nat);
        let head = fraction_text(n / 10, (places - 1) as nat);
        let d = (n % 10) as int;
        assert(codes(t) =~= codes(head).push((48 + d) as u8));
        assert(codes(t).drop_last() =~= codes(head));
    }
}

/// The digits from index `i` up to `j` write what they write on their
/// own.
pub proof fn lemma_digits_value_of_part(bytes: Seq<u8>, i: int, j: int)
    requires
        0 <= i <= j <= bytes.len(),
    ensures
        digits_value(bytes, i, j) == written_value(bytes.subrange(i, j)),
    decreases j - i,
{
    let part = bytes.subrange(i, j);
    if i < j {
        lemma_digits_value_of_part(bytes, i, j - 1);
        assert(part.drop_last() =~= bytes.subrange(i, j - 1));
    }
}

/// A run of digits that starts at index `i` ends at index `j`, where
/// digits stand from `i` up to `j` and none stands at `j`.
pub proof fn lemma_digits_end_at(bytes: Seq<u8>, i: int, j: int)
    requires
        0 <= i <= j <= bytes.len(),
        forall|k: int| i <= k < j ==> is_digit(#[trigger] bytes[k]),
        j < bytes.len() ==> !is_digit(bytes[j]),
    ensures
        digits_end(bytes, i) == j,
    decreases j - i,
{
    if i < j {
        lemma_digits_end_at(bytes, i + 1, j);
    }
}

/// A run of spaces that starts at index `i` ends at index `j`, where
/// spaces stand from `i` up to `j` and none stands at `j`.
pub proof fn lemma_spaces_end_at(bytes: Seq<u8>, i: int, j: int)
    requires
        0 <= i <= j <= bytes.len(),
        forall|k: int| i <= k < j ==> #[trigger] bytes[k] == SPACE,
        j < bytes.len() ==> bytes[j] != SPACE,
    ensures
        spaces_end(bytes, i) == j,
    decreases j - i,
{
    if i < j {
        lemma_spaces_end_at(bytes, i + 1, j);
    }
}

/// The bytes of a written number: the digits of the integer part, and
/// where there are fractional digits a dot and these digits.
pub open spec fn number_bytes(whole_digits: Seq<u8>, fraction: Seq<u8>) -> Seq<u8> {
    if fraction.len() > 0 {
        whole_digits + seq![DOT] + fraction
    } else {
        whole_digits
    }
}

/// `n` bytes of spaces.
pub open spec fn space_bytes(n: nat) -> Seq<u8> {
    Seq::new(n, |i: int| SPACE)
}

/// The bytes of a symbol are letters.
pub proof fn lemma_symbol_letters(unit: Unit)
    ensures
        1 <= unit.symbol_bytes().len() <= 3,
        forall|i: int|
            0 <= i < unit.symbol_bytes().len() ==> 66 <= #[trigger] unit.symbol_bytes()[i] <= 122,
{
}

/// In the bytes of a number, spaces and a symbol, the parts are found
/// where they were put: the digits of the integer part, the dot and the
/// fractional digits, the spaces, and the symbol behind them.
pub proof fn lemma_written_number(
    bytes: Seq<u8>,
    whole_digits: Seq<u8>,
    fraction: Seq<u8>,
    gap: nat,
    unit: Unit,
)
    requires
        whole_digits.len() >= 1,
        all_digit_bytes(whole_digits),
        all_digit_bytes(fraction),
        bytes == number_bytes(whole_digits, fraction) + space_bytes(gap) + unit.symbol_bytes(),
    ensures
        bytes.len() > 0,
        is_digit(bytes[0]),
        whole_end(bytes) == whole_digits.len(),
        has_fraction(bytes) == (fraction.len() > 0),
        places(bytes) == fraction.len(),
        number_end(bytes) == number_bytes(whole_digits, fraction).len(),
        all_digits(bytes) == written_value(whole_digits) * power(10, fraction.len())
            + written_value(fraction),
        spaces_end(bytes, number_end(bytes)) == number_bytes(whole_digits, fraction).len() + gap,
        tail(bytes, (number_bytes(whole_digits, fraction).len() + gap) as int)
            == unit.symbol_bytes(),
{
    lemma_symbol_letters(unit);
    let n = whole_digits.len() as int;
    let m = number_bytes(whole_digits, fraction).len() as int;
    assert forall|k: int| 0 <= k < n implies is_digit(#[trigger] bytes[k]) by {
        assert(bytes[k] == whole_digits[k]);
    }
    lemma_digits_end_at(bytes, 1, n);
    assert(bytes.subrange(0, n) =~= whole_digits);
    lemma_digits_value_of_part(bytes, 0, n);
    if fraction.len() > 0 {
        assert forall|k: int| n + 1 <= k < m implies is_digit(#[trigger] bytes[k]) by {
            assert(bytes[k] == fraction[k - n - 1]);
        }
        lemma_digits_end_at(bytes, n + 1, m);
        assert(bytes.subrange(n + 1, m) =~= fraction);
        lemma_digits_value_of_part(bytes, n + 1, m);
    } else {
        assert(power(10, 0) == 1) by {
            reveal_with_fuel(power, 1);
        }
    }
    lemma_spaces_end_at(bytes, m, m + gap);
}

/// A decimal without the zeros at its end is the same number: its
/// mantissa, times 10 for each place that was dropped, is the mantissa
/// it had.
pub proof fn lemma_normalized(d: DecimalView)
    requires
        d.mantissa >= 0,
    ensures
        0 <= d.normalized().mantissa <= d.mantissa,
        d.normalized().scale <= d.scale,
        d.normalized().mantissa * power(10, (d.scale - d.normalized().scale) as nat)
            == d.mantissa,
    decreases d.scale,
{
    assert(power(10, 0) == 1) by {
        reveal_with_fuel(power, 1);
    }
    if d.mantissa == 0 {
    } else if d.scale > 0 && d.mantissa % 10 == 0 {
        let less = DecimalView { mantissa: d.mantissa / 10, scale: (d.scale - 1) as nat };
        lemma_normalized(less);
        let r = less.normalized();
        let g = (less.scale - r.scale) as nat;
        assert(power(10, g + 1) == 10 * power(10, g)) by {
            reveal_with_fuel(power, 1);
        }
        assert(r.mantissa * power(10, g + 1) == d.mantissa) by (nonlinear_arith)
            requires
                r.mantissa * power(10, g) == d.mantissa / 10,
                power(10, g + 1) == 10 * power(10, g),
                d.mantissa % 10 == 0,
        ;
    } else {
        assert(d.mantissa * power(10, 0) == d.mantissa) by (nonlinear_arith)
            requires
                power(10, 0) == 1,
        ;
    }
}

/// The integer part and the fractional part of a decimal that is not
/// below 0.
pub open spec fn whole_digits_of(d: DecimalView) -> Seq<u8> {
    codes(integer_text((d.mantissa / (power(10, d.scale) as int)) as nat))
}

/// The fractional digits of a decimal that is not below 0.
pub open spec fn fraction_digits_of(d: DecimalView) -> Seq<u8> {
    codes(fraction_text((d.mantissa % (power(10, d.scale) as int)) as nat, d.scale))
}

/// A decimal that is not below 0 is written in ASCII: digits, and where
/// its scale is not 0 a dot and as many digits as the scale says. All
/// the digits together write its mantissa.
pub proof fn lemma_decimal_text(d: DecimalView)
    requires
        d.mantissa >= 0,
    ensures
        decimal_text(d).len() > 0,
        is_ascii_chars(decimal_text(d)),
        codes(decimal_text(d)) == number_bytes(whole_digits_of(d), fraction_digits_of(d)),
        whole_digits_of(d).len() >= 1,
        fraction_digits_of(d).len() == d.scale,
        all_digit_bytes(whole_digits_of(d)),
        all_digit_bytes(fraction_digits_of(d)),
        written_value(whole_digits_of(d)) * power(10, d.scale) + written_value(
            fraction_digits_of(d),
        ) == d.mantissa,
{
    let p = power(10, d.scale) as int;
    lemma_power_positive(10, d.scale);
    let m = d.mantissa;
    let high = (m / p) as nat;
    let low = (m % p) as nat;
    assert(0 <= m / p && 0 <= m % p < p && m == (m / p) * p + m % p) by (nonlinear_arith)
        requires
            m >= 0,
            p > 0,
    ;
    lemma_integer_text(high);
    lemma_fraction_text(low, d.scale);
}

/// Spaces in front of text that does not begin with white space are
/// trimmed away.
pub proof fn lemma_trimmed_start(n: nat, text: Seq<char>)
    requires
        text.len() > 0,
        !is_white_space(text[0]),
    ensures
        trimmed_start(spaces(n) + text) == text,
    decreases n,
{
    let s = spaces(n) + text;
    if n > 0 {
        assert(s.drop_first() =~= spaces((n - 1) as nat) + text);
        lemma_trimmed_start((n - 1) as nat, text);
    }
}

/// A number and a unit, laid out and trimmed, are the number, spaces
/// and the symbol.
pub proof fn lemma_laid_out(number: Seq<char>, unit: Unit, f: Formatting) -> (between: nat)
    requires
        number.len() > 0,
        !is_white_space(number[0]),
    ensures
        trimmed(laid_out(number, unit, f)) == number + spaces(between) + unit.symbol(),
{
    unit.lemma_symbol_bytes();
    let g = gap(unit, f);
    let padded = in_field(number, unit, f);
    let fill = (padded.len() - number.len()) as nat;
    if padded =~= number + spaces(fill) {
        fill + g
    } else {
        let body = number + spaces(g) + unit.symbol();
        assert(laid_out(number, unit, f) =~= spaces(fill) + body);
        lemma_trimmed_start(fill, body);
        g
    }
}

/// The bytes of a number, spaces and a symbol, all in ASCII, are the
/// codes of their characters.
pub proof fn lemma_encoded(number: Seq<char>, between: nat, unit: Unit)
    requires
        is_ascii_chars(number),
    ensures
        encode_utf8(number + spaces(between) + unit.symbol()) == codes(number) + space_bytes(
            between,
        ) + unit.symbol_bytes(),
{
    unit.lemma_symbol_bytes();
    let symbol = unit.symbol();
    let text = number + spaces(between) + symbol;
    is_ascii_chars_encode_utf8(symbol);
    assert(is_ascii_chars(text));
    is_ascii_chars_encode_utf8(text);
    let expected = codes(number) + space_bytes(between) + unit.symbol_bytes();
    assert(encode_utf8(text) =~= expected);
}

/// The number and the unit that the search for a recoverable unit gives
/// stand for the size: the number, without the zeros at its end, times
/// the unit's weight is the size times 10 for each fractional place.
/// This is shown where the product of the number and the weight can be
/// held as it is.
pub proof fn lemma_recoverable_number(
    size: nat,
    measure: Measure,
    precision: nat,
    value: DecimalView,
    unit: Unit,
)
    requires
        is_recoverable_unit(size, measure, false, precision, value, unit),
        multiplies_exactly(value, whole(unit.weight(measure) as int)),
    ensures
        value.mantissa >= 0,
        unit != Unit::Bit || measure == Measure::Bits,
        unit.counts_bits() == (measure == Measure::Bits),
        unit.weight(measure) >= 1,
        value.normalized().mantissa * unit.weight(measure) <= MAX_MANTISSA,
        value.normalized().mantissa * unit.weight(measure) == size * power(
            10,
            value.normalized().scale,
        ),
{
    let w = unit.weight(measure);
    let v = value.normalized();
    lemma_base_weight(measure);
    unit.lemma_bits_values();
    assert(power(10, 0) == 1) by {
        reveal_with_fuel(power, 1);
    }
    if unit.eligible(measure, false) && recovers(size, unit, measure, precision) {
        lemma_normalized(value);
        let g = (value.scale - v.scale) as nat;
        let pg = power(10, g);
        let pv = power(10, v.scale);
        lemma_power_positive(10, g);
        lemma_power_adds(v.scale, g);
        assert(v.mantissa * w <= value.mantissa * w) by (nonlinear_arith)
            requires
                0 <= v.mantissa <= value.mantissa,
                w >= 0,
        ;
        if value.mantissa * w == 0 {
            assert(size == 0) by (nonlinear_arith)
                requires
                    size * power(10, 0) == 0,
                    power(10, 0) == 1,
            ;
            assert(value.mantissa == 0) by (nonlinear_arith)
                requires
                    value.mantissa * w == 0,
                    w >= 1,
                    value.mantissa >= 0,
            ;
            assert(v.mantissa * w == 0) by (nonlinear_arith)
                requires
                    v.mantissa == 0,
            ;
            assert(size * pv == 0) by (nonlinear_arith)
                requires
                    size == 0,
            ;
        } else {
            assert((v.mantissa * w) * pg == (size * pv) * pg) by (nonlinear_arith)
                requires
                    (value.mantissa * w) * power(10, 0) == size * power(10, value.scale),
                    power(10, 0) == 1,
                    v.mantissa * pg == value.mantissa,
                    power(10, value.scale) == pv * pg,
            ;
            assert(v.mantissa * w == size * pv) by (nonlinear_arith)
                requires
                    (v.mantissa * w) * pg == (size * pv) * pg,
                    pg > 0,
            ;
        }
    } else {
        lemma_normalized(value);
        assert(v.mantissa == size) by (nonlinear_arith)
            requires
                v.mantissa * power(10, 0) == size,
                power(10, 0) == 1,
        ;
        assert(v.mantissa * w == size * power(10, 0)) by (nonlinear_arith)
            requires
                v.mantissa == size,
                w == 1,
                power(10, 0) == 1,
        ;
    }
}

/// A size that is written with a unit, in whatever layout, is read back
/// as the same size. This is shown where the product of the number and
/// the unit's weight can be held as it is. Sizes in bytes may be read
/// with or without regard to case, sizes in bits with regard to it.
pub proof fn lemma_written_size_is_read(
    size: nat,
    measure: Measure,
    precision: nat,
    value: DecimalView,
    unit: Unit,
    f: Formatting,
    ignore_case: bool,
)
    requires
        size < RONNA,
        value.fits(),
        is_recoverable_unit(size, measure, false, precision, value, unit),
        multiplies_exactly(value, whole(unit.weight(measure) as int)),
        ignore_case ==> measure == Measure::Bytes,
    ensures
        parsed_size(
            encode_utf8(trimmed(laid_out(decimal_text(value.normalized()), unit, f))),
            measure,
            ignore_case,
        ) == Ok::<nat, ParseErrorView>(size),
{
    let w = unit.weight(measure);
    let v = value.normalized();
    lemma_recoverable_number(size, measure, precision, value, unit);
    lemma_normalized(value);
    lemma_decimal_text(v);
    let number = decimal_text(v);
    let whole_digits = whole_digits_of(v);
    let fraction = fraction_digits_of(v);
    assert(number[0] as u8 == codes(number)[0]);
    let between = lemma_laid_out(number, unit, f);
    lemma_encoded(number, between, unit);
    let bytes = encode_utf8(trimmed(laid_out(number, unit, f)));
    lemma_written_number(bytes, whole_digits, fraction, between, unit);
    lemma_symbol_is_read(
        bytes,
        spaces_end(bytes, number_end(bytes)),
        unit,
        ignore_case,
        measure == Measure::Bytes,
    );
    lemma_power_positive(10, v.scale);
    let by = power(10, v.scale);
    assert((size - 1) * by < size * by) by (nonlinear_arith)
        requires
            by > 0,
    ;
    lemma_ceil_div_is((v.mantissa * w) as nat, by, size as int);
    lemma_parsed_size(bytes, measure, ignore_case, unit);
}

/// A size that is written as its digits alone is read back as the same
/// size, with or without regard to case.
pub proof fn lemma_written_digits_are_read(size: nat, measure: Measure, ignore_case: bool)
    requires
        size < RONNA,
    ensures
        parsed_size(encode_utf8(trimmed(integer_text(size))), measure, ignore_case) == Ok::<
            nat,
            ParseErrorView,
        >(size),
{
    lemma_integer_text(size);
    let text = integer_text(size);
    let digits = codes(text);
    is_ascii_chars_encode_utf8(text);
    let bytes = encode_utf8(text);
    assert(bytes =~= digits);
    let n = bytes.len() as int;
    lemma_digits_end_at(bytes, 1, n);
    lemma_spaces_end_at(bytes, n, n);
    assert(bytes.subrange(0, n) =~= bytes);
    lemma_digits_value_of_part(bytes, 0, n);
    assert(power(10, 0) == 1) by {
        reveal_with_fuel(power, 1);
    }
    assert(all_digits(bytes) == size) by (nonlinear_arith)
        requires
            all_digits(bytes) == size * power(10, 0) + 0,
            power(10, 0) == 1,
    ;
    let unit = measure.base_unit();
    lemma_base_weight(measure);
    assert(all_digits(bytes) * unit.weight(measure) == size) by (nonlinear_arith)
        requires
            all_digits(bytes) == size,
            unit.weight(measure) == 1,
    ;
    lemma_ceil_div_is(size, 1, size as int);
    lemma_parsed_size(bytes, measure, ignore_case, unit);
}

} // verus!
