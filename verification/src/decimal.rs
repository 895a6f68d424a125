//! Decimal numbers as this library holds them: a whole number of at most
//! 96 bits and the count of its digits that stand behind the point. The
//! arithmetic on them is `rust_decimal`'s.

use vstd::prelude::*;
use crate::unit::power;

verus! {

/// The largest mantissa: 2<sup>96</sup> - 1.
pub const MAX_MANTISSA: i128 = 79_228_162_514_264_337_593_543_950_335;

/// The largest scale.
pub const MAX_SCALE: u32 = 28;

/// A decimal number: `mantissa` divided by 10 to the power `scale`.
#[derive(Clone, Copy, Debug)]
pub struct Decimal {
    mantissa: i128,
    scale: u32,
}

/// A `Decimal` as a mathematical value: the number `mantissa / 10^scale`.
pub ghost struct DecimalView {
    pub mantissa: int,
    pub scale: nat,
}

impl DecimalView {
    /// Whether a `Decimal` can hold this pair.
    pub open spec fn fits(self) -> bool {
        -MAX_MANTISSA <= self.mantissa <= MAX_MANTISSA && self.scale <= MAX_SCALE
    }

    /// Whether the number is the integer `n`.
    pub open spec fn is_integer(self, n: int) -> bool {
        self.mantissa == n * power(10, self.scale)
    }

    /// Whether two pairs stand for the same number.
    pub open spec fn same_number(self, other: DecimalView) -> bool {
        self.mantissa * power(10, other.scale) == other.mantissa * power(10, self.scale)
    }

    /// The number without its fractional part: rounded toward zero.
    pub open spec fn truncated(self) -> int {
        if self.mantissa >= 0 {
            self.mantissa / (power(10, self.scale) as int)
        } else {
            -((-self.mantissa) / (power(10, self.scale) as int))
        }
    }

    /// The smallest integer that is not less than the number.
    pub open spec fn ceiling(self) -> int {
        -((-self.mantissa) / (power(10, self.scale) as int))
    }

    /// The nearest integer, and of two that are equally near the even one.
    pub open spec fn rounded(self) -> int {
        let p = power(10, self.scale) as int;
        let size = if self.mantissa >= 0 {
            self.mantissa
        } else {
            -self.mantissa
        };
        let whole = size / p;
        let rest = size % p;
        let up = 2 * rest > p || (2 * rest == p && whole % 2 == 1);
        let nearest = if up {
            whole + 1
        } else {
            whole
        };
        if self.mantissa >= 0 {
            nearest
        } else {
            -nearest
        }
    }

    /// The same number with no zero at the end of its fractional digits.
    pub open spec fn normalized(self) -> DecimalView
        decreases self.scale,
    {
        if self.mantissa == 0 {
            DecimalView { mantissa: 0, scale: 0 }
        } else if self.scale > 0 && self.mantissa % 10 == 0 {
            DecimalView { mantissa: self.mantissa / 10, scale: (self.scale - 1) as nat }.normalized()
        } else {
            self
        }
    }
}

/// The pair of an integer.
pub open spec fn whole(n: int) -> DecimalView {
    DecimalView { mantissa: n, scale: 0 }
}

/// What `rust_decimal` gives as the product of two decimals where it has
/// to round it: the pair of the product, or `None` where it holds none.
pub uninterp spec fn decimal_product(a: int, a_scale: nat, b: int, b_scale: nat) -> Option<
    (int, nat),
>;

/// What `rust_decimal` gives as the sum of two decimals where the sum is
/// not one of them and not exact.
pub uninterp spec fn decimal_sum(a: int, a_scale: nat, b: int, b_scale: nat) -> Option<(int, nat)>;

/// What `rust_decimal` gives as the quotient of two decimals.
pub uninterp spec fn decimal_quotient(a: int, a_scale: nat, b: int, b_scale: nat) -> Option<
    (int, nat),
>;

/// What `rust_decimal` gives as the fractional part of a decimal.
pub uninterp spec fn decimal_fraction(a: int, a_scale: nat) -> (int, nat);

/// The character of the digit `d`.
pub open spec fn digit_char(d: int) -> char {
    ((48 + d) as u8) as char
}

/// The digits of `n`, without leading zeros.
pub open spec fn integer_text(n: nat) -> Seq<char>
    decreases n,
{
    if n < 10 {
        seq![digit_char(n as int)]
    } else {
        integer_text(n / 10).push(digit_char((n % 10) as int))
    }
}

/// The last `places` digits of `n`, with zeros in front where `n` has
/// fewer.
pub open spec fn fraction_text(n: nat, places: nat) -> Seq<char>
    decreases places,
{
    if places == 0 {
        Seq::empty()
    } else {
        fraction_text(n / 10, (places - 1) as nat).push(digit_char((n % 10) as int))
    }
}

/// A decimal written out: a minus sign where it is below 0, the digits
/// of its integer part, and where the scale is not 0 a dot and as many
/// fractional digits as the scale says.
pub open spec fn decimal_text(d: DecimalView) -> Seq<char> {
    let size = (if d.mantissa >= 0 {
        d.mantissa
    } else {
        -d.mantissa
    }) as nat;
    let p = power(10, d.scale);
    let sign = if d.mantissa < 0 {
        seq!['-']
    } else {
        Seq::empty()
    };
    let fraction = if d.scale > 0 {
        seq!['.'] + fraction_text(size % p, d.scale)
    } else {
        Seq::empty()
    };
    sign + integer_text(size / p) + fraction
}

/// Whether the product of two decimals can be held as it is: with the
/// sum of the scales, which has to be at most 28, and the product of the
/// mantissas, which has to fit in 96 bits.
pub open spec fn multiplies_exactly(a: DecimalView, b: DecimalView) -> bool {
    a.scale + b.scale <= MAX_SCALE && -MAX_MANTISSA <= a.mantissa * b.mantissa <= MAX_MANTISSA
}

/// The product that can be held as it is. A product that is 0 has the
/// scale 0.
pub open spec fn exact_product(a: DecimalView, b: DecimalView) -> DecimalView {
    if a.mantissa * b.mantissa == 0 {
        whole(0)
    } else {
        DecimalView { mantissa: a.mantissa * b.mantissa, scale: a.scale + b.scale }
    }
}

/// Whether `rust_decimal` has to round the product of two decimals: it
/// cannot be held as it is, and the two are not both integers.
pub open spec fn rounds_product(a: DecimalView, b: DecimalView) -> bool {
    !multiplies_exactly(a, b) && a.scale + b.scale > 0
}

/// The product of two decimals, as `rust_decimal` computes it: the exact
/// product where it can be held, none where two integers have a product
/// of more than 96 bits, and else what `rust_decimal` rounds it to.
pub open spec fn product(a: DecimalView, b: DecimalView) -> Option<DecimalView> {
    if multiplies_exactly(a, b) {
        Some(exact_product(a, b))
    } else if rounds_product(a, b) {
        option_view(decimal_product(a.mantissa, a.scale, b.mantissa, b.scale))
    } else {
        None
    }
}

/// The sum of the mantissas of two decimals, each brought to the larger
/// of the two scales.
pub open spec fn aligned_sum(a: DecimalView, b: DecimalView) -> DecimalView {
    let scale = if a.scale >= b.scale {
        a.scale
    } else {
        b.scale
    };
    DecimalView {
        mantissa: a.mantissa * power(10, (scale - a.scale) as nat) + b.mantissa * power(
            10,
            (scale - b.scale) as nat,
        ),
        scale,
    }
}

/// Whether the sum of two decimals is stated here in full: one of them
/// is 0, or both are above 0 and either the aligned sum fits in 96 bits
/// or both are integers.
pub open spec fn adds_plainly(a: DecimalView, b: DecimalView) -> bool {
    ||| a.mantissa == 0
    ||| b.mantissa == 0
    ||| (a.mantissa > 0 && b.mantissa > 0 && (aligned_sum(a, b).mantissa <= MAX_MANTISSA
        || a.scale + b.scale == 0))
}

/// The sum of two decimals, as `rust_decimal` computes it: the other
/// decimal where one is 0; for two decimals above 0 the exact sum at the
/// larger scale where its mantissa fits in 96 bits, and none where two
/// integers have a sum of more than 96 bits; and else what `rust_decimal`
/// makes of it.
pub open spec fn sum(a: DecimalView, b: DecimalView) -> Option<DecimalView> {
    if a.mantissa == 0 {
        Some(b)
    } else if b.mantissa == 0 {
        Some(a)
    } else if !adds_plainly(a, b) {
        option_view(decimal_sum(a.mantissa, a.scale, b.mantissa, b.scale))
    } else if aligned_sum(a, b).mantissa <= MAX_MANTISSA {
        Some(aligned_sum(a, b))
    } else {
        None
    }
}

/// The quotient of two decimals, as `rust_decimal` computes it.
pub open spec fn quotient(a: DecimalView, b: DecimalView) -> Option<DecimalView> {
    option_view(decimal_quotient(a.mantissa, a.scale, b.mantissa, b.scale))
}

/// The fractional part of a decimal, as `rust_decimal` computes it.
pub open spec fn fraction(a: DecimalView) -> DecimalView {
    pair_view(decimal_fraction(a.mantissa, a.scale))
}

/// A pair of plain numbers as a view.
pub open spec fn pair_view(p: (int, nat)) -> DecimalView {
    DecimalView { mantissa: p.0, scale: p.1 }
}

/// An optional pair of plain numbers as an optional view.
pub open spec fn option_view(p: Option<(int, nat)>) -> Option<DecimalView> {
    match p {
        Some(p) => Some(pair_view(p)),
        None => None,
    }
}

/// The view of an optional decimal.
pub open spec fn view_of(d: Option<Decimal>) -> Option<DecimalView> {
    match d {
        Some(d) => Some(d@),
        None => None,
    }
}

impl View for Decimal {
    type V = DecimalView;

    closed spec fn view(&self) -> DecimalView {
        DecimalView { mantissa: self.mantissa as int, scale: self.scale as nat }
    }
}

impl Decimal {
    #[verifier::type_invariant]
    spec fn within_bounds(self) -> bool {
        -MAX_MANTISSA <= self.mantissa <= MAX_MANTISSA && self.scale <= MAX_SCALE
    }

    /// Create a `Decimal` from its mantissa and its scale, where the
    /// mantissa has at most 96 bits and the scale is at most 28.
    pub fn try_from_i128_with_scale(num: i128, scale: u32) -> (r: Option<Decimal>)
        ensures
            (DecimalView { mantissa: num as int, scale: scale as nat }).fits() ==> r.is_some()
                && r.unwrap()@ == (DecimalView { mantissa: num as int, scale: scale as nat }),
            !(DecimalView { mantissa: num as int, scale: scale as nat }).fits() ==> r.is_none(),
    {
        if scale > MAX_SCALE || num > MAX_MANTISSA || num < -MAX_MANTISSA {
            None
        } else {
            Some(Decimal { mantissa: num, scale })
        }
    }

    /// Create a `Decimal` from an integer below 2<sup>96</sup>.
    pub fn from_u128(n: u128) -> (r: Option<Decimal>)
        ensures
            n <= MAX_MANTISSA ==> r.is_some() && r.unwrap()@ == whole(n as int),
            n > MAX_MANTISSA ==> r.is_none(),
    {
        if n > 79_228_162_514_264_337_593_543_950_335 {
            None
        } else {
            Some(Decimal { mantissa: n as i128, scale: 0 })
        }
    }

    /// Create a `Decimal` from a small integer.
    pub fn from_u8(n: u8) -> (r: Decimal)
        ensures
            r@ == whole(n as int),
    {
        Decimal { mantissa: n as i128, scale: 0 }
    }

    /// The mantissa.
    pub fn mantissa(&self) -> (r: i128)
        ensures
            r == self@.mantissa,
            self@.fits(),
    {
        proof {
            use_type_invariant(self);
        }
        self.mantissa
    }

    /// The scale.
    pub fn scale(&self) -> (r: u32)
        ensures
            r == self@.scale,
            self@.fits(),
    {
        proof {
            use_type_invariant(self);
        }
        self.scale
    }

    /// `rust_decimal::Decimal::checked_mul`. Trusted: where the scales
    /// add up to at most 28 and the product of the mantissas fits in 96
    /// bits, the result is that product with that scale, and 0 with the
    /// scale 0 where the product is 0; where two integers have a product
    /// of more than 96 bits, there is none; in every other case the
    /// result is a function of the two decimals.
    #[verifier::external_body]
    pub(crate) fn checked_mul(self, other: Decimal) -> (r: Option<Decimal>)
        ensures
            view_of(r) == product(self@, other@),
            rounds_product(self@, other@) ==> view_of(r) == option_view(
                decimal_product(self@.mantissa, self@.scale, other@.mantissa, other@.scale),
            ),
    {
        let a = rust_decimal::Decimal::from_i128_with_scale(self.mantissa, self.scale);
        let b = rust_decimal::Decimal::from_i128_with_scale(other.mantissa, other.scale);
        match a.checked_mul(b) {
            Some(p) => Some(Decimal { mantissa: p.mantissa(), scale: p.scale() }),
            None => None,
        }
    }

    /// `rust_decimal::Decimal::checked_add`. Trusted: where one decimal
    /// is 0, the result is the other; where both are above 0 and the sum
    /// of the mantissas, brought to the larger scale, fits in 96 bits,
    /// the result is that sum with that scale; where two integers above
    /// 0 have a sum of more than 96 bits, there is none; in every other
    /// case the result is a function of the two decimals.
    #[verifier::external_body]
    pub(crate) fn checked_add(self, other: Decimal) -> (r: Option<Decimal>)
        ensures
            view_of(r) == sum(self@, other@),
            !adds_plainly(self@, other@) ==> view_of(r) == option_view(
                decimal_sum(self@.mantissa, self@.scale, other@.mantissa, other@.scale),
            ),
    {
        let a = rust_decimal::Decimal::from_i128_with_scale(self.mantissa, self.scale);
        let b = rust_decimal::Decimal::from_i128_with_scale(other.mantissa, other.scale);
        match a.checked_add(b) {
            Some(p) => Some(Decimal { mantissa: p.mantissa(), scale: p.scale() }),
            None => None,
        }
    }

    /// `rust_decimal::Decimal::checked_div`. Trusted: the quotient is a
    /// function of the two decimals, and `None` where `rust_decimal`
    /// reports an overflow or a division by zero.
    #[verifier::external_body]
    pub(crate) fn checked_div(self, other: Decimal) -> (r: Option<Decimal>)
        ensures
            view_of(r) == option_view(
                decimal_quotient(self@.mantissa, self@.scale, other@.mantissa, other@.scale),
            ),
    {
        let a = rust_decimal::Decimal::from_i128_with_scale(self.mantissa, self.scale);
        let b = rust_decimal::Decimal::from_i128_with_scale(other.mantissa, other.scale);
        match a.checked_div(b) {
            Some(p) => Some(Decimal { mantissa: p.mantissa(), scale: p.scale() }),
            None => None,
        }
    }

    /// `rust_decimal::Decimal::fract`. Trusted: the fractional part is a
    /// function of the decimal.
    #[verifier::external_body]
    pub(crate) fn fract(self) -> (r: Decimal)
        ensures
            r@ == pair_view(decimal_fraction(self@.mantissa, self@.scale)),
    {
        let a = rust_decimal::Decimal::from_i128_with_scale(self.mantissa, self.scale);
        let p = a.fract();
        Decimal { mantissa: p.mantissa(), scale: p.scale() }
    }

    /// `rust_decimal::Decimal::trunc`. Trusted: the result is the integer
    /// that is left when the fractional digits are dropped.
    #[verifier::external_body]
    pub(crate) fn trunc(self) -> (r: Decimal)
        ensures
            r@ == whole(self@.truncated()),
    {
        let a = rust_decimal::Decimal::from_i128_with_scale(self.mantissa, self.scale);
        let p = a.trunc();
        Decimal { mantissa: p.mantissa(), scale: p.scale() }
    }

    /// `rust_decimal::Decimal::round`. Trusted: the result is the nearest
    /// integer, and the even one of two that are equally near.
    #[verifier::external_body]
    pub(crate) fn round(self) -> (r: Decimal)
        ensures
            r@ == whole(self@.rounded()),
    {
        let a = rust_decimal::Decimal::from_i128_with_scale(self.mantissa, self.scale);
        let p = a.round();
        Decimal { mantissa: p.mantissa(), scale: p.scale() }
    }

    /// `rust_decimal::Decimal::ceil`. Trusted: the result is the smallest
    /// integer that is not less than the decimal.
    #[verifier::external_body]
    pub(crate) fn ceil(self) -> (r: Decimal)
        ensures
            r@ == whole(self@.ceiling()),
    {
        let a = rust_decimal::Decimal::from_i128_with_scale(self.mantissa, self.scale);
        let p = a.ceil();
        Decimal { mantissa: p.mantissa(), scale: p.scale() }
    }

    /// `rust_decimal::Decimal::normalize`. Trusted: the result is the same
    /// number without zeros at the end of its fractional digits, and zero
    /// has scale 0.
    #[verifier::external_body]
    pub(crate) fn normalize(self) -> (r: Decimal)
        ensures
            r@ == self@.normalized(),
    {
        let a = rust_decimal::Decimal::from_i128_with_scale(self.mantissa, self.scale);
        let p = a.normalize();
        Decimal { mantissa: p.mantissa(), scale: p.scale() }
    }

    /// `rust_decimal::Decimal::to_u128` of `num_traits::ToPrimitive`.
    /// Trusted: a decimal below zero gives `None`, any other its integer
    /// part.
    #[verifier::external_body]
    pub(crate) fn to_u128(self) -> (r: Option<u128>)
        ensures
            self@.mantissa < 0 ==> r.is_none(),
            self@.mantissa >= 0 ==> r == Some(self@.truncated() as u128),
    {
        let a = rust_decimal::Decimal::from_i128_with_scale(self.mantissa, self.scale);
        rust_decimal::prelude::ToPrimitive::to_u128(&a)
    }

    /// `==` of `rust_decimal::Decimal`. Trusted: two decimals are equal
    /// exactly if they stand for the same number, whatever their scales.
    #[verifier::external_body]
    pub(crate) fn same_value(self, other: Decimal) -> (r: bool)
        ensures
            r == self@.same_number(other@),
    {
        let a = rust_decimal::Decimal::from_i128_with_scale(self.mantissa, self.scale);
        let b = rust_decimal::Decimal::from_i128_with_scale(other.mantissa, other.scale);
        a == b
    }

    /// `to_string` of `rust_decimal::Decimal`. Trusted: the text is the
    /// sign, the digits of the integer part and, where the scale is not
    /// 0, a dot and one digit for each fractional place.
    #[verifier::external_body]
    pub(crate) fn text(self) -> (r: String)
        ensures
            r@ == decimal_text(self@),
    {
        let a = rust_decimal::Decimal::from_i128_with_scale(self.mantissa, self.scale);
        a.to_string()
    }
}

/// Two decimals are equal where they stand for the same number,
/// whatever their scales.
impl PartialEq for Decimal {
    fn eq(&self, other: &Decimal) -> (r: bool) {
        self.same_value(*other)
    }
}

impl vstd::std_specs::cmp::PartialEqSpecImpl for Decimal {
    open spec fn obeys_eq_spec() -> bool {
        true
    }

    open spec fn eq_spec(&self, other: &Decimal) -> bool {
        self@.same_number(other@)
    }
}

impl Decimal {
    /// Write the decimal out.
    pub fn to_string(&self) -> (r: String)
        ensures
            r@ == decimal_text(self@),
    {
        self.text()
    }
}

} // verus!
