//! What sizes in bits and sizes in bytes have in common: the weight of a
//! unit in either measure, the units that a search may choose from, the
//! size of a number of units, and the quotient that gives a size back.

use vstd::prelude::*;
use crate::decimal::{fraction, product, quotient, sum, view_of, whole, Decimal, DecimalView};
use crate::unit::{lemma_power_positive, power, Unit, UnitType};

verus! {

/// What a size counts: bits or bytes.
#[derive(Clone, Copy, Debug, PartialEq, Eq, Structural)]
pub enum Measure {
    Bits,
    Bytes,
}

/// The number below which every size stays: 10<sup>27</sup>.
pub const RONNA: u128 = 1_000_000_000_000_000_000_000_000_000;

impl Measure {
    /// The number of bits in what the measure counts.
    pub open spec fn width(self) -> nat {
        match self {
            Measure::Bits => 1,
            Measure::Bytes => 8,
        }
    }

    /// The unit that stands for one of what the measure counts.
    pub open spec fn base_unit(self) -> Unit {
        match self {
            Measure::Bits => Unit::Bit,
            Measure::Bytes => Unit::B,
        }
    }

    /// The unit that stands for one of what the measure counts.
    pub fn get_base_unit(self) -> (r: Unit)
        ensures
            r == self.base_unit(),
    {
        match self {
            Measure::Bits => Unit::Bit,
            Measure::Bytes => Unit::B,
        }
    }
}

impl Unit {
    /// How many bits, or how many bytes, one unit holds. For `Bit` in
    /// bytes it is 0.
    pub open spec fn weight(self, measure: Measure) -> nat {
        self.bits() / measure.width()
    }

    /// Whether a search in `measure` may choose the unit: it is a
    /// multiple, and it counts what the measure counts unless `cross`
    /// allows the other kind too.
    pub open spec fn eligible(self, measure: Measure, cross: bool) -> bool {
        self.prefix_rank() > 0 && (cross || self.counts_bits() == (measure == Measure::Bits))
    }

    /// Whether a search for a unit of the given type may choose the unit.
    pub open spec fn of_type(self, unit_type: UnitType) -> bool {
        match unit_type {
            UnitType::Binary => self.has_binary_prefix(),
            UnitType::Decimal => !self.has_binary_prefix(),
            UnitType::Both => true,
        }
    }

    /// The place of the unit among those that a search may choose from.
    pub open spec fn position(self, measure: Measure, cross: bool) -> int {
        let binary: int = if self.has_binary_prefix() { 1 } else { 0 };
        let byte: int = if self.counts_bits() { 0 } else { 2 };
        if cross {
            (self.prefix_rank() - 1) * 4 + byte + binary
        } else {
            (self.prefix_rank() - 1) * 2 + binary
        }
    }

    /// Retrieve how many bits, or how many bytes, one unit holds.
    pub fn as_weight_u128(self, measure: Measure) -> (r: u128)
        ensures
            r == self.weight(measure),
    {
        match measure {
            Measure::Bits => self.as_bits_u128(),
            Measure::Bytes => self.as_bytes_u128(),
        }
    }
}

/// The units that a search in `measure` goes through, from the smallest
/// to the largest.
pub open spec fn candidates(measure: Measure, cross: bool) -> Seq<Unit> {
    if cross {
        Unit::multiples()
    } else {
        match measure {
            Measure::Bits => Unit::multiples_bits(),
            Measure::Bytes => Unit::multiples_bytes(),
        }
    }
}

/// The units that a search in `measure` goes through.
pub fn get_candidates(measure: Measure, cross: bool) -> (r: &'static [Unit])
    ensures
        r@ == candidates(measure, cross),
{
    if cross {
        Unit::get_multiples()
    } else {
        match measure {
            Measure::Bits => Unit::get_multiples_bits(),
            Measure::Bytes => Unit::get_multiples_bytes(),
        }
    }
}

/// Every multiple weighs at least 125, in either measure, and one that
/// stands later among the candidates weighs more.
pub proof fn lemma_weights_ordered(u: Unit, v: Unit, measure: Measure, cross: bool)
    requires
        u.eligible(measure, cross),
        v.eligible(measure, cross),
    ensures
        u.weight(measure) >= 125,
        u.position(measure, cross) < v.position(measure, cross) <==> u.weight(measure) < v.weight(
            measure,
        ),
        u.position(measure, cross) == v.position(measure, cross) <==> u == v,
{
    u.lemma_bits_values();
    v.lemma_bits_values();
}

/// The candidates are exactly the eligible units, each at its position.
pub proof fn lemma_candidates(measure: Measure, cross: bool)
    ensures
        candidates(measure, cross).len() == if cross { 32int } else { 16int },
        forall|i: int|
            0 <= i < candidates(measure, cross).len() ==> {
                &&& (#[trigger] candidates(measure, cross)[i]).eligible(measure, cross)
                &&& candidates(measure, cross)[i].position(measure, cross) == i
            },
        forall|u: Unit| #[trigger]
            u.eligible(measure, cross) ==> {
                &&& 0 <= u.position(measure, cross) < candidates(measure, cross).len()
                &&& candidates(measure, cross)[u.position(measure, cross)] == u
            },
{
}

/// The base unit weighs 1 in its own measure.
pub proof fn lemma_base_weight(measure: Measure)
    ensures
        measure.base_unit().weight(measure) == 1,
{
    measure.base_unit().lemma_bits_values();
}

/// `a` divided by `b`, rounded up.
pub open spec fn ceil_div(a: nat, b: nat) -> nat {
    ((a + b - 1) / (b as int)) as nat
}

/// The size, in `measure`, of `count` units, rounded up to a whole
/// number.
pub open spec fn scaled(count: nat, unit: Unit, measure: Measure) -> nat {
    ceil_div(count * unit.bits(), measure.width())
}

/// A multiple, and a base unit in its own measure, holds a whole number
/// of what the measure counts, so that nothing is rounded.
pub proof fn lemma_scaled_by_weight(count: nat, unit: Unit, measure: Measure)
    requires
        unit != Unit::Bit || measure == Measure::Bits,
    ensures
        scaled(count, unit, measure) == count * unit.weight(measure),
{
    unit.lemma_bits_values();
    let w = unit.weight(measure);
    if measure == Measure::Bytes {
        assert(count * unit.bits() == 8 * (count * w)) by (nonlinear_arith)
            requires
                unit.bits() == 8 * w,
        ;
    } else {
        assert(unit.bits() == w);
    }
}

/// Compute the size of `count` units, where it stays below 10<sup>27</sup>.
pub fn scale_integer(count: u128, unit: Unit, measure: Measure) -> (r: Option<u128>)
    ensures
        match r {
            Some(size) => size == scaled(count as nat, unit, measure) && size < RONNA,
            None => scaled(count as nat, unit, measure) >= RONNA,
        },
{
    proof {
        unit.lemma_bits_values();
    }
    match (measure, unit) {
        (Measure::Bytes, Unit::Bit) => {
            let whole = count / 8;
            let size = if count % 8 > 0 {
                whole + 1
            } else {
                whole
            };
            if size < RONNA {
                Some(size)
            } else {
                None
            }
        },
        _ => {
            proof {
                lemma_scaled_by_weight(count as nat, unit, measure);
            }
            let weight = unit.as_weight_u128(measure);
            match count.checked_mul(weight) {
                Some(size) => if size < RONNA {
                    Some(size)
                } else {
                    None
                },
                None => None,
            }
        },
    }
}

/// The size that a decimal stands for: the decimal rounded up to a whole
/// number, where it is not below 0 and the size is below
/// 10<sup>27</sup>.
pub open spec fn decimal_size(d: DecimalView) -> Option<nat> {
    if d.mantissa >= 0 && d.ceiling() < RONNA {
        Some(d.ceiling() as nat)
    } else {
        None
    }
}

/// `count` units as a decimal number of what `measure` counts, as
/// `rust_decimal` computes it. A number of bits becomes a whole number of
/// bytes, rounded up.
pub open spec fn scaled_decimal(count: DecimalView, unit: Unit, measure: Measure) -> Option<
    DecimalView,
> {
    if unit == measure.base_unit() {
        Some(count)
    } else if unit == Unit::Bit {
        match quotient(count, whole(8)) {
            Some(q) => Some(whole(q.ceiling())),
            None => None,
        }
    } else {
        product(count, whole(unit.weight(measure) as int))
    }
}

/// The size of `count` units, rounded up to a whole number. A count
/// below 0 has no size.
pub open spec fn scaled_decimal_size(count: DecimalView, unit: Unit, measure: Measure) -> Option<
    nat,
> {
    if count.mantissa < 0 {
        None
    } else {
        match scaled_decimal(count, unit, measure) {
            Some(d) => decimal_size(d),
            None => None,
        }
    }
}

/// Whether an executable size is the one that a contract names.
pub open spec fn is_size(r: Option<u128>, size: Option<nat>) -> bool {
    match r {
        Some(v) => size == Some(v as nat),
        None => size.is_none(),
    }
}

/// A decimal that is not below 0 has a ceiling that is not below 0, and
/// a decimal that is the integer `n` has the ceiling `n`.
pub proof fn lemma_ceiling(d: DecimalView, n: int)
    ensures
        d.mantissa >= 0 ==> 0 <= d.ceiling() <= d.mantissa,
        d.is_integer(n) ==> d.ceiling() == n,
        whole(n).ceiling() == n,
        whole(n).truncated() == n,
{
    let p = power(10, d.scale) as int;
    lemma_power_positive(10, d.scale);
    assert(power(10, 0) == 1) by {
        reveal_with_fuel(power, 1);
    }
    assert(whole(n).ceiling() == -((-n) / 1));
    if d.mantissa >= 0 {
        assert(-d.mantissa <= (-d.mantissa) / p <= 0) by (nonlinear_arith)
            requires
                d.mantissa >= 0,
                p > 0,
        ;
    }
    if d.is_integer(n) {
        assert(((-n) * p) / p == -n) by (nonlinear_arith)
            requires
                p > 0,
        ;
        assert(-(n * p) == (-n) * p) by (nonlinear_arith);
    }
}

/// Compute the size that a decimal stands for.
pub fn size_from_decimal(d: Decimal) -> (r: Option<u128>)
    ensures
        is_size(r, decimal_size(d@)),
        r.is_some() ==> r.unwrap() < RONNA,
{
    if d.mantissa() >= 0 {
        let c = d.ceil();
        proof {
            lemma_ceiling(d@, 0);
            lemma_ceiling(c@, d@.ceiling());
        }
        match c.to_u128() {
            Some(n) => if n < RONNA {
                Some(n)
            } else {
                None
            },
            None => None,
        }
    } else {
        None
    }
}

/// Compute the size of `count` units, rounded up to a whole number.
pub fn scale_decimal(count: Decimal, unit: Unit, measure: Measure) -> (r: Option<u128>)
    ensures
        is_size(r, scaled_decimal_size(count@, unit, measure)),
        r.is_some() ==> r.unwrap() < RONNA,
{
    if count.mantissa() < 0 {
        return None;
    }
    let v = match (measure, unit) {
        (Measure::Bits, Unit::Bit) => count,
        (Measure::Bytes, Unit::B) => count,
        (Measure::Bytes, Unit::Bit) => match count.checked_div(Decimal::from_u8(8)) {
            Some(q) => q.ceil(),
            None => {
                return None;
            },
        },
        _ => {
            proof {
                unit.lemma_bits_values();
            }
            let weight = match Decimal::from_u128(unit.as_weight_u128(measure)) {
                Some(w) => w,
                None => {
                    return None;
                },
            };
            match count.checked_mul(weight) {
                Some(v) => v,
                None => {
                    return None;
                },
            }
        },
    };
    size_from_decimal(v)
}

/// The quotient of `a` by `b`, rounded to `precision` fractional digits,
/// as `rust_decimal` computes it step by step: the quotient, then its
/// integer part and its fractional part, the latter times
/// 10<sup>precision</sup>, rounded, divided again and added back.
pub open spec fn rounded_quotient(a: DecimalView, b: DecimalView, precision: nat) -> Option<
    DecimalView,
> {
    match quotient(a, b) {
        None => None,
        Some(q) => if precision == 0 {
            Some(whole(q.rounded()))
        } else {
            let scale = whole(power(10, precision) as int);
            match product(fraction(q), scale) {
                None => None,
                Some(shifted) => match quotient(whole(shifted.rounded()), scale) {
                    None => None,
                    Some(rounded) => sum(whole(q.truncated()), rounded),
                },
            }
        },
    }
}

/// The rounded quotient of `a` by `b`, where it is not below 0 and its
/// product with `b` is `a` again.
pub open spec fn exact_quotient(a: DecimalView, b: DecimalView, precision: nat) -> Option<
    DecimalView,
> {
    match rounded_quotient(a, b, precision) {
        None => None,
        Some(q) => match product(q, b) {
            Some(p) => if q.mantissa >= 0 && p.same_number(a) {
                Some(q)
            } else {
                None
            },
            None => None,
        },
    }
}

/// 10 to the power `exp`.
pub fn pow10(exp: u32) -> (r: u128)
    requires
        exp <= 28,
    ensures
        r == power(10, exp as nat),
        r <= 10_000_000_000_000_000_000_000_000_000,
{
    let mut r: u128 = 1;
    let mut i: u32 = 0;
    assert(power(10, 28) == 10_000_000_000_000_000_000_000_000_000) by {
        reveal_with_fuel(power, 29);
    }
    assert(power(10, 0) == 1) by {
        reveal_with_fuel(power, 1);
    }
    while i < exp
        invariant
            i <= exp <= 28,
            r == power(10, i as nat),
            r * power(10, (28 - i) as nat) == 10_000_000_000_000_000_000_000_000_000,
        decreases exp - i,
    {
        proof {
            reveal_with_fuel(power, 2);
            lemma_power_positive(10, (27 - i) as nat);
            assert(r * (10 * power(10, (27 - i) as nat)) == (r * 10) * power(10, (27 - i) as nat))
                by (nonlinear_arith);
            assert(r * 10 <= (r * 10) * power(10, (27 - i) as nat)) by (nonlinear_arith)
                requires
                    power(10, (27 - i) as nat) > 0,
            ;
        }
        r = r * 10;
        i = i + 1;
    }
    proof {
        lemma_power_positive(10, (28 - exp) as nat);
        assert(r <= r * power(10, (28 - exp) as nat)) by (nonlinear_arith)
            requires
                power(10, (28 - exp) as nat) > 0,
        ;
    }
    r
}

/// Divide `a` by `b`, round the quotient to `precision` fractional
/// digits, and give the rounded quotient if it is not below 0 and `b`
/// times it is `a` again.
pub fn is_zero_remainder_decimal(a: Decimal, b: Decimal, precision: usize) -> (r: Option<Decimal>)
    requires
        precision <= 28,
    ensures
        view_of(r) == exact_quotient(a@, b@, precision as nat),
{
    let quotient = match a.checked_div(b) {
        Some(q) => q,
        None => {
            return None;
        },
    };
    let quotient_round = if precision == 0 {
        quotient.round()
    } else {
        let trunc = quotient.trunc();
        let fract = quotient.fract();
        let scale = match Decimal::from_u128(pow10(precision as u32)) {
            Some(s) => s,
            None => {
                return None;
            },
        };
        let shifted = match fract.checked_mul(scale) {
            Some(v) => v,
            None => {
                return None;
            },
        };
        let rounded = match shifted.round().checked_div(scale) {
            Some(v) => v,
            None => {
                return None;
            },
        };
        match trunc.checked_add(rounded) {
            Some(v) => v,
            None => {
                return None;
            },
        }
    };
    match quotient_round.checked_mul(b) {
        Some(p) => if quotient_round.mantissa() >= 0 && p.same_value(a) {
            Some(quotient_round)
        } else {
            None
        },
        None => None,
    }
}

} // verus!
