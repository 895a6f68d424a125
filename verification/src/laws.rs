//! What holds of the searches and of the conversions taken together.

use vstd::prelude::*;
use crate::common::{
    decimal_size, lemma_base_weight, lemma_ceiling, lemma_scaled_by_weight, lemma_weights_ordered,
    scaled, scaled_decimal_size, Measure, RONNA,
};
use crate::decimal::{product, whole, DecimalView};

use crate::search::{
    divides, is_appropriate_unit, is_exact_unit, is_recoverable_unit, reaches, recovers,
};
use crate::unit::{lemma_power_positive, power, Unit, UnitType};

verus! {

/// The number of units that the search for an exact unit gives, taken
/// in that unit, is the size again.
pub proof fn lemma_exact_unit_round_trip(
    size: nat,
    measure: Measure,
    cross: bool,
    count: nat,
    unit: Unit,
)
    requires
        is_exact_unit(size, measure, cross, count, unit),
    ensures
        count * unit.weight(measure) == size,
        scaled(count, unit, measure) == size,
{
    lemma_base_weight(measure);
    lemma_scaled_by_weight(count, unit, measure);
}

/// The search for an exact unit has one answer.
pub proof fn lemma_exact_unit_unique(
    size: nat,
    measure: Measure,
    cross: bool,
    count: nat,
    unit: Unit,
    other_count: nat,
    other_unit: Unit,
)
    requires
        is_exact_unit(size, measure, cross, count, unit),
        is_exact_unit(size, measure, cross, other_count, other_unit),
    ensures
        unit == other_unit,
        count == other_count,
{
    lemma_base_weight(measure);
    if unit.eligible(measure, cross) && divides(size, unit, measure) {
        lemma_weights_ordered(unit, other_unit, measure, cross);
        lemma_weights_ordered(other_unit, unit, measure, cross);
        assert(count == other_count) by (nonlinear_arith)
            requires
                count * unit.weight(measure) == size,
                other_count * unit.weight(measure) == size,
                unit.weight(measure) > 0,
        ;
    } else {
        assert(!(other_unit.eligible(measure, cross) && divides(size, other_unit, measure)));
    }
}

/// A size that a decimal stands for is the decimal rounded up: it is not
/// below the decimal, and less than 1 above it.
pub proof fn lemma_size_rounds_up(d: DecimalView, size: nat)
    requires
        decimal_size(d) == Some(size),
    ensures
        (size - 1) * power(10, d.scale) < d.mantissa <= size * power(10, d.scale),
{
    let p = power(10, d.scale) as int;
    lemma_power_positive(10, d.scale);
    let m = d.mantissa;
    let q = (-m) / p;
    lemma_ceiling(d, 0);
    assert(q * p <= -m < (q + 1) * p) by (nonlinear_arith)
        requires
            q == (-m) / p,
            p > 0,
    ;
    assert((-q) * p == -(q * p)) by (nonlinear_arith);
    assert((-q - 1) * p == -((q + 1) * p)) by (nonlinear_arith);
}

/// The number and the unit that the search for a recoverable unit gives
/// stand for the size exactly: read as a number of units, they give the
/// size back.
pub proof fn lemma_recoverable_unit_round_trip(
    size: nat,
    measure: Measure,
    cross: bool,
    precision: nat,
    value: DecimalView,
    unit: Unit,
)
    requires
        size < RONNA,
        is_recoverable_unit(size, measure, cross, precision, value, unit),
    ensures
        scaled_decimal_size(value, unit, measure) == Some(size),
{
    if unit.eligible(measure, cross) && recovers(size, unit, measure, precision) {
        let w = whole(unit.weight(measure) as int);
        let p = product(value, w).unwrap();
        assert(power(10, 0) == 1) by {
            reveal_with_fuel(power, 1);
        }
        lemma_power_positive(10, p.scale);
        assert(p.mantissa >= 0) by (nonlinear_arith)
            requires
                p.mantissa == size * power(10, p.scale),
        ;
        lemma_ceiling(p, size as int);
    } else {
        lemma_ceiling(value, size as int);
    }
}

/// The search for an appropriate unit has one answer.
pub proof fn lemma_appropriate_unit_unique(
    size: nat,
    measure: Measure,
    unit_type: UnitType,
    unit: Unit,
    other: Unit,
)
    requires
        is_appropriate_unit(size, measure, unit_type, unit),
        is_appropriate_unit(size, measure, unit_type, other),
    ensures
        unit == other,
{
    if unit.eligible(measure, false) && reaches(size, unit, measure, unit_type) {
        assert(other.eligible(measure, false) && reaches(size, other, measure, unit_type));
        lemma_weights_ordered(unit, other, measure, false);
        lemma_weights_ordered(other, unit, measure, false);
    } else {
        assert(!(other.eligible(measure, false) && reaches(size, other, measure, unit_type)));
    }
}

/// A larger size never gets a smaller appropriate unit: of two sizes
/// searched with the same type of unit, the unit of the larger size
/// weighs at least as much as the unit of the smaller.
pub proof fn lemma_appropriate_unit_monotonic(
    smaller: nat,
    larger: nat,
    measure: Measure,
    unit_type: UnitType,
    unit_of_smaller: Unit,
    unit_of_larger: Unit,
)
    requires
        smaller <= larger,
        is_appropriate_unit(smaller, measure, unit_type, unit_of_smaller),
        is_appropriate_unit(larger, measure, unit_type, unit_of_larger),
    ensures
        unit_of_smaller.weight(measure) <= unit_of_larger.weight(measure),
{
    lemma_base_weight(measure);
    if unit_of_smaller.eligible(measure, false) && reaches(
        smaller,
        unit_of_smaller,
        measure,
        unit_type,
    ) {
        assert(reaches(larger, unit_of_smaller, measure, unit_type));
    } else {
        if unit_of_larger.eligible(measure, false) {
            lemma_weights_ordered(unit_of_larger, unit_of_larger, measure, false);
        }
    }
}

/// The appropriate unit never exceeds the size, so that the value shown
/// is at least 1, unless the size is 0.
pub proof fn lemma_appropriate_unit_reached(
    size: nat,
    measure: Measure,
    unit_type: UnitType,
    unit: Unit,
)
    requires
        size > 0,
        is_appropriate_unit(size, measure, unit_type, unit),
    ensures
        1 <= unit.weight(measure) <= size,
{
    lemma_base_weight(measure);
    if unit.eligible(measure, false) {
        lemma_weights_ordered(unit, unit, measure, false);
    }
}

} // verus!
