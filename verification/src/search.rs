//! The three searches for a unit to show a size in: the largest unit that
//! divides it, the largest unit in which a rounded decimal still gives the
//! size back, and the largest unit that the size reaches.

use vstd::prelude::*;
use crate::common::{
    candidates, exact_quotient, get_candidates, is_zero_remainder_decimal, lemma_base_weight,
    lemma_candidates, lemma_weights_ordered, Measure, RONNA,
};
use crate::decimal::{whole, Decimal, DecimalView};
use crate::unit::{Unit, UnitType};

verus! {

/// Whether `size` is a whole number of units, and at least one.
pub open spec fn divides(size: nat, unit: Unit, measure: Measure) -> bool {
    size >= unit.weight(measure) && size % unit.weight(measure) == 0
}

/// Whether `unit` is the largest unit that evenly divides `size`, with
/// `count` the number of such units in it; where no multiple divides it,
/// the unit is the base unit and the count is the size.
pub open spec fn is_exact_unit(
    size: nat,
    measure: Measure,
    cross: bool,
    count: nat,
    unit: Unit,
) -> bool {
    ||| {
        &&& unit.eligible(measure, cross)
        &&& divides(size, unit, measure)
        &&& count * unit.weight(measure) == size
        &&& forall|v: Unit|
            v.eligible(measure, cross) && #[trigger] divides(size, v, measure) ==> v.weight(measure)
                <= unit.weight(measure)
    }
    ||| {
        &&& unit == measure.base_unit()
        &&& count == size
        &&& forall|v: Unit| v.eligible(measure, cross) ==> !#[trigger] divides(size, v, measure)
    }
}

/// The candidate at index `i` is an eligible unit of positive weight.
proof fn lemma_candidate(measure: Measure, cross: bool, i: int)
    requires
        0 <= i < candidates(measure, cross).len(),
    ensures
        candidates(measure, cross)[i].eligible(measure, cross),
        candidates(measure, cross)[i].weight(measure) >= 125,
{
    lemma_candidates(measure, cross);
    let u = candidates(measure, cross)[i];
    lemma_weights_ordered(u, u, measure, cross);
}

/// Where no candidate past index `i` has a property, every eligible unit
/// that has it weighs no more than the candidate at `i`.
proof fn lemma_none_above(measure: Measure, cross: bool, i: int, holds: spec_fn(Unit) -> bool)
    requires
        0 <= i < candidates(measure, cross).len(),
        forall|k: int|
            i < k < candidates(measure, cross).len() ==> !#[trigger] holds(
                candidates(measure, cross)[k],
            ),
    ensures
        forall|v: Unit|
            v.eligible(measure, cross) && #[trigger] holds(v) ==> v.weight(measure) <= candidates(
                measure,
                cross,
            )[i].weight(measure),
{
    lemma_candidates(measure, cross);
    let c = candidates(measure, cross);
    assert forall|v: Unit| v.eligible(measure, cross) && #[trigger] holds(v) implies v.weight(
        measure,
    ) <= c[i].weight(measure) by {
        lemma_weights_ordered(v, c[i], measure, cross);
        assert(c[v.position(measure, cross)] == v);
    }
}

/// Where no candidate has a property, no eligible unit has it.
proof fn lemma_none_at_all(measure: Measure, cross: bool, holds: spec_fn(Unit) -> bool)
    requires
        forall|k: int|
            0 <= k < candidates(measure, cross).len() ==> !#[trigger] holds(
                candidates(measure, cross)[k],
            ),
    ensures
        forall|v: Unit| v.eligible(measure, cross) ==> !#[trigger] holds(v),
{
    lemma_candidates(measure, cross);
    let c = candidates(measure, cross);
    assert forall|v: Unit| v.eligible(measure, cross) implies !#[trigger] holds(v) by {
        assert(c[v.position(measure, cross)] == v);
    }
}

/// Find the largest unit that evenly divides `size`.
pub fn exact_unit(size: u128, measure: Measure, cross: bool) -> (r: (u128, Unit))
    ensures
        is_exact_unit(size as nat, measure, cross, r.0 as nat, r.1),
        r.0 * r.1.weight(measure) == size,
{
    let a = get_candidates(measure, cross);
    let ghost holds = |u: Unit| divides(size as nat, u, measure);
    let mut i: usize = a.len();
    while i > 0
        invariant
            a@ == candidates(measure, cross),
            i <= a@.len(),
            holds == (|u: Unit| divides(size as nat, u, measure)),
            forall|k: int| i <= k < a@.len() ==> !#[trigger] holds(a@[k]),
        decreases i,
    {
        i -= 1;
        let unit = a[i];
        let unit_v = unit.as_weight_u128(measure);
        proof {
            lemma_candidate(measure, cross, i as int);
        }
        if size >= unit_v && size % unit_v == 0 {
            let count = size / unit_v;
            proof {
                assert(count * unit_v == size) by (nonlinear_arith)
                    requires
                        unit_v > 0,
                        size % unit_v == 0,
                        count == size / unit_v,
                ;
                lemma_none_above(measure, cross, i as int, holds);
                assert forall|v: Unit|
                    v.eligible(measure, cross) && #[trigger] divides(
                        size as nat,
                        v,
                        measure,
                    ) implies v.weight(measure) <= unit.weight(measure) by {
                    assert(holds(v));
                }
            }
            return (count, unit);
        }
    }
    proof {
        lemma_none_at_all(measure, cross, holds);
        assert forall|v: Unit| v.eligible(measure, cross) implies !#[trigger] divides(
            size as nat,
            v,
            measure,
        ) by {
            assert(!holds(v));
        }
        lemma_base_weight(measure);
    }
    (size, measure.get_base_unit())
}

/// Whether `size` is at least one unit and the rounded number of units
/// in it gives the size back.
pub open spec fn recovers(size: nat, unit: Unit, measure: Measure, precision: nat) -> bool {
    size >= unit.weight(measure) && exact_quotient(
        whole(size as int),
        whole(unit.weight(measure) as int),
        precision,
    ).is_some()
}

/// Whether `unit` is the largest unit in which `size` can be written
/// with `precision` fractional digits and read back, with `value` the
/// number of units; where there is no such multiple, the unit is the base
/// unit and the value is the size.
pub open spec fn is_recoverable_unit(
    size: nat,
    measure: Measure,
    cross: bool,
    precision: nat,
    value: DecimalView,
    unit: Unit,
) -> bool {
    ||| {
        &&& unit.eligible(measure, cross)
        &&& recovers(size, unit, measure, precision)
        &&& Some(value) == exact_quotient(
            whole(size as int),
            whole(unit.weight(measure) as int),
            precision,
        )
        &&& forall|v: Unit|
            v.eligible(measure, cross) && #[trigger] recovers(size, v, measure, precision)
                ==> v.weight(measure) <= unit.weight(measure)
    }
    ||| {
        &&& unit == measure.base_unit()
        &&& value == whole(size as int)
        &&& forall|v: Unit|
            v.eligible(measure, cross) ==> !#[trigger] recovers(size, v, measure, precision)
    }
}

/// The precision that a search works with: at most 28 digits.
pub open spec fn clamped(precision: nat) -> nat {
    if precision >= 28 {
        28
    } else {
        precision
    }
}

/// Find the largest unit in which `size` can be written with `precision`
/// fractional digits and recovered exactly.
pub fn recoverable_unit(size: u128, measure: Measure, cross: bool, precision: usize) -> (r: (
    Decimal,
    Unit,
))
    requires
        size < RONNA,
    ensures
        is_recoverable_unit(size as nat, measure, cross, clamped(precision as nat), r.0@, r.1),
{
    let digits: usize = if precision >= 28 {
        28
    } else {
        precision
    };
    let size_d = match Decimal::from_u128(size) {
        Some(d) => d,
        None => Decimal::from_u8(0),
    };
    let a = get_candidates(measure, cross);
    let ghost holds = |u: Unit| recovers(size as nat, u, measure, digits as nat);
    let mut i: usize = a.len();
    while i > 0
        invariant
            a@ == candidates(measure, cross),
            i <= a@.len(),
            size_d@ == whole(size as int),
            digits <= 28,
            digits as nat == clamped(precision as nat),
            holds == (|u: Unit| recovers(size as nat, u, measure, digits as nat)),
            forall|k: int| i <= k < a@.len() ==> !#[trigger] holds(a@[k]),
        decreases i,
    {
        i -= 1;
        let unit = a[i];
        let unit_v = unit.as_weight_u128(measure);
        proof {
            lemma_candidate(measure, cross, i as int);
            unit.lemma_bits_values();
        }
        if size >= unit_v {
            let unit_d = match Decimal::from_u128(unit_v) {
                Some(d) => d,
                None => Decimal::from_u8(0),
            };
            match is_zero_remainder_decimal(size_d, unit_d, digits) {
                Some(quotient) => {
                    proof {
                        assert(Some(quotient@) == exact_quotient(
                            whole(size as int),
                            whole(unit.weight(measure) as int),
                            digits as nat,
                        ));
                        lemma_none_above(measure, cross, i as int, holds);
                        assert forall|v: Unit|
                            v.eligible(measure, cross) && #[trigger] recovers(
                                size as nat,
                                v,
                                measure,
                                digits as nat,
                            ) implies v.weight(measure) <= unit.weight(measure) by {
                            assert(holds(v));
                        }
                    }
                    return (quotient, unit);
                },
                None => {},
            }
        }
    }
    proof {
        lemma_none_at_all(measure, cross, holds);
        assert forall|v: Unit| v.eligible(measure, cross) implies !#[trigger] recovers(
            size as nat,
            v,
            measure,
            digits as nat,
        ) by {
            assert(!holds(v));
        }
    }
    (size_d, measure.get_base_unit())
}

/// Whether `unit` is the largest multiple of the given type that `size`
/// reaches; where it reaches none, the unit is the base unit.
pub open spec fn is_appropriate_unit(
    size: nat,
    measure: Measure,
    unit_type: UnitType,
    unit: Unit,
) -> bool {
    ||| {
        &&& unit.eligible(measure, false)
        &&& unit.of_type(unit_type)
        &&& unit.weight(measure) <= size
        &&& forall|v: Unit|
            v.eligible(measure, false) && #[trigger] reaches(size, v, measure, unit_type)
                ==> v.weight(measure) <= unit.weight(measure)
    }
    ||| {
        &&& unit == measure.base_unit()
        &&& forall|v: Unit|
            v.eligible(measure, false) ==> !#[trigger] reaches(size, v, measure, unit_type)
    }
}

/// Whether `unit` is of the given type and `size` is at least one unit.
pub open spec fn reaches(size: nat, unit: Unit, measure: Measure, unit_type: UnitType) -> bool {
    unit.of_type(unit_type) && unit.weight(measure) <= size
}

/// Find the largest multiple of the given type that `size` reaches.
pub fn appropriate_unit(size: u128, measure: Measure, unit_type: UnitType) -> (r: Unit)
    ensures
        is_appropriate_unit(size as nat, measure, unit_type, r),
{
    let a = get_candidates(measure, false);
    let (skip, step): (usize, usize) = match unit_type {
        UnitType::Binary => (0, 2),
        UnitType::Decimal => (1, 2),
        UnitType::Both => (0, 1),
    };
    proof {
        lemma_candidates(measure, false);
    }
    let ghost holds = |u: Unit| reaches(size as nat, u, measure, unit_type);
    let mut i: usize = a.len() - skip;
    while i > 0
        invariant
            a@ == candidates(measure, false),
            a@.len() == 16,
            i <= a@.len(),
            step == 1 || step == 2,
            unit_type == UnitType::Both ==> step == 1,
            unit_type == UnitType::Binary ==> step == 2 && i % 2 == 0,
            unit_type == UnitType::Decimal ==> step == 2 && (i == 0 || i % 2 == 1),
            holds == (|u: Unit| reaches(size as nat, u, measure, unit_type)),
            forall|k: int| i <= k < a@.len() ==> !#[trigger] holds(a@[k]),
        decreases i,
    {
        let unit = a[i - 1];
        proof {
            lemma_candidate(measure, false, i - 1);
            lemma_candidates(measure, false);
        }
        if size >= unit.as_weight_u128(measure) {
            proof {
                lemma_none_above(measure, false, i - 1, holds);
                assert forall|v: Unit|
                    v.eligible(measure, false) && #[trigger] reaches(
                        size as nat,
                        v,
                        measure,
                        unit_type,
                    ) implies v.weight(measure) <= unit.weight(measure) by {
                    assert(holds(v));
                }
            }
            return unit;
        }
        if i >= step {
            if step == 2 {
                assert(a@[i - 2].position(measure, false) == i - 2);
            }
            i -= step;
        } else {
            i = 0;
        }
    }
    proof {
        lemma_none_at_all(measure, false, holds);
        assert forall|v: Unit| v.eligible(measure, false) implies !#[trigger] reaches(
            size as nat,
            v,
            measure,
            unit_type,
        ) by {
            assert(!holds(v));
        }
    }
    measure.get_base_unit()
}

} // verus!
