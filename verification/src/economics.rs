//! The economics of a candidate state, and the optimistic bound of a family.
use crate::model::{
    CandidateFamily, Decision, WorkCounter, WorkTally, World, FIXED_COST, IMPACT,
    MAX_EVALUABLE_QUANTITY, NOVELTY_ACTIVE_SPLIT, NOVELTY_REGION_END, NOVELTY_REGION_START,
    NOVELTY_UNKNOWN_MAX, SAFE_BASE_EDGE, SAFE_UNKNOWN_MAX, SAFE_UNKNOWN_MIN, SENSITIVE_BASE_EDGE,
    SENSITIVE_REGION_END, SENSITIVE_REGION_START, SENSITIVE_UNKNOWN_MAX, SENSITIVE_UNKNOWN_MIN,
};
use vstd::prelude::*;

verus! {

/// `t` lies in the novelty region.
pub open spec fn novelty_region(t: int) -> bool {
    NOVELTY_REGION_START <= t < NOVELTY_REGION_END
}

/// `t` lies in the sensitive region.
pub open spec fn sensitive_region(t: int) -> bool {
    SENSITIVE_REGION_START <= t < SENSITIVE_REGION_END
}

/// The known edge of transformation `t`.
pub open spec fn base_edge_of(t: int) -> int {
    if sensitive_region(t) {
        SENSITIVE_BASE_EDGE as int
    } else {
        SAFE_BASE_EDGE as int
    }
}

/// The hidden adjustment of the edge of transformation `t` in `world`.
pub open spec fn adjustment_of(t: int, world: World) -> int {
    if world.novelty_active && novelty_region(t) {
        if t < NOVELTY_ACTIVE_SPLIT {
            NOVELTY_UNKNOWN_MAX as int
        } else {
            0
        }
    } else if sensitive_region(t) {
        if t % 3 == 0 {
            -4
        } else if t % 3 == 1 {
            0
        } else {
            4
        }
    } else {
        0
    }
}

/// The net profit of trading quantity `q` at edge `edge`.
pub open spec fn profit(q: int, edge: int) -> int {
    q * edge - IMPACT * q * q - FIXED_COST
}

/// The ground truth: candidate state `(t, q)` has positive net profit in `world`.
pub open spec fn oracle_advances(t: int, q: int, world: World) -> bool {
    profit(q, base_edge_of(t) + adjustment_of(t, world)) > 0
}

/// The ground-truth decision of candidate state `(t, q)` in `world`.
pub open spec fn decision_of(t: int, q: int, world: World) -> Decision {
    if oracle_advances(t, q, world) {
        Decision::Advance
    } else {
        Decision::Reject
    }
}

/// `x` is a value of `i64`.
pub open spec fn fits_i64(x: int) -> bool {
    i64::MIN <= x <= i64::MAX
}

/// Every intermediate value of `profit(q, edge)`, computed in `i64`, fits in `i64`.
pub open spec fn profit_evaluable(q: int, edge: int) -> bool {
    &&& 0 <= q <= i64::MAX
    &&& fits_i64(edge)
    &&& fits_i64(q * edge)
    &&& fits_i64(q * q)
    &&& fits_i64(q * edge - q * q)
    &&& fits_i64(q * edge - q * q - FIXED_COST)
}

/// The family lies inside the sensitive region.
pub open spec fn family_in_sensitive(family: CandidateFamily) -> bool {
    family.id_start >= SENSITIVE_REGION_START && family.id_end <= SENSITIVE_REGION_END
}

/// The family lies inside the novelty region.
pub open spec fn family_in_novelty(family: CandidateFamily) -> bool {
    family.id_start >= NOVELTY_REGION_START && family.id_end <= NOVELTY_REGION_END
}

/// The visible bounds of the hidden adjustment over a family.
pub open spec fn unknown_bounds_of(family: CandidateFamily, world: World) -> (int, int) {
    if family_in_sensitive(family) {
        (SENSITIVE_UNKNOWN_MIN as int, SENSITIVE_UNKNOWN_MAX as int)
    } else if family_in_novelty(family) {
        (
            SAFE_UNKNOWN_MIN as int,
            if world.novelty_active {
                NOVELTY_UNKNOWN_MAX as int
            } else {
                SAFE_UNKNOWN_MAX as int
            },
        )
    } else {
        (SAFE_UNKNOWN_MIN as int, SAFE_UNKNOWN_MAX as int)
    }
}

/// The known edge shared by a family.
pub open spec fn family_edge_of(family: CandidateFamily) -> int {
    if family_in_sensitive(family) {
        SENSITIVE_BASE_EDGE as int
    } else {
        SAFE_BASE_EDGE as int
    }
}

/// The most favourable edge a member of the family can have, by the visible bounds.
pub open spec fn optimistic_edge(family: CandidateFamily, world: World) -> int {
    family_edge_of(family) + unknown_bounds_of(family, world).1
}

/// `m` is the largest profit at `edge` over the quantities `lo..=hi`.
pub open spec fn is_max_profit(m: int, lo: int, hi: int, edge: int) -> bool {
    &&& exists|q: int| lo <= q <= hi && profit(q, edge) == m
    &&& forall|q: int| lo <= q <= hi ==> #[trigger] profit(q, edge) <= m
}

/// No quantity of the family makes a profit even at the optimistic edge.
pub open spec fn proven_reject_spec(family: CandidateFamily, world: World) -> bool {
    forall|q: int|
        family.quantity_start <= q < family.quantity_end ==> #[trigger] profit(
            q,
            optimistic_edge(family, world),
        ) <= 0
}

/// Whether `transformation_id` lies in `start..end`.
pub fn in_region(transformation_id: usize, start: usize, end: usize) -> (b: bool)
    ensures
        b == (start <= transformation_id < end),
{
    transformation_id >= start && transformation_id < end
}

/// Whether `transformation_id` lies in the novelty region.
pub fn in_novelty_region(transformation_id: usize) -> (b: bool)
    ensures
        b == novelty_region(transformation_id as int),
{
    in_region(transformation_id, NOVELTY_REGION_START, NOVELTY_REGION_END)
}

/// Whether `transformation_id` lies in the sensitive region.
pub fn in_sensitive_region(transformation_id: usize) -> (b: bool)
    ensures
        b == sensitive_region(transformation_id as int),
{
    in_region(transformation_id, SENSITIVE_REGION_START, SENSITIVE_REGION_END)
}

/// The known edge of a transformation.
pub fn base_edge(transformation_id: usize) -> (e: i64)
    ensures
        e == base_edge_of(transformation_id as int),
{
    if in_sensitive_region(transformation_id) {
        SENSITIVE_BASE_EDGE
    } else {
        SAFE_BASE_EDGE
    }
}

/// The hidden adjustment of a transformation's edge in `world`.
pub fn actual_unknown_adjustment(transformation_id: usize, world: &World) -> (a: i64)
    ensures
        a == adjustment_of(transformation_id as int, *world),
{
    if world.novelty_active && in_novelty_region(transformation_id) {
        if transformation_id < NOVELTY_ACTIVE_SPLIT {
            NOVELTY_UNKNOWN_MAX
        } else {
            0
        }
    } else if in_sensitive_region(transformation_id) {
        match transformation_id % 3 {
            0 => -4,
            1 => 0,
            _ => 4,
        }
    } else {
        0
    }
}

/// The visible bounds `(min, max)` of the hidden adjustment over a family.
pub fn unknown_bounds_for_family(family: CandidateFamily, world: &World) -> (r: (i64, i64))
    ensures
        (r.0 as int, r.1 as int) == unknown_bounds_of(family, *world),
{
    if family.id_start >= SENSITIVE_REGION_START && family.id_end <= SENSITIVE_REGION_END {
        (SENSITIVE_UNKNOWN_MIN, SENSITIVE_UNKNOWN_MAX)
    } else if family.id_start >= NOVELTY_REGION_START && family.id_end <= NOVELTY_REGION_END {
        let upper = if world.novelty_active {
            NOVELTY_UNKNOWN_MAX
        } else {
            SAFE_UNKNOWN_MAX
        };

        (SAFE_UNKNOWN_MIN, upper)
    } else {
        (SAFE_UNKNOWN_MIN, SAFE_UNKNOWN_MAX)
    }
}

/// The known edge shared by a family.
pub fn family_base_edge(family: CandidateFamily) -> (e: i64)
    ensures
        e == family_edge_of(family),
{
    if family.id_start >= SENSITIVE_REGION_START && family.id_end <= SENSITIVE_REGION_END {
        SENSITIVE_BASE_EDGE
    } else {
        SAFE_BASE_EDGE
    }
}

/// The net profit of a candidate state whose edge is its base edge plus `unknown_adjustment`.
pub fn profit_with_adjustment(transformation_id: usize, quantity: usize, unknown_adjustment: i64) -> (p:
    i64)
    requires
        profit_evaluable(
            quantity as int,
            base_edge_of(transformation_id as int) + unknown_adjustment,
        ),
    ensures
        p == profit(quantity as int, base_edge_of(transformation_id as int) + unknown_adjustment),
{
    let quantity = quantity as i64;
    let edge = base_edge(transformation_id) + unknown_adjustment;

    quantity * edge - IMPACT * quantity * quantity - FIXED_COST
}

/// Every quantity up to `MAX_EVALUABLE_QUANTITY` can be evaluated at any edge between 0 and 64.
pub proof fn lemma_profit_evaluable(q: int, edge: int)
    requires
        0 <= q <= MAX_EVALUABLE_QUANTITY,
        0 <= edge <= 64,
    ensures
        profit_evaluable(q, edge),
{
    assert(q * q <= 3_037_000_499 * 3_037_000_499) by (nonlinear_arith)
        requires
            0 <= q <= 3_037_000_499,
    ;
    assert(0 <= q * edge <= 3_037_000_499 * 64) by (nonlinear_arith)
        requires
            0 <= q <= 3_037_000_499,
            0 <= edge <= 64,
    ;
    assert(0 <= q * q) by (nonlinear_arith);
}

/// The ground-truth decision of a candidate state in `world`.
pub fn oracle_decision(transformation_id: usize, quantity: usize, world: &World) -> (d: Decision)
    requires
        quantity <= MAX_EVALUABLE_QUANTITY,
    ensures
        d == decision_of(transformation_id as int, quantity as int, *world),
{
    let adjustment = actual_unknown_adjustment(transformation_id, world);
    proof {
        lemma_profit_evaluable(quantity as int, base_edge_of(transformation_id as int) + adjustment);
    }
    let profit = profit_with_adjustment(transformation_id, quantity, adjustment);

    if profit > 0 {
        Decision::Advance
    } else {
        Decision::Reject
    }
}

/// The net profit of quantity `quantity` at edge `edge`.
pub fn optimistic_profit_at_quantity(quantity: usize, edge: i64) -> (p: i64)
    requires
        profit_evaluable(quantity as int, edge as int),
    ensures
        p == profit(quantity as int, edge as int),
{
    let quantity = quantity as i64;

    quantity * edge - IMPACT * quantity * quantity - FIXED_COST
}

/// The profit at `v` minus the profit at `q` factors through the distance between them.
pub proof fn lemma_profit_gap(q: int, v: int, e: int)
    ensures
        profit(v, e) - profit(q, e) == (v - q) * (e - v - q),
{
    assert(v * e - v * v - (q * e - q * q) == (v - q) * (e - v - q)) by (nonlinear_arith);
}

/// The vertex of the concave profit curve, clamped to `first..=last`, is a
/// quantity of largest profit in that range.
pub proof fn lemma_clamped_vertex_is_best(first: int, last: int, e: int, v: int)
    requires
        0 <= first <= last,
        v == if e > 0 {
            let w = if e / 2 >= 1 {
                e / 2
            } else {
                1
            };
            if w < first {
                first
            } else if w > last {
                last
            } else {
                w
            }
        } else {
            first
        },
    ensures
        first <= v <= last,
        forall|q: int| first <= q <= last ==> #[trigger] profit(q, e) <= profit(v, e),
{
    assert forall|q: int| first <= q <= last implies #[trigger] profit(q, e) <= profit(v, e) by {
        lemma_profit_gap(q, v, e);
        let a = v - q;
        let b = e - v - q;
        if q < v {
            assert(b >= 0);
            assert(a * b >= 0) by (nonlinear_arith)
                requires
                    a > 0,
                    b >= 0,
            ;
        } else if q > v {
            assert(b <= 0);
            assert(a * b >= 0) by (nonlinear_arith)
                requires
                    a < 0,
                    b <= 0,
            ;
        }
    }
}

/// The largest optimistic profit over the family's quantities. Records one
/// family evaluation, one economic evaluation, one bound evaluation and three
/// fact accesses.
pub fn family_optimistic_profit_upper_bound(
    family: CandidateFamily,
    world: &World,
    work: &mut WorkCounter,
) -> (bound: i64)
    requires
        family.quantity_start < family.quantity_end,
        family.quantity_end <= MAX_EVALUABLE_QUANTITY + 1,
        old(work).has_room_for(WorkTally::bound()),
    ensures
        is_max_profit(
            bound as int,
            family.quantity_start as int,
            family.quantity_end - 1,
            optimistic_edge(family, *world),
        ),
        old(work).advanced_by(*final(work), WorkTally::bound()),
{
    work.family_evaluations += 1;
    work.economic_evaluations += 1;
    work.bound_evaluations += 1;
    work.fact_accesses += 3;

    let (_, unknown_max) = unknown_bounds_for_family(family, world);
    let edge = family_base_edge(family) + unknown_max;
    let first_quantity = family.quantity_start;
    let last_quantity = family.quantity_end - 1;
    let vertex_quantity = if edge > 0 {
        let half = edge / (2 * IMPACT);
        let lifted = if half >= 1 {
            half
        } else {
            1
        };
        lifted as usize
    } else {
        first_quantity
    };
    let bounded_vertex = if vertex_quantity < first_quantity {
        first_quantity
    } else if vertex_quantity > last_quantity {
        last_quantity
    } else {
        vertex_quantity
    };

    proof {
        lemma_clamped_vertex_is_best(
            first_quantity as int,
            last_quantity as int,
            edge as int,
            bounded_vertex as int,
        );
        lemma_profit_evaluable(first_quantity as int, edge as int);
        lemma_profit_evaluable(last_quantity as int, edge as int);
        lemma_profit_evaluable(bounded_vertex as int, edge as int);
    }

    let first_profit = optimistic_profit_at_quantity(first_quantity, edge);
    let last_profit = optimistic_profit_at_quantity(last_quantity, edge);
    let vertex_profit = optimistic_profit_at_quantity(bounded_vertex, edge);

    let best_end = if first_profit >= last_profit {
        first_profit
    } else {
        last_profit
    };
    if best_end >= vertex_profit {
        best_end
    } else {
        vertex_profit
    }
}

/// Whether the optimistic bound proves that no candidate state of the family
/// makes a profit. Records the work of one bound evaluation.
pub fn family_proven_reject(family: CandidateFamily, world: &World, work: &mut WorkCounter) -> (b:
    bool)
    requires
        family.quantity_start < family.quantity_end,
        family.quantity_end <= MAX_EVALUABLE_QUANTITY + 1,
        old(work).has_room_for(WorkTally::bound()),
    ensures
        b == proven_reject_spec(family, *world),
        old(work).advanced_by(*final(work), WorkTally::bound()),
{
    let bound = family_optimistic_profit_upper_bound(family, world, work);
    let b = bound <= 0;
    proof {
        let e = optimistic_edge(family, *world);
        if b {
            assert forall|q: int|
                family.quantity_start <= q < family.quantity_end implies #[trigger] profit(q, e)
                <= 0 by {
                assert(profit(q, e) <= bound);
            }
        } else {
            let q = choose|q: int|
                family.quantity_start <= q <= family.quantity_end - 1 && profit(q, e) == bound;
            assert(profit(q, e) > 0);
        }
    }
    b
}

} // verus!
