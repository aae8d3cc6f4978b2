//! The exact engines: the oracle, the eager baseline, exact resolution of a
//! family, and suppression by a certificate whose generation is never checked.
use crate::counting::{
    count_points, count_row, lemma_count_points_all, lemma_count_points_bound,
    lemma_count_points_split, lemma_count_row_all, lemma_count_row_bound, lemma_count_row_none, lemma_count_row_split,
    points_where,
};
use crate::economics::{decision_of, oracle_advances, oracle_decision};
use crate::model::{
    root_family, CandidateFamily, CandidateKey, Decision, EngineResult, SafeIgnoranceCertificate,
    UnsafeResult, WorkCounter, WorkTally, World, MAX_EVALUABLE_QUANTITY, MAX_QUANTITY,
    MIN_QUANTITY, NOVELTY_REGION_END, NOVELTY_REGION_START, TRANSFORMATION_COUNT,
};
use std::collections::BTreeSet;
use vstd::prelude::*;

verus! {

/// Holds of every candidate state.
pub open spec fn every_state() -> spec_fn(int, int) -> bool {
    |t: int, q: int| true
}

/// The candidate states that advance in `world`.
pub open spec fn advancing(world: World) -> spec_fn(int, int) -> bool {
    |t: int, q: int| oracle_advances(t, q, world)
}

/// The candidate states that are rejected in `world`.
pub open spec fn rejected(world: World) -> spec_fn(int, int) -> bool {
    |t: int, q: int| !oracle_advances(t, q, world)
}

/// The advancing candidate states of a family.
pub open spec fn family_advances(family: CandidateFamily, world: World) -> Set<CandidateKey> {
    points_where(
        advancing(world),
        family.id_start as int,
        family.id_end as int,
        family.quantity_start as int,
        family.quantity_end as int,
    )
}

/// The number of rejected candidate states of a family.
pub open spec fn family_rejects(family: CandidateFamily, world: World) -> nat {
    count_points(
        rejected(world),
        family.id_start as int,
        family.id_end as int,
        family.quantity_start as int,
        family.quantity_end as int,
    )
}

/// The number of candidate states of a family.
pub open spec fn family_size(family: CandidateFamily) -> nat {
    count_points(
        every_state(),
        family.id_start as int,
        family.id_end as int,
        family.quantity_start as int,
        family.quantity_end as int,
    )
}

/// The advancing candidate states of the whole fixture.
pub open spec fn oracle_set(world: World) -> Set<CandidateKey> {
    family_advances(root_family(), world)
}

/// The number of rejected candidate states of the whole fixture.
pub open spec fn oracle_rejects(world: World) -> nat {
    family_rejects(root_family(), world)
}

/// A family of non-empty ranges has as many candidate states as its area.
pub proof fn lemma_family_size(family: CandidateFamily)
    ensures
        family.empty_spec() ==> family_size(family) == 0,
        !family.empty_spec() ==> family_size(family) == family.area(),
{
    let (a, b, c, d) = (
        family.id_start as int,
        family.id_end as int,
        family.quantity_start as int,
        family.quantity_end as int,
    );
    if family.empty_spec() {
        if a < b {
            assert forall|t: int| a <= t < b implies count_row(every_state(), t, c, d) == 0 by {
                lemma_count_row_bound(every_state(), t, c, c);
                assert(count_row(every_state(), t, c, d) == 0);
            }
            lemma_rows_zero(every_state(), a, b, c, d);
        }
    } else {
        lemma_count_points_all(every_state(), a, b, c, d);
    }
}

/// A rectangle whose rows all count zero counts zero.
proof fn lemma_rows_zero(p: spec_fn(int, int) -> bool, a: int, b: int, c: int, d: int)
    requires
        forall|t: int| a <= t < b ==> #[trigger] count_row(p, t, c, d) == 0,
    ensures
        count_points(p, a, b, c, d) == 0,
    decreases b - a,
{
    if b > a {
        lemma_rows_zero(p, a, b - 1, c, d);
    }
}

/// The ground-truth decision of one candidate state, recording one exact
/// expansion, one economic evaluation and four fact accesses.
pub fn evaluate_exact(
    transformation_id: usize,
    quantity: usize,
    world: &World,
    work: &mut WorkCounter,
) -> (d: Decision)
    requires
        quantity <= MAX_EVALUABLE_QUANTITY,
        old(work).has_room_for(WorkTally::exact(1)),
    ensures
        d == decision_of(transformation_id as int, quantity as int, *world),
        old(work).advanced_by(*final(work), WorkTally::exact(1)),
{
    work.exact_expansions += 1;
    work.economic_evaluations += 1;
    work.fact_accesses += 4;

    oracle_decision(transformation_id, quantity, world)
}

/// The set of advancing candidate states of the whole fixture.
pub fn run_oracle(world: &World) -> (advances: BTreeSet<CandidateKey>)
    ensures
        advances@ == oracle_set(*world),
{
    let mut advances: BTreeSet<CandidateKey> = BTreeSet::new();
    let ghost p = advancing(*world);

    let mut transformation_id: usize = 0;
    while transformation_id < TRANSFORMATION_COUNT
        invariant
            transformation_id <= TRANSFORMATION_COUNT,
            p == advancing(*world),
            advances@ == points_where(p, 0, transformation_id as int, 1, 101),
        decreases TRANSFORMATION_COUNT - transformation_id,
    {
        let mut quantity: usize = MIN_QUANTITY;
        while quantity <= MAX_QUANTITY
            invariant
                transformation_id < TRANSFORMATION_COUNT,
                MIN_QUANTITY <= quantity <= MAX_QUANTITY + 1,
                p == advancing(*world),
                advances@ == points_where(p, 0, transformation_id as int, 1, 101).union(
                    points_where(p, transformation_id as int, transformation_id + 1, 1, quantity as int),
                ),
            decreases MAX_QUANTITY + 1 - quantity,
        {
            let ghost before = advances@;
            if oracle_decision(transformation_id, quantity, world) == Decision::Advance {
                advances.insert((transformation_id, quantity));
            }
            assert(advances@ =~= points_where(p, 0, transformation_id as int, 1, 101).union(
                points_where(p, transformation_id as int, transformation_id + 1, 1, quantity + 1),
            ));
            quantity += 1;
        }
        assert(advances@ =~= points_where(p, 0, transformation_id + 1, 1, 101));
        transformation_id += 1;
    }

    advances
}

/// Evaluates every candidate state of a family exactly, adding the advancing
/// ones to `result.advances` and counting the rejected ones in `result.rejects`.
pub fn resolve_exact_family(family: CandidateFamily, world: &World, result: &mut EngineResult)
    requires
        family.quantity_end <= MAX_EVALUABLE_QUANTITY + 1,
        old(result).rejects + family_rejects(family, *world) <= usize::MAX,
        old(result).work.has_room_for(WorkTally::exact(family_size(family) as int)),
    ensures
        final(result).advances@ == old(result).advances@.union(family_advances(family, *world)),
        final(result).rejects == old(result).rejects + family_rejects(family, *world),
        old(result).work.advanced_by(final(result).work, WorkTally::exact(family_size(family) as int)),
{
    let ghost p = advancing(*world);
    let ghost r = rejected(*world);
    let ghost e = every_state();
    let ghost old_advances = result.advances@;
    let ghost old_rejects = result.rejects as int;
    let ghost old_work = result.work;
    let ghost (a, b, c, d) = (
        family.id_start as int,
        family.id_end as int,
        family.quantity_start as int,
        family.quantity_end as int,
    );

    let mut transformation_id = family.id_start;
    while transformation_id < family.id_end
        invariant
            a <= transformation_id,
            a < b ==> transformation_id <= b,
            a >= b ==> transformation_id == a,
            (a, b, c, d) == (
                family.id_start as int,
                family.id_end as int,
                family.quantity_start as int,
                family.quantity_end as int,
            ),
            family.quantity_end <= MAX_EVALUABLE_QUANTITY + 1,
            p == advancing(*world),
            r == rejected(*world),
            e == every_state(),
            old_rejects + count_points(r, a, b, c, d) <= usize::MAX,
            old_work.has_room_for(WorkTally::exact(count_points(e, a, b, c, d) as int)),
            result.advances@ == old_advances.union(points_where(p, a, transformation_id as int, c, d)),
            result.rejects == old_rejects + count_points(r, a, transformation_id as int, c, d),
            old_work.advanced_by(
                result.work,
                WorkTally::exact(count_points(e, a, transformation_id as int, c, d) as int),
            ),
        decreases b - transformation_id,
    {
        proof {
            lemma_count_points_split(r, a, transformation_id + 1, b, c, d);
            lemma_count_points_split(e, a, transformation_id + 1, b, c, d);
        }
        let mut quantity = family.quantity_start;
        while quantity < family.quantity_end
            invariant
                a <= transformation_id < b,
                c <= quantity,
                c < d ==> quantity <= d,
                c >= d ==> quantity == c,
                (a, b, c, d) == (
                    family.id_start as int,
                    family.id_end as int,
                    family.quantity_start as int,
                    family.quantity_end as int,
                ),
                family.quantity_end <= MAX_EVALUABLE_QUANTITY + 1,
                p == advancing(*world),
                r == rejected(*world),
                e == every_state(),
                old_rejects + count_points(r, a, transformation_id + 1, c, d) <= usize::MAX,
                old_work.has_room_for(
                    WorkTally::exact(count_points(e, a, transformation_id + 1, c, d) as int),
                ),
                result.advances@ == old_advances.union(
                    points_where(p, a, transformation_id as int, c, d),
                ).union(points_where(p, transformation_id as int, transformation_id + 1, c, quantity as int)),
                result.rejects == old_rejects + count_points(r, a, transformation_id as int, c, d)
                    + count_row(r, transformation_id as int, c, quantity as int),
                old_work.advanced_by(
                    result.work,
                    WorkTally::exact(
                        (count_points(e, a, transformation_id as int, c, d) + count_row(
                            e,
                            transformation_id as int,
                            c,
                            quantity as int,
                        )) as int,
                    ),
                ),
            decreases d - quantity,
        {
            proof {
                lemma_count_row_split(r, transformation_id as int, c, quantity + 1, d);
                lemma_count_row_split(e, transformation_id as int, c, quantity + 1, d);
                lemma_count_row_bound(r, transformation_id as int, quantity + 1, d);
                lemma_count_row_bound(e, transformation_id as int, quantity + 1, d);
            }
            let key = (transformation_id, quantity);
            match evaluate_exact(transformation_id, quantity, world, &mut result.work) {
                Decision::Advance => {
                    result.advances.insert(key);
                },
                Decision::Reject => {
                    result.rejects += 1;
                },
            }
            assert(result.advances@ =~= old_advances.union(
                points_where(p, a, transformation_id as int, c, d),
            ).union(points_where(p, transformation_id as int, transformation_id + 1, c, quantity + 1)));
            quantity += 1;
        }
        assert(count_row(r, transformation_id as int, c, quantity as int) == count_row(
            r,
            transformation_id as int,
            c,
            d,
        ));
        assert(count_row(e, transformation_id as int, c, quantity as int) == count_row(
            e,
            transformation_id as int,
            c,
            d,
        ));
        assert(points_where(p, transformation_id as int, transformation_id + 1, c, quantity as int)
            =~= points_where(p, transformation_id as int, transformation_id + 1, c, d));
        assert(result.advances@ =~= old_advances.union(
            points_where(p, a, transformation_id + 1, c, d),
        ));
        transformation_id += 1;
    }
    proof {
        if a >= b {
            assert(points_where(p, a, transformation_id as int, c, d) =~= points_where(p, a, b, c, d));
        }
    }
}

/// The eager baseline: evaluates every candidate state of the fixture exactly.
pub fn run_eager(world: &World) -> (result: EngineResult)
    ensures
        result.advances@ == oracle_set(*world),
        result.rejects == oracle_rejects(*world),
        result.work.as_tally() == WorkTally::exact(root_family().area()),
{
    let mut result = EngineResult {
        advances: BTreeSet::new(),
        rejects: 0,
        work: WorkCounter::default(),
    };
    let ghost p = advancing(*world);
    let ghost r = rejected(*world);
    let ghost e = every_state();

    let mut transformation_id: usize = 0;
    while transformation_id < TRANSFORMATION_COUNT
        invariant
            transformation_id <= TRANSFORMATION_COUNT,
            p == advancing(*world),
            r == rejected(*world),
            e == every_state(),
            result.advances@ == points_where(p, 0, transformation_id as int, 1, 101),
            result.rejects == count_points(r, 0, transformation_id as int, 1, 101),
            result.work.as_tally() == WorkTally::exact(
                count_points(e, 0, transformation_id as int, 1, 101) as int,
            ),
        decreases TRANSFORMATION_COUNT - transformation_id,
    {
        proof {
            lemma_count_points_bound(r, 0, transformation_id as int, 1, 101);
            lemma_count_points_bound(e, 0, transformation_id as int, 1, 101);
        }
        let mut quantity: usize = MIN_QUANTITY;
        while quantity <= MAX_QUANTITY
            invariant
                transformation_id < TRANSFORMATION_COUNT,
                MIN_QUANTITY <= quantity <= MAX_QUANTITY + 1,
                p == advancing(*world),
                r == rejected(*world),
                e == every_state(),
                count_points(r, 0, transformation_id as int, 1, 101) <= transformation_id * 100,
                count_points(e, 0, transformation_id as int, 1, 101) <= transformation_id * 100,
                result.advances@ == points_where(p, 0, transformation_id as int, 1, 101).union(
                    points_where(p, transformation_id as int, transformation_id + 1, 1, quantity as int),
                ),
                result.rejects == count_points(r, 0, transformation_id as int, 1, 101) + count_row(
                    r,
                    transformation_id as int,
                    1,
                    quantity as int,
                ),
                result.work.as_tally() == WorkTally::exact(
                    (count_points(e, 0, transformation_id as int, 1, 101) + count_row(
                        e,
                        transformation_id as int,
                        1,
                        quantity as int,
                    )) as int,
                ),
            decreases MAX_QUANTITY + 1 - quantity,
        {
            proof {
                lemma_count_row_bound(r, transformation_id as int, 1, quantity as int);
                lemma_count_row_bound(e, transformation_id as int, 1, quantity as int);
            }
            let key = (transformation_id, quantity);

            match evaluate_exact(transformation_id, quantity, world, &mut result.work) {
                Decision::Advance => {
                    result.advances.insert(key);
                },
                Decision::Reject => {
                    result.rejects += 1;
                },
            }
            assert(result.advances@ =~= points_where(p, 0, transformation_id as int, 1, 101).union(
                points_where(p, transformation_id as int, transformation_id + 1, 1, quantity + 1),
            ));
            quantity += 1;
        }
        assert(result.advances@ =~= points_where(p, 0, transformation_id + 1, 1, 101));
        transformation_id += 1;
    }
    proof {
        lemma_count_points_all(e, 0, 100, 1, 101);
    }

    result
}

/// The number of advancing candidate states of the novelty region in `world`.
pub fn novelty_region_advance_count(world: &World) -> (count: usize)
    ensures
        count == count_points(
            advancing(*world),
            NOVELTY_REGION_START as int,
            NOVELTY_REGION_END as int,
            MIN_QUANTITY as int,
            MAX_QUANTITY + 1,
        ),
{
    let mut count: usize = 0;
    let ghost p = advancing(*world);

    let mut transformation_id: usize = NOVELTY_REGION_START;
    while transformation_id < NOVELTY_REGION_END
        invariant
            NOVELTY_REGION_START <= transformation_id <= NOVELTY_REGION_END,
            p == advancing(*world),
            count == count_points(p, 20, transformation_id as int, 1, 101),
        decreases NOVELTY_REGION_END - transformation_id,
    {
        proof {
            lemma_count_points_bound(p, 20, transformation_id as int, 1, 101);
        }
        let mut quantity: usize = MIN_QUANTITY;
        while quantity <= MAX_QUANTITY
            invariant
                NOVELTY_REGION_START <= transformation_id < NOVELTY_REGION_END,
                MIN_QUANTITY <= quantity <= MAX_QUANTITY + 1,
                p == advancing(*world),
                count_points(p, 20, transformation_id as int, 1, 101) <= (transformation_id - 20)
                    * 100,
                count == count_points(p, 20, transformation_id as int, 1, 101) + count_row(
                    p,
                    transformation_id as int,
                    1,
                    quantity as int,
                ),
            decreases MAX_QUANTITY + 1 - quantity,
        {
            proof {
                lemma_count_row_bound(p, transformation_id as int, 1, quantity as int);
            }
            if oracle_decision(transformation_id, quantity, world) == Decision::Advance {
                count += 1;
            }
            quantity += 1;
        }
        transformation_id += 1;
    }

    count
}

/// The ids that a certificate suppresses when its generation is not checked.
pub open spec fn stale_suppressed(certificate: SafeIgnoranceCertificate, t: int) -> bool {
    &&& certificate.id_start <= t < certificate.id_end
    &&& certificate.decision == Decision::Reject
}

/// The candidate states that advance under suppression by `certificate`.
pub open spec fn advancing_unless_suppressed(
    world: World,
    certificate: SafeIgnoranceCertificate,
) -> spec_fn(int, int) -> bool {
    |t: int, q: int| oracle_advances(t, q, world) && !stale_suppressed(certificate, t)
}

/// The candidate states that are rejected under suppression by `certificate`.
pub open spec fn rejected_or_suppressed(
    world: World,
    certificate: SafeIgnoranceCertificate,
) -> spec_fn(int, int) -> bool {
    |t: int, q: int| !(oracle_advances(t, q, world) && !stale_suppressed(certificate, t))
}

/// The candidate states whose id a certificate does not suppress.
pub open spec fn not_suppressed(certificate: SafeIgnoranceCertificate) -> spec_fn(int, int) -> bool {
    |t: int, q: int| !stale_suppressed(certificate, t)
}

/// Rejects every candidate state whose id a reject certificate covers, whatever
/// the certificate's generation, and evaluates the rest exactly.
pub fn run_unsafe_stale_suppression(world: &World, stale_certificate: SafeIgnoranceCertificate) -> (result:
    UnsafeResult)
    requires
        stale_certificate.id_start <= stale_certificate.id_end,
        (stale_certificate.id_end - stale_certificate.id_start) * 100 <= usize::MAX,
    ensures
        result.advances@ == points_where(
            advancing_unless_suppressed(*world, stale_certificate),
            0,
            100,
            1,
            101,
        ),
        result.rejects == count_points(
            rejected_or_suppressed(*world, stale_certificate),
            0,
            100,
            1,
            101,
        ),
        result.exact_expansions == count_points(not_suppressed(stale_certificate), 0, 100, 1, 101),
        result.stale_suppressed_points == (stale_certificate.id_end - stale_certificate.id_start)
            * (MAX_QUANTITY - MIN_QUANTITY + 1),
{
    let mut advances: BTreeSet<CandidateKey> = BTreeSet::new();
    let mut rejects: usize = 0;
    let mut exact_expansions: u64 = 0;
    let ghost p = advancing_unless_suppressed(*world, stale_certificate);
    let ghost r = rejected_or_suppressed(*world, stale_certificate);
    let ghost x = not_suppressed(stale_certificate);

    let mut transformation_id: usize = 0;
    while transformation_id < TRANSFORMATION_COUNT
        invariant
            transformation_id <= TRANSFORMATION_COUNT,
            p == advancing_unless_suppressed(*world, stale_certificate),
            r == rejected_or_suppressed(*world, stale_certificate),
            x == not_suppressed(stale_certificate),
            advances@ == points_where(p, 0, transformation_id as int, 1, 101),
            rejects == count_points(r, 0, transformation_id as int, 1, 101),
            exact_expansions == count_points(x, 0, transformation_id as int, 1, 101),
        decreases TRANSFORMATION_COUNT - transformation_id,
    {
        proof {
            lemma_count_points_bound(r, 0, transformation_id as int, 1, 101);
            lemma_count_points_bound(x, 0, transformation_id as int, 1, 101);
        }
        if transformation_id >= stale_certificate.id_start && transformation_id
            < stale_certificate.id_end && stale_certificate.decision == Decision::Reject {
            proof {
                lemma_count_row_all(r, transformation_id as int, 1, 101);
                lemma_count_row_none(x, transformation_id as int, 1, 101);
                lemma_count_row_none(p, transformation_id as int, 1, 101);
            }
            rejects += MAX_QUANTITY - MIN_QUANTITY + 1;
            assert(advances@ =~= points_where(p, 0, transformation_id + 1, 1, 101));
        } else {
            let mut quantity: usize = MIN_QUANTITY;
            while quantity <= MAX_QUANTITY
                invariant
                    transformation_id < TRANSFORMATION_COUNT,
                    !stale_suppressed(stale_certificate, transformation_id as int),
                    MIN_QUANTITY <= quantity <= MAX_QUANTITY + 1,
                    p == advancing_unless_suppressed(*world, stale_certificate),
                    r == rejected_or_suppressed(*world, stale_certificate),
                    x == not_suppressed(stale_certificate),
                    count_points(r, 0, transformation_id as int, 1, 101) <= transformation_id * 100,
                    count_points(x, 0, transformation_id as int, 1, 101) <= transformation_id * 100,
                    advances@ == points_where(p, 0, transformation_id as int, 1, 101).union(
                        points_where(p, transformation_id as int, transformation_id + 1, 1, quantity as int),
                    ),
                    rejects == count_points(r, 0, transformation_id as int, 1, 101) + count_row(
                        r,
                        transformation_id as int,
                        1,
                        quantity as int,
                    ),
                    exact_expansions == count_points(x, 0, transformation_id as int, 1, 101)
                        + count_row(x, transformation_id as int, 1, quantity as int),
                decreases MAX_QUANTITY + 1 - quantity,
            {
                proof {
                    lemma_count_row_bound(r, transformation_id as int, 1, quantity as int);
                    lemma_count_row_bound(x, transformation_id as int, 1, quantity as int);
                }
                exact_expansions += 1;
                let key = (transformation_id, quantity);

                match oracle_decision(transformation_id, quantity, world) {
                    Decision::Advance => {
                        advances.insert(key);
                    },
                    Decision::Reject => {
                        rejects += 1;
                    },
                }
                assert(advances@ =~= points_where(p, 0, transformation_id as int, 1, 101).union(
                    points_where(p, transformation_id as int, transformation_id + 1, 1, quantity + 1),
                ));
                quantity += 1;
            }
            assert(advances@ =~= points_where(p, 0, transformation_id + 1, 1, 101));
        }
        transformation_id += 1;
    }

    UnsafeResult {
        advances,
        rejects,
        exact_expansions,
        stale_suppressed_points: (stale_certificate.id_end - stale_certificate.id_start) * (
        MAX_QUANTITY - MIN_QUANTITY + 1),
    }
}

} // verus!
