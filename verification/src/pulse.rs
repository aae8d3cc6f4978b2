//! The family-resolving engine: semantic splitting, bound-proven rejection,
//! and Safe Ignorance certificates.
use crate::counting::{
    count_points, lemma_count_points_all, lemma_count_points_bound, lemma_count_points_ext,
    lemma_count_points_none, lemma_count_points_split, points_where,
};
use crate::economics::{
    adjustment_of, base_edge_of, family_edge_of, family_proven_reject, novelty_region,
    oracle_advances, profit, proven_reject_spec, optimistic_edge, unknown_bounds_of,
};
use crate::engines::{
    every_state, family_advances, family_size, lemma_family_size,
    resolve_exact_family,
};
use crate::model::{
    certificate_reused, novelty_family, phase_a, phase_a_certificate, phase_b, root_family,
    CandidateFamily, CandidateKey, Decision, EngineResult, SafeIgnoranceCertificate, WorkCounter,
    WorkTally, World, MAX_QUANTITY, MIN_QUANTITY, NOVELTY_REGION_END, NOVELTY_REGION_START,
    SENSITIVE_REGION_END, SENSITIVE_REGION_START, TRANSFORMATION_COUNT,
};
use std::collections::BTreeSet;
use vstd::prelude::*;

verus! {

/// The candidate state `(t, q)` of `family` is rejected by reusing the
/// certificate: the family covers the whole novelty region, `t` lies in it,
/// and the certificate is taken as valid in `world`.
pub open spec fn suppressed_by_reuse(
    family: CandidateFamily,
    world: World,
    certificate: SafeIgnoranceCertificate,
    t: int,
) -> bool {
    &&& certificate_reused(certificate, world)
    &&& family.covers_novelty()
    &&& novelty_region(t)
}

/// The candidate states of `family` that the resolving engine advances.
pub open spec fn pulse_advancing(
    family: CandidateFamily,
    world: World,
    certificate: SafeIgnoranceCertificate,
) -> spec_fn(int, int) -> bool {
    |t: int, q: int| oracle_advances(t, q, world) && !suppressed_by_reuse(family, world, certificate, t)
}

/// The candidate states of `family` that the resolving engine rejects.
pub open spec fn pulse_rejected(
    family: CandidateFamily,
    world: World,
    certificate: SafeIgnoranceCertificate,
) -> spec_fn(int, int) -> bool {
    |t: int, q: int|
        !(oracle_advances(t, q, world) && !suppressed_by_reuse(family, world, certificate, t))
}

/// The set of candidate states of `family` that the resolving engine advances.
pub open spec fn pulse_advances(
    family: CandidateFamily,
    world: World,
    certificate: SafeIgnoranceCertificate,
) -> Set<CandidateKey> {
    points_where(
        pulse_advancing(family, world, certificate),
        family.id_start as int,
        family.id_end as int,
        family.quantity_start as int,
        family.quantity_end as int,
    )
}

/// The number of candidate states of `family` that the resolving engine rejects.
pub open spec fn pulse_rejects(
    family: CandidateFamily,
    world: World,
    certificate: SafeIgnoranceCertificate,
) -> nat {
    count_points(
        pulse_rejected(family, world, certificate),
        family.id_start as int,
        family.id_end as int,
        family.quantity_start as int,
        family.quantity_end as int,
    )
}

/// The work of one semantic split.
pub open spec fn split_work() -> WorkTally {
    WorkTally { family_splits: 1, semantic_splits: 1, ..WorkTally::zero() }
}

/// The work of looking up the cached certificate.
pub open spec fn lookup_work() -> WorkTally {
    WorkTally { certificate_checks: 1, fact_accesses: 1, ..WorkTally::zero() }
}

/// The work of rejecting a family by reusing the certificate.
pub open spec fn reuse_work() -> WorkTally {
    WorkTally { family_rejections: 1, certificates_reused: 1, ..WorkTally::zero() }
}

/// The work of invalidating the certificate over a family of `points` candidate states.
pub open spec fn invalidation_work(points: int) -> WorkTally {
    WorkTally { certificates_invalidated: 1, reactivated_points: points, ..WorkTally::zero() }
}

/// The work of settling a leaf family without the certificate: a check, a
/// bound evaluation, then either a proven rejection or exact evaluation of
/// every candidate state.
pub open spec fn settle_work(family: CandidateFamily, world: World) -> WorkTally {
    WorkTally { certificate_checks: 1, ..WorkTally::zero() }.plus(WorkTally::bound()).plus(
        if proven_reject_spec(family, world) {
            WorkTally { family_rejections: 1, certificates_issued: 1, ..WorkTally::zero() }
        } else {
            WorkTally::exact(family.area())
        },
    )
}

/// The work the resolving engine records for `family`.
pub open spec fn pulse_work(
    family: CandidateFamily,
    world: World,
    certificate: SafeIgnoranceCertificate,
) -> WorkTally
    decreases family.id_end - family.id_start,
{
    if family.empty_spec() {
        WorkTally::zero()
    } else {
        match family.first_crossed_boundary() {
            Some(b) => split_work().plus(pulse_work(family.below(b), world, certificate)).plus(
                pulse_work(family.above(b), world, certificate),
            ),
            None => {
                if family.is_novelty_family() && certificate.id_start == family.id_start
                    && certificate.id_end == family.id_end {
                    if certificate_reused(certificate, world) {
                        lookup_work().plus(reuse_work())
                    } else {
                        lookup_work().plus(invalidation_work(family.area())).plus(
                            settle_work(family, world),
                        )
                    }
                } else {
                    settle_work(family, world)
                }
            },
        }
    }
}

/// The world before the novelty shock.
pub fn phase_a_world() -> (w: World)
    ensures
        w == phase_a(),
{
    World { novelty_generation: 1, novelty_active: false }
}

/// The world after the novelty shock.
pub fn phase_b_world() -> (w: World)
    ensures
        w == phase_b(),
{
    World { novelty_generation: 2, novelty_active: true }
}

/// Whether the family's ids cross `boundary`.
pub fn family_crosses_boundary(family: CandidateFamily, boundary: usize) -> (b: bool)
    ensures
        b == family.crosses(boundary as int),
{
    family.id_start < boundary && family.id_end > boundary
}

/// The first semantic boundary that the family crosses, if any.
pub fn next_semantic_boundary(family: CandidateFamily) -> (r: Option<usize>)
    ensures
        r == family.first_crossed_boundary(),
{
    let boundaries: [usize; 4] = [
        NOVELTY_REGION_START,
        NOVELTY_REGION_END,
        SENSITIVE_REGION_START,
        SENSITIVE_REGION_END,
    ];
    let mut i: usize = 0;
    while i < 4
        invariant
            0 <= i <= 4,
            boundaries@ == seq![
                NOVELTY_REGION_START,
                NOVELTY_REGION_END,
                SENSITIVE_REGION_START,
                SENSITIVE_REGION_END,
            ],
            forall|j: int| 0 <= j < i ==> !family.crosses(#[trigger] boundaries@[j] as int),
        decreases 4 - i,
    {
        if family_crosses_boundary(family, boundaries[i]) {
            return Some(boundaries[i]);
        }
        i += 1;
    }
    proof {
        assert(!family.crosses(boundaries@[0] as int));
        assert(!family.crosses(boundaries@[1] as int));
        assert(!family.crosses(boundaries@[2] as int));
        assert(!family.crosses(boundaries@[3] as int));
    }
    None
}

/// The two parts of a family below and above a boundary strictly inside its ids.
pub fn split_family_at_id(family: CandidateFamily, boundary: usize) -> (parts: (
    CandidateFamily,
    CandidateFamily,
))
    requires
        family.id_start < boundary,
        boundary < family.id_end,
    ensures
        parts.0 == family.below(boundary),
        parts.1 == family.above(boundary),
{
    (
        CandidateFamily {
            id_start: family.id_start,
            id_end: boundary,
            quantity_start: family.quantity_start,
            quantity_end: family.quantity_end,
        },
        CandidateFamily {
            id_start: boundary,
            id_end: family.id_end,
            quantity_start: family.quantity_start,
            quantity_end: family.quantity_end,
        },
    )
}

/// Whether the family's ids are exactly the novelty region.
pub fn is_exact_novelty_family(family: CandidateFamily) -> (b: bool)
    ensures
        b == family.is_novelty_family(),
{
    family.id_start == NOVELTY_REGION_START && family.id_end == NOVELTY_REGION_END
}

/// Whether a certificate speaks of exactly the family's ids.
pub fn cached_certificate_matches_family(
    certificate: SafeIgnoranceCertificate,
    family: CandidateFamily,
) -> (b: bool)
    ensures
        b == (certificate.id_start == family.id_start && certificate.id_end == family.id_end),
{
    certificate.id_start == family.id_start && certificate.id_end == family.id_end
}

/// In phase A no quantity of the novelty region makes a profit even at the
/// optimistic edge.
pub proof fn lemma_novelty_rejected_in_phase_a()
    ensures
        proven_reject_spec(novelty_family(), phase_a()),
{
    let e = optimistic_edge(novelty_family(), phase_a());
    assert(e == 12);
    assert forall|q: int| 1 <= q < 101 implies #[trigger] profit(q, e) <= 0 by {
        assert(q * 12 - q * q <= 36) by (nonlinear_arith);
    }
}

/// The Safe Ignorance certificate for the novelty region, justified by the
/// phase A bound.
pub fn issue_phase_a_certificate() -> (certificate: SafeIgnoranceCertificate)
    ensures
        certificate == phase_a_certificate(),
{
    let world = phase_a_world();
    let family = CandidateFamily {
        id_start: NOVELTY_REGION_START,
        id_end: NOVELTY_REGION_END,
        quantity_start: MIN_QUANTITY,
        quantity_end: MAX_QUANTITY + 1,
    };
    let mut work = WorkCounter::default();

    let proven = family_proven_reject(family, &world, &mut work);
    proof {
        lemma_novelty_rejected_in_phase_a();
    }
    assert(proven);

    SafeIgnoranceCertificate {
        id_start: family.id_start,
        id_end: family.id_end,
        dependency_generation: world.novelty_generation,
        decision: Decision::Reject,
    }
}

/// Over a family that crosses no semantic boundary, the visible bounds
/// contain every member's hidden adjustment and the family's known edge is
/// every member's known edge.
pub proof fn lemma_leaf_bounds(family: CandidateFamily, world: World, t: int)
    requires
        family.is_leaf(),
        family.id_start <= t < family.id_end,
    ensures
        base_edge_of(t) == family_edge_of(family),
        unknown_bounds_of(family, world).0 <= adjustment_of(t, world) <= unknown_bounds_of(
            family,
            world,
        ).1,
{
}

/// A bound-proven rejection of a family that crosses no semantic boundary
/// rejects no member that the ground truth advances.
pub proof fn lemma_proven_reject_sound(family: CandidateFamily, world: World)
    requires
        family.is_leaf(),
        proven_reject_spec(family, world),
    ensures
        forall|t: int, q: int| #[trigger] family.holds(t, q) ==> !oracle_advances(t, q, world),
{
    let e = optimistic_edge(family, world);
    assert forall|t: int, q: int| #[trigger] family.holds(t, q) implies !oracle_advances(
        t,
        q,
        world,
    ) by {
        lemma_leaf_bounds(family, world, t);
        let a = base_edge_of(t) + adjustment_of(t, world);
        assert(profit(q, e) <= 0);
        assert(q * a <= q * e) by (nonlinear_arith)
            requires
                q >= 0,
                a <= e,
        ;
    }
}

/// Splitting a family at its first crossed boundary splits what the
/// resolving engine decides for it.
pub proof fn lemma_split_decisions(
    family: CandidateFamily,
    world: World,
    certificate: SafeIgnoranceCertificate,
    b: usize,
)
    requires
        family.first_crossed_boundary() == Some(b),
    ensures
        family.id_start < b < family.id_end,
        pulse_advances(family, world, certificate) == pulse_advances(
            family.below(b),
            world,
            certificate,
        ).union(pulse_advances(family.above(b), world, certificate)),
        pulse_rejects(family, world, certificate) == pulse_rejects(family.below(b), world, certificate)
            + pulse_rejects(family.above(b), world, certificate),
        family_size(family) == family_size(family.below(b)) + family_size(family.above(b)),
{
    let left = family.below(b);
    let right = family.above(b);
    let (s, e, c, d) = (
        family.id_start as int,
        family.id_end as int,
        family.quantity_start as int,
        family.quantity_end as int,
    );
    assert forall|t: int| s <= t < b implies suppressed_by_reuse(family, world, certificate, t)
        == suppressed_by_reuse(left, world, certificate, t) by {}
    assert forall|t: int| b <= t < e implies suppressed_by_reuse(family, world, certificate, t)
        == suppressed_by_reuse(right, world, certificate, t) by {}
    let pf = pulse_rejected(family, world, certificate);
    lemma_count_points_split(pf, s, b as int, e, c, d);
    lemma_count_points_ext(pf, pulse_rejected(left, world, certificate), s, b as int, c, d);
    lemma_count_points_ext(pf, pulse_rejected(right, world, certificate), b as int, e, c, d);
    lemma_count_points_split(every_state(), s, b as int, e, c, d);
    assert(pulse_advances(family, world, certificate) =~= pulse_advances(
        left,
        world,
        certificate,
    ).union(pulse_advances(right, world, certificate)));
}

/// Every counter of `t` lies in `0..=n`.
pub open spec fn tally_within(t: WorkTally, n: int) -> bool {
    &&& t.nonnegative()
    &&& t.family_evaluations <= n
    &&& t.family_splits <= n
    &&& t.semantic_splits <= n
    &&& t.family_rejections <= n
    &&& t.exact_expansions <= n
    &&& t.economic_evaluations <= n
    &&& t.bound_evaluations <= n
    &&& t.fact_accesses <= n
    &&& t.certificate_checks <= n
    &&& t.certificates_issued <= n
    &&& t.certificates_reused <= n
    &&& t.certificates_invalidated <= n
    &&& t.reactivated_points <= n
}

/// The work recorded for a non-empty family is bounded by its size and width.
pub proof fn lemma_pulse_work_bounded(
    family: CandidateFamily,
    world: World,
    certificate: SafeIgnoranceCertificate,
)
    ensures
        family.empty_spec() ==> pulse_work(family, world, certificate) == WorkTally::zero(),
        !family.empty_spec() ==> tally_within(
            pulse_work(family, world, certificate),
            5 * family_size(family) + 4 * (family.id_end - family.id_start) - 1,
        ),
    decreases family.id_end - family.id_start,
{
    if !family.empty_spec() {
        lemma_family_size(family);
        match family.first_crossed_boundary() {
            Some(b) => {
                lemma_split_decisions(family, world, certificate, b);
                lemma_pulse_work_bounded(family.below(b), world, certificate);
                lemma_pulse_work_bounded(family.above(b), world, certificate);
            },
            None => {
                let a = family.area();
                assert(a >= 1) by (nonlinear_arith)
                    requires
                        a == (family.id_end - family.id_start) * (family.quantity_end
                            - family.quantity_start),
                        family.id_end - family.id_start >= 1,
                        family.quantity_end - family.quantity_start >= 1,
                ;
            },
        }
    }
}

/// Settles a family: splits it at semantic boundaries, rejects a novelty
/// family by a certificate that is still valid, invalidates one that is not,
/// rejects a family whose optimistic bound is not positive, and evaluates
/// the rest exactly.
pub fn resolve_family(
    family: CandidateFamily,
    world: &World,
    cached_certificate: SafeIgnoranceCertificate,
    result: &mut EngineResult,
)
    requires
        family.well_sized(),
        old(result).rejects + pulse_rejects(family, *world, cached_certificate) <= usize::MAX,
        old(result).work.has_room_for(pulse_work(family, *world, cached_certificate)),
    ensures
        final(result).advances@ == old(result).advances@.union(
            pulse_advances(family, *world, cached_certificate),
        ),
        final(result).rejects == old(result).rejects + pulse_rejects(
            family,
            *world,
            cached_certificate,
        ),
        old(result).work.advanced_by(final(result).work, pulse_work(family, *world, cached_certificate)),
    decreases family.id_end - family.id_start,
{
    let ghost w = *world;
    let ghost c = cached_certificate;
    let ghost (s, e, qs, qe) = (
        family.id_start as int,
        family.id_end as int,
        family.quantity_start as int,
        family.quantity_end as int,
    );
    if family.is_empty() {
        proof {
            lemma_count_points_none(pulse_rejected(family, w, c), s, e, qs, qe);
            assert(pulse_advances(family, w, c) =~= Set::empty());
            assert(result.advances@ =~= result.advances@.union(pulse_advances(family, w, c)));
        }
        return;
    }
    proof {
        lemma_family_size(family);
        lemma_pulse_work_bounded(family, w, c);
    }
    if let Some(boundary) = next_semantic_boundary(family) {
        proof {
            lemma_split_decisions(family, w, c, boundary);
            lemma_pulse_work_bounded(family.below(boundary), w, c);
            lemma_pulse_work_bounded(family.above(boundary), w, c);
            lemma_family_size(family.below(boundary));
            lemma_family_size(family.above(boundary));
        }
        result.work.family_splits += 1;
        result.work.semantic_splits += 1;

        let (left, right) = split_family_at_id(family, boundary);

        resolve_family(left, world, cached_certificate, result);
        resolve_family(right, world, cached_certificate, result);
        proof {
            assert(result.advances@ =~= old(result).advances@.union(
                pulse_advances(family, w, c),
            ));
        }
        return;
    }
    proof {
        assert(family.is_leaf());
        lemma_count_points_bound(pulse_rejected(family, w, c), s, e, qs, qe);
    }
    if is_exact_novelty_family(family) && cached_certificate_matches_family(
        cached_certificate,
        family,
    ) {
        result.work.certificate_checks += 1;
        result.work.fact_accesses += 1;

        if cached_certificate.dependency_generation == world.novelty_generation
            && cached_certificate.decision == Decision::Reject {
            proof {
                lemma_count_points_all(pulse_rejected(family, w, c), s, e, qs, qe);
                assert(pulse_advances(family, w, c) =~= Set::empty());
                assert(result.advances@ =~= result.advances@.union(pulse_advances(family, w, c)));
            }
            result.rejects += family.point_count();
            result.work.family_rejections += 1;
            result.work.certificates_reused += 1;
            return;
        }
        result.work.certificates_invalidated += 1;
        result.work.reactivated_points += family.point_count() as u64;
    }
    result.work.certificate_checks += 1;

    proof {
        assert forall|t: int| s <= t < e implies !suppressed_by_reuse(family, w, c, t) by {}
    }
    if family_proven_reject(family, world, &mut result.work) {
        proof {
            lemma_proven_reject_sound(family, w);
            assert forall|t: int, q: int|
                s <= t < e && qs <= q < qe implies #[trigger] pulse_rejected(family, w, c)(t, q) by {
                assert(family.holds(t, q));
            }
            lemma_count_points_all(pulse_rejected(family, w, c), s, e, qs, qe);
            assert forall|k: CandidateKey| !pulse_advances(family, w, c).contains(k) by {
                if family.holds(k.0 as int, k.1 as int) {
                }
            }
            assert(pulse_advances(family, w, c) =~= Set::empty());
            assert(result.advances@ =~= result.advances@.union(pulse_advances(family, w, c)));
        }
        result.rejects += family.point_count();
        result.work.family_rejections += 1;
        result.work.certificates_issued += 1;
        return;
    }
    proof {
        lemma_count_points_ext(
            pulse_rejected(family, w, c),
            crate::engines::rejected(w),
            s,
            e,
            qs,
            qe,
        );
        assert(pulse_advances(family, w, c) =~= family_advances(family, w));
    }
    resolve_exact_family(family, world, result);
}

/// The resolving engine on the whole fixture.
pub fn run_pulse(world: &World, cached_certificate: SafeIgnoranceCertificate) -> (result:
    EngineResult)
    ensures
        result.advances@ == pulse_advances(root_family(), *world, cached_certificate),
        result.rejects == pulse_rejects(root_family(), *world, cached_certificate),
        result.work.as_tally() == pulse_work(root_family(), *world, cached_certificate),
{
    let mut result = EngineResult {
        advances: BTreeSet::new(),
        rejects: 0,
        work: WorkCounter::default(),
    };

    let root = CandidateFamily {
        id_start: 0,
        id_end: TRANSFORMATION_COUNT,
        quantity_start: MIN_QUANTITY,
        quantity_end: MAX_QUANTITY + 1,
    };
    proof {
        lemma_pulse_work_bounded(root, *world, cached_certificate);
        lemma_family_size(root);
        lemma_count_points_bound(pulse_rejected(root, *world, cached_certificate), 0, 100, 1, 101);
        assert(result.advances@.union(pulse_advances(root, *world, cached_certificate))
            =~= pulse_advances(root, *world, cached_certificate));
    }

    resolve_family(root, world, cached_certificate, &mut result);

    result
}

/// The family of a certificate's ids at every quantity of the fixture.
pub open spec fn certificate_family(certificate: SafeIgnoranceCertificate) -> CandidateFamily {
    CandidateFamily {
        id_start: certificate.id_start,
        id_end: certificate.id_end,
        quantity_start: MIN_QUANTITY,
        quantity_end: (MAX_QUANTITY + 1) as usize,
    }
}

/// Whether a certificate is a phase A reject certificate whose ids the phase
/// A bound proves rejected at every quantity.
pub fn phase_a_certificate_is_valid(certificate: SafeIgnoranceCertificate) -> (valid: bool)
    ensures
        valid == (certificate.dependency_generation == phase_a().novelty_generation
            && certificate.decision == Decision::Reject && proven_reject_spec(
            certificate_family(certificate),
            phase_a(),
        )),
{
    let world = phase_a_world();
    let family = CandidateFamily {
        id_start: certificate.id_start,
        id_end: certificate.id_end,
        quantity_start: MIN_QUANTITY,
        quantity_end: MAX_QUANTITY + 1,
    };
    let mut work = WorkCounter::default();

    cached_certificate_matches_family(certificate, family) && certificate.dependency_generation
        == world.novelty_generation && certificate.decision == Decision::Reject
        && family_proven_reject(family, &world, &mut work)
}

/// The number of advancing candidate states of the novelty region in `world`.
pub open spec fn novelty_advances(world: World) -> nat {
    count_points(
        crate::engines::advancing(world),
        NOVELTY_REGION_START as int,
        NOVELTY_REGION_END as int,
        MIN_QUANTITY as int,
        MAX_QUANTITY + 1,
    )
}

/// Whether the novelty shock changes a decision: nothing in the novelty
/// region advances in phase A, and something does in phase B.
pub fn novelty_break_is_decision_relevant() -> (relevant: bool)
    ensures
        relevant == (novelty_advances(phase_a()) == 0 && novelty_advances(phase_b()) > 0),
{
    let phase_a = phase_a_world();
    let phase_b = phase_b_world();

    crate::engines::novelty_region_advance_count(&phase_a) == 0
        && crate::engines::novelty_region_advance_count(&phase_b) > 0
}

/// The resolving engine expands at most every candidate state of a family once.
pub proof fn lemma_exact_expansions_bounded(
    family: CandidateFamily,
    world: World,
    certificate: SafeIgnoranceCertificate,
)
    ensures
        pulse_work(family, world, certificate).exact_expansions <= family_size(family),
    decreases family.id_end - family.id_start,
{
    lemma_family_size(family);
    if !family.empty_spec() {
        match family.first_crossed_boundary() {
            Some(b) => {
                lemma_split_decisions(family, world, certificate, b);
                lemma_exact_expansions_bounded(family.below(b), world, certificate);
                lemma_exact_expansions_bounded(family.above(b), world, certificate);
            },
            None => {},
        }
    }
}

} // verus!
