//! Closed forms of what the engines decide and record on this fixture, with
//! every region, edge, adjustment and certificate condition written out.
use crate::counting::{
    count_points, lemma_count_points_all, lemma_count_points_complement, lemma_count_points_ext,
    lemma_count_points_none, lemma_count_points_split, lemma_points_where_len, points_where,
};
use crate::economics::{
    decision_of, family_edge_of, is_max_profit, optimistic_edge, oracle_advances, profit, proven_reject_spec,
    unknown_bounds_of,
};
use crate::engines::{
    advancing, advancing_unless_suppressed, family_advances, family_rejects,
    not_suppressed, oracle_rejects, oracle_set, rejected, rejected_or_suppressed,
};
use crate::model::{
    phase_a, phase_a_certificate, phase_b, root_family, CandidateFamily, CandidateKey, Decision,
    SafeIgnoranceCertificate, World,
};
use crate::pulse::{
    certificate_family, lemma_split_decisions, novelty_advances, pulse_advances, pulse_rejected, pulse_rejects,
    pulse_work,
};
use vstd::prelude::*;

verus! {

/// The ground truth, written out: a candidate state `(t, q)` advances exactly
/// when `q * edge - q * q - 100 > 0`, where the edge is 24 plus -4, 0 or 4 by
/// `t % 3` (0, 1, 2) for ids 50..75, 30 for ids 20..25 while novelty is
/// active, and 10 otherwise.
pub proof fn law_ground_truth(t: int, q: int, world: World)
    ensures
        oracle_advances(t, q, world) == (q * (if 50 <= t < 75 {
            24 + if t % 3 == 0 {
                -4int
            } else if t % 3 == 1 {
                0int
            } else {
                4int
            }
        } else if world.novelty_active && 20 <= t < 25 {
            30int
        } else {
            10int
        }) - q * q - 100 > 0),
{
}

/// The visible bounds of a family depend only on the visible region that
/// holds the whole family and on whether novelty is active: (-5, 5) inside
/// ids 50..75, (-2, 20) or (-2, 2) inside ids 20..30 as novelty is active or
/// not, (-2, 2) otherwise. The optimistic edge is the region's known edge
/// (24 inside ids 50..75, 10 otherwise) plus the upper bound.
pub proof fn law_family_bounds(family: CandidateFamily, world: World)
    ensures
        unknown_bounds_of(family, world) == if 50 <= family.id_start && family.id_end <= 75 {
            (-5int, 5int)
        } else if 20 <= family.id_start && family.id_end <= 30 {
            (-2int, if world.novelty_active {
                20int
            } else {
                2int
            })
        } else {
            (-2int, 2int)
        },
        family_edge_of(family) == if 50 <= family.id_start && family.id_end <= 75 {
            24int
        } else {
            10int
        },
        optimistic_edge(family, world) == if 50 <= family.id_start && family.id_end <= 75 {
            29int
        } else if 20 <= family.id_start && family.id_end <= 30 {
            if world.novelty_active {
                30int
            } else {
                12int
            }
        } else {
            12int
        },
{
}

/// Every family rejected without expansion is counted once: the family
/// rejections are the families rejected by their bound plus those rejected by
/// reusing the certificate.
pub proof fn law_family_rejections_accounted(
    family: CandidateFamily,
    world: World,
    certificate: SafeIgnoranceCertificate,
)
    ensures
        pulse_work(family, world, certificate).family_rejections == pulse_work(
            family,
            world,
            certificate,
        ).certificates_issued + pulse_work(family, world, certificate).certificates_reused,
    decreases family.id_end - family.id_start,
{
    if !family.empty_spec() {
        match family.first_crossed_boundary() {
            Some(b) => {
                lemma_split_decisions(family, world, certificate, b);
                law_family_rejections_accounted(family.below(b), world, certificate);
                law_family_rejections_accounted(family.above(b), world, certificate);
            },
            None => {},
        }
    }
}

/// A certificate whose ids are not exactly 20..30 is never consulted: on every
/// family the resolving engine decides exactly as the ground truth and
/// reuses nothing.
pub proof fn law_inexact_certificate_never_reused(
    family: CandidateFamily,
    world: World,
    certificate: SafeIgnoranceCertificate,
)
    requires
        !(certificate.id_start == 20 && certificate.id_end == 30),
    ensures
        pulse_advances(family, world, certificate) == family_advances(family, world),
        pulse_rejects(family, world, certificate) == family_rejects(family, world),
        pulse_work(family, world, certificate).certificates_reused == 0,
        pulse_work(family, world, certificate).certificates_invalidated == 0,
    decreases family.id_end - family.id_start,
{
    let (s, e, qs, qe) = (
        family.id_start as int,
        family.id_end as int,
        family.quantity_start as int,
        family.quantity_end as int,
    );
    lemma_count_points_ext(pulse_rejected(family, world, certificate), rejected(world), s, e, qs, qe);
    assert(pulse_advances(family, world, certificate) =~= family_advances(family, world));
    if !family.empty_spec() {
        match family.first_crossed_boundary() {
            Some(b) => {
                lemma_split_decisions(family, world, certificate, b);
                law_inexact_certificate_never_reused(family.below(b), world, certificate);
                law_inexact_certificate_never_reused(family.above(b), world, certificate);
            },
            None => {},
        }
    }
}

/// Quantities at edge 12 never make a profit.
proof fn lemma_edge_twelve_rejects(family: CandidateFamily, world: World)
    requires
        optimistic_edge(family, world) == 12,
    ensures
        proven_reject_spec(family, world),
{
    assert forall|q: int|
        family.quantity_start <= q < family.quantity_end implies #[trigger] profit(q, 12) <= 0 by {
        assert(q * 12 - q * q <= 36) by (nonlinear_arith);
    }
}

/// The work the resolving engine records on the whole fixture, for every world
/// and certificate. Let `m` say that the certificate's ids are exactly 20..30,
/// `r` that moreover its generation is the world's and its decision is
/// Reject (the certificate is reused), and `n` that novelty is active. Ids
/// 0..20, 30..50 and 75..100 are rejected by their bound, ids 50..75 are
/// expanded, and ids 20..30 are rejected by the certificate when `r`,
/// expanded when `n`, and rejected by their bound otherwise; a certificate
/// with `m` but not `r` is invalidated, reactivating 1000 states.
pub proof fn law_pulse_work_on_fixture(world: World, certificate: SafeIgnoranceCertificate)
    ensures
        ({
            let w = pulse_work(root_family(), world, certificate);
            let m = certificate.id_start == 20 && certificate.id_end == 30;
            let r = m && certificate.dependency_generation == world.novelty_generation
                && certificate.decision == Decision::Reject;
            let n = world.novelty_active;
            &&& w.family_splits == 4
            &&& w.semantic_splits == 4
            &&& w.family_evaluations == if r {
                4int
            } else {
                5int
            }
            &&& w.bound_evaluations == if r {
                4int
            } else {
                5int
            }
            &&& w.family_rejections == if r || !n {
                4int
            } else {
                3int
            }
            &&& w.certificates_issued == if !r && !n {
                4int
            } else {
                3int
            }
            &&& w.certificates_reused == if r {
                1int
            } else {
                0int
            }
            &&& w.certificates_invalidated == if m && !r {
                1int
            } else {
                0int
            }
            &&& w.reactivated_points == if m && !r {
                1000int
            } else {
                0int
            }
            &&& w.exact_expansions == if !r && n {
                3500int
            } else {
                2500int
            }
            &&& w.economic_evaluations == if r {
                2504int
            } else if n {
                3505int
            } else {
                2505int
            }
            &&& w.certificate_checks == 4 + (if m {
                1int
            } else {
                0int
            }) + (if r {
                0int
            } else {
                1int
            })
            &&& w.fact_accesses == 10012 + (if m {
                1int
            } else {
                0int
            }) + (if r {
                0int
            } else if n {
                4003int
            } else {
                3int
            })
        }),
{
    let c = certificate;
    let root = root_family();
    let b1 = root.above(20);
    let b2 = b1.above(30);
    let b3 = b2.above(50);
    let l1 = root.below(20);
    let l2 = b1.below(30);
    let l3 = b2.below(50);
    let l4 = b3.below(75);
    let l5 = b3.above(75);
    assert(root.first_crossed_boundary() == Some(20usize));
    assert(b1.first_crossed_boundary() == Some(30usize));
    assert(b2.first_crossed_boundary() == Some(50usize));
    assert(b3.first_crossed_boundary() == Some(75usize));
    assert(l1.first_crossed_boundary() == None::<usize>);
    assert(l2.first_crossed_boundary() == None::<usize>);
    assert(l3.first_crossed_boundary() == None::<usize>);
    assert(l4.first_crossed_boundary() == None::<usize>);
    assert(l5.first_crossed_boundary() == None::<usize>);
    law_family_bounds(l1, world);
    law_family_bounds(l2, world);
    law_family_bounds(l3, world);
    law_family_bounds(l4, world);
    law_family_bounds(l5, world);
    lemma_edge_twelve_rejects(l1, world);
    lemma_edge_twelve_rejects(l3, world);
    lemma_edge_twelve_rejects(l5, world);
    assert(profit(14, optimistic_edge(l4, world)) > 0);
    assert(!proven_reject_spec(l4, world));
    if world.novelty_active {
        assert(profit(15, optimistic_edge(l2, world)) > 0);
        assert(!proven_reject_spec(l2, world));
    } else {
        lemma_edge_twelve_rejects(l2, world);
    }
    assert(l4.area() == 2500);
    assert(l2.area() == 1000);
    let p1 = pulse_work(l1, world, c);
    let p2 = pulse_work(l2, world, c);
    let p3 = pulse_work(l3, world, c);
    let p4 = pulse_work(l4, world, c);
    let p5 = pulse_work(l5, world, c);
    assert(pulse_work(b3, world, c) == crate::pulse::split_work().plus(p4).plus(p5));
    assert(pulse_work(b2, world, c) == crate::pulse::split_work().plus(p3).plus(
        pulse_work(b3, world, c),
    ));
    assert(pulse_work(b1, world, c) == crate::pulse::split_work().plus(p2).plus(
        pulse_work(b2, world, c),
    ));
    assert(pulse_work(root, world, c) == crate::pulse::split_work().plus(p1).plus(
        pulse_work(b1, world, c),
    ));
}

/// What the resolving engine advances on the whole fixture: every ground-truth
/// advance, except those with ids 20..30 when the certificate's ids are
/// exactly 20..30, its generation is the world's and its decision is Reject.
/// It rejects the ground-truth rejections plus, in that case, the suppressed
/// advances.
pub proof fn law_pulse_decisions_on_fixture(world: World, certificate: SafeIgnoranceCertificate)
    ensures
        ({
            let r = certificate.id_start == 20 && certificate.id_end == 30
                && certificate.dependency_generation == world.novelty_generation
                && certificate.decision == Decision::Reject;
            &&& pulse_advances(root_family(), world, certificate) == if r {
                oracle_set(world).filter(|k: CandidateKey| !(20 <= k.0 < 30))
            } else {
                oracle_set(world)
            }
            &&& pulse_rejects(root_family(), world, certificate) == oracle_rejects(world) + if r {
                count_points(advancing(world), 20, 30, 1, 101)
            } else {
                0
            }
        }),
{
    let r = certificate.id_start == 20 && certificate.id_end == 30
        && certificate.dependency_generation == world.novelty_generation
        && certificate.decision == Decision::Reject;
    let root = root_family();
    let pr = pulse_rejected(root, world, certificate);
    let rj = rejected(world);
    let ad = advancing(world);
    if r {
        assert(pulse_advances(root, world, certificate) =~= oracle_set(world).filter(
            |k: CandidateKey| !(20 <= k.0 < 30),
        ));
        lemma_count_points_split(pr, 0, 20, 100, 1, 101);
        lemma_count_points_split(pr, 20, 30, 100, 1, 101);
        lemma_count_points_split(rj, 0, 20, 100, 1, 101);
        lemma_count_points_split(rj, 20, 30, 100, 1, 101);
        lemma_count_points_ext(pr, rj, 0, 20, 1, 101);
        lemma_count_points_ext(pr, rj, 30, 100, 1, 101);
        lemma_count_points_all(pr, 20, 30, 1, 101);
        lemma_count_points_complement(ad, rj, 20, 30, 1, 101);
    } else {
        lemma_count_points_ext(pr, rj, 0, 100, 1, 101);
        assert(pulse_advances(root, world, certificate) =~= oracle_set(world));
    }
}

/// Suppression without a generation check, written out: it advances exactly
/// the ground-truth advances whose id is outside the certificate's own ids
/// (or all of them when the certificate's decision is Advance), and expands
/// the 100 quantities of every id of 0..100 outside the certificate's ids.
pub proof fn law_stale_suppression_on_fixture(world: World, certificate: SafeIgnoranceCertificate)
    ensures
        points_where(advancing_unless_suppressed(world, certificate), 0, 100, 1, 101)
            == oracle_set(world).filter(
            |k: CandidateKey|
                !(certificate.decision == Decision::Reject && certificate.id_start <= k.0
                    && k.0 < certificate.id_end),
        ),
        ({
            let lo = if certificate.id_start <= 100 {
                certificate.id_start as int
            } else {
                100int
            };
            let hi = if certificate.id_end <= lo {
                lo
            } else if certificate.id_end <= 100 {
                certificate.id_end as int
            } else {
                100int
            };
            count_points(not_suppressed(certificate), 0, 100, 1, 101) == if certificate.decision
                == Decision::Reject {
                100 * (100 - (hi - lo))
            } else {
                10000int
            }
        }),
{
    assert(points_where(advancing_unless_suppressed(world, certificate), 0, 100, 1, 101)
        =~= oracle_set(world).filter(
        |k: CandidateKey|
            !(certificate.decision == Decision::Reject && certificate.id_start <= k.0 && k.0
                < certificate.id_end),
    ));
    let x = not_suppressed(certificate);
    let lo = if certificate.id_start <= 100 {
        certificate.id_start as int
    } else {
        100int
    };
    let hi = if certificate.id_end <= lo {
        lo
    } else if certificate.id_end <= 100 {
        certificate.id_end as int
    } else {
        100int
    };
    if certificate.decision == Decision::Reject {
        lemma_count_points_split(x, 0, lo, 100, 1, 101);
        lemma_count_points_split(x, lo, hi, 100, 1, 101);
        lemma_count_points_all(x, 0, lo, 1, 101);
        lemma_count_points_none(x, lo, hi, 1, 101);
        lemma_count_points_all(x, hi, 100, 1, 101);
    } else {
        lemma_count_points_all(x, 0, 100, 1, 101);
    }
}

/// Splitting a family at an id strictly inside it partitions its candidate
/// states: each lies in exactly one part, and both parts keep the quantities.
pub proof fn law_split_partitions(family: CandidateFamily, boundary: usize)
    requires
        family.id_start < boundary < family.id_end,
    ensures
        forall|t: int, q: int|
            #[trigger] family.holds(t, q) == (family.below(boundary).holds(t, q) || family.above(
                boundary,
            ).holds(t, q)),
        forall|t: int, q: int|
            !(#[trigger] family.below(boundary).holds(t, q) && family.above(boundary).holds(t, q)),
        family.below(boundary).id_start == family.id_start,
        family.below(boundary).id_end == boundary,
        family.above(boundary).id_start == boundary,
        family.above(boundary).id_end == family.id_end,
        family.below(boundary).quantity_start == family.quantity_start,
        family.below(boundary).quantity_end == family.quantity_end,
        family.above(boundary).quantity_start == family.quantity_start,
        family.above(boundary).quantity_end == family.quantity_end,
{
}

/// The first crossed boundary is the smallest of 20, 30, 50, 75 that lies
/// strictly inside the family's ids, and there is none exactly when none does.
pub proof fn law_first_crossed_boundary(family: CandidateFamily)
    ensures
        family.first_crossed_boundary() is None <==> !(family.id_start < 20 < family.id_end) && !(
        family.id_start < 30 < family.id_end) && !(family.id_start < 50 < family.id_end) && !(
        family.id_start < 75 < family.id_end),
        family.first_crossed_boundary() matches Some(b) ==> {
            &&& b == 20 || b == 30 || b == 50 || b == 75
            &&& family.id_start < b < family.id_end
            &&& (20 < b ==> !(family.id_start < 20 < family.id_end))
            &&& (30 < b ==> !(family.id_start < 30 < family.id_end))
            &&& (50 < b ==> !(family.id_start < 50 < family.id_end))
        },
{
}

/// The ground-truth decision is Advance exactly when the state advances.
pub proof fn law_decision_matches_ground_truth(t: int, q: int, world: World)
    ensures
        (decision_of(t, q, world) == Decision::Advance) == oracle_advances(t, q, world),
        (decision_of(t, q, world) == Decision::Reject) == !oracle_advances(t, q, world),
{
}

/// The advancing states of a family are exactly its members `(t, q)` with
/// `q * edge - q * q - 100 > 0` at the ground-truth edge of `t`.
pub proof fn law_family_advances_members(family: CandidateFamily, world: World, k: CandidateKey)
    ensures
        family_advances(family, world).contains(k) == (family.holds(k.0 as int, k.1 as int)
            && oracle_advances(k.0 as int, k.1 as int, world)),
{
}

/// A value that is the largest profit over a quantity range bounds
/// `q * edge - q * q - 100` at every quantity of the range, and is attained at one.
pub proof fn law_max_profit_meaning(m: int, lo: int, hi: int, edge: int)
    requires
        is_max_profit(m, lo, hi, edge),
    ensures
        forall|q: int| lo <= q <= hi ==> #[trigger] (q * edge - q * q - 100) <= m,
        exists|q: int| lo <= q <= hi && #[trigger] (q * edge - q * q - 100) == m,
{
    assert forall|q: int| lo <= q <= hi implies #[trigger] (q * edge - q * q - 100) <= m by {
        assert(profit(q, edge) <= m);
    }
    let q = choose|q: int| lo <= q <= hi && profit(q, edge) == m;
    assert(q * edge - q * q - 100 == m);
}

/// A family is proven rejected exactly when the largest optimistic profit
/// over its quantities is not positive.
pub proof fn law_proven_reject_iff_bound_not_positive(
    family: CandidateFamily,
    world: World,
    m: int,
)
    requires
        family.quantity_start < family.quantity_end,
        is_max_profit(
            m,
            family.quantity_start as int,
            family.quantity_end - 1,
            optimistic_edge(family, world),
        ),
    ensures
        proven_reject_spec(family, world) == (m <= 0),
{
    let e = optimistic_edge(family, world);
    if m > 0 {
        let q = choose|q: int|
            family.quantity_start <= q <= family.quantity_end - 1 && profit(q, e) == m;
        assert(profit(q, e) > 0);
    } else {
        assert forall|q: int|
            family.quantity_start <= q < family.quantity_end implies #[trigger] profit(q, e)
            <= 0 by {
            assert(profit(q, e) <= m);
        }
    }
}

/// Suppression without a generation check decides every state once: its
/// advances and its rejections add up to the whole fixture.
pub proof fn law_stale_suppression_decides_each_state_once(
    world: World,
    certificate: SafeIgnoranceCertificate,
)
    ensures
        points_where(advancing_unless_suppressed(world, certificate), 0, 100, 1, 101).len()
            + count_points(rejected_or_suppressed(world, certificate), 0, 100, 1, 101) == 10000,
{
    lemma_points_where_len(advancing_unless_suppressed(world, certificate), 0, 100, 1, 101);
    lemma_count_points_complement(
        advancing_unless_suppressed(world, certificate),
        rejected_or_suppressed(world, certificate),
        0,
        100,
        1,
        101,
    );
}

/// A certificate is valid for phase A exactly when it is a Reject certificate
/// of generation 1 whose ids do not lie inside 50..75 (there the bound admits
/// a profit; everywhere else in phase A the optimistic edge is 12).
pub proof fn law_phase_a_validity(certificate: SafeIgnoranceCertificate)
    ensures
        (certificate.dependency_generation == phase_a().novelty_generation
            && certificate.decision == Decision::Reject && proven_reject_spec(
            certificate_family(certificate),
            phase_a(),
        )) == (certificate.dependency_generation == 1 && certificate.decision == Decision::Reject
            && !(50 <= certificate.id_start && certificate.id_end <= 75)),
{
    let f = certificate_family(certificate);
    law_family_bounds(f, phase_a());
    if 50 <= certificate.id_start && certificate.id_end <= 75 {
        assert(profit(14, optimistic_edge(f, phase_a())) > 0);
    } else {
        lemma_edge_twelve_rejects(f, phase_a());
    }
}

/// The two fixture worlds and the issued certificate, written out.
pub proof fn law_fixture_worlds()
    ensures
        phase_a() == (World { novelty_generation: 1, novelty_active: false }),
        phase_b() == (World { novelty_generation: 2, novelty_active: true }),
        phase_a_certificate() == (SafeIgnoranceCertificate {
            id_start: 20,
            id_end: 30,
            dependency_generation: 1,
            decision: Decision::Reject,
        }),
        root_family() == (CandidateFamily {
            id_start: 0,
            id_end: 100,
            quantity_start: 1,
            quantity_end: 101,
        }),
{
}

/// The novelty count is the number of ground-truth advances with ids 20..30.
pub proof fn law_novelty_count_is_novelty_advances(world: World)
    ensures
        novelty_advances(world) == oracle_set(world).filter(|k: CandidateKey| 20 <= k.0 < 30).len(),
{
    lemma_points_where_len(advancing(world), 20, 30, 1, 101);
    assert(points_where(advancing(world), 20, 30, 1, 101) =~= oracle_set(world).filter(
        |k: CandidateKey| 20 <= k.0 < 30,
    ));
}

} // verus!
