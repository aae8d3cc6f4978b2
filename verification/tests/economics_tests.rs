use lib::economics::{
    actual_unknown_adjustment, base_edge, family_base_edge, family_optimistic_profit_upper_bound,
    family_proven_reject, in_novelty_region, in_region, in_sensitive_region, oracle_decision,
    optimistic_profit_at_quantity, profit_with_adjustment, unknown_bounds_for_family,
};
use lib::model::{CandidateFamily, Decision, WorkCounter};
use lib::pulse::{phase_a_world, phase_b_world};

fn family(id_start: usize, id_end: usize, quantity_start: usize, quantity_end: usize) -> CandidateFamily {
    CandidateFamily { id_start, id_end, quantity_start, quantity_end }
}

fn is_zero(w: &WorkCounter) -> bool {
    w.family_evaluations == 0
        && w.family_splits == 0
        && w.semantic_splits == 0
        && w.family_rejections == 0
        && w.exact_expansions == 0
        && w.economic_evaluations == 0
        && w.bound_evaluations == 0
        && w.fact_accesses == 0
        && w.certificate_checks == 0
        && w.certificates_issued == 0
        && w.certificates_reused == 0
        && w.certificates_invalidated == 0
        && w.reactivated_points == 0
}

#[test]
fn work_counter_default_is_zero() {
    assert!(is_zero(&WorkCounter::default()));
}

#[test]
fn phase_worlds() {
    let a = phase_a_world();
    let b = phase_b_world();
    assert_eq!(a.novelty_generation, 1);
    assert!(!a.novelty_active);
    assert_eq!(b.novelty_generation, 2);
    assert!(b.novelty_active);
}

#[test]
fn region_membership_is_half_open() {
    assert!(in_region(5, 5, 10));
    assert!(in_region(9, 5, 10));
    assert!(!in_region(10, 5, 10));
    assert!(!in_region(4, 5, 10));
    assert!(!in_novelty_region(19));
    assert!(in_novelty_region(20));
    assert!(in_novelty_region(29));
    assert!(!in_novelty_region(30));
    assert!(!in_sensitive_region(49));
    assert!(in_sensitive_region(50));
    assert!(in_sensitive_region(74));
    assert!(!in_sensitive_region(75));
}

#[test]
fn base_edges() {
    assert_eq!(base_edge(0), 10);
    assert_eq!(base_edge(49), 10);
    assert_eq!(base_edge(50), 24);
    assert_eq!(base_edge(74), 24);
    assert_eq!(base_edge(75), 10);
}

#[test]
fn hidden_adjustments() {
    let a = phase_a_world();
    let b = phase_b_world();
    assert_eq!(actual_unknown_adjustment(20, &a), 0);
    assert_eq!(actual_unknown_adjustment(20, &b), 20);
    assert_eq!(actual_unknown_adjustment(24, &b), 20);
    assert_eq!(actual_unknown_adjustment(25, &b), 0);
    assert_eq!(actual_unknown_adjustment(51, &a), -4);
    assert_eq!(actual_unknown_adjustment(52, &a), 0);
    assert_eq!(actual_unknown_adjustment(53, &b), 4);
    assert_eq!(actual_unknown_adjustment(0, &b), 0);
    assert_eq!(actual_unknown_adjustment(99, &b), 0);
}

#[test]
fn visible_bounds_of_families() {
    let a = phase_a_world();
    let b = phase_b_world();
    assert_eq!(unknown_bounds_for_family(family(50, 75, 1, 101), &a), (-5, 5));
    assert_eq!(unknown_bounds_for_family(family(20, 30, 1, 101), &a), (-2, 2));
    assert_eq!(unknown_bounds_for_family(family(20, 30, 1, 101), &b), (-2, 20));
    assert_eq!(unknown_bounds_for_family(family(0, 20, 1, 101), &b), (-2, 2));
    assert_eq!(unknown_bounds_for_family(family(0, 100, 1, 101), &b), (-2, 2));
    assert_eq!(family_base_edge(family(50, 75, 1, 101)), 24);
    assert_eq!(family_base_edge(family(49, 75, 1, 101)), 10);
}

#[test]
fn profit_formula() {
    assert_eq!(profit_with_adjustment(0, 5, 0), -75);
    assert_eq!(profit_with_adjustment(20, 15, 20), 125);
    assert_eq!(profit_with_adjustment(53, 14, 4), 96);
    assert_eq!(optimistic_profit_at_quantity(15, 30), 125);
    assert_eq!(optimistic_profit_at_quantity(0, 30), -100);
}

#[test]
fn oracle_decisions() {
    let a = phase_a_world();
    let b = phase_b_world();
    assert_eq!(oracle_decision(20, 15, &b), Decision::Advance);
    assert_eq!(oracle_decision(20, 15, &a), Decision::Reject);
    assert_eq!(oracle_decision(20, 4, &b), Decision::Advance);
    assert_eq!(oracle_decision(20, 3, &b), Decision::Reject);
    assert_eq!(oracle_decision(20, 26, &b), Decision::Advance);
    assert_eq!(oracle_decision(20, 27, &b), Decision::Reject);
    assert_eq!(oracle_decision(25, 15, &b), Decision::Reject);
    assert_eq!(oracle_decision(51, 10, &b), Decision::Reject);
    assert_eq!(oracle_decision(52, 6, &a), Decision::Advance);
    assert_eq!(oracle_decision(0, 5, &b), Decision::Reject);
}

#[test]
fn upper_bound_is_the_largest_optimistic_profit() {
    let a = phase_a_world();
    let b = phase_b_world();
    let mut work = WorkCounter::default();
    assert_eq!(family_optimistic_profit_upper_bound(family(20, 30, 1, 101), &a, &mut work), -64);
    assert_eq!(work.family_evaluations, 1);
    assert_eq!(work.economic_evaluations, 1);
    assert_eq!(work.bound_evaluations, 1);
    assert_eq!(work.fact_accesses, 3);
    assert_eq!(work.exact_expansions, 0);
    assert_eq!(family_optimistic_profit_upper_bound(family(20, 30, 1, 101), &b, &mut work), 125);
    assert_eq!(family_optimistic_profit_upper_bound(family(50, 75, 1, 101), &b, &mut work), 110);
    assert_eq!(work.family_evaluations, 3);
    assert_eq!(work.fact_accesses, 9);
    // The vertex lies below the range: the bound is taken at the first quantity.
    assert_eq!(family_optimistic_profit_upper_bound(family(20, 30, 40, 50), &b, &mut work), -500);
    // The vertex lies above the range: the bound is taken at the last quantity.
    assert_eq!(family_optimistic_profit_upper_bound(family(20, 30, 1, 3), &b, &mut work), -44);
    // A single quantity.
    assert_eq!(family_optimistic_profit_upper_bound(family(0, 1, 7, 8), &a, &mut work), -65);
}

#[test]
fn proven_rejections() {
    let a = phase_a_world();
    let b = phase_b_world();
    let mut work = WorkCounter::default();
    assert!(family_proven_reject(family(20, 30, 1, 101), &a, &mut work));
    assert!(!family_proven_reject(family(20, 30, 1, 101), &b, &mut work));
    assert!(family_proven_reject(family(0, 20, 1, 101), &b, &mut work));
    assert!(!family_proven_reject(family(50, 75, 1, 101), &a, &mut work));
    assert_eq!(work.bound_evaluations, 4);
}

#[test]
fn upper_bound_equals_brute_force_maximum() {
    for world in [phase_a_world(), phase_b_world()] {
        for (id_start, id_end) in [(0, 20), (20, 30), (30, 50), (50, 75), (75, 100), (22, 27), (0, 100)] {
            for (quantity_start, quantity_end) in [(1, 101), (1, 2), (0, 5), (3, 9), (14, 16), (40, 60)] {
                let f = family(id_start, id_end, quantity_start, quantity_end);
                let (_, upper) = unknown_bounds_for_family(f, &world);
                let edge = family_base_edge(f) + upper;
                let best = (quantity_start..quantity_end)
                    .map(|q| optimistic_profit_at_quantity(q, edge))
                    .max()
                    .unwrap();
                let mut work = WorkCounter::default();
                assert_eq!(family_optimistic_profit_upper_bound(f, &world, &mut work), best);
            }
        }
    }
}

#[test]
fn proven_rejection_of_a_region_leaves_no_advances_in_it() {
    let b = phase_b_world();
    let mut work = WorkCounter::default();
    assert!(family_proven_reject(family(0, 20, 1, 101), &b, &mut work));
    for t in 0..20 {
        for q in 1..=100 {
            assert_eq!(oracle_decision(t, q, &b), Decision::Reject);
        }
    }
}
