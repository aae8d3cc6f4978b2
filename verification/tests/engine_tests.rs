use std::collections::BTreeSet;

use lib::engines::{
    evaluate_exact, novelty_region_advance_count, resolve_exact_family, run_eager, run_oracle,
    run_unsafe_stale_suppression,
};
use lib::model::{
    CandidateFamily, CandidateKey, Decision, EngineResult, SafeIgnoranceCertificate, WorkCounter,
};
use lib::pulse::{
    cached_certificate_matches_family, family_crosses_boundary, is_exact_novelty_family,
    issue_phase_a_certificate, next_semantic_boundary, novelty_break_is_decision_relevant,
    phase_a_certificate_is_valid, phase_a_world, phase_b_world, resolve_family, run_pulse,
    split_family_at_id,
};

fn family(id_start: usize, id_end: usize, quantity_start: usize, quantity_end: usize) -> CandidateFamily {
    CandidateFamily { id_start, id_end, quantity_start, quantity_end }
}

fn empty_result() -> EngineResult {
    EngineResult { advances: BTreeSet::new(), rejects: 0, work: WorkCounter::default() }
}

fn certificate(generation: u64, decision: Decision) -> SafeIgnoranceCertificate {
    SafeIgnoranceCertificate { id_start: 20, id_end: 30, dependency_generation: generation, decision }
}

#[test]
fn family_counts_and_emptiness() {
    assert_eq!(family(0, 100, 1, 101).point_count(), 10000);
    assert_eq!(family(20, 30, 5, 7).point_count(), 20);
    assert!(!family(0, 1, 1, 2).is_empty());
    assert!(family(3, 3, 1, 2).is_empty());
    assert!(family(0, 1, 2, 2).is_empty());
    assert!(family(5, 3, 1, 2).is_empty());
}

#[test]
fn semantic_boundaries() {
    assert!(family_crosses_boundary(family(0, 100, 1, 101), 20));
    assert!(!family_crosses_boundary(family(20, 100, 1, 101), 20));
    assert!(!family_crosses_boundary(family(0, 20, 1, 101), 20));
    assert_eq!(next_semantic_boundary(family(0, 100, 1, 101)), Some(20));
    assert_eq!(next_semantic_boundary(family(20, 100, 1, 101)), Some(30));
    assert_eq!(next_semantic_boundary(family(30, 100, 1, 101)), Some(50));
    assert_eq!(next_semantic_boundary(family(50, 100, 1, 101)), Some(75));
    assert_eq!(next_semantic_boundary(family(75, 100, 1, 101)), None);
    assert_eq!(next_semantic_boundary(family(60, 100, 1, 101)), Some(75));
    assert_eq!(next_semantic_boundary(family(25, 28, 1, 101)), None);
}

#[test]
fn splitting_a_family() {
    let (left, right) = split_family_at_id(family(10, 40, 3, 9), 20);
    assert_eq!((left.id_start, left.id_end, left.quantity_start, left.quantity_end), (10, 20, 3, 9));
    assert_eq!(
        (right.id_start, right.id_end, right.quantity_start, right.quantity_end),
        (20, 40, 3, 9)
    );
}

#[test]
fn novelty_family_and_certificate_matching() {
    assert!(is_exact_novelty_family(family(20, 30, 1, 101)));
    assert!(!is_exact_novelty_family(family(20, 31, 1, 101)));
    assert!(cached_certificate_matches_family(certificate(1, Decision::Reject), family(20, 30, 7, 8)));
    assert!(!cached_certificate_matches_family(certificate(1, Decision::Reject), family(20, 29, 7, 8)));
}

#[test]
fn issued_certificate_is_valid_in_phase_a() {
    let c = issue_phase_a_certificate();
    assert_eq!((c.id_start, c.id_end, c.dependency_generation), (20, 30, 1));
    assert_eq!(c.decision, Decision::Reject);
    assert!(phase_a_certificate_is_valid(c));
    assert!(!phase_a_certificate_is_valid(certificate(2, Decision::Reject)));
    assert!(!phase_a_certificate_is_valid(certificate(1, Decision::Advance)));
    let sensitive = SafeIgnoranceCertificate {
        id_start: 50,
        id_end: 75,
        dependency_generation: 1,
        decision: Decision::Reject,
    };
    assert!(!phase_a_certificate_is_valid(sensitive));
}

#[test]
fn evaluate_exact_records_one_expansion() {
    let mut work = WorkCounter::default();
    assert_eq!(evaluate_exact(20, 15, &phase_b_world(), &mut work), Decision::Advance);
    assert_eq!(work.exact_expansions, 1);
    assert_eq!(work.economic_evaluations, 1);
    assert_eq!(work.fact_accesses, 4);
    assert_eq!(work.bound_evaluations, 0);
}

#[test]
fn oracle_advance_counts() {
    assert_eq!(run_oracle(&phase_a_world()).len(), 275);
    let b = run_oracle(&phase_b_world());
    assert_eq!(b.len(), 390);
    assert!(b.contains(&(20, 15)));
    assert!(!b.contains(&(25, 15)));
    assert!(!b.contains(&(0, 5)));
}

#[test]
fn novelty_counts_and_relevance() {
    assert_eq!(novelty_region_advance_count(&phase_a_world()), 0);
    assert_eq!(novelty_region_advance_count(&phase_b_world()), 115);
    assert!(novelty_break_is_decision_relevant());
}

#[test]
fn eager_matches_oracle() {
    let world = phase_b_world();
    let eager = run_eager(&world);
    assert_eq!(eager.advances, run_oracle(&world));
    assert_eq!(eager.rejects, 9610);
    assert_eq!(eager.advances.len() + eager.rejects, 10000);
    assert_eq!(eager.work.exact_expansions, 10000);
    assert_eq!(eager.work.economic_evaluations, 10000);
    assert_eq!(eager.work.fact_accesses, 40000);
    assert_eq!(eager.work.family_evaluations, 0);
    assert_eq!(eager.work.certificate_checks, 0);
}

#[test]
fn pulse_matches_oracle_after_the_novelty_shock() {
    let world = phase_b_world();
    let certificate = issue_phase_a_certificate();
    let pulse = run_pulse(&world, certificate);
    let eager = run_eager(&world);
    assert_eq!(pulse.advances, run_oracle(&world));
    assert_eq!(pulse.advances, eager.advances);
    assert_eq!(pulse.rejects, eager.rejects);
    assert_eq!(pulse.advances.len() + pulse.rejects, 10000);
    let w = &pulse.work;
    assert_eq!(w.family_splits, 4);
    assert_eq!(w.semantic_splits, 4);
    assert_eq!(w.family_evaluations, 5);
    assert_eq!(w.bound_evaluations, 5);
    assert_eq!(w.certificate_checks, 6);
    assert_eq!(w.certificates_invalidated, 1);
    assert_eq!(w.reactivated_points, 1000);
    assert_eq!(w.certificates_issued, 3);
    assert_eq!(w.certificates_reused, 0);
    assert_eq!(w.family_rejections, 3);
    assert_eq!(w.exact_expansions, 3500);
    assert_eq!(w.economic_evaluations, 3505);
    assert_eq!(w.fact_accesses, 14016);
    assert!(w.exact_expansions < eager.work.exact_expansions);
}

#[test]
fn pulse_reuses_a_sound_certificate_in_phase_a() {
    let world = phase_a_world();
    let pulse = run_pulse(&world, issue_phase_a_certificate());
    assert_eq!(pulse.advances, run_oracle(&world));
    assert_eq!(pulse.rejects, 9725);
    assert_eq!(pulse.work.certificates_reused, 1);
    assert_eq!(pulse.work.certificates_invalidated, 0);
    assert_eq!(pulse.work.exact_expansions, 2500);
    assert_eq!(pulse.work.fact_accesses, 10013);
}

#[test]
fn a_wrongly_current_certificate_suppresses_the_novelty_advances() {
    let world = phase_b_world();
    let pulse = run_pulse(&world, certificate(2, Decision::Reject));
    let oracle = run_oracle(&world);
    assert_eq!(pulse.advances.len(), 275);
    assert!(pulse.advances.is_subset(&oracle));
    let expected: BTreeSet<CandidateKey> =
        oracle.iter().copied().filter(|k| !(20..30).contains(&k.0)).collect();
    assert_eq!(pulse.advances, expected);
    assert_eq!(pulse.rejects, 9725);
}

#[test]
fn an_advance_certificate_is_never_reused() {
    let world = phase_b_world();
    let pulse = run_pulse(&world, certificate(2, Decision::Advance));
    assert_eq!(pulse.advances, run_oracle(&world));
    assert_eq!(pulse.work.certificates_invalidated, 1);
}

#[test]
fn unsafe_stale_suppression_loses_advances() {
    let world = phase_b_world();
    let oracle = run_oracle(&world);
    let unsafe_result = run_unsafe_stale_suppression(&world, issue_phase_a_certificate());
    assert_eq!(unsafe_result.stale_suppressed_points, 1000);
    assert_eq!(unsafe_result.exact_expansions, 9000);
    assert_eq!(unsafe_result.advances.len(), 275);
    assert_eq!(unsafe_result.rejects, 9725);
    assert_eq!(oracle.difference(&unsafe_result.advances).count(), 115);
    assert_eq!(unsafe_result.advances.difference(&oracle).count(), 0);
}

#[test]
fn unsafe_suppression_by_an_advance_certificate_suppresses_nothing() {
    let world = phase_b_world();
    let unsafe_result = run_unsafe_stale_suppression(&world, certificate(1, Decision::Advance));
    assert_eq!(unsafe_result.advances, run_oracle(&world));
    assert_eq!(unsafe_result.exact_expansions, 10000);
    assert_eq!(unsafe_result.stale_suppressed_points, 1000);
}

#[test]
fn resolving_small_families() {
    let world = phase_b_world();
    let mut result = empty_result();
    resolve_exact_family(family(20, 22, 14, 17), &world, &mut result);
    assert_eq!(result.advances.len(), 6);
    assert_eq!(result.rejects, 0);
    assert_eq!(result.work.exact_expansions, 6);

    let mut result = empty_result();
    resolve_exact_family(family(5, 5, 1, 101), &world, &mut result);
    assert!(result.advances.is_empty());
    assert_eq!(result.work.exact_expansions, 0);

    let mut result = empty_result();
    resolve_family(family(3, 3, 1, 101), &world, issue_phase_a_certificate(), &mut result);
    assert!(result.advances.is_empty());
    assert_eq!(result.rejects, 0);
    assert_eq!(result.work.certificate_checks, 0);

    let mut result = empty_result();
    resolve_family(family(10, 40, 1, 101), &world, issue_phase_a_certificate(), &mut result);
    let expected: BTreeSet<CandidateKey> =
        run_oracle(&world).into_iter().filter(|k| (10..40).contains(&k.0)).collect();
    assert_eq!(result.advances, expected);
    assert_eq!(result.advances.len() + result.rejects, 3000);
    assert_eq!(result.work.family_splits, 2);
}
