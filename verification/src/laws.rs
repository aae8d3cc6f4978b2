//! What holds of the engines together: the resolving engine never advances a
//! candidate state that the ground truth rejects, it reaches exactly the
//! ground truth whenever its cached certificate is sound, every candidate
//! state is decided exactly once, and the certificates behave as issued.
use crate::counting::{
    count_points, count_row, lemma_count_points_complement, lemma_count_points_none,
    lemma_count_points_split, lemma_count_row_split, lemma_points_where_len, points_where,
};
use crate::economics::{optimistic_edge, oracle_advances, profit, proven_reject_spec};
use crate::engines::{
    advancing, advancing_unless_suppressed, family_advances, lemma_family_size, oracle_rejects,
    oracle_set, rejected,
};
use crate::model::{
    certificate_reused, novelty_family, phase_a, phase_a_certificate, phase_b, root_family,
    SafeIgnoranceCertificate, World,
};
use crate::pulse::{
    certificate_family, lemma_exact_expansions_bounded, lemma_novelty_rejected_in_phase_a,
    lemma_split_decisions, novelty_advances, pulse_advances, pulse_advancing, pulse_rejected,
    pulse_rejects, pulse_work, suppressed_by_reuse,
};
use vstd::prelude::*;

verus! {

/// Reusing the certificate in `world` loses no advancing candidate state: if
/// the resolving engine would take it as valid, nothing in the novelty region
/// advances in `world`.
pub open spec fn certificate_sound(certificate: SafeIgnoranceCertificate, world: World) -> bool {
    certificate_reused(certificate, world) ==> forall|t: int, q: int|
        #[trigger] novelty_family().holds(t, q) ==> !oracle_advances(t, q, world)
}

/// The resolving engine never advances a candidate state that the ground
/// truth rejects, whatever the world and the cached certificate.
pub proof fn law_pulse_never_advances_falsely(world: World, certificate: SafeIgnoranceCertificate)
    ensures
        pulse_advances(root_family(), world, certificate).subset_of(oracle_set(world)),
{
}

/// With a sound certificate the resolving engine decides exactly as the
/// ground truth: the same advancing set and the same number of rejections.
pub proof fn law_pulse_matches_oracle(world: World, certificate: SafeIgnoranceCertificate)
    requires
        certificate_sound(certificate, world),
    ensures
        pulse_advances(root_family(), world, certificate) == oracle_set(world),
        pulse_rejects(root_family(), world, certificate) == oracle_rejects(world),
{
    let root = root_family();
    assert forall|t: int, q: int| 0 <= t < 100 && 1 <= q < 101 implies #[trigger] pulse_rejected(
        root,
        world,
        certificate,
    )(t, q) == rejected(world)(t, q) by {
        if suppressed_by_reuse(root, world, certificate, t) {
            assert(novelty_family().holds(t, q));
        }
    }
    crate::counting::lemma_count_points_ext(
        pulse_rejected(root, world, certificate),
        rejected(world),
        0,
        100,
        1,
        101,
    );
    assert forall|k: (usize, usize)|
        pulse_advances(root, world, certificate).contains(k) == oracle_set(world).contains(k) by {
        if oracle_set(world).contains(k) && suppressed_by_reuse(root, world, certificate, k.0 as int) {
            assert(novelty_family().holds(k.0 as int, k.1 as int));
        }
    }
    assert(pulse_advances(root, world, certificate) =~= oracle_set(world));
}

/// A certificate that the resolving engine reuses suppresses exactly the
/// advancing candidate states of the novelty region, and nothing else.
pub proof fn law_reused_certificate_suppresses_novelty(
    world: World,
    certificate: SafeIgnoranceCertificate,
)
    requires
        certificate_reused(certificate, world),
    ensures
        pulse_advances(root_family(), world, certificate) == oracle_set(world).difference(
            family_advances(novelty_family(), world),
        ),
{
    assert(pulse_advances(root_family(), world, certificate) =~= oracle_set(world).difference(
        family_advances(novelty_family(), world),
    ));
}

/// A certificate of another novelty generation is never reused, so the
/// resolving engine then decides exactly as the ground truth.
pub proof fn law_generation_change_invalidates(world: World, certificate: SafeIgnoranceCertificate)
    requires
        certificate.dependency_generation != world.novelty_generation,
    ensures
        !certificate_reused(certificate, world),
        pulse_advances(root_family(), world, certificate) == oracle_set(world),
        pulse_rejects(root_family(), world, certificate) == oracle_rejects(world),
{
    law_pulse_matches_oracle(world, certificate);
}

/// While novelty is inactive nothing in the novelty region advances, so
/// every certificate is sound.
pub proof fn law_inactive_novelty_never_advances(world: World, certificate: SafeIgnoranceCertificate)
    requires
        !world.novelty_active,
    ensures
        forall|t: int, q: int| #[trigger]
            novelty_family().holds(t, q) ==> !oracle_advances(t, q, world),
        certificate_sound(certificate, world),
{
    assert forall|t: int, q: int| #[trigger] novelty_family().holds(t, q) implies !oracle_advances(
        t,
        q,
        world,
    ) by {
        assert(profit(q, 10) < 0) by (nonlinear_arith)
            requires
                profit(q, 10) == q * 10 - 1 * q * q - 100,
        ;
    }
}

/// The issued phase A certificate is valid: the phase A bound proves its
/// ids rejected at every quantity, and it is sound in phase A.
pub proof fn law_phase_a_certificate_valid()
    ensures
        proven_reject_spec(certificate_family(phase_a_certificate()), phase_a()),
        certificate_sound(phase_a_certificate(), phase_a()),
        !certificate_reused(phase_a_certificate(), phase_b()),
{
    lemma_novelty_rejected_in_phase_a();
    assert(certificate_family(phase_a_certificate()) == novelty_family());
    law_inactive_novelty_never_advances(phase_a(), phase_a_certificate());
}

/// The novelty shock is decision relevant: nothing in the novelty region
/// advances in phase A, and something does in phase B.
pub proof fn law_novelty_break_is_decision_relevant()
    ensures
        novelty_advances(phase_a()) == 0,
        novelty_advances(phase_b()) > 0,
{
    law_inactive_novelty_never_advances(phase_a(), phase_a_certificate());
    let pa = advancing(phase_a());
    assert forall|t: int, q: int| 20 <= t < 30 && 1 <= q < 101 implies !#[trigger] pa(t, q) by {
        assert(novelty_family().holds(t, q));
    }
    lemma_count_points_none(pa, 20, 30, 1, 101);

    let pb = advancing(phase_b());
    assert(profit(15, 30) == 125);
    assert(pb(20, 15));
    lemma_count_points_split(pb, 20, 21, 30, 1, 101);
    lemma_count_row_split(pb, 20, 1, 16, 101);
    assert(count_row(pb, 20, 1, 16) == count_row(pb, 20, 1, 15) + 1);
    assert(count_points(pb, 20, 21, 1, 101) == count_points(pb, 20, 20, 1, 101) + count_row(
        pb,
        20,
        1,
        101,
    ));
}

/// Suppressing by a certificate without checking its generation never
/// advances a candidate state that the ground truth rejects.
pub proof fn law_stale_suppression_never_advances_falsely(
    world: World,
    certificate: SafeIgnoranceCertificate,
)
    ensures
        points_where(advancing_unless_suppressed(world, certificate), 0, 100, 1, 101).subset_of(
            oracle_set(world),
        ),
{
}

/// The eager engine decides every candidate state exactly once: its advances
/// and its rejections add up to the whole fixture.
pub proof fn law_oracle_decides_each_state_once(world: World)
    ensures
        oracle_set(world).finite(),
        oracle_set(world).len() + oracle_rejects(world) == root_family().area(),
{
    lemma_points_where_len(advancing(world), 0, 100, 1, 101);
    lemma_count_points_complement(advancing(world), rejected(world), 0, 100, 1, 101);
}

/// The resolving engine decides every candidate state exactly once, whatever
/// the certificate: its advances and its rejections add up to the whole fixture.
pub proof fn law_pulse_decides_each_state_once(world: World, certificate: SafeIgnoranceCertificate)
    ensures
        pulse_advances(root_family(), world, certificate).finite(),
        pulse_advances(root_family(), world, certificate).len() + pulse_rejects(
            root_family(),
            world,
            certificate,
        ) == root_family().area(),
{
    let p = pulse_advancing(root_family(), world, certificate);
    lemma_points_where_len(p, 0, 100, 1, 101);
    lemma_count_points_complement(
        p,
        pulse_rejected(root_family(), world, certificate),
        0,
        100,
        1,
        101,
    );
}

/// The resolving engine expands strictly fewer candidate states than the
/// eager engine, in every world and with every certificate: the family below
/// the novelty region is always rejected by its bound.
pub proof fn law_pulse_expands_fewer_than_eager(world: World, certificate: SafeIgnoranceCertificate)
    ensures
        pulse_work(root_family(), world, certificate).exact_expansions < root_family().area(),
{
    let root = root_family();
    let low = root.below(20);
    let high = root.above(20);
    assert(root.first_crossed_boundary() == Some(20usize));
    lemma_split_decisions(root, world, certificate, 20);
    assert(optimistic_edge(low, world) == 12);
    assert forall|q: int| 1 <= q < 101 implies #[trigger] profit(q, optimistic_edge(low, world))
        <= 0 by {
        assert(q * 12 - q * q <= 36) by (nonlinear_arith);
    }
    assert(proven_reject_spec(low, world));
    assert(low.first_crossed_boundary() == None::<usize>);
    assert(pulse_work(low, world, certificate).exact_expansions == 0);
    lemma_exact_expansions_bounded(high, world, certificate);
    lemma_family_size(high);
    lemma_family_size(root);
}

} // verus!
