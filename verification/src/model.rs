//! The fixture's constants, the data the engines share, and the work tally.
use std::collections::BTreeSet;
use vstd::prelude::*;

verus! {

/// Number of transformations in the fixture; ids run over `0..TRANSFORMATION_COUNT`.
pub const TRANSFORMATION_COUNT: usize = 100;

/// Smallest quantity of a candidate state.
pub const MIN_QUANTITY: usize = 1;

/// Largest quantity of a candidate state (inclusive).
pub const MAX_QUANTITY: usize = 100;

/// First id of the novelty region.
pub const NOVELTY_REGION_START: usize = 20;

/// End (exclusive) of the novelty region.
pub const NOVELTY_REGION_END: usize = 30;

/// Ids of the novelty region below this split gain the full novelty edge once novelty is active.
pub const NOVELTY_ACTIVE_SPLIT: usize = 25;

/// First id of the sensitive region.
pub const SENSITIVE_REGION_START: usize = 50;

/// End (exclusive) of the sensitive region.
pub const SENSITIVE_REGION_END: usize = 75;

/// Base edge outside the sensitive region.
pub const SAFE_BASE_EDGE: i64 = 10;

/// Base edge inside the sensitive region.
pub const SENSITIVE_BASE_EDGE: i64 = 24;

/// Market impact per unit of quantity squared.
pub const IMPACT: i64 = 1;

/// Fixed cost of every candidate state.
pub const FIXED_COST: i64 = 100;

/// Lower bound of the unknown adjustment outside the special regions.
pub const SAFE_UNKNOWN_MIN: i64 = -2;

/// Upper bound of the unknown adjustment outside the special regions.
pub const SAFE_UNKNOWN_MAX: i64 = 2;

/// Upper bound of the unknown adjustment of the novelty region while novelty is active.
pub const NOVELTY_UNKNOWN_MAX: i64 = 20;

/// Lower bound of the unknown adjustment of the sensitive region.
pub const SENSITIVE_UNKNOWN_MIN: i64 = -5;

/// Upper bound of the unknown adjustment of the sensitive region.
pub const SENSITIVE_UNKNOWN_MAX: i64 = 5;

/// Largest quantity whose square fits in an `i64`: profits are computed in
/// `i64`, so a quantity that is evaluated must not exceed it.
pub const MAX_EVALUABLE_QUANTITY: usize = 3_037_000_499;

/// What an engine decides for one candidate state.
#[derive(Debug, Clone, Copy, PartialEq, Eq, Structural)]
pub enum Decision {
    Advance,
    Reject,
}

/// A candidate state, `(transformation_id, quantity)`; the engines record the
/// advancing ones in a set ordered by this pair.
pub type CandidateKey = (usize, usize);

/// The visible state of the world: which novelty generation is current and
/// whether the novelty shock is active.
#[derive(Debug, Clone, Copy)]
pub struct World {
    pub novelty_generation: u64,
    pub novelty_active: bool,
}

/// A rectangle of candidate states: ids `id_start..id_end` times quantities
/// `quantity_start..quantity_end`.
#[derive(Debug, Clone, Copy)]
pub struct CandidateFamily {
    pub id_start: usize,
    pub id_end: usize,
    pub quantity_start: usize,
    pub quantity_end: usize,
}

/// A cached claim that a range of ids is rejected, valid for one novelty generation.
#[derive(Debug, Clone, Copy)]
pub struct SafeIgnoranceCertificate {
    pub id_start: usize,
    pub id_end: usize,
    pub dependency_generation: u64,
    pub decision: Decision,
}

/// Counts of the logical work an engine performed.
#[derive(Debug, Clone)]
pub struct WorkCounter {
    pub family_evaluations: u64,
    pub family_splits: u64,
    pub semantic_splits: u64,
    pub family_rejections: u64,
    pub exact_expansions: u64,
    pub economic_evaluations: u64,
    pub bound_evaluations: u64,
    pub fact_accesses: u64,
    pub certificate_checks: u64,
    pub certificates_issued: u64,
    pub certificates_reused: u64,
    pub certificates_invalidated: u64,
    pub reactivated_points: u64,
}

/// The decisions and work of an engine run.
#[derive(Debug)]
pub struct EngineResult {
    pub advances: BTreeSet<CandidateKey>,
    pub rejects: usize,
    pub work: WorkCounter,
}

/// The outcome of suppressing ids by a certificate without checking its generation.
#[derive(Debug)]
pub struct UnsafeResult {
    pub advances: BTreeSet<CandidateKey>,
    pub rejects: usize,
    pub exact_expansions: u64,
    pub stale_suppressed_points: usize,
}

/// An amount of work, one mathematical integer per counter of `WorkCounter`.
pub struct WorkTally {
    pub family_evaluations: int,
    pub family_splits: int,
    pub semantic_splits: int,
    pub family_rejections: int,
    pub exact_expansions: int,
    pub economic_evaluations: int,
    pub bound_evaluations: int,
    pub fact_accesses: int,
    pub certificate_checks: int,
    pub certificates_issued: int,
    pub certificates_reused: int,
    pub certificates_invalidated: int,
    pub reactivated_points: int,
}

impl WorkTally {
    pub open spec fn zero() -> WorkTally {
        WorkTally {
            family_evaluations: 0,
            family_splits: 0,
            semantic_splits: 0,
            family_rejections: 0,
            exact_expansions: 0,
            economic_evaluations: 0,
            bound_evaluations: 0,
            fact_accesses: 0,
            certificate_checks: 0,
            certificates_issued: 0,
            certificates_reused: 0,
            certificates_invalidated: 0,
            reactivated_points: 0,
        }
    }

    pub open spec fn plus(self, o: WorkTally) -> WorkTally {
        WorkTally {
            family_evaluations: self.family_evaluations + o.family_evaluations,
            family_splits: self.family_splits + o.family_splits,
            semantic_splits: self.semantic_splits + o.semantic_splits,
            family_rejections: self.family_rejections + o.family_rejections,
            exact_expansions: self.exact_expansions + o.exact_expansions,
            economic_evaluations: self.economic_evaluations + o.economic_evaluations,
            bound_evaluations: self.bound_evaluations + o.bound_evaluations,
            fact_accesses: self.fact_accesses + o.fact_accesses,
            certificate_checks: self.certificate_checks + o.certificate_checks,
            certificates_issued: self.certificates_issued + o.certificates_issued,
            certificates_reused: self.certificates_reused + o.certificates_reused,
            certificates_invalidated: self.certificates_invalidated + o.certificates_invalidated,
            reactivated_points: self.reactivated_points + o.reactivated_points,
        }
    }

    /// Each counter is non-negative.
    pub open spec fn nonnegative(self) -> bool {
        &&& self.family_evaluations >= 0
        &&& self.family_splits >= 0
        &&& self.semantic_splits >= 0
        &&& self.family_rejections >= 0
        &&& self.exact_expansions >= 0
        &&& self.economic_evaluations >= 0
        &&& self.bound_evaluations >= 0
        &&& self.fact_accesses >= 0
        &&& self.certificate_checks >= 0
        &&& self.certificates_issued >= 0
        &&& self.certificates_reused >= 0
        &&& self.certificates_invalidated >= 0
        &&& self.reactivated_points >= 0
    }

    /// The work of one exact evaluation of `n` candidate states.
    pub open spec fn exact(n: int) -> WorkTally {
        WorkTally {
            exact_expansions: n,
            economic_evaluations: n,
            fact_accesses: 4 * n,
            ..WorkTally::zero()
        }
    }

    /// The work of evaluating one family's optimistic bound.
    pub open spec fn bound() -> WorkTally {
        WorkTally {
            family_evaluations: 1,
            economic_evaluations: 1,
            bound_evaluations: 1,
            fact_accesses: 3,
            ..WorkTally::zero()
        }
    }
}

impl WorkCounter {
    /// Every counter is zero.
    pub open spec fn is_zero(self) -> bool {
        self.as_tally() == WorkTally::zero()
    }

    /// The counters as integers.
    pub open spec fn as_tally(self) -> WorkTally {
        WorkTally {
            family_evaluations: self.family_evaluations as int,
            family_splits: self.family_splits as int,
            semantic_splits: self.semantic_splits as int,
            family_rejections: self.family_rejections as int,
            exact_expansions: self.exact_expansions as int,
            economic_evaluations: self.economic_evaluations as int,
            bound_evaluations: self.bound_evaluations as int,
            fact_accesses: self.fact_accesses as int,
            certificate_checks: self.certificate_checks as int,
            certificates_issued: self.certificates_issued as int,
            certificates_reused: self.certificates_reused as int,
            certificates_invalidated: self.certificates_invalidated as int,
            reactivated_points: self.reactivated_points as int,
        }
    }

    /// Adding `t` to every counter stays within `u64`.
    pub open spec fn has_room_for(self, t: WorkTally) -> bool {
        let s = self.as_tally().plus(t);
        &&& s.family_evaluations <= u64::MAX
        &&& s.family_splits <= u64::MAX
        &&& s.semantic_splits <= u64::MAX
        &&& s.family_rejections <= u64::MAX
        &&& s.exact_expansions <= u64::MAX
        &&& s.economic_evaluations <= u64::MAX
        &&& s.bound_evaluations <= u64::MAX
        &&& s.fact_accesses <= u64::MAX
        &&& s.certificate_checks <= u64::MAX
        &&& s.certificates_issued <= u64::MAX
        &&& s.certificates_reused <= u64::MAX
        &&& s.certificates_invalidated <= u64::MAX
        &&& s.reactivated_points <= u64::MAX
    }

    /// `later` holds exactly this counter's work plus `t`.
    pub open spec fn advanced_by(self, later: WorkCounter, t: WorkTally) -> bool {
        later.as_tally() == self.as_tally().plus(t)
    }
}

impl Default for WorkCounter {
    fn default() -> (w: WorkCounter)
        ensures
            w.is_zero(),
    {
        WorkCounter {
            family_evaluations: 0,
            family_splits: 0,
            semantic_splits: 0,
            family_rejections: 0,
            exact_expansions: 0,
            economic_evaluations: 0,
            bound_evaluations: 0,
            fact_accesses: 0,
            certificate_checks: 0,
            certificates_issued: 0,
            certificates_reused: 0,
            certificates_invalidated: 0,
            reactivated_points: 0,
        }
    }
}

impl CandidateFamily {
    /// The family holds the candidate state `(t, q)`.
    pub open spec fn holds(self, t: int, q: int) -> bool {
        &&& self.id_start <= t < self.id_end
        &&& self.quantity_start <= q < self.quantity_end
    }

    /// The family holds no candidate state.
    pub open spec fn empty_spec(self) -> bool {
        self.id_start >= self.id_end || self.quantity_start >= self.quantity_end
    }

    /// The number of candidate states of a family whose ranges are not reversed.
    pub open spec fn area(self) -> int {
        (self.id_end - self.id_start) * (self.quantity_end - self.quantity_start)
    }

    /// The family's ids cross `boundary`: some id lies below it and some at or above it.
    pub open spec fn crosses(self, boundary: int) -> bool {
        self.id_start < boundary && self.id_end > boundary
    }

    /// The family crosses none of the semantic region boundaries.
    pub open spec fn is_leaf(self) -> bool {
        &&& !self.crosses(NOVELTY_REGION_START as int)
        &&& !self.crosses(NOVELTY_REGION_END as int)
        &&& !self.crosses(SENSITIVE_REGION_START as int)
        &&& !self.crosses(SENSITIVE_REGION_END as int)
    }

    /// The first semantic boundary, in the order novelty start, novelty end,
    /// sensitive start, sensitive end, that the family crosses.
    pub open spec fn first_crossed_boundary(self) -> Option<usize> {
        if self.crosses(NOVELTY_REGION_START as int) {
            Some(NOVELTY_REGION_START)
        } else if self.crosses(NOVELTY_REGION_END as int) {
            Some(NOVELTY_REGION_END)
        } else if self.crosses(SENSITIVE_REGION_START as int) {
            Some(SENSITIVE_REGION_START)
        } else if self.crosses(SENSITIVE_REGION_END as int) {
            Some(SENSITIVE_REGION_END)
        } else {
            None
        }
    }

    /// The part of the family below `boundary`.
    pub open spec fn below(self, boundary: usize) -> CandidateFamily {
        CandidateFamily { id_end: boundary, ..self }
    }

    /// The part of the family at or above `boundary`.
    pub open spec fn above(self, boundary: usize) -> CandidateFamily {
        CandidateFamily { id_start: boundary, ..self }
    }

    /// The family's ids are exactly the novelty region.
    pub open spec fn is_novelty_family(self) -> bool {
        self.id_start == NOVELTY_REGION_START && self.id_end == NOVELTY_REGION_END
    }

    /// The family's ids cover the whole novelty region.
    pub open spec fn covers_novelty(self) -> bool {
        self.id_start <= NOVELTY_REGION_START && NOVELTY_REGION_END <= self.id_end
    }

    /// The count of candidate states fits in `usize`, and every quantity can be evaluated.
    pub open spec fn well_sized(self) -> bool {
        &&& self.quantity_end <= MAX_EVALUABLE_QUANTITY + 1
        &&& (!self.empty_spec() ==> self.area() <= usize::MAX)
    }

    /// The number of candidate states: the width of the id range times the
    /// width of the quantity range.
    pub fn point_count(self) -> (n: usize)
        requires
            self.id_start <= self.id_end,
            self.quantity_start <= self.quantity_end,
            self.area() <= usize::MAX,
        ensures
            n == self.area(),
    {
        (self.id_end - self.id_start) * (self.quantity_end - self.quantity_start)
    }

    /// Whether the family holds no candidate state.
    pub fn is_empty(self) -> (b: bool)
        ensures
            b == self.empty_spec(),
    {
        self.id_start >= self.id_end || self.quantity_start >= self.quantity_end
    }
}

/// The family of all candidate states of the fixture.
pub open spec fn root_family() -> CandidateFamily {
    CandidateFamily {
        id_start: 0,
        id_end: TRANSFORMATION_COUNT,
        quantity_start: MIN_QUANTITY,
        quantity_end: (MAX_QUANTITY + 1) as usize,
    }
}

/// The family of the whole novelty region at every quantity.
pub open spec fn novelty_family() -> CandidateFamily {
    CandidateFamily {
        id_start: NOVELTY_REGION_START,
        id_end: NOVELTY_REGION_END,
        quantity_start: MIN_QUANTITY,
        quantity_end: (MAX_QUANTITY + 1) as usize,
    }
}

/// The world before the novelty shock.
pub open spec fn phase_a() -> World {
    World { novelty_generation: 1, novelty_active: false }
}

/// The world after the novelty shock.
pub open spec fn phase_b() -> World {
    World { novelty_generation: 2, novelty_active: true }
}

/// The certificate that the phase A bound justifies.
pub open spec fn phase_a_certificate() -> SafeIgnoranceCertificate {
    SafeIgnoranceCertificate {
        id_start: NOVELTY_REGION_START,
        id_end: NOVELTY_REGION_END,
        dependency_generation: 1,
        decision: Decision::Reject,
    }
}

/// The resolving engine takes `certificate` as still valid in `world`: it is
/// a reject certificate for exactly the novelty region, issued for the
/// world's current novelty generation.
pub open spec fn certificate_reused(certificate: SafeIgnoranceCertificate, world: World) -> bool {
    &&& certificate.id_start == NOVELTY_REGION_START
    &&& certificate.id_end == NOVELTY_REGION_END
    &&& certificate.dependency_generation == world.novelty_generation
    &&& certificate.decision == Decision::Reject
}

} // verus!
