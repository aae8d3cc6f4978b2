//! Candidate-family compression lab: an exact per-candidate oracle, an eager
//! baseline engine, and the family-resolving engine that splits the candidate
//! space at semantic region boundaries, rejects whole families by a proven
//! economic bound, and reuses or invalidates Safe Ignorance certificates.
//!
//! The contracts state, for every world, what each engine decides for every
//! candidate state and how much work it records.
pub mod counting;
pub mod economics;
pub mod engines;
pub mod fixture_laws;
pub mod laws;
pub mod model;
pub mod pulse;
