//! Pain events: their sources, patterns and identifiers.
use vstd::prelude::*;

verus! {

/// What caused a pain event.
#[derive(Debug, Clone, Copy, PartialEq, Eq, Hash, Structural)]
pub enum PainSource {
    /// Recomputing what could have been cached.
    RedundantComputation,
    /// A reasoning path that ended in contradiction.
    Contradiction,
    /// Time spent on an irrelevant goal.
    WastedEffort,
    /// A concept that caused repeated failures.
    ConceptFailure,
    /// A poorly chosen strategy.
    PoorStrategy,
}

/// The reasoning pattern behind a pain event.
#[derive(Debug, Clone, Copy, PartialEq, Eq, Hash, Structural)]
pub enum ReasoningPattern {
    RepeatedDerivation,
    ExcessiveChaining,
    WrongAbstraction,
    FailedCausalSearch,
    FailedAnalogy,
    AbandonedHypothesis,
}

/// The identifier of a pain event.
#[derive(Debug, Clone, Copy, PartialEq, Eq, Hash, Structural)]
pub struct PainEventId(pub u64);

/// The multiplier that scatters clock readings into identifiers.
pub const PAIN_ID_MULTIPLIER: u64 = 0x517cc1b727220a95;

/// The identifier derived from a clock reading in nanoseconds: the reading
/// times the multiplier, modulo 2^64.
pub open spec fn pain_id_of(nanos: u64) -> u64 {
    ((nanos as int * PAIN_ID_MULTIPLIER as int) % 0x1_0000_0000_0000_0000) as u64
}

/// The current time in nanoseconds since the Unix epoch, truncated to 64
/// bits. A clock set before the epoch reads as 0.
fn clock_nanos() -> u64 {
    match crate::time_since_epoch() {
        Some(d) => crate::whole_nanos(&d) as u64,
        None => 0,
    }
}

impl PainEventId {
    /// The identifier derived from a clock reading in nanoseconds.
    pub fn from_nanos(nanos: u64) -> (id: PainEventId)
        ensures
            id.0 == pain_id_of(nanos),
    {
        PainEventId(nanos.wrapping_mul(PAIN_ID_MULTIPLIER))
    }

    /// A fresh identifier, derived from the clock.
    pub fn new() -> (id: PainEventId)
        ensures
            exists|nanos: u64| id.0 == pain_id_of(nanos),
    {
        let nanos = clock_nanos();
        PainEventId::from_nanos(nanos)
    }
}

impl Default for PainEventId {
    fn default() -> (id: PainEventId)
        ensures
            exists|nanos: u64| id.0 == pain_id_of(nanos),
    {
        PainEventId::new()
    }
}

} // verus!
