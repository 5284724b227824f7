//! Memory domains and belief states.
use vstd::prelude::*;

verus! {

/// What kind of knowledge a memory represents.
#[derive(Debug, Clone, Copy, PartialEq, Eq, Structural)]
pub enum MemoryDomain {
    /// Self-knowledge.
    Identity,
    /// Facts about the world.
    Empirical,
    /// How to do things.
    Procedural,
    /// Events, experiences, conversations.
    Episodic,
    /// The relationship with the companion's person.
    Relationship,
}

/// The stored name of a memory domain.
pub open spec fn memory_domain_name(d: MemoryDomain) -> Seq<char> {
    match d {
        MemoryDomain::Identity => "identity"@,
        MemoryDomain::Empirical => "empirical"@,
        MemoryDomain::Procedural => "procedural"@,
        MemoryDomain::Episodic => "episodic"@,
        MemoryDomain::Relationship => "relationship"@,
    }
}

impl MemoryDomain {
    /// The domain's stored name.
    pub fn as_str(&self) -> (s: &'static str)
        ensures
            s@ == memory_domain_name(*self),
    {
        match self {
            MemoryDomain::Identity => "identity",
            MemoryDomain::Empirical => "empirical",
            MemoryDomain::Procedural => "procedural",
            MemoryDomain::Episodic => "episodic",
            MemoryDomain::Relationship => "relationship",
        }
    }
}

/// How confident the system is in a piece of knowledge.
#[derive(Debug, Clone, Copy, PartialEq, Eq, Structural)]
pub enum BeliefState {
    /// Direct knowledge.
    Knows,
    /// A reasonable inference.
    Thinks,
    /// A hypothesis or hearsay.
    Believes,
    /// Barely better than guessing.
    Suspects,
    /// No basis to form a belief.
    Unknown,
}

/// The stored (and spoken) name of a belief state: the variant's name in
/// lower case.
pub open spec fn belief_state_name(b: BeliefState) -> Seq<char> {
    match b {
        BeliefState::Knows => "knows"@,
        BeliefState::Thinks => "thinks"@,
        BeliefState::Believes => "believes"@,
        BeliefState::Suspects => "suspects"@,
        BeliefState::Unknown => "unknown"@,
    }
}

/// Whether a belief state is held with confidence (knows or thinks).
pub open spec fn is_confident(b: BeliefState) -> bool {
    b == BeliefState::Knows || b == BeliefState::Thinks
}

impl BeliefState {
    /// The state's stored name.
    pub fn as_str(&self) -> (s: &'static str)
        ensures
            s@ == belief_state_name(*self),
    {
        match self {
            BeliefState::Knows => "knows",
            BeliefState::Thinks => "thinks",
            BeliefState::Believes => "believes",
            BeliefState::Suspects => "suspects",
            BeliefState::Unknown => "unknown",
        }
    }
}

} // verus!
