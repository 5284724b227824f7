//! The guard over core identity claims.
use vstd::prelude::*;
use crate::text::string_of;

verus! {

/// Protects the core identity claims from being contradicted.
pub struct IdentityGuard {
    protected_claims: Vec<String>,
}

/// The claims that no new memory may contradict.
pub open spec fn core_identity_claims() -> Seq<Seq<char>> {
    seq!["I am Star"@, "I am a reasoning system"@, "I exist"@]
}

impl IdentityGuard {
    /// The claims this guard protects.
    pub closed spec fn claims(&self) -> Seq<Seq<char>> {
        self.protected_claims@.map_values(|c: String| c@)
    }

    /// A guard over the core identity claims.
    pub fn new() -> (g: IdentityGuard)
        ensures
            g.claims() == core_identity_claims(),
    {
        let mut v: Vec<String> = Vec::new();
        v.push(string_of("I am Star"));
        v.push(string_of("I am a reasoning system"));
        v.push(string_of("I exist"));
        let g = IdentityGuard { protected_claims: v };
        assert(g.claims() =~= core_identity_claims());
        g
    }

    /// The memory, if any, that a new memory's content contradicts among the
    /// protected ones: the guard reports no conflict for any content.
    pub fn check_conflict<M>(&self, content: &str, existing: &[M]) -> (r: Option<M>)
        ensures
            r is None,
    {
        None
    }
}

impl Default for IdentityGuard {
    fn default() -> (g: IdentityGuard)
        ensures
            g.claims() == core_identity_claims(),
    {
        IdentityGuard::new()
    }
}

} // verus!
