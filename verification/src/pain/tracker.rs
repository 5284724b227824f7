//! Structural fixes suggested by the pain tracker.
use vstd::prelude::*;

verus! {

/// A structural fix suggested for a concept that keeps causing pain.
#[derive(Debug, Clone)]
pub struct PainFixSuggestion {
    pub concept: String,
    pub problem: String,
    pub suggested_fix: String,
}

/// The fix suggested for a painful concept, from how many of its pain events
/// were redundant computations and how many were contradictions (where any
/// were recorded): caching when redundancy happened more than twice;
/// otherwise, where redundancy was recorded at all, an intermediate
/// abstraction when contradictions happened more than once; a review of the
/// concept in every other case.
pub open spec fn suggested_fix_spec(redundant: Option<usize>, contradiction: Option<usize>) -> Seq<
    char,
> {
    match redundant {
        Some(r) => if r > 2 {
            "Consider caching intermediate results"@
        } else {
            match contradiction {
                Some(c) => if c > 1 {
                    "Add intermediate abstraction to resolve contradictions"@
                } else {
                    "Review concept definition or decomposition"@
                },
                None => "Review concept definition or decomposition"@,
            }
        },
        None => "Review concept definition or decomposition"@,
    }
}

/// The fix suggested for a painful concept.
pub fn suggested_fix(redundant: Option<usize>, contradiction: Option<usize>) -> (s: &'static str)
    ensures
        s@ == suggested_fix_spec(redundant, contradiction),
{
    match redundant {
        Some(r) => if r > 2 {
            "Consider caching intermediate results"
        } else {
            match contradiction {
                Some(c) => if c > 1 {
                    "Add intermediate abstraction to resolve contradictions"
                } else {
                    "Review concept definition or decomposition"
                },
                None => "Review concept definition or decomposition",
            }
        },
        None => "Review concept definition or decomposition",
    }
}

} // verus!
