//! Solved equations and the algebra engine's handle. The engine's numeric
//! work is floating point and is done by the application.
use vstd::prelude::*;
use crate::text::{concat3, join_lines, join_newline, texts};

verus! {

broadcast use vstd::string::group_string_axioms;

/// A solved equation: the variable, its value and the steps that led there.
#[derive(Debug, Clone)]
pub struct SolvedResult {
    pub variable: String,
    pub solution: String,
    pub steps: Vec<String>,
}

/// A solution as displayed: the steps, one per line, then a blank line and
/// "∴ x = " with the value; with no steps, just "x = " and the value.
pub open spec fn solved_display(steps: Seq<Seq<char>>, solution: Seq<char>) -> Seq<char> {
    if steps.len() == 0 {
        "x = "@ + solution
    } else {
        join_lines(steps) + "\n\n∴ x = "@ + solution
    }
}

impl SolvedResult {
    /// The solution as displayed.
    pub fn display(&self) -> (s: String)
        ensures
            s@ == solved_display(texts(self.steps@), self.solution@),
    {
        if self.steps.len() == 0 {
            proof {
                assert(texts(self.steps@).len() == 0);
            }
            crate::text::concat2("x = ", self.solution.as_str())
        } else {
            let joined = join_newline(self.steps.as_slice());
            concat3(joined.as_str(), "\n\n∴ x = ", self.solution.as_str())
        }
    }
}

/// The algebra engine's handle.
pub struct AlgebraEngine {
    _priv: (),
}

impl AlgebraEngine {
    /// An algebra engine.
    pub fn new() -> (e: AlgebraEngine) {
        AlgebraEngine { _priv: () }
    }
}

impl Default for AlgebraEngine {
    fn default() -> (e: AlgebraEngine) {
        AlgebraEngine::new()
    }
}

} // verus!
