//! Mathematics: propositional logic, proof templates, solved equations and
//! the engine that routes queries between them.
pub mod logic;
pub mod proofs;
pub mod symbolic;

use vstd::prelude::*;
use crate::math::logic::{
    display, eval, paren_counts_fit, parse_ok, parse_spec, LogicEngine, TruthValue,
};
use crate::math::proofs::{proof_steps, strategy_named, ProofEngine};
use crate::math::symbolic::{solved_display, AlgebraEngine, SolvedResult};
use crate::text::{
    concat2, concat3, contains_seq, decimal, decimal_spec, join_lines, join_newline, push_string,
    push_text, str_contains, string_of, texts, unicode_lowercase,
};

verus! {

broadcast use vstd::string::group_string_axioms;

/// The outcome of a mathematical query.
#[derive(Debug, Clone)]
pub enum MathResult {
    /// A symbolic or numeric expression.
    Expression(String),
    /// A solved equation.
    Solved(SolvedResult),
    /// A proposition and its truth value.
    Logical { proposition: String, truth: TruthValue },
    /// A proof attempt.
    Proof { proved: bool, steps: Vec<String>, conclusion: String },
    /// Why the query failed.
    Error(String),
}

/// The lines of a proof as displayed: a header saying whether it succeeded,
/// each step indented by two spaces, then the conclusion.
pub open spec fn proof_display_lines(proved: bool, steps: Seq<Seq<char>>, conclusion: Seq<char>) -> Seq<
    Seq<char>,
> {
    seq![if proved {
        "Proof:"@
    } else {
        "Proof attempt (failed):"@
    }] + Seq::new(steps.len(), |i: int| "  "@ + steps[i]) + seq!["Conclusion: "@ + conclusion]
}

/// A result as displayed.
pub open spec fn result_display(r: MathResult) -> Seq<char> {
    match r {
        MathResult::Expression(s) => s@,
        MathResult::Solved(s) => solved_display(texts(s.steps@), s.solution@),
        MathResult::Logical { proposition, truth } => proposition@ + ": "@ + truth.label_spec(),
        MathResult::Proof { proved, steps, conclusion } => join_lines(
            proof_display_lines(proved, texts(steps@), conclusion@),
        ),
        MathResult::Error(s) => "Error: "@ + s@,
    }
}

/// A result's answer.
pub open spec fn result_answer(r: MathResult) -> Seq<char> {
    match r {
        MathResult::Expression(s) => s@,
        MathResult::Solved(s) => solved_display(texts(s.steps@), s.solution@),
        MathResult::Logical { proposition, .. } => proposition@,
        MathResult::Proof { conclusion, .. } => conclusion@,
        MathResult::Error(s) => s@,
    }
}

impl MathResult {
    /// The result as displayed.
    pub fn display(&self) -> (s: String)
        ensures
            s@ == result_display(*self),
    {
        match self {
            MathResult::Expression(s) => string_of(s.as_str()),
            MathResult::Solved(r) => r.display(),
            MathResult::Logical { proposition, truth } => {
                let t = truth.to_string();
                concat3(proposition.as_str(), ": ", t.as_str())
            },
            MathResult::Proof { proved, steps, conclusion } => {
                let mut lines: Vec<String> = Vec::new();
                if *proved {
                    push_text(&mut lines, "Proof:");
                } else {
                    push_text(&mut lines, "Proof attempt (failed):");
                }
                let mut i: usize = 0;
                while i < steps.len()
                    invariant
                        i <= steps@.len(),
                        texts(lines@) == seq![if *proved {
                            "Proof:"@
                        } else {
                            "Proof attempt (failed):"@
                        }] + Seq::new(i as nat, |k: int| "  "@ + texts(steps@)[k]),
                    decreases steps@.len() - i,
                {
                    push_string(&mut lines, concat2("  ", steps[i].as_str()));
                    i = i + 1;
                    assert(texts(lines@) =~= seq![if *proved {
                        "Proof:"@
                    } else {
                        "Proof attempt (failed):"@
                    }] + Seq::new(i as nat, |k: int| "  "@ + texts(steps@)[k]));
                }
                push_string(&mut lines, concat2("Conclusion: ", conclusion.as_str()));
                assert(texts(lines@) =~= proof_display_lines(*proved, texts(steps@), conclusion@));
                join_newline(lines.as_slice())
            },
            MathResult::Error(s) => concat2("Error: ", s.as_str()),
        }
    }

    /// The result's answer: the expression, the displayed solution, the
    /// proposition, the proof's conclusion or the error message.
    pub fn answer(&self) -> (s: String)
        ensures
            s@ == result_answer(*self),
    {
        match self {
            MathResult::Expression(s) => string_of(s.as_str()),
            MathResult::Solved(r) => r.display(),
            MathResult::Logical { proposition, .. } => string_of(proposition.as_str()),
            MathResult::Proof { conclusion, .. } => string_of(conclusion.as_str()),
            MathResult::Error(s) => string_of(s.as_str()),
        }
    }
}

/// The steps of a solution, numbered from 1 as "N. step".
pub open spec fn numbered_steps(steps: Seq<Seq<char>>) -> Seq<Seq<char>> {
    Seq::new(steps.len(), |i: int| decimal_spec((i + 1) as nat) + ". "@ + steps[i])
}

/// The explanation of a result: for a solved equation with steps, the
/// variable, the numbered steps and the value; otherwise the result as
/// displayed (for a solved equation without steps, "x = " and the value).
pub open spec fn explanation(r: MathResult) -> Seq<char> {
    match r {
        MathResult::Solved(s) => if s.steps@.len() == 0 {
            "x = "@ + s.solution@
        } else {
            "Solving for "@ + s.variable@ + ":\n"@ + join_lines(numbered_steps(texts(s.steps@)))
                + "\n\n∴ x = "@ + s.solution@
        },
        _ => result_display(r),
    }
}

/// Routes mathematical queries to the algebra, logic and proof engines.
pub struct MathEngine {
    symbolic: AlgebraEngine,
    logic: LogicEngine,
    prover: ProofEngine,
}

impl MathEngine {
    /// A math engine.
    pub fn new() -> (e: MathEngine) {
        MathEngine { symbolic: AlgebraEngine::new(), logic: LogicEngine::new(), prover: ProofEngine::new() }
    }

    /// The algebra engine, for the numeric queries.
    pub fn algebra(&self) -> (a: &AlgebraEngine) {
        &self.symbolic
    }

    /// Evaluates a proposition with no variable bound: the proposition as
    /// displayed, and its truth value.
    pub fn evaluate_logic(&mut self, proposition: &str) -> (r: MathResult)
        requires
            parse_ok(proposition@),
            paren_counts_fit(proposition@),
        ensures
            parse_spec(proposition@) matches Some(f) && r matches MathResult::Logical {
                proposition: p,
                truth,
            } && p@ == display(f) && truth == eval(f, Map::empty()),
    {
        match self.logic.evaluate(proposition) {
            Ok((prop_str, truth)) => MathResult::Logical { proposition: prop_str, truth },
            Err(e) => MathResult::Error(e),
        }
    }

    /// Proves `theorem` by the strategy named by `strategy`; an unknown
    /// strategy is an error result.
    pub fn prove(&mut self, theorem: &str, strategy: &str) -> (r: MathResult)
        ensures
            match strategy_named(unicode_lowercase(strategy@)) {
                None => r matches MathResult::Error(e) && e@ == "Unknown proof strategy: "@
                    + strategy@,
                Some(k) => r matches MathResult::Proof { proved, steps, conclusion } && proved
                    && texts(steps@) == proof_steps(k, theorem@, unicode_lowercase(theorem@))
                    && conclusion@ == theorem@,
            },
    {
        match self.prover.prove(theorem, strategy) {
            Ok((proved, steps, conclusion)) => MathResult::Proof { proved, steps, conclusion },
            Err(e) => MathResult::Error(e),
        }
    }

    /// The explanation of a result.
    pub fn explain(&self, result: &MathResult) -> (s: String)
        ensures
            s@ == explanation(*result),
    {
        match result {
            MathResult::Solved(r) => {
                if r.steps.len() == 0 {
                    concat2("x = ", r.solution.as_str())
                } else {
                    let mut numbered: Vec<String> = Vec::new();
                    let mut i: usize = 0;
                    while i < r.steps.len()
                        invariant
                            i <= r.steps@.len(),
                            r.steps@.len() <= usize::MAX,
                            texts(numbered@) == numbered_steps(texts(r.steps@)).subrange(
                                0,
                                i as int,
                            ),
                        decreases r.steps@.len() - i,
                    {
                        let n = decimal((i as u64) + 1);
                        push_string(&mut numbered, concat3(n.as_str(), ". ", r.steps[i].as_str()));
                        i = i + 1;
                        assert(texts(numbered@) =~= numbered_steps(texts(r.steps@)).subrange(
                            0,
                            i as int,
                        ));
                    }
                    assert(numbered_steps(texts(r.steps@)).subrange(0, i as int)
                        =~= numbered_steps(texts(r.steps@)));
                    let joined = join_newline(numbered.as_slice());
                    let head = concat3("Solving for ", r.variable.as_str(), ":\n");
                    concat3(head.as_str(), joined.as_str(), concat2("\n\n∴ x = ", r.solution.as_str()).as_str())
                }
            },
            _ => result.display(),
        }
    }
}

impl Default for MathEngine {
    fn default() -> (e: MathEngine) {
        MathEngine::new()
    }
}

/// What solving a math query answers, from the algebra engine's three
/// attempts: the solved equation when the query holds `=` and it was solved;
/// else the simplified expression; else the evaluated one; else an error
/// naming the query.
pub fn solve_outcome(
    input: &str,
    equation: Option<MathResult>,
    simplified: Option<String>,
    evaluated: Option<String>,
) -> (r: MathResult)
    ensures
        contains_seq(input@, "="@) && equation is Some ==> r == equation->0,
        !(contains_seq(input@, "="@) && equation is Some) && simplified is Some ==> r
            == MathResult::Expression(simplified->0),
        !(contains_seq(input@, "="@) && equation is Some) && simplified is None && evaluated is Some
            ==> r == MathResult::Expression(evaluated->0),
        !(contains_seq(input@, "="@) && equation is Some) && simplified is None && evaluated is None
            ==> (r matches MathResult::Error(m) && m@ == "Could not parse or solve: "@ + input@),
{
    if str_contains(input, "=") {
        if let Some(result) = equation {
            return result;
        }
    }
    if let Some(expr) = simplified {
        return MathResult::Expression(expr);
    }
    if let Some(result) = evaluated {
        return MathResult::Expression(result);
    }
    MathResult::Error(concat2("Could not parse or solve: ", input))
}

} // verus!
