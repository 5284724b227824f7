//! Proof templates by strategy: contradiction, induction, construction,
//! direct deduction and case analysis, picked by the shape of the theorem.
use vstd::prelude::*;
use crate::text::{
    chars_of, concat2, concat3, contains_seq, lowercase, lowercase_contains, push_string,
    push_text, string_of, texts, unicode_lowercase,
};

verus! {

broadcast use vstd::string::group_string_axioms;

/// A proof strategy.
#[derive(Debug, Clone, Copy, PartialEq, Eq, Structural)]
pub enum ProofStrategy {
    /// Assume the negation and derive a contradiction.
    Contradiction,
    /// A base case and an inductive step.
    Induction,
    /// Construct the object explicitly.
    Construction,
    /// Deduce straight from the premises.
    Direct,
    /// Consider every possible case.
    Cases,
}

/// The name of a strategy in prose.
pub open spec fn strategy_label(s: ProofStrategy) -> Seq<char> {
    match s {
        ProofStrategy::Contradiction => "proof by contradiction"@,
        ProofStrategy::Induction => "proof by induction"@,
        ProofStrategy::Construction => "proof by construction"@,
        ProofStrategy::Direct => "direct proof"@,
        ProofStrategy::Cases => "proof by cases"@,
    }
}

impl ProofStrategy {
    /// The strategy's name in prose.
    pub fn label(&self) -> (s: &'static str)
        ensures
            s@ == strategy_label(*self),
    {
        match self {
            ProofStrategy::Contradiction => "proof by contradiction",
            ProofStrategy::Induction => "proof by induction",
            ProofStrategy::Construction => "proof by construction",
            ProofStrategy::Direct => "direct proof",
            ProofStrategy::Cases => "proof by cases",
        }
    }
}

/// The strategy a lowercase strategy name asks for, if any.
pub open spec fn strategy_named(lower: Seq<char>) -> Option<ProofStrategy> {
    if lower == "contradiction"@ || lower == "contrapositive"@ {
        Some(ProofStrategy::Contradiction)
    } else if lower == "induction"@ || lower == "inductive"@ {
        Some(ProofStrategy::Induction)
    } else if lower == "construction"@ || lower == "constructive"@ {
        Some(ProofStrategy::Construction)
    } else if lower == "direct"@ || lower == "straightforward"@ {
        Some(ProofStrategy::Direct)
    } else if lower == "cases"@ || lower == "case analysis"@ {
        Some(ProofStrategy::Cases)
    } else {
        None
    }
}

/// The strategy an already lowercased strategy name asks for, if any.
pub fn strategy_from_lowered(lower: &str) -> (r: Option<ProofStrategy>)
    ensures
        r == strategy_named(lower@),
{
    let c = chars_of(lower);
    let ls = c.as_slice();
    if lowercase_is(ls, "contradiction") || lowercase_is(ls, "contrapositive") {
        Some(ProofStrategy::Contradiction)
    } else if lowercase_is(ls, "induction") || lowercase_is(ls, "inductive") {
        Some(ProofStrategy::Induction)
    } else if lowercase_is(ls, "construction") || lowercase_is(ls, "constructive") {
        Some(ProofStrategy::Construction)
    } else if lowercase_is(ls, "direct") || lowercase_is(ls, "straightforward") {
        Some(ProofStrategy::Direct)
    } else if lowercase_is(ls, "cases") || lowercase_is(ls, "case analysis") {
        Some(ProofStrategy::Cases)
    } else {
        None
    }
}

/// Whether characters spell out a text.
fn lowercase_is(a: &[char], b: &str) -> (r: bool)
    ensures
        r == (a@ == b@),
{
    let bc = chars_of(b);
    crate::text::chars_equal(a, bc.as_slice())
}

/// The steps of a proof by contradiction of `theorem`, whose lowercase form is `lower`.
pub open spec fn contradiction_steps(theorem: Seq<char>, lower: Seq<char>) -> Seq<Seq<char>> {
    seq!["Strategy: Proof by Contradiction"@, "Theorem: "@ + theorem, "Step 1: Assume the negation of what we want to prove."@]
    + (if (contains_seq(lower, "infinitely many"@) || contains_seq(lower, "there exist"@)) {
        seq!["Assume the opposite: that there are only finitely many..."@, "Step 2: Show this assumption leads to a contradiction."@]
        + (if (contains_seq(lower, "prime"@)) {
            seq!["But there are infinitely many primes (Euclid's theorem). Contradiction!"@]
        } else {
            seq!["This leads to a contradiction of known facts."@]
        })
        + seq!["Step 3: Conclude the original theorem must be true."@]
    } else {
        (if (contains_seq(lower, "cannot"@) || contains_seq(lower, "impossible"@)) {
            seq!["Assume "@ + theorem + " is possible."@, "Show this leads to a logical impossibility..."@, "Contradiction established."@, "Therefore, the original statement holds."@]
        } else {
            seq!["Assume ¬("@ + theorem + ")"@, "Derive a contradiction..."@, "Since we reach a contradiction, our assumption was false."@, "Therefore: "@ + theorem]
        })
    })
}

/// The steps of a proof by induction of `theorem`, whose lowercase form is `lower`.
pub open spec fn induction_steps(theorem: Seq<char>, lower: Seq<char>) -> Seq<Seq<char>> {
    seq!["Strategy: Proof by Induction"@, "Theorem: "@ + theorem]
    + (if (contains_seq(lower, "sum"@) || contains_seq(lower, "1 + 2 +"@) || contains_seq(lower, "series"@)) {
        seq!["BASE CASE: For n = 1, the formula holds."@, "  1 = 1(1+1)/2 = 1 ✓"@, "INDUCTIVE STEP: Assume true for n = k."@, "  Show: 1 + 2 + ... + k + (k+1) = (k+1)(k+2)/2"@, "  Using the inductive hypothesis:"@, "  1 + 2 + ... + k + (k+1) = k(k+1)/2 + (k+1)"@, "  = (k+1)(k/2 + 1) = (k+1)(k+2)/2 ✓"@, "By induction, the formula holds for all n ≥ 1."@]
    } else {
        (if (contains_seq(lower, "even"@) && contains_seq(lower, "odd"@)) {
            seq!["BASE CASE: n = 0 is even (0 = 2 × 0) ✓"@, "INDUCTIVE STEP: Assume n is even, so n = 2k."@, "  Then n+1 = 2k+1, which is odd by definition."@, "  The parity alternates with each increment."@, "By induction, the parity pattern holds for all n."@]
        } else {
            (if (contains_seq(lower, "divisible"@) || contains_seq(lower, "multiple"@)) {
                seq!["BASE CASE: Verify for n = 1 or the smallest value."@, "INDUCTIVE STEP: Assume n is divisible by/at least the base condition."@, "  Show n+1 follows the same divisibility."@, "By induction, the property holds universally."@]
            } else {
                seq!["BASE CASE: Verify P(1) or the smallest n."@, "INDUCTIVE HYPOTHESIS: Assume P(k) is true."@, "INDUCTIVE STEP: Show P(k) → P(k+1)."@, "Using the hypothesis, we derive P(k+1)."@, "By the principle of induction, P(n) holds for all n."@]
            })
        })
    })
}

/// The steps of a proof by construction of `theorem`, whose lowercase form is `lower`.
pub open spec fn construction_steps(theorem: Seq<char>, lower: Seq<char>) -> Seq<Seq<char>> {
    seq!["Strategy: Proof by Construction"@, "Theorem: "@ + theorem, "We construct an explicit example satisfying the conditions."@]
    + (if (contains_seq(lower, "exist"@) || contains_seq(lower, "there is"@)) {
        seq!["Construction: Provide a specific construction."@]
        + (if (contains_seq(lower, "number"@) || contains_seq(lower, "integer"@)) {
            seq!["Let n = [specific number satisfying conditions]."@, "Verify: [check the conditions hold]."@, "The construction satisfies all requirements."@]
        } else {
            seq!["Consider the following object: [construct explicitly]."@, "By construction, this object has the desired properties."@]
        })
        + seq!["Thus the existential claim is proven."@]
    } else {
        seq!["Step 1: Define the construction procedure."@, "Step 2: Show the constructed object satisfies all conditions."@, "Step 3: Conclude existence."@]
    })
}

/// The steps of a direct proof of `theorem`, whose lowercase form is `lower`.
pub open spec fn direct_steps(theorem: Seq<char>, lower: Seq<char>) -> Seq<Seq<char>> {
    seq!["Strategy: Direct Proof"@, "Theorem: "@ + theorem, "Starting from premises/definitions, deduce the conclusion."@]
    + (if (contains_seq(lower, "if"@) && contains_seq(lower, "then"@)) {
        seq!["Let P be the hypothesis and Q be the conclusion."@, "Assume P."@, "By definitions and previously proven results..."@, "Therefore Q follows."@, "Hence: "@ + theorem]
    } else {
        (if (contains_seq(lower, "="@) || contains_seq(lower, "equals"@) || contains_seq(lower, "sum"@)) {
            seq!["Starting from known equalities/formulas..."@, "Apply algebraic manipulation..."@, "Derive the desired result."@]
        } else {
            seq!["Step 1: State what we know."@, "Step 2: Apply valid inference rules."@, "Step 3: Derive the conclusion."@]
        })
    })
}

/// The steps of a proof by cases of `theorem`, whose lowercase form is `lower`.
pub open spec fn cases_steps(theorem: Seq<char>, lower: Seq<char>) -> Seq<Seq<char>> {
    seq!["Strategy: Proof by Cases"@, "Theorem: "@ + theorem, "Consider all possible cases, prove for each."@]
    + (if (contains_seq(lower, "absolute"@) || contains_seq(lower, "|"@)) {
        seq!["Case 1: x ≥ 0"@, "  |x| = x, so [result follows]."@, "Case 2: x < 0"@, "  |x| = -x, so [result follows]."@, "Both cases establish the theorem."@]
    } else {
        (if (contains_seq(lower, "even"@) || contains_seq(lower, "odd"@)) {
            seq!["Case 1: n is even (n = 2k)"@, "  Then [property] follows..."@, "Case 2: n is odd (n = 2k+1)"@, "  Then [property] follows..."@, "Both cases are proven."@]
        } else {
            seq!["CASE 1: [First possibility]"@, "  Analysis and conclusion for this case..."@, "CASE 2: [Second possibility]"@, "  Analysis and conclusion for this case..."@, "Since all cases are proven, the theorem holds."@]
        })
    })
}

/// The steps of a proof of `theorem` by a strategy, given the theorem's
/// lowercase form.
pub open spec fn proof_steps(strategy: ProofStrategy, theorem: Seq<char>, lower: Seq<char>) -> Seq<
    Seq<char>,
> {
    match strategy {
        ProofStrategy::Contradiction => contradiction_steps(theorem, lower),
        ProofStrategy::Induction => induction_steps(theorem, lower),
        ProofStrategy::Construction => construction_steps(theorem, lower),
        ProofStrategy::Direct => direct_steps(theorem, lower),
        ProofStrategy::Cases => cases_steps(theorem, lower),
    }
}

/// Builds proofs from strategy templates.
pub struct ProofEngine {
    _priv: (),
}

impl ProofEngine {
    /// A proof engine.
    pub fn new() -> (e: ProofEngine) {
        ProofEngine { _priv: () }
    }

    /// Proves `theorem` by the strategy named (in any case) by `strategy`.
    /// An unknown strategy name is refused; otherwise the proof succeeds
    /// with the strategy's steps for the theorem's shape, and concludes the
    /// theorem.
    pub fn prove(&mut self, theorem: &str, strategy: &str) -> (r: Result<
        (bool, Vec<String>, String),
        String,
    >)
        ensures
            match strategy_named(unicode_lowercase(strategy@)) {
                None => r matches Err(e) && e@ == "Unknown proof strategy: "@ + strategy@,
                Some(k) => r matches Ok((proved, steps, conclusion)) && proved && texts(steps@)
                    == proof_steps(k, theorem@, unicode_lowercase(theorem@)) && conclusion@
                    == theorem@,
            },
    {
        let lowered = lowercase(strategy);
        let kind = match strategy_from_lowered(lowered.as_str()) {
            Some(k) => k,
            None => {
                return Err(concat2("Unknown proof strategy: ", strategy));
            },
        };
        let tl = lowercase(theorem);
        let lc = chars_of(tl.as_str());
        let ls = lc.as_slice();
        let steps = match kind {
            ProofStrategy::Contradiction => self.proof_by_contradiction(theorem, ls),
            ProofStrategy::Induction => self.proof_by_induction(theorem, ls),
            ProofStrategy::Construction => self.proof_by_construction(theorem, ls),
            ProofStrategy::Direct => self.direct_proof(theorem, ls),
            ProofStrategy::Cases => self.proof_by_cases(theorem, ls),
        };
        Ok((true, steps, string_of(theorem)))
    }

    /// The steps of a proof by contradiction.
    pub fn proof_by_contradiction(&self, theorem: &str, ls: &[char]) -> (steps: Vec<String>)
        ensures
            texts(steps@) == contradiction_steps(theorem@, ls@),
    {
        let mut steps: Vec<String> = Vec::new();
        let ghost start = texts(steps@);
        assert(start =~= Seq::<Seq<char>>::empty());
        push_text(&mut steps, "Strategy: Proof by Contradiction");
        push_string(&mut steps, concat2("Theorem: ", theorem));
        push_text(&mut steps, "Step 1: Assume the negation of what we want to prove.");
        if lowercase_contains(ls, "infinitely many") || lowercase_contains(ls, "there exist") {
            push_text(&mut steps, "Assume the opposite: that there are only finitely many...");
            push_text(&mut steps, "Step 2: Show this assumption leads to a contradiction.");
            if lowercase_contains(ls, "prime") {
                push_text(&mut steps, "But there are infinitely many primes (Euclid's theorem). Contradiction!");
            } else {
                push_text(&mut steps, "This leads to a contradiction of known facts.");
            }
            push_text(&mut steps, "Step 3: Conclude the original theorem must be true.");
        } else {
            if lowercase_contains(ls, "cannot") || lowercase_contains(ls, "impossible") {
                push_string(&mut steps, concat3("Assume ", theorem, " is possible."));
                push_text(&mut steps, "Show this leads to a logical impossibility...");
                push_text(&mut steps, "Contradiction established.");
                push_text(&mut steps, "Therefore, the original statement holds.");
            } else {
                push_string(&mut steps, concat3("Assume ¬(", theorem, ")"));
                push_text(&mut steps, "Derive a contradiction...");
                push_text(&mut steps, "Since we reach a contradiction, our assumption was false.");
                push_string(&mut steps, concat2("Therefore: ", theorem));
            }
        }
        assert(texts(steps@) =~= contradiction_steps(theorem@, ls@));
        steps
    }

    /// The steps of a proof by induction.
    pub fn proof_by_induction(&self, theorem: &str, ls: &[char]) -> (steps: Vec<String>)
        ensures
            texts(steps@) == induction_steps(theorem@, ls@),
    {
        let mut steps: Vec<String> = Vec::new();
        let ghost start = texts(steps@);
        assert(start =~= Seq::<Seq<char>>::empty());
        push_text(&mut steps, "Strategy: Proof by Induction");
        push_string(&mut steps, concat2("Theorem: ", theorem));
        if lowercase_contains(ls, "sum") || lowercase_contains(ls, "1 + 2 +") || lowercase_contains(ls, "series") {
            push_text(&mut steps, "BASE CASE: For n = 1, the formula holds.");
            push_text(&mut steps, "  1 = 1(1+1)/2 = 1 ✓");
            push_text(&mut steps, "INDUCTIVE STEP: Assume true for n = k.");
            push_text(&mut steps, "  Show: 1 + 2 + ... + k + (k+1) = (k+1)(k+2)/2");
            push_text(&mut steps, "  Using the inductive hypothesis:");
            push_text(&mut steps, "  1 + 2 + ... + k + (k+1) = k(k+1)/2 + (k+1)");
            push_text(&mut steps, "  = (k+1)(k/2 + 1) = (k+1)(k+2)/2 ✓");
            push_text(&mut steps, "By induction, the formula holds for all n ≥ 1.");
        } else {
            if lowercase_contains(ls, "even") && lowercase_contains(ls, "odd") {
                push_text(&mut steps, "BASE CASE: n = 0 is even (0 = 2 × 0) ✓");
                push_text(&mut steps, "INDUCTIVE STEP: Assume n is even, so n = 2k.");
                push_text(&mut steps, "  Then n+1 = 2k+1, which is odd by definition.");
                push_text(&mut steps, "  The parity alternates with each increment.");
                push_text(&mut steps, "By induction, the parity pattern holds for all n.");
            } else {
                if lowercase_contains(ls, "divisible") || lowercase_contains(ls, "multiple") {
                    push_text(&mut steps, "BASE CASE: Verify for n = 1 or the smallest value.");
                    push_text(&mut steps, "INDUCTIVE STEP: Assume n is divisible by/at least the base condition.");
                    push_text(&mut steps, "  Show n+1 follows the same divisibility.");
                    push_text(&mut steps, "By induction, the property holds universally.");
                } else {
                    push_text(&mut steps, "BASE CASE: Verify P(1) or the smallest n.");
                    push_text(&mut steps, "INDUCTIVE HYPOTHESIS: Assume P(k) is true.");
                    push_text(&mut steps, "INDUCTIVE STEP: Show P(k) → P(k+1).");
                    push_text(&mut steps, "Using the hypothesis, we derive P(k+1).");
                    push_text(&mut steps, "By the principle of induction, P(n) holds for all n.");
                }
            }
        }
        assert(texts(steps@) =~= induction_steps(theorem@, ls@));
        steps
    }

    /// The steps of a proof by construction.
    pub fn proof_by_construction(&self, theorem: &str, ls: &[char]) -> (steps: Vec<String>)
        ensures
            texts(steps@) == construction_steps(theorem@, ls@),
    {
        let mut steps: Vec<String> = Vec::new();
        let ghost start = texts(steps@);
        assert(start =~= Seq::<Seq<char>>::empty());
        push_text(&mut steps, "Strategy: Proof by Construction");
        push_string(&mut steps, concat2("Theorem: ", theorem));
        push_text(&mut steps, "We construct an explicit example satisfying the conditions.");
        if lowercase_contains(ls, "exist") || lowercase_contains(ls, "there is") {
            push_text(&mut steps, "Construction: Provide a specific construction.");
            if lowercase_contains(ls, "number") || lowercase_contains(ls, "integer") {
                push_text(&mut steps, "Let n = [specific number satisfying conditions].");
                push_text(&mut steps, "Verify: [check the conditions hold].");
                push_text(&mut steps, "The construction satisfies all requirements.");
            } else {
                push_text(&mut steps, "Consider the following object: [construct explicitly].");
                push_text(&mut steps, "By construction, this object has the desired properties.");
            }
            push_text(&mut steps, "Thus the existential claim is proven.");
        } else {
            push_text(&mut steps, "Step 1: Define the construction procedure.");
            push_text(&mut steps, "Step 2: Show the constructed object satisfies all conditions.");
            push_text(&mut steps, "Step 3: Conclude existence.");
        }
        assert(texts(steps@) =~= construction_steps(theorem@, ls@));
        steps
    }

    /// The steps of a direct proof.
    pub fn direct_proof(&self, theorem: &str, ls: &[char]) -> (steps: Vec<String>)
        ensures
            texts(steps@) == direct_steps(theorem@, ls@),
    {
        let mut steps: Vec<String> = Vec::new();
        let ghost start = texts(steps@);
        assert(start =~= Seq::<Seq<char>>::empty());
        push_text(&mut steps, "Strategy: Direct Proof");
        push_string(&mut steps, concat2("Theorem: ", theorem));
        push_text(&mut steps, "Starting from premises/definitions, deduce the conclusion.");
        if lowercase_contains(ls, "if") && lowercase_contains(ls, "then") {
            push_text(&mut steps, "Let P be the hypothesis and Q be the conclusion.");
            push_text(&mut steps, "Assume P.");
            push_text(&mut steps, "By definitions and previously proven results...");
            push_text(&mut steps, "Therefore Q follows.");
            push_string(&mut steps, concat2("Hence: ", theorem));
        } else {
            if lowercase_contains(ls, "=") || lowercase_contains(ls, "equals") || lowercase_contains(ls, "sum") {
                push_text(&mut steps, "Starting from known equalities/formulas...");
                push_text(&mut steps, "Apply algebraic manipulation...");
                push_text(&mut steps, "Derive the desired result.");
            } else {
                push_text(&mut steps, "Step 1: State what we know.");
                push_text(&mut steps, "Step 2: Apply valid inference rules.");
                push_text(&mut steps, "Step 3: Derive the conclusion.");
            }
        }
        assert(texts(steps@) =~= direct_steps(theorem@, ls@));
        steps
    }

    /// The steps of a proof by cases.
    pub fn proof_by_cases(&self, theorem: &str, ls: &[char]) -> (steps: Vec<String>)
        ensures
            texts(steps@) == cases_steps(theorem@, ls@),
    {
        let mut steps: Vec<String> = Vec::new();
        let ghost start = texts(steps@);
        assert(start =~= Seq::<Seq<char>>::empty());
        push_text(&mut steps, "Strategy: Proof by Cases");
        push_string(&mut steps, concat2("Theorem: ", theorem));
        push_text(&mut steps, "Consider all possible cases, prove for each.");
        if lowercase_contains(ls, "absolute") || lowercase_contains(ls, "|") {
            push_text(&mut steps, "Case 1: x ≥ 0");
            push_text(&mut steps, "  |x| = x, so [result follows].");
            push_text(&mut steps, "Case 2: x < 0");
            push_text(&mut steps, "  |x| = -x, so [result follows].");
            push_text(&mut steps, "Both cases establish the theorem.");
        } else {
            if lowercase_contains(ls, "even") || lowercase_contains(ls, "odd") {
                push_text(&mut steps, "Case 1: n is even (n = 2k)");
                push_text(&mut steps, "  Then [property] follows...");
                push_text(&mut steps, "Case 2: n is odd (n = 2k+1)");
                push_text(&mut steps, "  Then [property] follows...");
                push_text(&mut steps, "Both cases are proven.");
            } else {
                push_text(&mut steps, "CASE 1: [First possibility]");
                push_text(&mut steps, "  Analysis and conclusion for this case...");
                push_text(&mut steps, "CASE 2: [Second possibility]");
                push_text(&mut steps, "  Analysis and conclusion for this case...");
                push_text(&mut steps, "Since all cases are proven, the theorem holds.");
            }
        }
        assert(texts(steps@) =~= cases_steps(theorem@, ls@));
        steps
    }
}

impl Default for ProofEngine {
    fn default() -> (e: ProofEngine) {
        ProofEngine::new()
    }
}

} // verus!
