use star::math::logic::{parse_proposition, Bindings, LogicEngine, Proposition, TruthValue};
use star::math::proofs::{ProofEngine, ProofStrategy};
use star::math::symbolic::SolvedResult;
use star::math::{solve_outcome, MathEngine, MathResult};

#[test]
fn test_modus_ponens() {
    let _engine = LogicEngine::new();
    // (P → Q) ∧ P → Q
    let p_implies_q = Proposition::Implies(
        Box::new(Proposition::Atom("P".to_string())),
        Box::new(Proposition::Atom("Q".to_string())),
    );
    let p = Proposition::Atom("P".to_string());

    let both = Proposition::And(Box::new(p_implies_q), Box::new(p));

    let mut vars = Bindings::new();
    vars.insert("P".to_string(), true);
    vars.insert("Q".to_string(), true);

    assert_eq!(both.evaluate(&vars), TruthValue::True);
}

#[test]
fn test_parse() {
    let prop = parse_proposition("A AND B").unwrap();
    assert_eq!(prop.to_string(), "(A AND B)");

    let prop2 = parse_proposition("NOT A").unwrap();
    assert_eq!(prop2.to_string(), "NOT(A)");
}

#[test]
fn test_tautology() {
    let engine = LogicEngine::new();
    // A OR NOT A is a tautology
    let taut = Proposition::Or(
        Box::new(Proposition::Atom("A".to_string())),
        Box::new(Proposition::Not(Box::new(Proposition::Atom("A".to_string())))),
    );
    assert!(engine.is_tautology(&taut));
}

#[test]
fn test_contradiction_proof() {
    let mut engine = ProofEngine::new();
    let result = engine.prove("There are infinitely many primes", "contradiction");
    assert!(result.is_ok());
    let (proved, steps, _) = result.unwrap();
    assert!(proved);
    assert!(!steps.is_empty());
}

#[test]
fn test_induction_proof() {
    let mut engine = ProofEngine::new();
    let result = engine.prove("Sum of first n integers is n(n+1)/2", "induction");
    assert!(result.is_ok());
    let (proved, steps, _) = result.unwrap();
    assert!(proved);
    assert!(steps.len() >= 5);
}

#[test]
fn contradiction_proof_of_primes_cites_euclid() {
    let mut engine = ProofEngine::new();
    let (_, steps, conclusion) = engine
        .prove("There are infinitely many primes", "CONTRADICTION")
        .unwrap();
    assert_eq!(steps.len(), 7);
    assert_eq!(steps[0], "Strategy: Proof by Contradiction");
    assert_eq!(steps[1], "Theorem: There are infinitely many primes");
    assert_eq!(steps[5], "But there are infinitely many primes (Euclid's theorem). Contradiction!");
    assert_eq!(conclusion, "There are infinitely many primes");
}

#[test]
fn generic_contradiction_proof_negates_the_theorem() {
    let mut engine = ProofEngine::new();
    let (_, steps, _) = engine.prove("P holds", "contrapositive").unwrap();
    assert_eq!(steps[3], "Assume ¬(P holds)");
    assert_eq!(steps[6], "Therefore: P holds");
}

#[test]
fn unknown_proof_strategy_is_refused() {
    let mut engine = ProofEngine::new();
    let err = engine.prove("anything", "magic").unwrap_err();
    assert_eq!(err, "Unknown proof strategy: magic");
}

#[test]
fn cases_proof_of_absolute_value_splits_on_sign() {
    let mut engine = ProofEngine::new();
    let (_, steps, _) = engine.prove("|x| >= 0", "case analysis").unwrap();
    assert_eq!(steps[3], "Case 1: x ≥ 0");
    assert_eq!(steps.len(), 8);
}

#[test]
fn strategy_labels() {
    assert_eq!(ProofStrategy::Contradiction.label(), "proof by contradiction");
    assert_eq!(ProofStrategy::Direct.label(), "direct proof");
    assert_eq!(ProofStrategy::Cases.label(), "proof by cases");
}

#[test]
fn solved_result_display() {
    let bare = SolvedResult { variable: "x".to_string(), solution: "2".to_string(), steps: vec![] };
    assert_eq!(bare.display(), "x = 2");
    let stepped = SolvedResult {
        variable: "x".to_string(),
        solution: "2".to_string(),
        steps: vec!["a".to_string(), "b".to_string()],
    };
    assert_eq!(stepped.display(), "a\nb\n\n∴ x = 2");
}

#[test]
fn math_result_display_and_answer() {
    let proof = MathResult::Proof {
        proved: false,
        steps: vec!["one".to_string(), "two".to_string()],
        conclusion: "done".to_string(),
    };
    assert_eq!(proof.display(), "Proof attempt (failed):\n  one\n  two\nConclusion: done");
    assert_eq!(proof.answer(), "done");
    let logical = MathResult::Logical { proposition: "(A AND B)".to_string(), truth: TruthValue::Unknown };
    assert_eq!(logical.display(), "(A AND B): UNKNOWN");
    assert_eq!(logical.answer(), "(A AND B)");
    let err = MathResult::Error("bad".to_string());
    assert_eq!(err.display(), "Error: bad");
    assert_eq!(err.answer(), "bad");
}

#[test]
fn explain_numbers_the_steps() {
    let engine = MathEngine::new();
    let solved = MathResult::Solved(SolvedResult {
        variable: "x".to_string(),
        solution: "2".to_string(),
        steps: vec!["subtract 3".to_string(), "divide by 2".to_string()],
    });
    assert_eq!(
        engine.explain(&solved),
        "Solving for x:\n1. subtract 3\n2. divide by 2\n\n∴ x = 2"
    );
}

#[test]
fn math_engine_routes_logic_and_proofs() {
    let mut engine = MathEngine::new();
    match engine.evaluate_logic("TRUE OR A") {
        MathResult::Logical { truth, .. } => assert_eq!(truth, TruthValue::True),
        other => panic!("unexpected {:?}", other),
    }
    match engine.prove("x", "nonsense") {
        MathResult::Error(e) => assert_eq!(e, "Unknown proof strategy: nonsense"),
        other => panic!("unexpected {:?}", other),
    }
}

#[test]
fn modus_ponens_concludes_consequent_from_matching_antecedent() {
    let engine = LogicEngine::new();
    let imp = Proposition::Implies(
        Box::new(Proposition::Atom("P".to_string())),
        Box::new(Proposition::Atom("Q".to_string())),
    );
    let ante = Proposition::Atom("P".to_string());
    assert_eq!(engine.modus_ponens(&imp, &ante), Some(TruthValue::True));
    let other = Proposition::Atom("R".to_string());
    assert_eq!(engine.modus_ponens(&imp, &other), Some(TruthValue::Unknown));
    assert_eq!(engine.modus_ponens(&ante, &ante), None);
}

#[test]
fn equivalence_compares_every_assignment_both_ways() {
    let engine = LogicEngine::new();
    let a = || Box::new(Proposition::Atom("A".to_string()));
    let b = || Box::new(Proposition::Atom("B".to_string()));
    let implication = Proposition::Implies(a(), b());
    let disjunction = Proposition::Or(Box::new(Proposition::Not(a())), b());
    assert!(engine.are_equivalent(&implication, &disjunction));
    assert!(engine.are_equivalent(&disjunction, &implication));
    assert!(engine.are_equivalent(&implication, &implication));
    assert!(!engine.are_equivalent(&Proposition::Atom("A".to_string()), &Proposition::Atom("B".to_string())));
}

#[test]
fn truth_table_lists_each_assignment_once() {
    let engine = LogicEngine::new();
    let prop = parse_proposition("A AND B").unwrap();
    let table = engine.truth_table(&prop);
    assert_eq!(table.len(), 4);
    let mut seen: Vec<(Option<bool>, Option<bool>)> = Vec::new();
    for (i, (row, value)) in table.iter().enumerate() {
        let key = (row.get(&"A".to_string()), row.get(&"B".to_string()));
        assert_eq!(key, (Some(i & 1 == 1), Some(i & 2 == 2)));
        assert!(!seen.contains(&key));
        seen.push(key);
        let expected = if i == 3 { TruthValue::True } else { TruthValue::False };
        assert_eq!(*value, expected);
    }
}

#[test]
fn solve_outcome_prefers_equation_then_simplified_then_evaluated() {
    let solved = MathResult::Expression("x = 2".to_string());
    match solve_outcome("x + 1 = 3", Some(solved), Some("s".to_string()), None) {
        MathResult::Expression(e) => assert_eq!(e, "x = 2"),
        other => panic!("unexpected {:?}", other),
    }
    let ignored = MathResult::Expression("eq".to_string());
    match solve_outcome("2 + 2", Some(ignored), None, Some("4".to_string())) {
        MathResult::Expression(e) => assert_eq!(e, "4"),
        other => panic!("unexpected {:?}", other),
    }
    match solve_outcome("2 + x", None, Some("x + 2".to_string()), Some("?".to_string())) {
        MathResult::Expression(e) => assert_eq!(e, "x + 2"),
        other => panic!("unexpected {:?}", other),
    }
    match solve_outcome("??", None, None, None) {
        MathResult::Error(e) => assert_eq!(e, "Could not parse or solve: ??"),
        other => panic!("unexpected {:?}", other),
    }
}
