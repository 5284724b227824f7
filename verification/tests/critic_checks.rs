use star::metacog::critic::{
    critique_and_synthesize, synthesize, Concern, ConcernCategory, Critic, CritiqueResult,
    ReasoningResult,
};
use star::persistence::memory::BeliefState;

fn result(answer: &str, confidence: BeliefState, chain: &[&str]) -> ReasoningResult {
    ReasoningResult {
        answer: Some(answer.to_string()),
        confidence,
        reasoning_chain: chain.iter().map(|s| s.to_string()).collect(),
    }
}

#[test]
fn test_no_concerns_for_clean_answer() {
    let mut critic = Critic::new();
    let result = result("Fire produces heat through combustion.", BeliefState::Thinks, &["fire causes heat"]);
    let critique = critic.critique("what does fire produce?", &result);
    assert!(critique.concerns.is_empty() || critique.concerns.iter().all(|c| c.severity < 7));
}

#[test]
fn test_detects_overgeneralization() {
    let mut critic = Critic::new();
    let result = result("Water always boils at 100°C.", BeliefState::Thinks, &["water boils at 100c"]);
    let critique = critic.critique("does water always boil at 100c?", &result);
    assert!(critique.concerns.iter().any(|c| c.category == ConcernCategory::OverGeneralization
        || c.category == ConcernCategory::OverstatedConfidence));
}

#[test]
fn test_detects_low_confidence_definitive() {
    let mut critic = Critic::new();
    let result = result("I know that consciousness is definitely emergent.", BeliefState::Unknown, &[]);
    let critique = critic.critique("what is consciousness?", &result);
    assert!(critique.concerns.iter().any(|c| c.category == ConcernCategory::OverstatedConfidence
        || c.category == ConcernCategory::ValueMisalignment));
}

#[test]
fn test_synthesize_adds_caveats() {
    let critique = CritiqueResult {
        concerns: vec![Concern {
            severity: 7,
            category: ConcernCategory::OverGeneralization,
            description: "test".to_string(),
            suggestion: None,
        }],
        approved: false,
        annotation: Some("My internal critic is worried about: over-generalization.".to_string()),
        mark_provisional: true,
    };
    let synthesized = synthesize("Fire produces heat", &critique);
    assert!(synthesized.contains("internal critic"));
    assert!(synthesized.contains("over-generalization"));
}

#[test]
fn test_clean_answer_no_annotation() {
    let critique = CritiqueResult { concerns: vec![], approved: true, annotation: None, mark_provisional: false };
    let synthesized = synthesize("Fire produces heat through combustion.", &critique);
    assert_eq!(synthesized, "Fire produces heat through combustion.");
}

#[test]
fn test_critique_result_concerns_summary() {
    let critique = CritiqueResult {
        concerns: vec![
            Concern { severity: 8, category: ConcernCategory::OverGeneralization, description: "test1".to_string(), suggestion: None },
            Concern { severity: 5, category: ConcernCategory::MissingEdgeCases, description: "test2".to_string(), suggestion: None },
        ],
        approved: false,
        annotation: None,
        mark_provisional: true,
    };
    let summary = critique.concerns_summary();
    assert!(summary.contains("over-generalization"));
    assert!(summary.contains("missing edge cases"));
    assert_eq!(summary, "[over-generalization] test1; [missing edge cases] test2");
}

#[test]
fn test_tempo_result_integration() {
    let mut critic = Critic::new();
    let fast = result("Water boils.", BeliefState::Thinks, &["common knowledge"]);
    let critique = critic.critique("does water boil?", &fast);
    assert!(critique.concerns.iter().all(|c| c.severity < 7));
    let overconfident = result("Water always boils at exactly 100C.", BeliefState::Thinks, &["water boils at 100c"]);
    let critique2 = critic.critique("does water always boil at 100c?", &overconfident);
    assert!(critique2.concerns.iter().any(|c| c.severity >= 5), "Overconfident universal claim should trigger concern");
}

#[test]
fn critique_ranks_and_annotates() {
    let mut critic = Critic::new();
    // "knows" with no chain (8), and "always" is fine when known; a "should" query
    // is only flagged with "thinks".
    let r = result("It always works.", BeliefState::Knows, &[]);
    let c = critic.critique("should it work?", &r);
    assert_eq!(c.concerns.len(), 1);
    assert_eq!(c.concerns[0].severity, 8);
    assert_eq!(c.concerns[0].description, "Claims 'knows' but has no reasoning chain");
    assert!(!c.approved);
    assert!(c.mark_provisional);
    assert_eq!(c.annotation.as_deref(), Some("My internal critic is worried about: overstated confidence."));

    // "thinks" on a "should"/"best" query: two caveats (3) and a universal word (7)
    let r = result("You should never do that, it is the best.", BeliefState::Thinks, &["one"]);
    let c = critic.critique("What should I do, what is best?", &r);
    let sev: Vec<u8> = c.concerns.iter().map(|x| x.severity).collect();
    assert_eq!(sev, vec![7, 3, 3]);
    assert_eq!(c.concerns[0].description, "Uses 'never' but confidence is Thinks (not 'knows')");
    assert_eq!(c.concerns[1].description, "'should' query with medium confidence — edge cases may exist");
    assert_eq!(c.concerns[2].description, "'best' query with medium confidence — edge cases may exist");
    assert!(!c.approved);
    assert_eq!(critic.accuracy_counts(), (0, 2));
    critic.record_outcome(1, true);
    critic.record_outcome(5, true);
    assert_eq!(critic.accuracy_counts(), (1, 2));
}

#[test]
fn medium_concern_is_annotated_softly() {
    let mut critic = Critic::new();
    // "knows" with one step and no "because": severity 5
    let r = result("It is so.", BeliefState::Knows, &["one"]);
    let c = critic.critique("is it?", &r);
    assert_eq!(c.concerns.len(), 1);
    assert!(c.approved);
    assert_eq!(c.annotation.as_deref(), Some("I may be over-generalizing — overstated confidence is uncertain."));
    assert_eq!(synthesize("It is so...", &c), "It is so. (I may be over-generalizing — overstated confidence is uncertain.)");
    assert!(c.was_right_about(0));
    assert!(!c.was_right_about(1));
}

#[test]
fn critique_and_synthesize_uses_i_dont_know() {
    let r = ReasoningResult { answer: None, confidence: BeliefState::Believes, reasoning_chain: vec![] };
    let (c, s) = critique_and_synthesize("what?", &r);
    assert!(c.concerns.is_empty());
    assert_eq!(s, "I don't know.");
}

#[test]
fn long_chain_is_flagged_as_gap() {
    let mut critic = Critic::new();
    let step = "a step of reasoning that is fairly long";
    let r = result("Maybe.", BeliefState::Unknown, &[step, step, step, step]);
    let c = critic.critique("why?", &r);
    let sev: Vec<u8> = c.concerns.iter().map(|x| x.severity).collect();
    assert_eq!(sev, vec![4, 3]);
    assert_eq!(c.concerns[0].category, ConcernCategory::LogicalGap);
    assert!(c.concerns[1].suggestion.is_some());
}
