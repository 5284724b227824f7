use star::combinatorics::catalan;
use star::atom::Atom;
use star::learning::hypothesis::{HypothesisGenerator, MAX_PATTERN_LENGTH, MIN_SUPPORT};
use star::llm::client::ClientConfig;
use star::llm::http_llm::{
    first_choice_text, ClientConfig as RemoteClientConfig, HttpLlmClient, POLISH_SYSTEM_PROMPT,
};
use star::llm::polish::polish;
use star::llm::{build_bonsai_prompt, ChatMessage};
use star::metacog::critic::ConcernCategory;
use star::metacog::intents::{
    curiosity_phrase, surprise_phrase, CuriosityKind, InsightIntent, InsightKind, RevisionIntent,
    SurpriseIntent, SurpriseKind,
};
use star::metacog::SurpriseDetector;
use star::multimodal::audio::AudioProcessor;
use star::multimodal::binding::{determine_relation, CrossModalRelation, ModalityKind};
use star::multimodal::image::ImageProcessor;
use star::multimodal::ContentId;
use star::multistep_abstraction_reuse::{
    synthesize_concrete_chain, validate_concrete_chain, AbstractionReuseError, ChainTask,
    ConcreteSynthesisBudget, LabeledChainHistory,
};
use star::neural::neuron::NeuronId;
use star::pain::event::{PainEventId, PAIN_ID_MULTIPLIER};
use star::persistence::identity_guard::IdentityGuard;
use star::persistence::memory::{BeliefState, MemoryDomain};

#[test]
fn revision_intent_format() {
    let intent = RevisionIntent::new("fire", BeliefState::Believes, BeliefState::Knows);
    let s = intent.format();
    assert!(s.contains("fire"));
    assert!(s.contains("I used to"));
    assert!(s.contains("now I"));
}

#[test]
fn revision_sentence_is_exact() {
    let intent = RevisionIntent::new("fire", BeliefState::Believes, BeliefState::Knows);
    assert_eq!(intent.format(), "I used to believes about fire, but now I knows about it.");
}

#[test]
fn surprise_intent_detects_lost_confidence() {
    let intent = SurpriseIntent::new("I don't know why fire burns.");
    assert_eq!(intent.kind, SurpriseKind::LostConfidence);
}

#[test]
fn surprise_intent_detects_contradicted() {
    let intent = SurpriseIntent::new("It works, but it shouldn't.");
    assert_eq!(intent.kind, SurpriseKind::Contradicted);
}

#[test]
fn surprise_intent_falls_through_to_generic() {
    let intent = SurpriseIntent::new("The sky is blue.");
    assert_eq!(intent.kind, SurpriseKind::Generic);
}

#[test]
fn surprise_classification_ignores_case() {
    assert_eq!(SurpriseIntent::new("NOT SURE at all").kind, SurpriseKind::LostConfidence);
    assert_eq!(SurpriseIntent::new("HOWEVER").kind, SurpriseKind::Contradicted);
}

#[test]
fn surprise_phrase_rotates_with_the_clock() {
    assert_eq!(
        surprise_phrase(SurpriseKind::LostConfidence, 6),
        "Huh. I expected to know this. Something's off."
    );
    assert_eq!(surprise_phrase(SurpriseKind::Contradicted, 3), "Wait, that's not what I expected to find.");
    assert_eq!(surprise_phrase(SurpriseKind::Generic, 14), "That surprised me.");
    let formatted = SurpriseIntent::new("The sky is blue.").format();
    assert!([
        "Something about that doesn't fit.",
        "That doesn't quite add up.",
        "Something's off here.",
        "I'm noticing a gap between what I expected and what I found.",
        "That surprised me.",
    ]
    .contains(&formatted.as_str()));
}

#[test]
fn insight_intent_recurring_gap() {
    let intent = InsightIntent::new(InsightKind::RecurringGap).with_topic("consciousness");
    let s = intent.format();
    assert!(s.contains("consciousness"));
    assert!(s.contains("gaps"));
}

#[test]
fn insight_intent_recurring_topic() {
    let intent = InsightIntent::new(InsightKind::RecurringTopic).with_topic("emergence");
    let s = intent.format();
    assert!(s.contains("emergence"));
}

#[test]
fn insight_intent_surprising_conclusion() {
    let intent = InsightIntent::new(InsightKind::SurprisingConclusion);
    let s = intent.format();
    assert!(s.contains("surprised"));
}

#[test]
fn insight_defaults_fill_missing_topic_and_detail() {
    assert_eq!(
        InsightIntent::new(InsightKind::BeliefShift).format(),
        "I notice I've shifted shifted about this."
    );
    assert_eq!(
        InsightIntent::new(InsightKind::BeliefShift).with_detail("from believes to knows").with_topic("fire").format(),
        "I notice I've shifted from believes to knows about fire."
    );
    assert_eq!(
        InsightIntent::new(InsightKind::ConfidenceTrend).format(),
        "I'm noticing something about my certainty."
    );
    assert_eq!(InsightIntent::new(InsightKind::ConfidenceTrend).with_detail("more sure").format(), "more sure");
    assert_eq!(InsightKind::default(), InsightKind::RecurringTopic);
}

#[test]
fn curiosity_phrase_picks_by_selection() {
    // "X" is one byte; at clock 0 the selection is 1, which picks the first template.
    assert_eq!(
        curiosity_phrase("X", CuriosityKind::Confused, true, 0),
        "What is X? I can't quite pin it down."
    );
    // selection 1 + 76 = 77: 77 / 11 = 7, 7 % 3 = 1.
    assert_eq!(
        curiosity_phrase("X", CuriosityKind::Saturated, false, 76),
        "What else is X connected to?"
    );
    // At the saturated selection usize::MAX, usize::MAX / 7 % 4 = 2.
    assert_eq!(
        curiosity_phrase("X", CuriosityKind::Stuck, true, usize::MAX),
        "I keep returning to X. What's the core of it?"
    );
    assert_eq!(CuriosityKind::default(), CuriosityKind::Wondering);
}

#[test]
fn test_surprise_detection() {
    let detector = SurpriseDetector::new();
    let surprising = detector.detect_surprise(
        "Why does fire burn?",
        "I don't actually know why fire burns.",
        BeliefState::Knows,
    );
    assert!(surprising);
}

#[test]
fn surprise_needs_confidence() {
    let detector = SurpriseDetector::new();
    assert!(!detector.detect_surprise("Why?", "but actually wait", BeliefState::Suspects));
    assert!(detector.detect_surprise("How so?", "Short.", BeliefState::Thinks));
    assert!(!detector.detect_surprise("How so?", "This answer is long enough to pass.", BeliefState::Thinks));
    assert!(detector.is_surprising("tiny", BeliefState::Believes));
    assert!(!detector.is_surprising("tiny", BeliefState::Knows));
}

#[test]
fn surprise_detector_marks_and_clears() {
    let mut detector = SurpriseDetector::default();
    assert!(!detector.was_recently_surprised());
    for _ in 0..12 {
        detector.mark_surprised();
    }
    assert!(detector.was_recently_surprised());
    detector.clear_surprise();
    assert!(!detector.was_recently_surprised());
    let phrase = detector.express_surprise("I am NOT SURE");
    assert!(phrase.contains("know") || phrase.contains("certain") || phrase.contains("off") || phrase.contains("reasoning"));
}

#[test]
fn test_concern_category_descriptions() {
    assert_eq!(ConcernCategory::OverGeneralization.description(), "over-generalization");
    assert_eq!(ConcernCategory::MissingEdgeCases.description(), "missing edge cases");
    assert_eq!(ConcernCategory::OverstatedConfidence.description(), "overstated confidence");
    assert_eq!(ConcernCategory::ValueMisalignment.description(), "value misalignment");
    assert_eq!(ConcernCategory::LogicalGap.description(), "logical gap");
    assert_eq!(ConcernCategory::UnjustifiedAssumption.description(), "unjustified assumption");
    assert_eq!(ConcernCategory::HedgingFailure.description(), "hedging failure");
}

#[test]
fn memory_and_belief_names() {
    assert_eq!(MemoryDomain::Relationship.as_str(), "relationship");
    assert_eq!(BeliefState::Suspects.as_str(), "suspects");
    assert_eq!(BeliefState::Unknown.as_str(), "unknown");
}

#[test]
fn identity_guard_protects_core_claims() {
    let _guard = IdentityGuard::new();
    let _default = IdentityGuard::default();
}

#[test]
fn test_chat_message_constructors() {
    let sys = ChatMessage::system("You are helpful");
    assert_eq!(sys.role, "system");
    assert_eq!(sys.content, "You are helpful");

    let usr = ChatMessage::user("Hello");
    assert_eq!(usr.role, "user");

    let ast = ChatMessage::assistant("Hi there");
    assert_eq!(ast.role, "assistant");
}

#[test]
fn test_build_bonsai_prompt_system_user() {
    let messages = &[
        ChatMessage::system("You are a helpful assistant."),
        ChatMessage::user("What is 2+2?"),
    ];
    let prompt = build_bonsai_prompt(messages);
    assert!(prompt.contains("You are a helpful assistant"));
    assert!(prompt.contains("User:"));
    assert!(prompt.contains("What is 2+2?"));
}

#[test]
fn bonsai_prompt_layout_is_exact() {
    let messages = vec![
        ChatMessage::system("  Be brief. "),
        ChatMessage::user("\tHi\n"),
        ChatMessage::assistant("Hello"),
        ChatMessage { role: "tool".to_string(), content: " out ".to_string() },
    ];
    assert_eq!(
        build_bonsai_prompt(&messages),
        "System: Be brief.\nUser: Hi\nAssistant: Hello\ntool: out"
    );
    assert_eq!(build_bonsai_prompt(&[]), "");
}

#[test]
fn client_urls() {
    let local = ClientConfig::default();
    assert_eq!(local.base_url, "http://127.0.0.1:8080");
    assert_eq!(local.timeout, std::time::Duration::from_secs(60));
    assert_eq!(local.completions_url(), "http://127.0.0.1:8080/v1/completions");
    let custom = ClientConfig::new("http://h:1").with_timeout(std::time::Duration::from_secs(5));
    assert_eq!(custom.chat_url(), "http://h:1/v1/chat/completions");
    assert_eq!(custom.timeout, std::time::Duration::from_secs(5));
    let remote = RemoteClientConfig::default();
    assert_eq!(remote.health_url(), "http://127.0.0.1:8081/health");
    let client = HttpLlmClient::new("http://r:2");
    assert_eq!(client.settings().chat_url(), "http://r:2/v1/chat/completions");
}

#[test]
fn polish_request_and_reply() {
    let messages = HttpLlmClient::polish_messages("rough");
    assert_eq!(messages.len(), 2);
    assert_eq!(messages[0].role, "system");
    assert_eq!(messages[0].content, POLISH_SYSTEM_PROMPT);
    assert_eq!(messages[1].content, "rough");
    assert_eq!(first_choice_text(&[]), "");
    assert_eq!(first_choice_text(&["a".to_string(), "b".to_string()]), "a");
    assert_eq!(polish("rough text").unwrap(), "rough text");
}

#[test]
fn test_audio_processor_new() {
    let processor = AudioProcessor::new();
    assert_eq!(processor.embedding_dim, 256);
}

#[test]
fn test_image_processor_new() {
    let processor = ImageProcessor::new();
    assert_eq!(processor.embedding_dim, 384);
}

#[test]
fn test_simple_hash() {
    let processor = ImageProcessor::new();
    let h1 = processor.simple_hash("png");
    let h2 = processor.simple_hash("png");
    assert_eq!(h1, h2);
    assert_ne!(h1, processor.simple_hash("jpg"));
}

#[test]
fn simple_hash_values() {
    let processor = AudioProcessor::new();
    assert_eq!(processor.simple_hash(""), 0);
    assert_eq!(processor.simple_hash("a"), 97);
    assert_eq!(processor.simple_hash("ab"), 97 * 31 + 98);
}

#[test]
fn test_content_id() {
    let id = ContentId::new("test123");
    assert_eq!(id.0, "test123");
}

#[test]
fn test_relation_determination() {
    // A generation produces an image: GeneratedBy.
    assert_eq!(determine_relation(ModalityKind::Dalle, ModalityKind::Image), CrossModalRelation::GeneratedBy);
    // Text is the prompt for a generation: PromptFor.
    assert_eq!(determine_relation(ModalityKind::Text, ModalityKind::Dalle), CrossModalRelation::PromptFor);
    // Two texts are semantically similar.
    assert_eq!(determine_relation(ModalityKind::Text, ModalityKind::Text), CrossModalRelation::SemanticSimilarity);
    assert_eq!(determine_relation(ModalityKind::Audio, ModalityKind::Image), CrossModalRelation::Associated);
}

#[test]
fn neuron_and_pain_identifiers() {
    assert_eq!(NeuronId::new("causal").to_text(), "causal");
    assert_eq!(PainEventId::from_nanos(3).0, 3u64.wrapping_mul(PAIN_ID_MULTIPLIER));
    let _fresh = PainEventId::new();
    let generator = HypothesisGenerator::new();
    assert_eq!(generator.min_support, MIN_SUPPORT);
    assert_eq!(generator.max_pattern_length, MAX_PATTERN_LENGTH);
}

#[test]
fn catalan_sequence_is_frozen() {
    assert_eq!((0..5).map(catalan).collect::<Vec<_>>(), vec![1, 1, 2, 5, 14]);
}

fn task(arity: usize) -> ChainTask {
    let canonical = (0..arity).map(|index| Atom::new(&format!("a{index}"))).collect::<Vec<_>>();
    let mut discovery = vec![LabeledChainHistory { history_id: 1, events: canonical.clone(), positive: true }];
    for index in 0..arity - 1 {
        let mut events = canonical.clone();
        events.swap(index, index + 1);
        discovery.push(LabeledChainHistory { history_id: 2 + index as u64, events, positive: false });
    }
    let mut reversed = canonical;
    reversed.reverse();
    discovery.push(LabeledChainHistory { history_id: 100, events: reversed, positive: false });
    ChainTask { root_id: arity as u64, discovery }
}

#[test]
fn frozen_concrete_counts_match() {
    let expected = [
        (3, 6, 24, 1),
        (4, 24, 120, 1),
        (5, 240, 1_440, 2),
        (6, 3_600, 25_200, 5),
        (7, 70_560, 564_480, 14),
    ];
    for (arity, candidates, executions, exact) in expected {
        let mut budget = ConcreteSynthesisBudget::default();
        let proof = synthesize_concrete_chain(&task(arity), &mut budget).expect("synthesis");
        assert_eq!(proof.candidate_programs, candidates);
        assert_eq!(proof.program_history_evaluations, executions);
        assert_eq!(proof.exact_candidates, exact);
    }
}

#[test]
fn working_memory_keeps_its_capacity() {
    let mut w: star::persistence::tiers::WorkingMemory<u32> =
        star::persistence::tiers::WorkingMemory::new(2);
    assert_eq!(w.capacity(), 2);
    w.push(1);
    w.push(2);
    w.push(3);
    assert_eq!(w.capacity(), 2);
    let d: star::persistence::tiers::WorkingMemory<u32> = Default::default();
    assert_eq!(d.capacity(), 0);
}

#[test]
fn identity_guard_reports_no_conflict() {
    let g = star::persistence::identity_guard::IdentityGuard::new();
    let existing: Vec<String> = vec!["I am Star".to_string()];
    assert!(g.check_conflict("I am not Star", &existing).is_none());
}

#[test]
fn confused_curiosity_phrase_always_asks_or_trails() {
    for now in 0..200usize {
        let s = curiosity_phrase("consciousness", CuriosityKind::Confused, true, now);
        assert!(s.contains("consciousness"));
        assert!(s.contains('?') || s.contains("..."));
    }
    // "X" is one byte: selection 35 gives 35 / 7 = 5, the sixth template.
    assert_eq!(
        curiosity_phrase("X", CuriosityKind::Confused, true, 34),
        "X is something I don't fully grasp yet..."
    );
}

#[test]
fn validation_accepts_exactly_the_synthesised_proof() {
    let t = task(4);
    let mut budget = ConcreteSynthesisBudget::default();
    let proof = synthesize_concrete_chain(&t, &mut budget).expect("synthesis");
    let certificate = validate_concrete_chain(&t, &proof, &mut budget).expect("certificate");
    assert_eq!(certificate.proof_id(), proof.proof_id);
    assert_eq!(certificate.node_cost(), 3);
    let mut forged = proof.clone();
    forged.proof_id ^= 1;
    assert_eq!(
        validate_concrete_chain(&t, &forged, &mut budget),
        Err(AbstractionReuseError::ConcreteProofMismatch)
    );
    let mut reshaped = proof.clone();
    reshaped.tree_shape_rank = 1;
    assert!(validate_concrete_chain(&t, &reshaped, &mut budget).is_err());
}

#[test]
fn curiosity_intent_format_preserves_legacy_templates() {
    // A confused intent at satisfaction 0.3 is below the 0.7 threshold; its
    // format rotates by the clock's whole seconds.
    let now = std::time::SystemTime::now()
        .duration_since(std::time::UNIX_EPOCH)
        .map(|d| d.as_secs() as usize)
        .unwrap_or(0);
    let s = curiosity_phrase("consciousness", CuriosityKind::Confused, 0.3 < 0.7, now);
    assert!(s.contains("consciousness"));
    assert!(s.contains('?') || s.contains("..."));
}
