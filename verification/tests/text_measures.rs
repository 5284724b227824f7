use star::metacog::intents::curiosity_question;
use star::metacog::{insight_from, BeliefRevision, GapSignal, ReasoningRecord};
use star::multimodal::parse_dalle_filename;
use star::omega_v1_voice_baseline::metrics::{sentences, tokenize};
use star::omega_v1_voice_baseline::{parse_intent, parse_style, ResponseStyle};
use star::omega_v1f2_shadow::ResponseIntent;
use star::persistence::companion::{
    format_supported, version_gate, CompanionPersistenceError, JOURNAL_FORMAT_VERSION,
};
use star::persistence::memory::BeliefState;
use star::text::remove_occurrences;
use star::learning::HypothesisId;
use star::pain::tracker::suggested_fix;

fn record(query: &str, confidence: BeliefState, was_surprising: bool) -> ReasoningRecord {
    ReasoningRecord {
        query: query.to_string(),
        conclusion: "c".to_string(),
        confidence,
        timestamp: 0,
        was_surprising,
    }
}

#[test]
fn tokenize_lowercases_and_strips_apostrophes() {
    assert_eq!(
        tokenize("Don't STOP -- 'quoted' it's 42!"),
        vec!["don't", "stop", "quoted", "it's", "42"]
    );
    assert!(tokenize("''' --- !!!").is_empty());
    assert_eq!(tokenize("naïve café"), vec!["na", "ve", "caf"]);
}

#[test]
fn sentences_split_on_terminators_and_trim() {
    assert_eq!(
        sentences("  First one. Second?!  Third  "),
        vec!["First one", "Second", "Third"]
    );
    assert!(sentences("...?!").is_empty());
}

#[test]
fn corpus_names_parse() {
    assert_eq!(parse_intent("story_prompt"), Ok(ResponseIntent::StoryPrompt));
    assert_eq!(parse_intent("bogus"), Err("unknown ΩV1-A intent bogus".to_string()));
    assert_eq!(parse_style("warm"), Ok(ResponseStyle::Warm));
    assert_eq!(parse_style("Warm"), Err("unknown ΩV1-A style Warm".to_string()));
}

#[test]
fn generation_file_names() {
    assert_eq!(
        parse_dalle_filename("file-abc123-a cat.png.webp"),
        Some(("dalle-abc123".to_string(), "file-abc123-a cat".to_string()))
    );
    assert_eq!(
        parse_dalle_filename("file-xyz.jpg"),
        Some(("dalle-xyz.jpg".to_string(), "file-xyz".to_string()))
    );
    assert_eq!(parse_dalle_filename("nodash.png"), None);
}

#[test]
fn pattern_removal_is_left_to_right() {
    assert_eq!(remove_occurrences("aaa", "aa"), "a");
    assert_eq!(remove_occurrences("x.png.png", ".png"), "x");
    assert_eq!(remove_occurrences("..pngpng", ".png"), ".png");
}

#[test]
fn commit_version_gate() {
    assert_eq!(version_gate(10, 10, 11, 11), Ok(11));
    assert_eq!(
        version_gate(11, 10, 11, 11),
        Err(CompanionPersistenceError::VersionConflict { expected: 10, actual: 11 })
    );
    assert_eq!(
        version_gate(10, 10, 12, 11),
        Err(CompanionPersistenceError::TransitionVersionMismatch { expected: 11, transition: 12, state: 11 })
    );
    assert_eq!(version_gate(u64::MAX, u64::MAX, 0, 0), Err(CompanionPersistenceError::VersionOverflow));
    assert!(format_supported(JOURNAL_FORMAT_VERSION).is_ok());
    assert_eq!(format_supported(2), Err(CompanionPersistenceError::UnsupportedFormat(2)));
}

#[test]
fn insight_precedence() {
    let surprising = vec![record("q", BeliefState::Knows, true)];
    assert_eq!(
        insight_from(&surprising, &[], None).as_deref(),
        Some("That conclusion surprised me — I expected something different.")
    );
    let revision = BeliefRevision {
        topic: "fire".to_string(),
        old_state: BeliefState::Believes,
        new_state: BeliefState::Knows,
        reason: "r".to_string(),
        timestamp: 0,
        investigated: false,
    };
    assert_eq!(
        insight_from(&[], &[revision], None).as_deref(),
        Some("I notice I've shifted from believes to knows about fire.")
    );
    let trend = vec![
        record("a", BeliefState::Suspects, false),
        record("b", BeliefState::Thinks, false),
        record("c", BeliefState::Knows, false),
    ];
    assert_eq!(
        insight_from(&trend, &[], None).as_deref(),
        Some("I'm becoming less certain as I think through this topic.")
    );
    let gap = GapSignal { topic: "time".to_string(), open_and_explored: true };
    assert_eq!(
        insight_from(&[], &[], Some(&gap)).as_deref(),
        Some("I keep running into gaps when I think about time. I want to understand this better.")
    );
    let closed = GapSignal { topic: "time".to_string(), open_and_explored: false };
    assert_eq!(insight_from(&[], &[], Some(&closed)), None);
    let repeats = vec![
        record("Fire", BeliefState::Knows, false),
        record("other", BeliefState::Knows, false),
        record("FIRE", BeliefState::Knows, false),
        record("x", BeliefState::Knows, false),
        record("fire", BeliefState::Knows, false),
    ];
    assert_eq!(
        insight_from(&repeats, &[], None).as_deref(),
        Some("I've been thinking about 'fire' repeatedly. It seems important.")
    );
}

#[test]
fn curiosity_questions_rotate() {
    assert_eq!(curiosity_question("X", true, 0), "I wonder what X really means...");
    assert_eq!(curiosity_question("X", false, 10), "I'm still curious about X.");
}

#[test]
fn hypothesis_ids_are_drawn() {
    let a = HypothesisId::new();
    let b = HypothesisId::new();
    let _ = (a, b);
}

#[test]
fn pain_fix_choice() {
    assert_eq!(suggested_fix(Some(3), None), "Consider caching intermediate results");
    assert_eq!(suggested_fix(Some(1), Some(2)), "Add intermediate abstraction to resolve contradictions");
    assert_eq!(suggested_fix(None, Some(5)), "Review concept definition or decomposition");
    assert_eq!(suggested_fix(Some(2), Some(1)), "Review concept definition or decomposition");
}

#[test]
fn surprise_count_follows_marks() {
    let mut detector = star::metacog::SurpriseDetector::new();
    detector.mark_surprised();
    detector.mark_surprised();
    assert_eq!(detector.surprise_count(), 2);
}
