use star::metacog::reflection::{ReflectionLog, MAX_HISTORY};
use star::metacog::GapSignal;
use star::persistence::memory::BeliefState;

#[test]
fn changed_belief_is_noted_as_revision() {
    let mut log = ReflectionLog::new();
    log.note_belief_change("star", Some(BeliefState::Knows), BeliefState::Suspects);
    assert_eq!(log.revisions().len(), 1);
    let r = &log.revisions()[0];
    assert_eq!(r.topic, "star");
    assert_eq!(r.old_state, BeliefState::Knows);
    assert_eq!(r.new_state, BeliefState::Suspects);
    assert_eq!(r.reason, "Evidence shifted confidence: Suspects");
    assert!(!r.investigated);
    assert_eq!(
        log.revision_statement("STAR"),
        Some("I used to knows about STAR, but now I suspects about it.".to_string())
    );
    assert!(log.can_express_revision("Star"));
}

#[test]
fn unchanged_or_new_belief_notes_nothing() {
    let mut log = ReflectionLog::new();
    log.note_belief_change("star", None, BeliefState::Knows);
    log.note_belief_change("star", Some(BeliefState::Knows), BeliefState::Knows);
    assert!(log.revisions().is_empty());
    assert_eq!(log.revision_statement("star"), None);
    assert!(!log.can_express_revision("star"));
}

#[test]
fn history_keeps_the_newest_sessions() {
    let mut log = ReflectionLog::new();
    for i in 0..(MAX_HISTORY + 3) {
        log.record_reasoning(&format!("q{i}"), "a long enough conclusion here", BeliefState::Knows);
    }
    let h = log.reasoning_history();
    assert_eq!(h.len(), MAX_HISTORY);
    assert_eq!(h[0].query, "q3");
    assert_eq!(h[MAX_HISTORY - 1].query, format!("q{}", MAX_HISTORY + 2));
}

#[test]
fn short_uncertain_conclusions_are_surprising() {
    let mut log = ReflectionLog::new();
    log.record_reasoning("why", "maybe", BeliefState::Suspects);
    log.record_reasoning("how", "a conclusion that is long enough to not count", BeliefState::Believes);
    log.record_reasoning("what", "sure", BeliefState::Knows);
    let s = log.surprising_conclusions();
    assert_eq!(s.len(), 1);
    assert_eq!(s[0].conclusion, "maybe");
}

#[test]
fn revision_history_ignores_case() {
    let mut log = ReflectionLog::new();
    log.note_belief_change("Rust", Some(BeliefState::Thinks), BeliefState::Knows);
    log.note_belief_change("go", Some(BeliefState::Thinks), BeliefState::Knows);
    log.note_belief_change("RUST", Some(BeliefState::Knows), BeliefState::Unknown);
    let h = log.revision_history("rust");
    assert_eq!(h.len(), 2);
    assert_eq!(h[0].topic, "Rust");
    assert_eq!(h[1].topic, "RUST");
    assert_eq!(
        log.revision_statement("rust"),
        Some("I used to knows about rust, but now I unknown about it.".to_string())
    );
}

#[test]
fn newest_exact_revision_is_marked_investigated() {
    let mut log = ReflectionLog::new();
    log.note_belief_change("rust", Some(BeliefState::Thinks), BeliefState::Knows);
    log.note_belief_change("Rust", Some(BeliefState::Knows), BeliefState::Thinks);
    log.note_belief_change("rust", Some(BeliefState::Knows), BeliefState::Suspects);
    log.note_belief_change("go", Some(BeliefState::Knows), BeliefState::Suspects);
    log.mark_revision_investigated("rust");
    let r = log.revisions();
    assert!(!r[0].investigated);
    assert!(!r[1].investigated);
    assert!(r[2].investigated);
    assert!(!r[3].investigated);
    log.mark_revision_investigated("python");
    assert_eq!(log.revisions().iter().filter(|x| x.investigated).count(), 1);
}

#[test]
fn confident_reversal_is_checked_as_surprise() {
    let mut log = ReflectionLog::new();
    assert!(!log.was_surprised());
    assert!(log.check_surprise("what is it", "It is red, but actually blue", BeliefState::Knows));
    assert!(log.was_surprised());
    assert_eq!(log.surprise().surprise_count(), 1);
    assert!(!log.check_surprise("what is it", "It is red", BeliefState::Knows));
    assert_eq!(log.surprise().surprise_count(), 1);
}

#[test]
fn insight_reports_the_newest_revision() {
    let mut log = ReflectionLog::new();
    assert_eq!(log.generate_insight(None), None);
    log.note_belief_change("time", Some(BeliefState::Believes), BeliefState::Knows);
    assert_eq!(
        log.generate_insight(None),
        Some("I notice I've shifted from believes to knows about time.".to_string())
    );
    let mut log = ReflectionLog::new();
    let gap = GapSignal { topic: "memory".to_string(), open_and_explored: true };
    assert_eq!(
        log.generate_insight(Some(&gap)),
        Some("I keep running into gaps when I think about memory. I want to understand this better.".to_string())
    );
    log.record_reasoning("q", "tiny", BeliefState::Suspects);
    assert_eq!(
        log.generate_insight(Some(&gap)),
        Some("That conclusion surprised me — I expected something different.".to_string())
    );
}

#[test]
fn test_revision_tracking() {
    // The metacognition engine notes a revision when a belief it held
    // changes state: first "fire" is believed, then known.
    let mut log = ReflectionLog::new();
    log.note_belief_change("fire", None, BeliefState::Believes);
    log.note_belief_change("fire", Some(BeliefState::Believes), BeliefState::Knows);
    assert!(log.can_express_revision("fire"));
}
