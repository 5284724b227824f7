use star::persistence::memory::{BeliefState, MemoryDomain};
use star::persistence::store::{
    belief_state_from_name, domain_from_name, gap_reason, gap_topic, tries_partial_match,
};

#[test]
fn stored_names_read_back_as_written() {
    for d in [
        MemoryDomain::Identity,
        MemoryDomain::Empirical,
        MemoryDomain::Procedural,
        MemoryDomain::Episodic,
        MemoryDomain::Relationship,
    ] {
        assert_eq!(domain_from_name(d.as_str()), d);
    }
    assert_eq!(domain_from_name("Identity"), MemoryDomain::Episodic);
    for b in [
        BeliefState::Knows,
        BeliefState::Thinks,
        BeliefState::Believes,
        BeliefState::Suspects,
        BeliefState::Unknown,
    ] {
        assert_eq!(belief_state_from_name(b.as_str()), b);
    }
    assert_eq!(belief_state_from_name("certain"), BeliefState::Unknown);
}

#[test]
fn partial_matching_needs_four_bytes_and_no_skipped_word() {
    assert!(!tries_partial_match("sky"));
    assert!(tries_partial_match("blue"));
    assert!(!tries_partial_match("Brain"));
    assert!(!tries_partial_match("the "));
    assert!(tries_partial_match("rains"));
}

#[test]
fn gap_topic_takes_the_first_three_words() {
    assert_eq!(gap_topic("  why does   fire burn so hot"), "why does fire");
    assert_eq!(gap_topic("fire burns"), "fire burns");
    assert_eq!(gap_topic("   "), "");
}

#[test]
fn gap_reason_cuts_the_conclusion_at_fifty_bytes() {
    let long = "a".repeat(60);
    assert_eq!(
        gap_reason(&long, BeliefState::Suspects, true, 0),
        format!("I concluded '{}' with suspects confidence — I wasn't sure", "a".repeat(50))
    );
    assert_eq!(
        gap_reason("fire is hot", BeliefState::Thinks, false, 2),
        "I concluded 'fire is hot' with thinks confidence — I hedged"
    );
    assert_eq!(
        gap_reason("fire is hot", BeliefState::Knows, false, 0),
        "I concluded 'fire is hot' with knows confidence — my confidence was low"
    );
}
