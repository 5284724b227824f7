use star::learning::hypothesis::{split_words, HypothesisGenerator};
use star::learning::{common_pattern, contains_ignoring_case, word_overlap};

fn strings(xs: &[&str]) -> Vec<String> {
    xs.iter().map(|s| s.to_string()).collect()
}

#[test]
fn split_words_splits_on_whitespace_runs() {
    let text: Vec<char> = "  hot\tfire \n flame ".chars().collect();
    let words: Vec<String> = split_words(&text).into_iter().map(|w| w.into_iter().collect()).collect();
    assert_eq!(words, vec!["hot", "fire", "flame"]);
    let empty: Vec<char> = "   ".chars().collect();
    assert!(split_words(&empty).is_empty());
}

#[test]
fn candidate_patterns_need_support() {
    let g = HypothesisGenerator::new();
    let outputs = strings(&["big fire", "fire big"]);
    assert!(g.candidate_patterns(&outputs).is_empty());
    let outputs = strings(&["hot fire now", "the hot fire", "Hot Fire"]);
    let c = g.candidate_patterns(&outputs);
    let patterns: Vec<&str> = c.iter().map(|x| x.pattern.as_str()).collect();
    assert_eq!(patterns, vec!["hot fire"]);
    assert_eq!(c[0].supporting_examples, vec![0, 1, 2]);
}

#[test]
fn candidate_patterns_keep_first_spelling_and_skip_short_runs() {
    let g = HypothesisGenerator::new();
    let outputs = strings(&["A B c", "a b c", "A B C"]);
    let c = g.candidate_patterns(&outputs);
    let patterns: Vec<&str> = c.iter().map(|x| x.pattern.as_str()).collect();
    // "A B" has three bytes and is no candidate; "A B c" is the first spelling.
    assert_eq!(patterns, vec!["A B c"]);
    assert_eq!(c[0].supporting_examples, vec![0, 1, 2]);
}

#[test]
fn generalized_words_keep_frequent_cleaned_words() {
    let g = HypothesisGenerator::new();
    let outputs = strings(&["Fire, hot!", "fire burns", "ice"]);
    // threshold 3 / 2 = 1: every cleaned word, once, in order of first occurrence
    assert_eq!(g.generalized_words(&outputs), vec!["fire", "hot", "burns", "ice"]);
    let outputs = strings(&["fire hot", "fire cold", "fire warm", "ice"]);
    assert_eq!(g.generalized_words(&outputs), vec!["fire"]);
    let outputs = strings(&["... !!!"]);
    assert!(g.generalized_words(&outputs).is_empty());
}

#[test]
fn common_pattern_joins_the_two_most_frequent_words() {
    let outputs = strings(&["hot fire", "fire hot", "hot flame"]);
    assert_eq!(common_pattern(&outputs), "hot + fire");
    let outputs = strings(&["a flame", "an ox"]);
    assert_eq!(common_pattern(&outputs), "flame");
    let outputs = strings(&["a b", "c"]);
    assert_eq!(common_pattern(&outputs), "unknown");
    let outputs = strings(&["zeta alpha", "beta"]);
    assert_eq!(common_pattern(&outputs), "zeta + alpha");
}

#[test]
fn contains_ignoring_case_lowers_both() {
    assert!(contains_ignoring_case("The Hot Fire", "hot FIRE"));
    assert!(!contains_ignoring_case("The Hot Fire", "ice"));
}

#[test]
fn word_overlap_counts_shared_words() {
    assert_eq!(word_overlap("hot fire", "fire hot"), (2, 2));
    assert_eq!(word_overlap("hot fire", "fire"), (1, 2));
    assert_eq!(word_overlap("", "fire"), (0, 1));
    assert_eq!(word_overlap("a a", "a"), (2, 2));
}
