//! Records read back from the store, and the rules by which stored text is
//! read back and searched.
use vstd::prelude::*;
use std::collections::HashMap;
use crate::learning::hypothesis::{join_run, join_spaced, rows, split_words, words_of};
use crate::persistence::memory::{belief_state_name, memory_domain_name, BeliefState, MemoryDomain};
use crate::text::{
    char_at_byte, char_index_at_byte, chars_of, concat5, lemma_char_at_byte, lowercase, slice_chars,
    str_eq, string_from_chars, unicode_lowercase, utf8_len,
};

verus! {

/// A stored conversation session.
#[derive(Debug, Clone)]
pub struct Session {
    pub id: i64,
    pub started_at: i64,
    pub ended_at: Option<i64>,
    pub summary: Option<String>,
}

/// Counts over the whole memory store.
#[derive(Debug, Default)]
pub struct MemorySnapshot {
    pub memory_count: i64,
    pub beliefs_count: i64,
    pub sessions_count: i64,
    pub domain_breakdown: HashMap<String, i64>,
}

/// The memory domain a stored name reads back as: the domain of that name,
/// and episodic for any other text.
pub open spec fn domain_from_name_spec(s: Seq<char>) -> MemoryDomain {
    if s == "identity"@ {
        MemoryDomain::Identity
    } else if s == "empirical"@ {
        MemoryDomain::Empirical
    } else if s == "procedural"@ {
        MemoryDomain::Procedural
    } else if s == "relationship"@ {
        MemoryDomain::Relationship
    } else {
        MemoryDomain::Episodic
    }
}

/// The memory domain a stored name reads back as.
pub fn domain_from_name(s: &str) -> (d: MemoryDomain)
    ensures
        d == domain_from_name_spec(s@),
{
    if str_eq(s, "identity") {
        MemoryDomain::Identity
    } else if str_eq(s, "empirical") {
        MemoryDomain::Empirical
    } else if str_eq(s, "procedural") {
        MemoryDomain::Procedural
    } else if str_eq(s, "relationship") {
        MemoryDomain::Relationship
    } else {
        MemoryDomain::Episodic
    }
}

/// The belief state a stored name reads back as: the state of that name, and
/// unknown for any other text.
pub open spec fn belief_state_from_name_spec(s: Seq<char>) -> BeliefState {
    if s == "knows"@ {
        BeliefState::Knows
    } else if s == "thinks"@ {
        BeliefState::Thinks
    } else if s == "believes"@ {
        BeliefState::Believes
    } else if s == "suspects"@ {
        BeliefState::Suspects
    } else {
        BeliefState::Unknown
    }
}

/// The belief state a stored name reads back as.
pub fn belief_state_from_name(s: &str) -> (b: BeliefState)
    ensures
        b == belief_state_from_name_spec(s@),
{
    if str_eq(s, "knows") {
        BeliefState::Knows
    } else if str_eq(s, "thinks") {
        BeliefState::Thinks
    } else if str_eq(s, "believes") {
        BeliefState::Believes
    } else if str_eq(s, "suspects") {
        BeliefState::Suspects
    } else {
        BeliefState::Unknown
    }
}

/// A memory domain written under its name reads back as the same domain.
pub proof fn law_domain_reads_back_as_written(d: MemoryDomain)
    ensures
        domain_from_name_spec(memory_domain_name(d)) == d,
{
    reveal_strlit("identity");
    reveal_strlit("empirical");
    reveal_strlit("procedural");
    reveal_strlit("episodic");
    reveal_strlit("relationship");
    let n = memory_domain_name(d);
    if d != MemoryDomain::Identity {
        assert(n[0] != 'i' || n.len() != 8);
    }
    if d != MemoryDomain::Empirical {
        assert(n[1] != 'm' || n.len() != 9);
    }
    if d != MemoryDomain::Procedural {
        assert(n[0] != 'p' || n.len() != 10);
    }
    if d != MemoryDomain::Relationship {
        assert(n[0] != 'r' || n.len() != 12);
    }
}

/// A belief state written under its name reads back as the same state.
pub proof fn law_belief_state_reads_back_as_written(b: BeliefState)
    ensures
        belief_state_from_name_spec(belief_state_name(b)) == b,
{
    reveal_strlit("knows");
    reveal_strlit("thinks");
    reveal_strlit("believes");
    reveal_strlit("suspects");
    reveal_strlit("unknown");
    let n = belief_state_name(b);
    if b != BeliefState::Knows {
        assert(n[0] != 'k' || n.len() != 5);
    }
    if b != BeliefState::Thinks {
        assert(n[0] != 't' || n.len() != 6);
    }
    if b != BeliefState::Believes {
        assert(n[0] != 'b' || n.len() != 8);
    }
    if b != BeliefState::Suspects {
        assert(n[0] != 's' || n.len() != 8);
    }
}

/// The lowercase queries that are never matched inside other words.
pub open spec fn is_skip_query(s: Seq<char>) -> bool {
    ||| s == "the "@
    ||| s == "and "@
    ||| s == "for "@
    ||| s == "brain"@
    ||| s == "drain"@
    ||| s == "train"@
    ||| s == "grain"@
    ||| s == "plain"@
    ||| s == "remain"@
    ||| s == "contain"@
    ||| s == "about"@
    ||| s == "which"@
}

/// A memory search with no whole-word match falls back to matching inside
/// words when the query is at least four bytes long and its lowercase form is
/// not one of the skipped queries.
pub open spec fn tries_partial_match_spec(query: Seq<char>) -> bool {
    utf8_len(query) >= 4 && !is_skip_query(unicode_lowercase(query))
}

/// Whether a memory search with no whole-word match falls back to matching
/// inside words.
pub fn tries_partial_match(query: &str) -> (b: bool)
    ensures
        b == tries_partial_match_spec(query@),
{
    if query.as_bytes().len() < 4 {
        return false;
    }
    let lower = lowercase(query);
    let l = lower.as_str();
    !(str_eq(l, "the ") || str_eq(l, "and ") || str_eq(l, "for ") || str_eq(l, "brain")
        || str_eq(l, "drain") || str_eq(l, "train") || str_eq(l, "grain") || str_eq(l, "plain")
        || str_eq(l, "remain") || str_eq(l, "contain") || str_eq(l, "about") || str_eq(
        l,
        "which",
    ))
}

/// The topic of a reasoning gap with none stored: the first three words of
/// its query, joined by single spaces.
pub open spec fn gap_topic_spec(query: Seq<char>) -> Seq<char> {
    let ws = words_of(query);
    if ws.len() < 3 {
        join_spaced(ws)
    } else {
        join_spaced(ws.subrange(0, 3))
    }
}

/// The topic of a reasoning gap with none stored.
pub fn gap_topic(query: &str) -> (r: String)
    ensures
        r@ == gap_topic_spec(query@),
{
    let cs = chars_of(query);
    let words = split_words(cs.as_slice());
    let n: usize = if words.len() < 3 {
        words.len()
    } else {
        3
    };
    if n == 0 {
        return String::new();
    }
    let joined = join_run(&words, 0, n);
    proof {
        if words@.len() < 3 {
            assert(rows(words@).subrange(0, n as int) =~= rows(words@));
        }
    }
    string_from_chars(joined.as_slice())
}

/// The first 50 bytes of a conclusion, or all of it when it is shorter; `None`
/// when byte 50 falls inside a character.
pub open spec fn conclusion_head(c: Seq<char>) -> Option<Seq<char>> {
    if utf8_len(c) <= 50 {
        Some(c)
    } else {
        match char_at_byte(c, 50, 0) {
            Some(j) => Some(c.subrange(0, j)),
            None => None,
        }
    }
}

/// Why a reasoning gap matters, in words.
pub open spec fn gap_reason_spec(
    head: Seq<char>,
    state: BeliefState,
    was_uncertain: bool,
    hedge_count: i32,
) -> Seq<char> {
    "I concluded '"@ + head + "' with "@ + belief_state_name(state) + " confidence — "@ + if was_uncertain {
        "I wasn't sure"@
    } else if hedge_count > 0 {
        "I hedged"@
    } else {
        "my confidence was low"@
    }
}

/// Why a reasoning gap matters: the conclusion cut to its first 50 bytes, the
/// confidence it was held with, and whether the reasoning was unsure, hedged
/// or merely low in confidence. The cut must fall between characters.
pub fn gap_reason(conclusion: &str, state: BeliefState, was_uncertain: bool, hedge_count: i32) -> (r:
    String)
    requires
        conclusion_head(conclusion@) is Some,
    ensures
        r@ == gap_reason_spec(
            conclusion_head(conclusion@)->0,
            state,
            was_uncertain,
            hedge_count,
        ),
{
    let cs = chars_of(conclusion);
    let head: String = if conclusion.as_bytes().len() <= 50 {
        string_from_chars(cs.as_slice())
    } else {
        proof {
            lemma_char_at_byte(cs@, 50, 0);
        }
        match char_index_at_byte(cs.as_slice(), 50) {
            Some(j) => {
                let part = slice_chars(cs.as_slice(), 0, j);
                string_from_chars(part.as_slice())
            },
            None => string_from_chars(cs.as_slice()),
        }
    };
    let reason = if was_uncertain {
        "I wasn't sure"
    } else if hedge_count > 0 {
        "I hedged"
    } else {
        "my confidence was low"
    };
    let mut r = concat5("I concluded '", head.as_str(), "' with ", state.as_str(), " confidence — ");
    r.append(reason);
    r
}

} // verus!
