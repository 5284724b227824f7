//! Metacognition: surprise detection, reasoning records, belief revisions,
//! the internal critic, and structured intents.
pub mod critic;
pub mod intents;
pub mod reflection;

use vstd::prelude::*;
use std::collections::VecDeque;
use crate::metacog::intents::{
    clock_selection, selection_of, surprise_at, surprise_index, surprise_kind_of, surprise_options,
    surprise_phrase, SurpriseKind,
};
use crate::persistence::memory::{belief_state_name, is_confident, BeliefState};
use crate::text::{
    chars_of, concat3, concat5, contains_seq, lowercase, lowercase_contains, str_eq, string_of,
    unicode_lowercase, utf8_len,
};

verus! {

broadcast use vstd::string::group_string_axioms;

/// What the surprise detector knows: whether it was recently surprised, how
/// many surprises it has counted, the notes it keeps and how many it keeps.
pub struct SurpriseModel {
    pub surprised: bool,
    pub count: nat,
    pub recorded: Seq<Seq<char>>,
    pub capacity: nat,
}

/// How many surprise notes a detector keeps.
pub const SURPRISE_CAPACITY: usize = 10;

/// The note kept for each surprise.
pub open spec fn surprise_note() -> Seq<char> {
    "unexpected conclusion"@
}

/// Detects when the system's reasoning leads somewhere unexpected.
pub struct SurpriseDetector {
    was_surprised: bool,
    surprise_count: usize,
    surprises: VecDeque<String>,
    max_surprises: usize,
}

/// The words that, in a confident conclusion, signal an unexpected reversal.
pub open spec fn reversal_signal(lower: Seq<char>) -> bool {
    contains_seq(lower, "but"@) || contains_seq(lower, "however"@) || contains_seq(
        lower,
        "unexpectedly"@,
    ) || contains_seq(lower, "contrary"@) || contains_seq(lower, "actually"@) || contains_seq(
        lower,
        "wait"@,
    )
}

/// Whether a conclusion, given its lowercased query and lowercased text and
/// the confidence it was reached with, is surprising: only a confident
/// conclusion can be; it is when it signals a reversal, when it answers a
/// "why" with "don't know", or when it answers a "how" in under 20 bytes.
pub open spec fn surprising_in_lowered(
    query_lower: Seq<char>,
    conclusion_lower: Seq<char>,
    confidence: BeliefState,
) -> bool {
    is_confident(confidence) && (reversal_signal(conclusion_lower) || (contains_seq(
        query_lower,
        "why"@,
    ) && contains_seq(conclusion_lower, "don't know"@)) || (contains_seq(query_lower, "how"@)
        && utf8_len(conclusion_lower) < 20))
}

/// Whether a conclusion, already lowercased along with its query, is
/// surprising given its confidence.
pub fn surprise_in_lowered(query_lower: &str, conclusion_lower: &str, confidence: BeliefState) -> (r:
    bool)
    ensures
        r == surprising_in_lowered(query_lower@, conclusion_lower@, confidence),
{
    if !(confidence == BeliefState::Knows || confidence == BeliefState::Thinks) {
        return false;
    }
    let c = chars_of(conclusion_lower);
    let cs = c.as_slice();
    if lowercase_contains(cs, "but") || lowercase_contains(cs, "however") || lowercase_contains(
        cs,
        "unexpectedly",
    ) || lowercase_contains(cs, "contrary") || lowercase_contains(cs, "actually")
        || lowercase_contains(cs, "wait") {
        return true;
    }
    let q = chars_of(query_lower);
    let qs = q.as_slice();
    (lowercase_contains(qs, "why") && lowercase_contains(cs, "don't know")) || (lowercase_contains(
        qs,
        "how",
    ) && conclusion_lower.as_bytes().len() < 20)
}

impl SurpriseDetector {
    /// The detector's state.
    pub closed spec fn model(&self) -> SurpriseModel {
        SurpriseModel {
            surprised: self.was_surprised,
            count: self.surprise_count as nat,
            recorded: self.surprises@.map_values(|s: String| s@),
            capacity: self.max_surprises as nat,
        }
    }

    #[verifier::type_invariant]
    closed spec fn inv(&self) -> bool {
        &&& self.max_surprises == SURPRISE_CAPACITY
        &&& self.surprises@.len() <= self.max_surprises
    }

    /// A detector that has not been surprised.
    pub fn new() -> (d: SurpriseDetector)
        ensures
            d.model() == (SurpriseModel {
                surprised: false,
                count: 0,
                recorded: Seq::empty(),
                capacity: SURPRISE_CAPACITY as nat,
            }),
    {
        let d = SurpriseDetector {
            was_surprised: false,
            surprise_count: 0,
            surprises: VecDeque::with_capacity(10),
            max_surprises: SURPRISE_CAPACITY,
        };
        assert(d.model().recorded =~= Seq::<Seq<char>>::empty());
        d
    }

    /// Whether a conclusion to a query was surprising, given the confidence
    /// it was reached with; query and conclusion are compared in lower case.
    pub fn detect_surprise(&self, query: &str, conclusion: &str, confidence: BeliefState) -> (r:
        bool)
        ensures
            r == surprising_in_lowered(
                unicode_lowercase(query@),
                unicode_lowercase(conclusion@),
                confidence,
            ),
    {
        let query_lower = lowercase(query);
        let conc_lower = lowercase(conclusion);
        surprise_in_lowered(query_lower.as_str(), conc_lower.as_str(), confidence)
    }

    /// Records a surprise: the detector is surprised, counts one more and
    /// keeps a note, dropping its oldest note when full.
    pub fn mark_surprised(&mut self)
        requires
            old(self).model().count < usize::MAX,
        ensures
            final(self).model().surprised,
            final(self).model().count == old(self).model().count + 1,
            final(self).model().capacity == old(self).model().capacity,
            final(self).model().recorded.len() <= final(self).model().capacity,
            final(self).model().recorded == (if old(self).model().recorded.len() >= old(
                self,
            ).model().capacity {
                old(self).model().recorded.drop_first()
            } else {
                old(self).model().recorded
            }).push(surprise_note()),
    {
        proof {
            use_type_invariant(&*self);
        }
        let ghost before = self.model().recorded;
        let mut notes: VecDeque<String> = VecDeque::new();
        std::mem::swap(&mut notes, &mut self.surprises);
        if notes.len() >= self.max_surprises {
            let _ = notes.pop_front();
        }
        notes.push_back(string_of("unexpected conclusion"));
        proof {
            assert(notes@.map_values(|s: String| s@) =~= (if before.len() >= SURPRISE_CAPACITY {
                before.drop_first()
            } else {
                before
            }).push(surprise_note()));
        }
        self.surprises = notes;
        self.was_surprised = true;
        self.surprise_count = self.surprise_count + 1;
    }

    /// How many surprises the detector has counted.
    pub fn surprise_count(&self) -> (n: usize)
        ensures
            n == self.model().count,
    {
        self.surprise_count
    }

    /// Whether the detector was surprised since it was last cleared.
    pub fn was_recently_surprised(&self) -> (b: bool)
        ensures
            b == self.model().surprised,
    {
        self.was_surprised
    }

    /// Whether a conclusion is surprising in itself: a short (under 30 bytes)
    /// conclusion held only as a belief or suspicion.
    pub fn is_surprising(&self, conclusion: &str, confidence: BeliefState) -> (r: bool)
        ensures
            r == ((confidence == BeliefState::Suspects || confidence == BeliefState::Believes)
                && utf8_len(conclusion@) < 30),
    {
        (confidence == BeliefState::Suspects || confidence == BeliefState::Believes)
            && conclusion.as_bytes().len() < 30
    }

    /// A phrase of surprise at a conclusion, of the kind its lowercase form
    /// shows, rotated by the clock.
    pub fn express_surprise(&self, conclusion: &str) -> (r: String)
        ensures
            exists|t: i64| r@ == surprise_at(surprise_kind_of(unicode_lowercase(conclusion@)), t),
            surprise_options(surprise_kind_of(unicode_lowercase(conclusion@))).contains(r@),
    {
        let lower = lowercase(conclusion);
        let kind = SurpriseKind::from_lowered(lower.as_str());
        let now = clock_selection();
        let s = surprise_phrase(kind, now);
        proof {
            let k = surprise_index(kind, now as nat);
            assert(surprise_options(kind)[k as int] == s@);
            let t = choose|t: i64| now == selection_of(t);
            assert(s@ == surprise_at(kind, t));
        }
        string_of(s)
    }

    /// Clears the surprised flag; counts and notes stay.
    pub fn clear_surprise(&mut self)
        ensures
            !final(self).model().surprised,
            final(self).model().count == old(self).model().count,
            final(self).model().recorded == old(self).model().recorded,
            final(self).model().capacity == old(self).model().capacity,
    {
        proof {
            use_type_invariant(&*self);
        }
        self.was_surprised = false;
    }
}

impl Default for SurpriseDetector {
    fn default() -> (d: SurpriseDetector)
        ensures
            d.model() == (SurpriseModel {
                surprised: false,
                count: 0,
                recorded: Seq::empty(),
                capacity: SURPRISE_CAPACITY as nat,
            }),
    {
        SurpriseDetector::new()
    }
}

/// A record of one reasoning session.
#[derive(Debug, Clone)]
pub struct ReasoningRecord {
    pub query: String,
    pub conclusion: String,
    pub confidence: BeliefState,
    pub timestamp: i64,
    pub was_surprising: bool,
}

/// A change of belief about a topic.
#[derive(Debug, Clone)]
pub struct BeliefRevision {
    pub topic: String,
    pub old_state: BeliefState,
    pub new_state: BeliefState,
    pub reason: String,
    pub timestamp: i64,
    /// Whether autonomous thinking has already looked into this revision.
    pub investigated: bool,
}


/// What the gap tracker reports of its most important knowledge gap: the
/// topic, and whether the gap is still open and already partly explored.
#[derive(Debug, Clone)]
pub struct GapSignal {
    pub topic: String,
    pub open_and_explored: bool,
}

/// The record `back` places before the newest one.
pub open spec fn record_back(h: Seq<ReasoningRecord>, back: int) -> ReasoningRecord {
    h[h.len() - 1 - back]
}

/// The lowercased query of the record `back` places before the newest.
pub open spec fn query_back(h: Seq<ReasoningRecord>, back: int) -> Seq<char> {
    unicode_lowercase(record_back(h, back).query@)
}

/// How many of the four records before the newest share its lowercased query.
pub open spec fn repeats_of_newest(h: Seq<ReasoningRecord>) -> nat {
    (if query_back(h, 1) == query_back(h, 0) { 1nat } else { 0nat }) + (if query_back(h, 2)
        == query_back(h, 0) {
        1nat
    } else {
        0nat
    }) + (if query_back(h, 3) == query_back(h, 0) { 1nat } else { 0nat }) + (if query_back(h, 4)
        == query_back(h, 0) {
        1nat
    } else {
        0nat
    })
}

/// What the system notices about its own reasoning, in order of precedence:
/// a surprising newest conclusion; the newest belief revision; a confidence
/// trend over the three newest conclusions; an open, partly explored gap; a
/// query that came back at least three times among the five newest.
pub open spec fn insight_spec(
    history: Seq<ReasoningRecord>,
    revisions: Seq<BeliefRevision>,
    gap: Option<GapSignal>,
) -> Option<Seq<char>> {
    if history.len() > 0 && history.last().was_surprising {
        Some("That conclusion surprised me — I expected something different."@)
    } else if revisions.len() > 0 {
        let r = revisions.last();
        Some(
            "I notice I've shifted from "@ + belief_state_name(r.old_state) + " to "@
                + belief_state_name(r.new_state) + " about "@ + r.topic@ + "."@,
        )
    } else if history.len() >= 3 && is_confident(record_back(history, 0).confidence)
        && !is_confident(record_back(history, 2).confidence) {
        Some("I'm becoming less certain as I think through this topic."@)
    } else if history.len() >= 3 && !is_confident(record_back(history, 0).confidence)
        && is_confident(record_back(history, 2).confidence) {
        Some("I'm growing more confident as I reason through this."@)
    } else if gap matches Some(g) && g.open_and_explored {
        Some(
            "I keep running into gaps when I think about "@ + gap->Some_0.topic@
                + ". I want to understand this better."@,
        )
    } else if history.len() >= 5 && repeats_of_newest(history) >= 2 {
        Some("I've been thinking about '"@ + query_back(history, 0) + "' repeatedly. It seems important."@)
    } else {
        None
    }
}

/// Whether a belief state is held with confidence.
fn confident(b: BeliefState) -> (r: bool)
    ensures
        r == is_confident(b),
{
    b == BeliefState::Knows || b == BeliefState::Thinks
}

/// What the system notices about its own reasoning, given its reasoning
/// history (oldest first), its belief revisions (oldest first) and what the
/// gap tracker reports of its most important gap.
pub fn insight_from(
    history: &[ReasoningRecord],
    revisions: &[BeliefRevision],
    top_gap: Option<&GapSignal>,
) -> (r: Option<String>)
    ensures
        match insight_spec(history@, revisions@, match top_gap {
            Some(g) => Some(*g),
            None => None,
        }) {
            Some(t) => r matches Some(s) && s@ == t,
            None => r is None,
        },
{
    let n = history.len();
    if n > 0 && history[n - 1].was_surprising {
        return Some(string_of("That conclusion surprised me — I expected something different."));
    }
    if revisions.len() > 0 {
        let r = &revisions[revisions.len() - 1];
        let head = concat5(
            "I notice I've shifted from ",
            r.old_state.as_str(),
            " to ",
            r.new_state.as_str(),
            " about ",
        );
        let s = concat3(head.as_str(), r.topic.as_str(), ".");
        assert(s@ =~= "I notice I've shifted from "@ + belief_state_name(r.old_state) + " to "@
            + belief_state_name(r.new_state) + " about "@ + r.topic@ + "."@);
        return Some(s);
    }
    if n >= 3 {
        let newest = confident(history[n - 1].confidence);
        let third = confident(history[n - 3].confidence);
        if newest && !third {
            return Some(string_of("I'm becoming less certain as I think through this topic."));
        }
        if !newest && third {
            return Some(string_of("I'm growing more confident as I reason through this."));
        }
    }
    match top_gap {
        Some(g) => {
            if g.open_and_explored {
                return Some(
                    concat3(
                        "I keep running into gaps when I think about ",
                        g.topic.as_str(),
                        ". I want to understand this better.",
                    ),
                );
            }
        },
        None => {},
    }
    if n >= 5 {
        let first = lowercase(history[n - 1].query.as_str());
        let mut matches: usize = 0;
        let mut back: usize = 1;
        while back < 5
            invariant
                n == history@.len(),
                n >= 5,
                1 <= back <= 5,
                first@ == query_back(history@, 0),
                matches == (if back > 1 && query_back(history@, 1) == query_back(history@, 0) {
                    1nat
                } else {
                    0nat
                }) + (if back > 2 && query_back(history@, 2) == query_back(history@, 0) {
                    1nat
                } else {
                    0nat
                }) + (if back > 3 && query_back(history@, 3) == query_back(history@, 0) {
                    1nat
                } else {
                    0nat
                }) + (if back > 4 && query_back(history@, 4) == query_back(history@, 0) {
                    1nat
                } else {
                    0nat
                }),
            decreases 5 - back,
        {
            let other = lowercase(history[n - 1 - back].query.as_str());
            if str_eq(other.as_str(), first.as_str()) {
                matches = matches + 1;
            }
            back = back + 1;
        }
        if matches >= 2 {
            return Some(concat3("I've been thinking about '", first.as_str(), "' repeatedly. It seems important."));
        }
    }
    None
}


/// Only a conclusion reached with confidence ("knows" or "thinks") can be
/// surprising. Such a conclusion is surprising when its lowercase text holds
/// "but", "however", "unexpectedly", "contrary", "actually" or "wait"; when
/// the lowercase query holds "why" and the conclusion "don't know"; or when
/// the query holds "how" and the conclusion is under 20 bytes. Nothing else
/// makes it surprising.
pub proof fn law_surprise_signals(query_lower: Seq<char>, conclusion_lower: Seq<char>, confidence: BeliefState)
    ensures
        !(confidence == BeliefState::Knows || confidence == BeliefState::Thinks) ==> !surprising_in_lowered(
            query_lower,
            conclusion_lower,
            confidence,
        ),
        (confidence == BeliefState::Knows || confidence == BeliefState::Thinks) ==> (
        surprising_in_lowered(query_lower, conclusion_lower, confidence) == (contains_seq(
            conclusion_lower,
            "but"@,
        ) || contains_seq(conclusion_lower, "however"@) || contains_seq(
            conclusion_lower,
            "unexpectedly"@,
        ) || contains_seq(conclusion_lower, "contrary"@) || contains_seq(
            conclusion_lower,
            "actually"@,
        ) || contains_seq(conclusion_lower, "wait"@) || (contains_seq(query_lower, "why"@)
            && contains_seq(conclusion_lower, "don't know"@)) || (contains_seq(query_lower, "how"@)
            && utf8_len(conclusion_lower) < 20))),
{
}

} // verus!
