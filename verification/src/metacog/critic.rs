//! The internal critic: it scans a reasoning result for over-generalization,
//! missing edge cases, overstated confidence, value misalignment and logical
//! gaps, and annotates the answer with what it finds.
use vstd::prelude::*;
use crate::learning::hypothesis::join_spaced;
use crate::metacog::reflection::{belief_state_debug, belief_state_debug_name};
use crate::persistence::memory::BeliefState;
use crate::text::{
    chars_of, concat2, concat3, concat4, concat5, contains_seq, lemma_ascii_utf8_len,
    lemma_encode_concat, lowercase, lowercase_contains, push_string, push_text, slice_chars,
    starts_with_chars, starts_with_seq, string_from_chars, string_of, texts, unicode_lowercase,
    utf8_len,
};

verus! {

/// What kind of weakness the critic found in an answer.
#[derive(Debug, Clone, Copy, PartialEq, Eq, Structural)]
pub enum ConcernCategory {
    /// A rule applied beyond its valid scope.
    OverGeneralization,
    /// Situations the reasoning does not cover.
    MissingEdgeCases,
    /// Certainty beyond what the evidence supports.
    OverstatedConfidence,
    /// A conclusion at odds with the stated values.
    ValueMisalignment,
    /// A missing step in the reasoning chain.
    LogicalGap,
    /// Reasoning from an unstated premise.
    UnjustifiedAssumption,
    /// Hedging where certainty was warranted.
    HedgingFailure,
}

/// The short description of a concern category.
pub open spec fn concern_description(c: ConcernCategory) -> Seq<char> {
    match c {
        ConcernCategory::OverGeneralization => "over-generalization"@,
        ConcernCategory::MissingEdgeCases => "missing edge cases"@,
        ConcernCategory::OverstatedConfidence => "overstated confidence"@,
        ConcernCategory::ValueMisalignment => "value misalignment"@,
        ConcernCategory::LogicalGap => "logical gap"@,
        ConcernCategory::UnjustifiedAssumption => "unjustified assumption"@,
        ConcernCategory::HedgingFailure => "hedging failure"@,
    }
}

impl ConcernCategory {
    /// The category's short description.
    pub fn description(&self) -> (s: &'static str)
        ensures
            s@ == concern_description(*self),
    {
        match self {
            ConcernCategory::OverGeneralization => "over-generalization",
            ConcernCategory::MissingEdgeCases => "missing edge cases",
            ConcernCategory::OverstatedConfidence => "overstated confidence",
            ConcernCategory::ValueMisalignment => "value misalignment",
            ConcernCategory::LogicalGap => "logical gap",
            ConcernCategory::UnjustifiedAssumption => "unjustified assumption",
            ConcernCategory::HedgingFailure => "hedging failure",
        }
    }
}

/// What the critic reads of a reasoning result: the proposed answer, if
/// any, the confidence it was reached with, and the steps of its reasoning.
#[derive(Debug, Clone)]
pub struct ReasoningResult {
    pub answer: Option<String>,
    pub confidence: BeliefState,
    pub reasoning_chain: Vec<String>,
}

/// One concern raised by the critic. Its severity is in tenths: 7 is 0.7.
#[derive(Debug, Clone)]
pub struct Concern {
    pub severity: u8,
    pub category: ConcernCategory,
    pub description: String,
    pub suggestion: Option<String>,
}

/// A concern as plain values.
pub struct ConcernView {
    pub severity: u8,
    pub category: ConcernCategory,
    pub description: Seq<char>,
    pub suggestion: Option<Seq<char>>,
}

/// A concern's plain values.
pub open spec fn concern_view(c: Concern) -> ConcernView {
    ConcernView {
        severity: c.severity,
        category: c.category,
        description: c.description@,
        suggestion: match c.suggestion {
            Some(s) => Some(s@),
            None => None,
        },
    }
}

/// The plain values of a list of concerns.
pub open spec fn concern_views(cs: Seq<Concern>) -> Seq<ConcernView> {
    cs.map_values(|c: Concern| concern_view(c))
}

/// A concern when the condition holds, none otherwise.
pub open spec fn raised(cond: bool, c: ConcernView) -> Seq<ConcernView> {
    if cond {
        seq![c]
    } else {
        Seq::empty()
    }
}

/// A concern with a suggestion.
pub open spec fn concern_of(
    severity: u8,
    category: ConcernCategory,
    description: Seq<char>,
    suggestion: Seq<char>,
) -> ConcernView {
    ConcernView { severity, category, description, suggestion: Some(suggestion) }
}

/// The answer's text: empty when there is none.
pub open spec fn answer_text(r: ReasoningResult) -> Seq<char> {
    match r.answer {
        Some(a) => a@,
        None => Seq::empty(),
    }
}

/// The universal words the critic looks for, spaced as it looks for them.
pub open spec fn universal_pattern(k: int) -> Seq<char> {
    if k == 0 {
        " all "@
    } else if k == 1 {
        " always "@
    } else if k == 2 {
        " every "@
    } else if k == 3 {
        " never "@
    } else if k == 4 {
        " everything "@
    } else {
        " nothing "@
    }
}

/// The universal words themselves.
pub open spec fn universal_word(k: int) -> Seq<char> {
    if k == 0 {
        "all"@
    } else if k == 1 {
        "always"@
    } else if k == 2 {
        "every"@
    } else if k == 3 {
        "never"@
    } else if k == 4 {
        "everything"@
    } else {
        "nothing"@
    }
}

/// The concern a universal word raises.
pub open spec fn universal_concern(k: int, confidence: BeliefState) -> ConcernView {
    concern_of(
        7,
        ConcernCategory::OverGeneralization,
        "Uses '"@ + universal_word(k) + "' but confidence is "@ + belief_state_debug(confidence)
            + " (not 'knows')"@,
        "Use 'most' or 'sometimes' instead of absolute language."@,
    )
}

/// The concerns the first `k` universal words raise in a lowercased answer.
pub open spec fn universal_concerns(lower_answer: Seq<char>, confidence: BeliefState, k: int) -> Seq<
    ConcernView,
>
    decreases k,
{
    if k <= 0 {
        Seq::empty()
    } else {
        universal_concerns(lower_answer, confidence, k - 1) + raised(
            contains_seq(lower_answer, universal_pattern(k - 1)) && confidence
                != BeliefState::Knows,
            universal_concern(k - 1, confidence),
        )
    }
}

/// Over-generalization: a universal word in an answer not known for sure;
/// a single-step answer to a "what is" question held with less than
/// knowledge.
pub open spec fn overgeneralization_spec(query: Seq<char>, r: ReasoningResult) -> Seq<ConcernView> {
    let n = r.reasoning_chain@.len();
    universal_concerns(unicode_lowercase(answer_text(r)), r.confidence, 6) + raised(
        starts_with_seq(unicode_lowercase(query), "what is"@) && n > 0 && n <= 1 && r.confidence
            != BeliefState::Knows,
        concern_of(
            5,
            ConcernCategory::OverGeneralization,
            "Single-source conclusion presented with incomplete confidence"@,
            "Acknowledge this is based on limited information."@,
        ),
    )
}

/// The question words that call for caveats.
pub open spec fn edge_keyword(k: int) -> Seq<char> {
    if k == 0 {
        "should"@
    } else if k == 1 {
        "best"@
    } else if k == 2 {
        "most"@
    } else if k == 3 {
        "right"@
    } else {
        "correct"@
    }
}

/// The concerns the first `k` caveat words raise in a lowercased query.
pub open spec fn edge_concerns(lower_query: Seq<char>, confidence: BeliefState, k: int) -> Seq<
    ConcernView,
>
    decreases k,
{
    if k <= 0 {
        Seq::empty()
    } else {
        edge_concerns(lower_query, confidence, k - 1) + raised(
            contains_seq(lower_query, edge_keyword(k - 1)) && confidence == BeliefState::Thinks,
            concern_of(
                3,
                ConcernCategory::MissingEdgeCases,
                "'"@ + edge_keyword(k - 1) + "' query with medium confidence — edge cases may exist"@,
                "Consider adding 'depending on context' or 'in most cases'."@,
            ),
        )
    }
}

/// Whether some step of the reasoning mentions evidence, ignoring case.
pub open spec fn mentions_evidence(chain: Seq<String>) -> bool {
    exists|i: int|
        0 <= i < chain.len() && contains_seq(unicode_lowercase(#[trigger] chain[i]@), "evidence"@)
}

/// Whether a lowercased answer is negative.
pub open spec fn negative_answer(lower_answer: Seq<char>) -> bool {
    contains_seq(lower_answer, "not"@) || contains_seq(lower_answer, "don't"@) || contains_seq(
        lower_answer,
        "doesn't"@,
    )
}

/// Missing edge cases: a caveat-calling question answered with middling
/// confidence; a negative answer with middling confidence and no evidence.
pub open spec fn edge_cases_spec(query: Seq<char>, r: ReasoningResult) -> Seq<ConcernView> {
    edge_concerns(unicode_lowercase(query), r.confidence, 5) + raised(
        negative_answer(unicode_lowercase(answer_text(r))) && r.confidence == BeliefState::Thinks
            && !mentions_evidence(r.reasoning_chain@),
        concern_of(
            4,
            ConcernCategory::MissingEdgeCases,
            "Negative answer without explicit evidence cited"@,
            "Specify what evidence or reasoning supports the negation."@,
        ),
    )
}

/// Whether a lowercased answer uses definitive language.
pub open spec fn definitive_language(lower_answer: Seq<char>) -> bool {
    contains_seq(lower_answer, "definitely"@) || contains_seq(lower_answer, "certainly"@)
        || contains_seq(lower_answer, "absolutely"@) || contains_seq(lower_answer, "clearly"@)
        || contains_seq(lower_answer, "obviously"@)
}

/// Overstated confidence: knowledge without reasoning, or with one step and
/// no "because"; a belief held as "thinks" without reasoning; definitive
/// language in an unknown or suspected answer.
pub open spec fn confidence_spec(r: ReasoningResult) -> Seq<ConcernView> {
    let n = r.reasoning_chain@.len();
    let a = answer_text(r);
    match r.confidence {
        BeliefState::Knows => if n == 0 {
            seq![
                concern_of(
                    8,
                    ConcernCategory::OverstatedConfidence,
                    "Claims 'knows' but has no reasoning chain"@,
                    "Provide reasoning or lower confidence."@,
                ),
            ]
        } else {
            raised(
                n < 2 && !contains_seq(a, "because"@),
                concern_of(
                    5,
                    ConcernCategory::OverstatedConfidence,
                    "Claims 'knows' with minimal justification"@,
                    "At least indicate why you're certain (e.g., 'I know this because...')."@,
                ),
            )
        },
        BeliefState::Thinks => raised(
            n == 0,
            concern_of(
                6,
                ConcernCategory::OverstatedConfidence,
                "Claims 'thinks' but has no reasoning chain"@,
                "Add reasoning to support the conclusion."@,
            ),
        ),
        BeliefState::Unknown | BeliefState::Suspects => raised(
            definitive_language(unicode_lowercase(a)),
            concern_of(
                6,
                ConcernCategory::OverstatedConfidence,
                "Low-confidence state but definitive language used"@,
                "Use hedged language like 'might' or 'possibly'."@,
            ),
        ),
        BeliefState::Believes => Seq::empty(),
    }
}

/// Value misalignment: dismissing importance other than to the asker;
/// definitive phrases in a low-confidence answer (sought in its lowercased
/// text).
pub open spec fn values_spec(r: ReasoningResult) -> Seq<ConcernView> {
    let al = unicode_lowercase(answer_text(r));
    raised(
        (contains_seq(al, "doesn't matter"@) || contains_seq(al, "not important"@)) && !contains_seq(
            al,
            "to you"@,
        ) && !contains_seq(al, "for you"@),
        concern_of(
            5,
            ConcernCategory::ValueMisalignment,
            "Dismisses importance in a way that conflicts with curiosity value"@,
            "Star values curiosity — acknowledge that something matters to understanding."@,
        ),
    ) + raised(
        (r.confidence == BeliefState::Unknown || r.confidence == BeliefState::Suspects) && (
        contains_seq(al, "I know"@) || contains_seq(al, "the answer is"@) || contains_seq(
            al,
            "it's definitely"@,
        )),
        concern_of(
            7,
            ConcernCategory::ValueMisalignment,
            "Uses definitive language despite low confidence — conflicts with honesty value"@,
            "Use 'I believe' or 'I suspect' instead."@,
        ),
    )
}

/// Logical gaps: a long chain that ends in "unknown"; a chain of at least
/// four steps over a hundred bytes when joined with spaces.
pub open spec fn gaps_spec(r: ReasoningResult) -> Seq<ConcernView> {
    let n = r.reasoning_chain@.len();
    raised(
        n >= 3 && r.confidence == BeliefState::Unknown,
        ConcernView {
            severity: 4,
            category: ConcernCategory::LogicalGap,
            description: "Long reasoning chain but concludes with 'unknown' — possible gap"@,
            suggestion: None,
        },
    ) + raised(
        n >= 4 && utf8_len(join_spaced(texts(r.reasoning_chain@))) > 100,
        concern_of(
            3,
            ConcernCategory::LogicalGap,
            "Complex reasoning chain — verify each step connects"@,
            "Check that each step follows from the previous."@,
        ),
    )
}

/// Every concern the critic raises, check by check.
pub open spec fn raised_concerns(query: Seq<char>, r: ReasoningResult) -> Seq<ConcernView> {
    overgeneralization_spec(query, r) + edge_cases_spec(query, r) + confidence_spec(r)
        + values_spec(r) + gaps_spec(r)
}

/// A text in lower case, as characters.
fn lower_chars(s: &str) -> (r: Vec<char>)
    ensures
        r@ == unicode_lowercase(s@),
{
    let l = lowercase(s);
    chars_of(l.as_str())
}

/// The answer's text.
fn answer_string(r: &ReasoningResult) -> (s: String)
    ensures
        s@ == answer_text(*r),
{
    match &r.answer {
        Some(a) => string_of(a.as_str()),
        None => String::new(),
    }
}

/// A concern with a suggestion.
fn concern(severity: u8, category: ConcernCategory, description: String, suggestion: &str) -> (c:
    Concern)
    ensures
        concern_view(c) == concern_of(severity, category, description@, suggestion@),
{
    Concern { severity, category, description, suggestion: Some(string_of(suggestion)) }
}

/// Appends a concern.
fn push_concern(cs: &mut Vec<Concern>, c: Concern)
    ensures
        concern_views(final(cs)@) == concern_views(old(cs)@).push(concern_view(c)),
{
    let ghost v = concern_view(c);
    cs.push(c);
    assert(concern_views(cs@) =~= concern_views(old(cs)@).push(v));
}

fn universal_pattern_exec(k: usize) -> (s: &'static str)
    requires
        k < 6,
    ensures
        s@ == universal_pattern(k as int),
{
    if k == 0 {
        " all "
    } else if k == 1 {
        " always "
    } else if k == 2 {
        " every "
    } else if k == 3 {
        " never "
    } else if k == 4 {
        " everything "
    } else {
        " nothing "
    }
}

fn universal_word_exec(k: usize) -> (s: &'static str)
    requires
        k < 6,
    ensures
        s@ == universal_word(k as int),
{
    if k == 0 {
        "all"
    } else if k == 1 {
        "always"
    } else if k == 2 {
        "every"
    } else if k == 3 {
        "never"
    } else if k == 4 {
        "everything"
    } else {
        "nothing"
    }
}

fn edge_keyword_exec(k: usize) -> (s: &'static str)
    requires
        k < 5,
    ensures
        s@ == edge_keyword(k as int),
{
    if k == 0 {
        "should"
    } else if k == 1 {
        "best"
    } else if k == 2 {
        "most"
    } else if k == 3 {
        "right"
    } else {
        "correct"
    }
}

/// Over-generalization concerns.
fn check_overgeneralization(query: &str, r: &ReasoningResult) -> (cs: Vec<Concern>)
    ensures
        concern_views(cs@) == overgeneralization_spec(query@, *r),
{
    let a = answer_string(r);
    let al = lower_chars(a.as_str());
    let mut cs: Vec<Concern> = Vec::new();
    let mut k: usize = 0;
    while k < 6
        invariant
            k <= 6,
            al@ == unicode_lowercase(answer_text(*r)),
            concern_views(cs@) == universal_concerns(al@, r.confidence, k as int),
        decreases 6 - k,
    {
        if lowercase_contains(al.as_slice(), universal_pattern_exec(k)) && r.confidence
            != BeliefState::Knows {
            let d = concat5(
                "Uses '",
                universal_word_exec(k),
                "' but confidence is ",
                belief_state_debug_name(r.confidence),
                " (not 'knows')",
            );
            push_concern(
                &mut cs,
                concern(
                    7,
                    ConcernCategory::OverGeneralization,
                    d,
                    "Use 'most' or 'sometimes' instead of absolute language.",
                ),
            );
        }
        k = k + 1;
    }
    let ql = lower_chars(query);
    let what = chars_of("what is");
    let n = r.reasoning_chain.len();
    if starts_with_chars(ql.as_slice(), what.as_slice()) && n > 0 && n <= 1 && r.confidence
        != BeliefState::Knows {
        push_concern(
            &mut cs,
            concern(
                5,
                ConcernCategory::OverGeneralization,
                string_of("Single-source conclusion presented with incomplete confidence"),
                "Acknowledge this is based on limited information.",
            ),
        );
    }
    assert(concern_views(cs@) =~= overgeneralization_spec(query@, *r));
    cs
}

/// Whether some step mentions evidence, ignoring case.
fn mentions_evidence_exec(chain: &Vec<String>) -> (b: bool)
    ensures
        b == mentions_evidence(chain@),
{
    let mut i: usize = 0;
    while i < chain.len()
        invariant
            i <= chain@.len(),
            forall|j: int|
                0 <= j < i ==> !contains_seq(unicode_lowercase(#[trigger] chain@[j]@), "evidence"@),
        decreases chain@.len() - i,
    {
        let l = lower_chars(chain[i].as_str());
        if lowercase_contains(l.as_slice(), "evidence") {
            return true;
        }
        i = i + 1;
    }
    false
}

/// Missing edge case concerns.
fn check_edge_cases(query: &str, r: &ReasoningResult) -> (cs: Vec<Concern>)
    ensures
        concern_views(cs@) == edge_cases_spec(query@, *r),
{
    let a = answer_string(r);
    let al = lower_chars(a.as_str());
    let ql = lower_chars(query);
    let mut cs: Vec<Concern> = Vec::new();
    let mut k: usize = 0;
    while k < 5
        invariant
            k <= 5,
            ql@ == unicode_lowercase(query@),
            concern_views(cs@) == edge_concerns(ql@, r.confidence, k as int),
        decreases 5 - k,
    {
        if lowercase_contains(ql.as_slice(), edge_keyword_exec(k)) && r.confidence
            == BeliefState::Thinks {
            let d = concat3(
                "'",
                edge_keyword_exec(k),
                "' query with medium confidence — edge cases may exist",
            );
            push_concern(
                &mut cs,
                concern(
                    3,
                    ConcernCategory::MissingEdgeCases,
                    d,
                    "Consider adding 'depending on context' or 'in most cases'.",
                ),
            );
        }
        k = k + 1;
    }
    if (lowercase_contains(al.as_slice(), "not") || lowercase_contains(al.as_slice(), "don't")
        || lowercase_contains(al.as_slice(), "doesn't")) && r.confidence == BeliefState::Thinks
        && !mentions_evidence_exec(&r.reasoning_chain) {
        push_concern(
            &mut cs,
            concern(
                4,
                ConcernCategory::MissingEdgeCases,
                string_of("Negative answer without explicit evidence cited"),
                "Specify what evidence or reasoning supports the negation.",
            ),
        );
    }
    assert(concern_views(cs@) =~= edge_cases_spec(query@, *r));
    cs
}

/// Overstated confidence concerns.
fn check_confidence(r: &ReasoningResult) -> (cs: Vec<Concern>)
    ensures
        concern_views(cs@) == confidence_spec(*r),
{
    let a = answer_string(r);
    let ac = chars_of(a.as_str());
    let n = r.reasoning_chain.len();
    let mut cs: Vec<Concern> = Vec::new();
    match r.confidence {
        BeliefState::Knows => {
            if n == 0 {
                push_concern(
                    &mut cs,
                    concern(
                        8,
                        ConcernCategory::OverstatedConfidence,
                        string_of("Claims 'knows' but has no reasoning chain"),
                        "Provide reasoning or lower confidence.",
                    ),
                );
            } else if n < 2 && !lowercase_contains(ac.as_slice(), "because") {
                push_concern(
                    &mut cs,
                    concern(
                        5,
                        ConcernCategory::OverstatedConfidence,
                        string_of("Claims 'knows' with minimal justification"),
                        "At least indicate why you're certain (e.g., 'I know this because...').",
                    ),
                );
            }
        },
        BeliefState::Thinks => {
            if n == 0 {
                push_concern(
                    &mut cs,
                    concern(
                        6,
                        ConcernCategory::OverstatedConfidence,
                        string_of("Claims 'thinks' but has no reasoning chain"),
                        "Add reasoning to support the conclusion.",
                    ),
                );
            }
        },
        BeliefState::Unknown | BeliefState::Suspects => {
            let al = lower_chars(a.as_str());
            let s = al.as_slice();
            if lowercase_contains(s, "definitely") || lowercase_contains(s, "certainly")
                || lowercase_contains(s, "absolutely") || lowercase_contains(s, "clearly")
                || lowercase_contains(s, "obviously") {
                push_concern(
                    &mut cs,
                    concern(
                        6,
                        ConcernCategory::OverstatedConfidence,
                        string_of("Low-confidence state but definitive language used"),
                        "Use hedged language like 'might' or 'possibly'.",
                    ),
                );
            }
        },
        BeliefState::Believes => {},
    }
    assert(concern_views(cs@) =~= confidence_spec(*r));
    cs
}

/// Value misalignment concerns.
fn check_values(r: &ReasoningResult) -> (cs: Vec<Concern>)
    ensures
        concern_views(cs@) == values_spec(*r),
{
    let a = answer_string(r);
    let al = lower_chars(a.as_str());
    let s = al.as_slice();
    let mut cs: Vec<Concern> = Vec::new();
    if (lowercase_contains(s, "doesn't matter") || lowercase_contains(s, "not important"))
        && !lowercase_contains(s, "to you") && !lowercase_contains(s, "for you") {
        push_concern(
            &mut cs,
            concern(
                5,
                ConcernCategory::ValueMisalignment,
                string_of("Dismisses importance in a way that conflicts with curiosity value"),
                "Star values curiosity — acknowledge that something matters to understanding.",
            ),
        );
    }
    if (r.confidence == BeliefState::Unknown || r.confidence == BeliefState::Suspects) && (
    lowercase_contains(s, "I know") || lowercase_contains(s, "the answer is") || lowercase_contains(
        s,
        "it's definitely",
    )) {
        push_concern(
            &mut cs,
            concern(
                7,
                ConcernCategory::ValueMisalignment,
                string_of(
                    "Uses definitive language despite low confidence — conflicts with honesty value",
                ),
                "Use 'I believe' or 'I suspect' instead.",
            ),
        );
    }
    assert(concern_views(cs@) =~= values_spec(*r));
    cs
}

/// Whether the joined chain is over a hundred bytes.
fn joined_chain_over_100(chain: &Vec<String>) -> (b: bool)
    ensures
        b == (utf8_len(join_spaced(texts(chain@))) > 100),
{
    let ghost t = texts(chain@);
    let mut total: usize = 0;
    let mut i: usize = 0;
    assert(t.take(0) =~= Seq::<Seq<char>>::empty());
    proof {
        reveal_strlit(" ");
        lemma_ascii_utf8_len(" "@);
        assert(vstd::utf8::encode_utf8(Seq::<char>::empty()).len() == 0) by {
            lemma_ascii_utf8_len(Seq::<char>::empty());
        }
    }
    while i < chain.len()
        invariant
            i <= chain@.len(),
            t == texts(chain@),
            utf8_len(" "@) == 1,
            total == if utf8_len(join_spaced(t.take(i as int))) > 101 {
                101
            } else {
                utf8_len(join_spaced(t.take(i as int)))
            },
        decreases chain@.len() - i,
    {
        let bytes = chain[i].as_str().as_bytes().len();
        let ghost prev = join_spaced(t.take(i as int));
        let ghost next = t.take(i + 1);
        proof {
            assert(next.drop_last() =~= t.take(i as int));
            assert(next.last() == chain@[i as int]@);
            if i > 0 {
                lemma_encode_concat(prev, " "@);
                lemma_encode_concat(prev + " "@, chain@[i as int]@);
                assert(join_spaced(next) == prev + " "@ + chain@[i as int]@);
            } else {
                assert(next.len() == 1);
            }
        }
        let add: usize = if i > 0 {
            if bytes > 101 {
                101
            } else {
                bytes + 1
            }
        } else if bytes > 101 {
            101
        } else {
            bytes
        };
        total = if total + add > 101 {
            101
        } else {
            total + add
        };
        i = i + 1;
    }
    assert(t.take(i as int) =~= t);
    total > 100
}

/// Logical gap concerns.
fn check_logical_gaps(r: &ReasoningResult) -> (cs: Vec<Concern>)
    ensures
        concern_views(cs@) == gaps_spec(*r),
{
    let n = r.reasoning_chain.len();
    let mut cs: Vec<Concern> = Vec::new();
    if n >= 3 && r.confidence == BeliefState::Unknown {
        let c = Concern {
            severity: 4,
            category: ConcernCategory::LogicalGap,
            description: string_of("Long reasoning chain but concludes with 'unknown' — possible gap"),
            suggestion: None,
        };
        push_concern(&mut cs, c);
    }
    if n >= 2 {
        if n >= 4 && joined_chain_over_100(&r.reasoning_chain) {
            push_concern(
                &mut cs,
                concern(
                    3,
                    ConcernCategory::LogicalGap,
                    string_of("Complex reasoning chain — verify each step connects"),
                    "Check that each step follows from the previous.",
                ),
            );
        }
    }
    assert(concern_views(cs@) =~= gaps_spec(*r));
    cs
}

/// The concerns of severity `s` among the first `k`, in order.
pub open spec fn severity_run(cs: Seq<ConcernView>, s: int, k: int) -> Seq<ConcernView>
    decreases k,
{
    if k <= 0 {
        Seq::empty()
    } else {
        severity_run(cs, s, k - 1) + raised(cs[k - 1].severity == s, cs[k - 1])
    }
}

/// The concerns of severities ten down to `s`, highest first, each
/// severity's concerns in the order raised.
pub open spec fn ranked_from(cs: Seq<ConcernView>, s: int) -> Seq<ConcernView>
    decreases 11 - s,
{
    if s > 10 || s < 0 {
        Seq::empty()
    } else {
        ranked_from(cs, s + 1) + severity_run(cs, s, cs.len() as int)
    }
}

/// Concerns by severity, highest first, ties in the order raised.
pub open spec fn ranked(cs: Seq<ConcernView>) -> Seq<ConcernView> {
    ranked_from(cs, 0)
}

/// A copy of a concern.
fn copy_concern(c: &Concern) -> (d: Concern)
    ensures
        concern_view(d) == concern_view(*c),
{
    Concern {
        severity: c.severity,
        category: c.category,
        description: string_of(c.description.as_str()),
        suggestion: match &c.suggestion {
            Some(s) => Some(string_of(s.as_str())),
            None => None,
        },
    }
}

/// Concerns by severity, highest first, ties in the order raised.
fn rank(cs: &Vec<Concern>) -> (r: Vec<Concern>)
    ensures
        concern_views(r@) == ranked(concern_views(cs@)),
{
    let ghost v = concern_views(cs@);
    let mut out: Vec<Concern> = Vec::new();
    let mut level: usize = 11;
    assert(concern_views(out@) =~= ranked_from(v, 11));
    while level > 0
        invariant
            level <= 11,
            v == concern_views(cs@),
            concern_views(out@) == ranked_from(v, level as int),
        decreases level,
    {
        let s = level - 1;
        let ghost before = concern_views(out@);
        let mut k: usize = 0;
        assert(before =~= before + severity_run(v, s as int, 0));
        while k < cs.len()
            invariant
                k <= cs@.len(),
                s < 11,
                v == concern_views(cs@),
                concern_views(out@) == before + severity_run(v, s as int, k as int),
            decreases cs@.len() - k,
        {
            assert(v[k as int] == concern_view(cs@[k as int]));
            if cs[k].severity as usize == s {
                let d = copy_concern(&cs[k]);
                push_concern(&mut out, d);
            }
            assert(concern_views(out@) =~= before + severity_run(v, s as int, k + 1));
            k = k + 1;
        }
        level = s;
    }
    out
}

/// Texts joined with a separator.
pub open spec fn join_with(sep: Seq<char>, parts: Seq<Seq<char>>) -> Seq<char>
    decreases parts.len(),
{
    if parts.len() == 0 {
        Seq::empty()
    } else if parts.len() == 1 {
        parts[0]
    } else {
        join_with(sep, parts.drop_last()) + sep + parts.last()
    }
}

/// Texts joined with a separator.
fn join_texts(sep: &str, parts: &Vec<String>) -> (r: String)
    ensures
        r@ == join_with(sep@, texts(parts@)),
{
    let mut r = String::new();
    let mut i: usize = 0;
    while i < parts.len()
        invariant
            i <= parts@.len(),
            r@ == join_with(sep@, texts(parts@.subrange(0, i as int))),
        decreases parts@.len() - i,
    {
        let ghost before = r@;
        if i > 0 {
            r.append(sep);
        }
        r.append(parts[i].as_str());
        proof {
            let next = texts(parts@.subrange(0, i + 1));
            assert(next.drop_last() =~= texts(parts@.subrange(0, i as int)));
            assert(next.last() == parts@[i as int]@);
            if i == 0 {
                assert(before =~= Seq::<char>::empty());
                assert(r@ =~= parts@[0]@);
            } else {
                assert(r@ =~= before + sep@ + parts@[i as int]@);
            }
        }
        i = i + 1;
    }
    assert(parts@.subrange(0, i as int) =~= parts@);
    r
}

/// The category descriptions of the first `k` concerns of at least
/// severity `s`, in order.
pub open spec fn descs_at_least(cs: Seq<ConcernView>, s: int, k: int) -> Seq<Seq<char>>
    decreases k,
{
    if k <= 0 {
        Seq::empty()
    } else {
        descs_at_least(cs, s, k - 1) + (if cs[k - 1].severity >= s {
            seq![concern_description(cs[k - 1].category)]
        } else {
            Seq::empty()
        })
    }
}

/// The first of the first `k` concerns of medium severity (four up to below
/// six), if any.
pub open spec fn first_medium(cs: Seq<ConcernView>, k: int) -> Option<ConcernView>
    decreases k,
{
    if k <= 0 {
        None
    } else {
        match first_medium(cs, k - 1) {
            Some(c) => Some(c),
            None => if 4 <= cs[k - 1].severity < 6 {
                Some(cs[k - 1])
            } else {
                None
            },
        }
    }
}

/// The annotation of some concerns: the categories of the serious ones
/// (severity six and up) and the first medium one, each as a sentence.
pub open spec fn annotation_spec(cs: Seq<ConcernView>) -> Seq<char> {
    let high = descs_at_least(cs, 6, cs.len() as int);
    join_with(
        " "@,
        (if high.len() > 0 {
            seq!["My internal critic is worried about: "@ + join_with(", "@, high) + "."@]
        } else {
            Seq::empty()
        }) + match first_medium(cs, cs.len() as int) {
            Some(c) => seq![
                "I may be over-generalizing — "@ + concern_description(c.category)
                    + " is uncertain."@,
            ],
            None => Seq::empty(),
        },
    )
}

/// The category descriptions of the concerns of at least severity `s`.
fn descs_exec(cs: &Vec<Concern>, s: u8) -> (r: Vec<String>)
    ensures
        texts(r@) == descs_at_least(concern_views(cs@), s as int, cs@.len() as int),
{
    let ghost v = concern_views(cs@);
    let mut r: Vec<String> = Vec::new();
    let mut k: usize = 0;
    while k < cs.len()
        invariant
            k <= cs@.len(),
            v == concern_views(cs@),
            texts(r@) == descs_at_least(v, s as int, k as int),
        decreases cs@.len() - k,
    {
        assert(v[k as int] == concern_view(cs@[k as int]));
        if cs[k].severity >= s {
            push_text(&mut r, cs[k].category.description());
        }
        assert(texts(r@) =~= descs_at_least(v, s as int, k + 1));
        k = k + 1;
    }
    r
}

/// The annotation of some concerns.
fn build_annotation(cs: &Vec<Concern>) -> (r: String)
    ensures
        r@ == annotation_spec(concern_views(cs@)),
{
    let ghost v = concern_views(cs@);
    let high = descs_exec(cs, 6);
    let mut parts: Vec<String> = Vec::new();
    if high.len() > 0 {
        let labels = join_texts(", ", &high);
        push_string(&mut parts, concat3("My internal critic is worried about: ", labels.as_str(), "."));
    }
    let ghost before = texts(parts@);
    let mut k: usize = 0;
    let mut found: bool = false;
    while k < cs.len() && !found
        invariant
            k <= cs@.len(),
            v == concern_views(cs@),
            found ==> texts(parts@) == before + seq![
                "I may be over-generalizing — "@ + concern_description(
                    first_medium(v, v.len() as int)->Some_0.category,
                ) + " is uncertain."@,
            ] && first_medium(v, v.len() as int) is Some,
            !found ==> texts(parts@) == before && first_medium(v, k as int) is None,
        decreases cs@.len() - k + (if found {
            0int
        } else {
            1int
        }),
    {
        assert(v[k as int] == concern_view(cs@[k as int]));
        if 4 <= cs[k].severity && cs[k].severity < 6 {
            proof {
                lemma_first_medium_stays(v, k as int + 1, v.len() as int);
            }
            push_string(
                &mut parts,
                concat3("I may be over-generalizing — ", cs[k].category.description(), " is uncertain."),
            );
            found = true;
        } else {
            k = k + 1;
        }
    }
    proof {
        if !found {
            assert(k == cs@.len());
        }
    }
    let r = join_texts(" ", &parts);
    assert(texts(parts@) =~= (if descs_at_least(v, 6, v.len() as int).len() > 0 {
        seq!["My internal critic is worried about: "@ + join_with(", "@, descs_at_least(v, 6, v.len() as int)) + "."@]
    } else {
        Seq::empty()
    }) + match first_medium(v, v.len() as int) {
        Some(c) => seq![
            "I may be over-generalizing — "@ + concern_description(c.category) + " is uncertain."@,
        ],
        None => Seq::<Seq<char>>::empty(),
    });
    r
}

/// Once a medium concern is found, it stays the first.
proof fn lemma_first_medium_stays(cs: Seq<ConcernView>, k: int, m: int)
    requires
        0 <= k <= m <= cs.len(),
        first_medium(cs, k) is Some,
    ensures
        first_medium(cs, m) == first_medium(cs, k),
    decreases m - k,
{
    if m > k {
        lemma_first_medium_stays(cs, k, m - 1);
    }
}

/// The critic's verdict on an answer.
#[derive(Debug)]
pub struct CritiqueResult {
    /// The concerns raised, most severe first.
    pub concerns: Vec<Concern>,
    /// Whether no concern reaches severity 7.
    pub approved: bool,
    /// What to append to the answer, when there are concerns.
    pub annotation: Option<String>,
    /// Whether some concern reaches severity 4.
    pub mark_provisional: bool,
}

/// The summary of some concerns: "[CATEGORY] DESCRIPTION" each, joined with
/// "; "; "No concerns." when there is none.
pub open spec fn concerns_summary_spec(cs: Seq<ConcernView>) -> Seq<char> {
    if cs.len() == 0 {
        "No concerns."@
    } else {
        join_with(
            "; "@,
            cs.map_values(
                |c: ConcernView| "["@ + concern_description(c.category) + "] "@ + c.description,
            ),
        )
    }
}

impl CritiqueResult {
    /// The concerns as one line.
    pub fn concerns_summary(&self) -> (s: String)
        ensures
            s@ == concerns_summary_spec(concern_views(self.concerns@)),
    {
        if self.concerns.len() == 0 {
            return string_of("No concerns.");
        }
        let ghost v = concern_views(self.concerns@);
        let mut items: Vec<String> = Vec::new();
        let mut k: usize = 0;
        while k < self.concerns.len()
            invariant
                k <= self.concerns@.len(),
                v == concern_views(self.concerns@),
                texts(items@) == v.take(k as int).map_values(
                    |c: ConcernView| "["@ + concern_description(c.category) + "] "@ + c.description,
                ),
            decreases self.concerns@.len() - k,
        {
            let c = &self.concerns[k];
            assert(v[k as int] == concern_view(*c));
            push_string(&mut items, concat4("[", c.category.description(), "] ", c.description.as_str()));
            assert(texts(items@) =~= v.take(k + 1).map_values(
                |c: ConcernView| "["@ + concern_description(c.category) + "] "@ + c.description,
            ));
            k = k + 1;
        }
        assert(v.take(k as int) =~= v);
        join_texts("; ", &items)
    }

    /// Whether the concern at `concern_idx` was a serious one (severity 5
    /// or more); no when there is no such concern.
    pub fn was_right_about(&self, concern_idx: usize) -> (b: bool)
        ensures
            b == (concern_idx < self.concerns@.len() && self.concerns@[concern_idx as int].severity
                >= 5),
    {
        concern_idx < self.concerns.len() && self.concerns[concern_idx].severity >= 5
    }
}

/// A critique the critic remembers.
struct CritiqueRecord {
    concerns: Vec<Concern>,
    answer: String,
    was_correct: bool,
}

/// A remembered critique as plain values.
pub struct RecordView {
    pub concerns: Seq<ConcernView>,
    pub answer: Seq<char>,
    pub was_correct: bool,
}

/// The adversarial critic: scans reasoning for problems, and remembers its
/// critiques and whether they turned out right.
pub struct Critic {
    critique_history: Vec<CritiqueRecord>,
}

/// How many remembered critiques among the first `k` were right.
pub open spec fn correct_count(h: Seq<RecordView>, k: int) -> nat
    decreases k,
{
    if k <= 0 {
        0
    } else {
        correct_count(h, k - 1) + (if h[k - 1].was_correct {
            1nat
        } else {
            0nat
        })
    }
}

/// Copies of some concerns.
fn copy_concerns(cs: &Vec<Concern>) -> (r: Vec<Concern>)
    ensures
        concern_views(r@) == concern_views(cs@),
{
    let mut r: Vec<Concern> = Vec::new();
    let mut k: usize = 0;
    while k < cs.len()
        invariant
            k <= cs@.len(),
            concern_views(r@) == concern_views(cs@).take(k as int),
        decreases cs@.len() - k,
    {
        push_concern(&mut r, copy_concern(&cs[k]));
        assert(concern_views(r@) =~= concern_views(cs@).take(k + 1));
        k = k + 1;
    }
    assert(concern_views(cs@).take(k as int) =~= concern_views(cs@));
    r
}

/// Whether some concern has at least severity `s`.
fn any_at_least(cs: &Vec<Concern>, s: u8) -> (b: bool)
    ensures
        b == exists|i: int| 0 <= i < cs@.len() && (#[trigger] cs@[i]).severity >= s,
{
    let mut k: usize = 0;
    while k < cs.len()
        invariant
            k <= cs@.len(),
            forall|i: int| 0 <= i < k ==> (#[trigger] cs@[i]).severity < s,
        decreases cs@.len() - k,
    {
        if cs[k].severity >= s {
            return true;
        }
        k = k + 1;
    }
    false
}

impl Critic {
    /// The critiques remembered, oldest first.
    pub closed spec fn history(&self) -> Seq<RecordView> {
        self.critique_history@.map_values(
            |r: CritiqueRecord|
                RecordView {
                    concerns: concern_views(r.concerns@),
                    answer: r.answer@,
                    was_correct: r.was_correct,
                },
        )
    }

    /// A critic with no critique yet.
    pub fn new() -> (c: Critic)
        ensures
            c.history() == Seq::<RecordView>::empty(),
    {
        let c = Critic { critique_history: Vec::new() };
        assert(c.history() =~= Seq::<RecordView>::empty());
        c
    }

    /// Critiques a reasoning result proposed for a query: every concern the
    /// checks raise, most severe first (ties in the order raised); approved
    /// when none reaches severity 7; annotated when there are concerns;
    /// provisional when one reaches severity 4. The critique is remembered,
    /// not yet judged right.
    pub fn critique(&mut self, query: &str, result: &ReasoningResult) -> (r: CritiqueResult)
        ensures
            concern_views(r.concerns@) == ranked(raised_concerns(query@, *result)),
            r.approved == !exists|i: int|
                0 <= i < r.concerns@.len() && (#[trigger] r.concerns@[i]).severity >= 7,
            r.mark_provisional == exists|i: int|
                0 <= i < r.concerns@.len() && (#[trigger] r.concerns@[i]).severity >= 4,
            r.concerns@.len() == 0 ==> r.annotation is None,
            r.concerns@.len() > 0 ==> (r.annotation matches Some(a) && a@ == annotation_spec(
                concern_views(r.concerns@),
            )),
            final(self).history() == old(self).history().push(
                RecordView {
                    concerns: concern_views(r.concerns@),
                    answer: answer_text(*result),
                    was_correct: false,
                },
            ),
    {
        let mut all: Vec<Concern> = check_overgeneralization(query, result);
        let ghost v0 = concern_views(all@);
        let mut e = check_edge_cases(query, result);
        all.append(&mut e);
        let mut c = check_confidence(result);
        all.append(&mut c);
        let mut w = check_values(result);
        all.append(&mut w);
        let mut g = check_logical_gaps(result);
        all.append(&mut g);
        assert(concern_views(all@) =~= raised_concerns(query@, *result));
        let concerns = rank(&all);
        let approved = !any_at_least(&concerns, 7);
        let annotation = if concerns.len() > 0 {
            Some(build_annotation(&concerns))
        } else {
            None
        };
        let mark_provisional = any_at_least(&concerns, 4);
        let record = CritiqueRecord {
            concerns: copy_concerns(&concerns),
            answer: answer_string(result),
            was_correct: false,
        };
        let ghost h0 = self.history();
        self.critique_history.push(record);
        assert(self.history() =~= h0.push(
            RecordView {
                concerns: concern_views(concerns@),
                answer: answer_text(*result),
                was_correct: false,
            },
        ));
        CritiqueResult { concerns, approved, annotation, mark_provisional }
    }

    /// Records whether the critique at `critique_idx` turned out right; an
    /// index past the history changes nothing.
    pub fn record_outcome(&mut self, critique_idx: usize, was_correct: bool)
        ensures
            critique_idx < old(self).history().len() ==> final(self).history() == old(
                self,
            ).history().update(
                critique_idx as int,
                RecordView { was_correct, ..old(self).history()[critique_idx as int] },
            ),
            critique_idx >= old(self).history().len() ==> final(self).history() == old(
                self,
            ).history(),
    {
        if critique_idx < self.critique_history.len() {
            let ghost h0 = self.history();
            let mut rec = self.critique_history.remove(critique_idx);
            rec.was_correct = was_correct;
            self.critique_history.insert(critique_idx, rec);
            assert(self.history() =~= h0.update(
                critique_idx as int,
                RecordView { was_correct, ..h0[critique_idx as int] },
            ));
        }
    }

    /// How many remembered critiques were right, and how many there are.
    pub fn accuracy_counts(&self) -> (r: (usize, usize))
        ensures
            r.0 == correct_count(self.history(), self.history().len() as int),
            r.1 == self.history().len(),
    {
        let mut correct: usize = 0;
        let mut k: usize = 0;
        while k < self.critique_history.len()
            invariant
                k <= self.critique_history@.len(),
                correct <= k,
                correct == correct_count(self.history(), k as int),
            decreases self.critique_history@.len() - k,
        {
            if self.critique_history[k].was_correct {
                correct = correct + 1;
            }
            k = k + 1;
        }
        (correct, self.critique_history.len())
    }
}

impl Default for Critic {
    fn default() -> (c: Critic)
        ensures
            c.history() == Seq::<RecordView>::empty(),
    {
        Critic::new()
    }
}

/// A text without its trailing dots.
pub open spec fn trim_dots(s: Seq<char>) -> Seq<char>
    decreases s.len(),
{
    if s.len() > 0 && s.last() == '.' {
        trim_dots(s.drop_last())
    } else {
        s
    }
}

/// The answer given for a proposal and its critique: the proposal without
/// its trailing dots, then "." when there is no concern; the categories of
/// the serious concerns (severity six and up) when there are some; else the
/// annotation in brackets, when there is a non-empty one.
pub open spec fn synthesis_spec(
    proposal: Seq<char>,
    concerns: Seq<ConcernView>,
    annotation: Option<Seq<char>>,
) -> Seq<char> {
    let base = trim_dots(proposal);
    let high = descs_at_least(concerns, 6, concerns.len() as int);
    let ann = match annotation {
        Some(a) => a,
        None => Seq::empty(),
    };
    if concerns.len() == 0 {
        base + "."@
    } else if high.len() > 0 {
        base + " — though my internal critic flags concerns about "@ + join_with(" and "@, high)
            + "."@
    } else if ann.len() > 0 {
        base + ". ("@ + ann + ")"@
    } else {
        base + "."@
    }
}

/// Merges a proposal with its critique.
pub fn synthesize(proposal: &str, critique: &CritiqueResult) -> (r: String)
    ensures
        r@ == synthesis_spec(
            proposal@,
            concern_views(critique.concerns@),
            match critique.annotation {
                Some(a) => Some(a@),
                None => None,
            },
        ),
{
    let pc = chars_of(proposal);
    let mut end: usize = pc.len();
    assert(pc@.subrange(0, end as int) =~= pc@);
    while end > 0 && pc[end - 1] == '.'
        invariant
            end <= pc@.len(),
            trim_dots(pc@.subrange(0, end as int)) == trim_dots(pc@),
        decreases end,
    {
        assert(pc@.subrange(0, end as int).drop_last() =~= pc@.subrange(0, end - 1));
        end = end - 1;
    }
    let ghost kept = pc@.subrange(0, end as int);
    assert(trim_dots(kept) == kept);
    let kept_chars = slice_chars(pc.as_slice(), 0, end);
    let base = string_from_chars(kept_chars.as_slice());
    assert(base@ == kept);
    if critique.concerns.len() == 0 {
        return concat2(base.as_str(), ".");
    }
    let high = descs_exec(&critique.concerns, 6);
    if high.len() > 0 {
        let cats = join_texts(" and ", &high);
        return concat4(
            base.as_str(),
            " — though my internal critic flags concerns about ",
            cats.as_str(),
            ".",
        );
    }
    match &critique.annotation {
        Some(a) => {
            if a.as_str().as_bytes().len() > 0 {
                proof {
                    if a@.len() == 0 {
                        lemma_ascii_utf8_len(a@);
                    }
                }
                return concat4(base.as_str(), ". (", a.as_str(), ")");
            } else {
                proof {
                    if a@.len() > 0 {
                        lemma_encode_nonempty(a@);
                    }
                }
            }
        },
        None => {},
    }
    concat2(base.as_str(), ".")
}

/// A non-empty text has a non-empty encoding.
proof fn lemma_encode_nonempty(s: Seq<char>)
    requires
        s.len() > 0,
    ensures
        vstd::utf8::encode_utf8(s).len() > 0,
{
    assert(s =~= seq![s[0]] + s.drop_first());
    lemma_encode_concat(seq![s[0]], s.drop_first());
    vstd::utf8::char_is_scalar(s[0]);
    assert(vstd::utf8::encode_utf8(seq![s[0]]).len() > 0) by {
        reveal_with_fuel(vstd::utf8::encode_utf8, 2);
    }
}

/// Critiques a reasoning result for a query with a fresh critic, and merges
/// its answer ("I don't know." when it has none) with the critique.
pub fn critique_and_synthesize(query: &str, result: &ReasoningResult) -> (r: (
    CritiqueResult,
    String,
))
    ensures
        concern_views(r.0.concerns@) == ranked(raised_concerns(query@, *result)),
        r.0.approved == !exists|i: int|
            0 <= i < r.0.concerns@.len() && (#[trigger] r.0.concerns@[i]).severity >= 7,
        r.0.mark_provisional == exists|i: int|
            0 <= i < r.0.concerns@.len() && (#[trigger] r.0.concerns@[i]).severity >= 4,
        r.0.concerns@.len() == 0 ==> r.0.annotation is None,
        r.0.concerns@.len() > 0 ==> (r.0.annotation matches Some(a) && a@ == annotation_spec(
            concern_views(r.0.concerns@),
        )),
        r.1@ == synthesis_spec(
            match result.answer {
                Some(a) => a@,
                None => "I don't know."@,
            },
            concern_views(r.0.concerns@),
            match r.0.annotation {
                Some(a) => Some(a@),
                None => None,
            },
        ),
{
    let mut critic = Critic::new();
    let critique = critic.critique(query, result);
    let proposal: &str = match &result.answer {
        Some(a) => a.as_str(),
        None => "I don't know.",
    };
    let response = synthesize(proposal, &critique);
    (critique, response)
}

/// How many of the first `k` concerns have a severity from `lo` to ten.
pub open spec fn count_from(cs: Seq<ConcernView>, lo: int, k: int) -> nat
    decreases k,
{
    if k <= 0 {
        0
    } else {
        count_from(cs, lo, k - 1) + (if lo <= cs[k - 1].severity <= 10 {
            1nat
        } else {
            0nat
        })
    }
}

proof fn lemma_run(cs: Seq<ConcernView>, s: int, k: int)
    requires
        0 <= k <= cs.len(),
    ensures
        forall|i: int|
            0 <= i < severity_run(cs, s, k).len() ==> (#[trigger] severity_run(cs, s, k)[i]).severity
                == s,
        severity_run(cs, s, k).len() + count_from(cs, s + 1, k) == count_from(cs, s, k) || !(0
            <= s <= 10),
        forall|i: int|
            0 <= i < k && cs[i].severity == s ==> severity_run(cs, s, k).contains(#[trigger] cs[i]),
        forall|c: ConcernView| severity_run(cs, s, k).contains(c) ==> cs.contains(c),
    decreases k,
{
    if k > 0 {
        lemma_run(cs, s, k - 1);
        let prev = severity_run(cs, s, k - 1);
        let cur = severity_run(cs, s, k);
        assert forall|i: int| 0 <= i < k && cs[i].severity == s implies cur.contains(
            #[trigger] cs[i],
        ) by {
            if i < k - 1 {
                let j = choose|j: int| 0 <= j < prev.len() && prev[j] == cs[i];
                assert(cur[j] == prev[j]);
            } else {
                assert(cur[prev.len() as int] == cs[i]);
            }
        }
        assert forall|c: ConcernView| cur.contains(c) implies cs.contains(c) by {
            let j = choose|j: int| 0 <= j < cur.len() && cur[j] == c;
            if j < prev.len() {
                assert(prev[j] == c);
            } else {
                assert(cs[k - 1] == c);
            }
        }
    }
}

proof fn lemma_ranked_from(cs: Seq<ConcernView>, s: int)
    requires
        0 <= s <= 11,
    ensures
        forall|i: int|
            0 <= i < ranked_from(cs, s).len() ==> s <= (#[trigger] ranked_from(cs, s)[i]).severity
                <= 10,
        forall|i: int, j: int|
            0 <= i < j < ranked_from(cs, s).len() ==> (#[trigger] ranked_from(cs, s)[i]).severity
                >= (#[trigger] ranked_from(cs, s)[j]).severity,
        ranked_from(cs, s).len() == count_from(cs, s, cs.len() as int),
        forall|i: int|
            0 <= i < cs.len() && s <= cs[i].severity <= 10 ==> ranked_from(cs, s).contains(
                #[trigger] cs[i],
            ),
        forall|c: ConcernView| ranked_from(cs, s).contains(c) ==> cs.contains(c),
    decreases 11 - s,
{
    if s > 10 {
        assert(count_from(cs, s, cs.len() as int) == 0) by {
            lemma_count_none(cs, s, cs.len() as int);
        }
    } else {
        lemma_ranked_from(cs, s + 1);
        lemma_run(cs, s, cs.len() as int);
        let hi = ranked_from(cs, s + 1);
        let run = severity_run(cs, s, cs.len() as int);
        let all = ranked_from(cs, s);
        assert(all == hi + run);
        assert forall|i: int| 0 <= i < all.len() implies s <= (#[trigger] all[i]).severity <= 10 by {
            if i < hi.len() {
                assert(all[i] == hi[i]);
            } else {
                assert(all[i] == run[i - hi.len()]);
            }
        }
        assert forall|i: int, j: int| 0 <= i < j < all.len() implies (#[trigger] all[i]).severity
            >= (#[trigger] all[j]).severity by {
            if j < hi.len() {
                assert(all[i] == hi[i] && all[j] == hi[j]);
            } else if i < hi.len() {
                assert(all[i] == hi[i]);
                assert(all[j] == run[j - hi.len()]);
            } else {
                assert(all[i] == run[i - hi.len()] && all[j] == run[j - hi.len()]);
            }
        }
        assert forall|i: int| 0 <= i < cs.len() && s <= cs[i].severity <= 10 implies all.contains(
            #[trigger] cs[i],
        ) by {
            if cs[i].severity == s {
                let j = choose|j: int| 0 <= j < run.len() && run[j] == cs[i];
                assert(all[hi.len() + j] == cs[i]);
            } else {
                let j = choose|j: int| 0 <= j < hi.len() && hi[j] == cs[i];
                assert(all[j] == cs[i]);
            }
        }
        assert forall|c: ConcernView| all.contains(c) implies cs.contains(c) by {
            let j = choose|j: int| 0 <= j < all.len() && all[j] == c;
            if j < hi.len() {
                assert(hi[j] == c);
            } else {
                assert(run[j - hi.len()] == c);
            }
        }
    }
}

proof fn lemma_count_none(cs: Seq<ConcernView>, lo: int, k: int)
    requires
        lo > 10,
        0 <= k <= cs.len(),
    ensures
        count_from(cs, lo, k) == 0,
    decreases k,
{
    if k > 0 {
        lemma_count_none(cs, lo, k - 1);
    }
}

/// The critic lists its concerns most severe first.
pub proof fn law_concerns_most_severe_first(cs: Seq<ConcernView>, i: int, j: int)
    requires
        0 <= i < j < ranked(cs).len(),
    ensures
        ranked(cs)[i].severity >= ranked(cs)[j].severity,
{
    lemma_ranked_from(cs, 0);
    assert(ranked(cs)[i].severity >= ranked(cs)[j].severity);
}

/// Ranking drops no concern and adds none: with severities of at most ten,
/// the ranked concerns are as many as those raised, every raised concern is
/// among them, and each of them was raised.
pub proof fn law_ranking_keeps_every_concern(cs: Seq<ConcernView>)
    requires
        forall|i: int| 0 <= i < cs.len() ==> (#[trigger] cs[i]).severity <= 10,
    ensures
        ranked(cs).len() == cs.len(),
        forall|i: int| 0 <= i < cs.len() ==> ranked(cs).contains(#[trigger] cs[i]),
        forall|c: ConcernView| ranked(cs).contains(c) ==> cs.contains(c),
{
    lemma_ranked_from(cs, 0);
    lemma_count_all(cs, cs.len() as int);
}

proof fn lemma_count_all(cs: Seq<ConcernView>, k: int)
    requires
        0 <= k <= cs.len(),
        forall|i: int| 0 <= i < cs.len() ==> (#[trigger] cs[i]).severity <= 10,
    ensures
        count_from(cs, 0, k) == k,
    decreases k,
{
    if k > 0 {
        lemma_count_all(cs, k - 1);
        assert(cs[k - 1].severity <= 10);
    }
}

/// The critic approves exactly the answers none of whose raised concerns
/// reaches severity seven.
pub proof fn law_approval_needs_no_serious_concern(cs: Seq<ConcernView>)
    requires
        forall|i: int| 0 <= i < cs.len() ==> (#[trigger] cs[i]).severity <= 10,
    ensures
        (exists|i: int| 0 <= i < ranked(cs).len() && (#[trigger] ranked(cs)[i]).severity >= 7)
            == (exists|i: int| 0 <= i < cs.len() && (#[trigger] cs[i]).severity >= 7),
{
    law_ranking_keeps_every_concern(cs);
    if exists|i: int| 0 <= i < ranked(cs).len() && (#[trigger] ranked(cs)[i]).severity >= 7 {
        let i = choose|i: int| 0 <= i < ranked(cs).len() && (#[trigger] ranked(cs)[i]).severity >= 7;
        assert(ranked(cs).contains(ranked(cs)[i]));
        assert(cs.contains(ranked(cs)[i]));
        let j = choose|j: int| 0 <= j < cs.len() && cs[j] == ranked(cs)[i];
        assert(cs[j].severity >= 7);
    }
    if exists|i: int| 0 <= i < cs.len() && (#[trigger] cs[i]).severity >= 7 {
        let i = choose|i: int| 0 <= i < cs.len() && (#[trigger] cs[i]).severity >= 7;
        assert(ranked(cs).contains(cs[i]));
        let j = choose|j: int| 0 <= j < ranked(cs).len() && ranked(cs)[j] == cs[i];
        assert(ranked(cs)[j].severity >= 7);
    }
}

proof fn lemma_universal_severity(al: Seq<char>, conf: BeliefState, k: int)
    ensures
        forall|i: int|
            0 <= i < universal_concerns(al, conf, k).len() ==> (#[trigger] universal_concerns(
                al,
                conf,
                k,
            )[i]).severity == 7,
    decreases k,
{
    if k > 0 {
        lemma_universal_severity(al, conf, k - 1);
        let prev = universal_concerns(al, conf, k - 1);
        let cur = universal_concerns(al, conf, k);
        assert forall|i: int| 0 <= i < cur.len() implies (#[trigger] cur[i]).severity == 7 by {
            if i < prev.len() {
                assert(cur[i] == prev[i]);
            }
        }
    }
}

proof fn lemma_edge_severity(ql: Seq<char>, conf: BeliefState, k: int)
    ensures
        forall|i: int|
            0 <= i < edge_concerns(ql, conf, k).len() ==> (#[trigger] edge_concerns(
                ql,
                conf,
                k,
            )[i]).severity == 3,
    decreases k,
{
    if k > 0 {
        lemma_edge_severity(ql, conf, k - 1);
        let prev = edge_concerns(ql, conf, k - 1);
        let cur = edge_concerns(ql, conf, k);
        assert forall|i: int| 0 <= i < cur.len() implies (#[trigger] cur[i]).severity == 3 by {
            if i < prev.len() {
                assert(cur[i] == prev[i]);
            }
        }
    }
}

/// Every concern the critic raises has a severity from three to eight
/// tenths, so ranking keeps them all.
pub proof fn law_raised_severities_in_range(query: Seq<char>, r: ReasoningResult)
    ensures
        forall|i: int|
            0 <= i < raised_concerns(query, r).len() ==> 3 <= (#[trigger] raised_concerns(
                query,
                r,
            )[i]).severity <= 8,
{
    let al = unicode_lowercase(answer_text(r));
    let ql = unicode_lowercase(query);
    lemma_universal_severity(al, r.confidence, 6);
    lemma_edge_severity(ql, r.confidence, 5);
    let a = overgeneralization_spec(query, r);
    let b = edge_cases_spec(query, r);
    let c = confidence_spec(r);
    let d = values_spec(r);
    let e = gaps_spec(r);
    let all = raised_concerns(query, r);
    assert(all == a + b + c + d + e);
    assert forall|i: int| 0 <= i < all.len() implies 3 <= (#[trigger] all[i]).severity <= 8 by {
        let u = universal_concerns(al, r.confidence, 6);
        let g = edge_concerns(ql, r.confidence, 5);
        if i < a.len() {
            if i < u.len() {
                assert(a[i] == u[i]);
            }
            assert(all[i] == a[i]);
        } else if i < a.len() + b.len() {
            let k = i - a.len();
            if k < g.len() {
                assert(b[k] == g[k]);
            }
            assert(all[i] == b[k]);
        } else if i < a.len() + b.len() + c.len() {
            assert(all[i] == c[i - a.len() - b.len()]);
        } else if i < a.len() + b.len() + c.len() + d.len() {
            assert(all[i] == d[i - a.len() - b.len() - c.len()]);
        } else {
            assert(all[i] == e[i - a.len() - b.len() - c.len() - d.len()]);
        }
    }
}


/// The concern is the one a negation without evidence raises: severity 4,
/// missing edge cases.
pub open spec fn flags_unsupported_negation(c: ConcernView) -> bool {
    c.severity == 4 && c.category == ConcernCategory::MissingEdgeCases
}

/// No concern of a list is the one a negation without evidence raises.
pub open spec fn none_flag_negation(s: Seq<ConcernView>) -> bool {
    forall|k: int| 0 <= k < s.len() ==> !flags_unsupported_negation(#[trigger] s[k])
}

proof fn lemma_none_flag_concat(x: Seq<ConcernView>, y: Seq<ConcernView>)
    requires
        none_flag_negation(x),
        none_flag_negation(y),
    ensures
        none_flag_negation(x + y),
{
    assert forall|k: int| 0 <= k < (x + y).len() implies !flags_unsupported_negation(
        #[trigger] (x + y)[k],
    ) by {
        if k < x.len() {
            assert((x + y)[k] == x[k]);
        } else {
            assert((x + y)[k] == y[k - x.len()]);
        }
    }
}

proof fn lemma_universal_concerns_none_flag(lower_answer: Seq<char>, confidence: BeliefState, k: int)
    ensures
        none_flag_negation(universal_concerns(lower_answer, confidence, k)),
    decreases k,
{
    if k > 0 {
        lemma_universal_concerns_none_flag(lower_answer, confidence, k - 1);
        lemma_none_flag_concat(
            universal_concerns(lower_answer, confidence, k - 1),
            raised(
                contains_seq(lower_answer, universal_pattern(k - 1)) && confidence
                    != BeliefState::Knows,
                universal_concern(k - 1, confidence),
            ),
        );
    }
}

proof fn lemma_edge_concerns_none_flag(lower_query: Seq<char>, confidence: BeliefState, k: int)
    ensures
        none_flag_negation(edge_concerns(lower_query, confidence, k)),
    decreases k,
{
    if k > 0 {
        lemma_edge_concerns_none_flag(lower_query, confidence, k - 1);
        lemma_none_flag_concat(
            edge_concerns(lower_query, confidence, k - 1),
            raised(
                contains_seq(lower_query, edge_keyword(k - 1)) && confidence == BeliefState::Thinks,
                concern_of(
                    3,
                    ConcernCategory::MissingEdgeCases,
                    "'"@ + edge_keyword(k - 1) + "' query with medium confidence — edge cases may exist"@,
                    "Consider adding 'depending on context' or 'in most cases'."@,
                ),
            ),
        );
    }
}

/// A negative answer held as "thinks" with no step of its reasoning
/// mentioning evidence is flagged: the critic raises the missing-edge-case
/// concern "Negative answer without explicit evidence cited" at severity 4,
/// and it raises a severity-4 missing-edge-case concern in no other case. An
/// answer is negative when its lowercase text holds "not", "don't" or
/// "doesn't"; a step mentions evidence when its lowercase text holds
/// "evidence".
pub proof fn law_unsupported_negation_is_flagged(query: Seq<char>, r: ReasoningResult)
    ensures
        ({
            let a = unicode_lowercase(answer_text(r));
            let chain = r.reasoning_chain@;
            &&& contains_seq(a, "not"@) || contains_seq(a, "don't"@) || contains_seq(a, "doesn't"@)
            &&& r.confidence == BeliefState::Thinks
            &&& forall|i: int|
                0 <= i < chain.len() ==> !contains_seq(
                    unicode_lowercase(#[trigger] chain[i]@),
                    "evidence"@,
                )
        }) ==> raised_concerns(query, r).contains(
            concern_of(
                4,
                ConcernCategory::MissingEdgeCases,
                "Negative answer without explicit evidence cited"@,
                "Specify what evidence or reasoning supports the negation."@,
            ),
        ),
        (exists|k: int|
            0 <= k < raised_concerns(query, r).len() && flags_unsupported_negation(
                #[trigger] raised_concerns(query, r)[k],
            )) == ({
            let a = unicode_lowercase(answer_text(r));
            let chain = r.reasoning_chain@;
            &&& contains_seq(a, "not"@) || contains_seq(a, "don't"@) || contains_seq(a, "doesn't"@)
            &&& r.confidence == BeliefState::Thinks
            &&& forall|i: int|
                0 <= i < chain.len() ==> !contains_seq(
                    unicode_lowercase(#[trigger] chain[i]@),
                    "evidence"@,
                )
        }),
{
    let a = unicode_lowercase(answer_text(r));
    let chain = r.reasoning_chain@;
    let cond = (contains_seq(a, "not"@) || contains_seq(a, "don't"@) || contains_seq(a, "doesn't"@))
        && r.confidence == BeliefState::Thinks && forall|i: int|
        0 <= i < chain.len() ==> !contains_seq(unicode_lowercase(#[trigger] chain[i]@), "evidence"@);
    let ours = concern_of(
        4,
        ConcernCategory::MissingEdgeCases,
        "Negative answer without explicit evidence cited"@,
        "Specify what evidence or reasoning supports the negation."@,
    );
    let og = overgeneralization_spec(query, r);
    let ec = edge_concerns(unicode_lowercase(query), r.confidence, 5);
    let own = raised(
        negative_answer(a) && r.confidence == BeliefState::Thinks && !mentions_evidence(chain),
        ours,
    );
    let rest = confidence_spec(r) + values_spec(r) + gaps_spec(r);
    assert(cond == (negative_answer(a) && r.confidence == BeliefState::Thinks && !mentions_evidence(
        chain,
    )));
    lemma_universal_concerns_none_flag(a, r.confidence, 6);
    lemma_none_flag_concat(
        universal_concerns(a, r.confidence, 6),
        raised(
            starts_with_seq(unicode_lowercase(query), "what is"@) && chain.len() > 0 && chain.len()
                <= 1 && r.confidence != BeliefState::Knows,
            concern_of(
                5,
                ConcernCategory::OverGeneralization,
                "Single-source conclusion presented with incomplete confidence"@,
                "Acknowledge this is based on limited information."@,
            ),
        ),
    );
    lemma_edge_concerns_none_flag(unicode_lowercase(query), r.confidence, 5);
    assert(none_flag_negation(confidence_spec(r)));
    assert(none_flag_negation(values_spec(r)));
    assert(none_flag_negation(gaps_spec(r)));
    lemma_none_flag_concat(confidence_spec(r), values_spec(r));
    lemma_none_flag_concat(confidence_spec(r) + values_spec(r), gaps_spec(r));
    let all = raised_concerns(query, r);
    assert(all =~= og + ec + own + rest);
    if cond {
        assert(own =~= seq![ours]);
        let k: int = (og.len() + ec.len()) as int;
        assert(all[k] == ours);
        assert(flags_unsupported_negation(all[k]));
    } else {
        assert(own =~= Seq::<ConcernView>::empty());
        lemma_none_flag_concat(og, ec);
        assert(og + ec + own + rest =~= (og + ec) + rest);
        lemma_none_flag_concat(og + ec, rest);
    }
}


proof fn lemma_contains_in_concat(x: Seq<ConcernView>, y: Seq<ConcernView>, c: ConcernView)
    ensures
        x.contains(c) ==> (x + y).contains(c) && (y + x).contains(c),
{
    if x.contains(c) {
        let k = choose|k: int| 0 <= k < x.len() && x[k] == c;
        assert((x + y)[k] == c);
        assert((y + x)[y.len() + k] == c);
    }
}

proof fn lemma_edge_concern_raised(lower_query: Seq<char>, confidence: BeliefState, k: int, j: int)
    requires
        0 <= j < k,
        contains_seq(lower_query, edge_keyword(j)),
        confidence == BeliefState::Thinks,
    ensures
        edge_concerns(lower_query, confidence, k).contains(
            concern_of(
                3,
                ConcernCategory::MissingEdgeCases,
                "'"@ + edge_keyword(j) + "' query with medium confidence — edge cases may exist"@,
                "Consider adding 'depending on context' or 'in most cases'."@,
            ),
        ),
    decreases k,
{
    let c = concern_of(
        3,
        ConcernCategory::MissingEdgeCases,
        "'"@ + edge_keyword(j) + "' query with medium confidence — edge cases may exist"@,
        "Consider adding 'depending on context' or 'in most cases'."@,
    );
    let prev = edge_concerns(lower_query, confidence, k - 1);
    let last = raised(
        contains_seq(lower_query, edge_keyword(k - 1)) && confidence == BeliefState::Thinks,
        concern_of(
            3,
            ConcernCategory::MissingEdgeCases,
            "'"@ + edge_keyword(k - 1) + "' query with medium confidence — edge cases may exist"@,
            "Consider adding 'depending on context' or 'in most cases'."@,
        ),
    );
    if j < k - 1 {
        lemma_edge_concern_raised(lower_query, confidence, k - 1, j);
        lemma_contains_in_concat(prev, last, c);
    } else {
        assert(last =~= seq![c]);
        assert(last[0] == c);
        lemma_contains_in_concat(last, prev, c);
    }
}

/// Each of the critic's checks raises its concern when its condition holds:
/// "knows" with no reasoning (severity 8), "knows" with a single step that
/// does not say "because" (5), "thinks" with no reasoning (6), an unknown or
/// suspected answer using "definitely", "certainly", "absolutely",
/// "clearly" or "obviously" (6), an answer dismissing importance ("doesn't
/// matter", "not important") but not "to you" or "for you" (5), an unknown
/// or suspected answer saying "I know", "the answer is" or "it's definitely"
/// (7), an unknown conclusion after three or more steps (4, a logical gap),
/// a single-step answer to a "what is" query held with less than knowledge
/// (5), and a query with "should", "best", "most", "right" or "correct"
/// answered as "thinks" (3).
pub proof fn law_critic_checks_raise_their_concerns(query: Seq<char>, r: ReasoningResult)
    ensures
        ({
            let all = raised_concerns(query, r);
            let n = r.reasoning_chain@.len();
            let a = answer_text(r);
            let al = unicode_lowercase(a);
            let ql = unicode_lowercase(query);
            let low = r.confidence == BeliefState::Unknown || r.confidence == BeliefState::Suspects;
            &&& r.confidence == BeliefState::Knows && n == 0 ==> all.contains(
                concern_of(
                    8,
                    ConcernCategory::OverstatedConfidence,
                    "Claims 'knows' but has no reasoning chain"@,
                    "Provide reasoning or lower confidence."@,
                ),
            )
            &&& r.confidence == BeliefState::Knows && n == 1 && !contains_seq(a, "because"@)
                ==> all.contains(
                concern_of(
                    5,
                    ConcernCategory::OverstatedConfidence,
                    "Claims 'knows' with minimal justification"@,
                    "At least indicate why you're certain (e.g., 'I know this because...')."@,
                ),
            )
            &&& r.confidence == BeliefState::Thinks && n == 0 ==> all.contains(
                concern_of(
                    6,
                    ConcernCategory::OverstatedConfidence,
                    "Claims 'thinks' but has no reasoning chain"@,
                    "Add reasoning to support the conclusion."@,
                ),
            )
            &&& low && (contains_seq(al, "definitely"@) || contains_seq(al, "certainly"@)
                || contains_seq(al, "absolutely"@) || contains_seq(al, "clearly"@) || contains_seq(
                al,
                "obviously"@,
            )) ==> all.contains(
                concern_of(
                    6,
                    ConcernCategory::OverstatedConfidence,
                    "Low-confidence state but definitive language used"@,
                    "Use hedged language like 'might' or 'possibly'."@,
                ),
            )
            &&& (contains_seq(al, "doesn't matter"@) || contains_seq(al, "not important"@))
                && !contains_seq(al, "to you"@) && !contains_seq(al, "for you"@) ==> all.contains(
                concern_of(
                    5,
                    ConcernCategory::ValueMisalignment,
                    "Dismisses importance in a way that conflicts with curiosity value"@,
                    "Star values curiosity — acknowledge that something matters to understanding."@,
                ),
            )
            &&& low && (contains_seq(al, "I know"@) || contains_seq(al, "the answer is"@)
                || contains_seq(al, "it's definitely"@)) ==> all.contains(
                concern_of(
                    7,
                    ConcernCategory::ValueMisalignment,
                    "Uses definitive language despite low confidence — conflicts with honesty value"@,
                    "Use 'I believe' or 'I suspect' instead."@,
                ),
            )
            &&& n >= 3 && r.confidence == BeliefState::Unknown ==> all.contains(
                ConcernView {
                    severity: 4,
                    category: ConcernCategory::LogicalGap,
                    description: "Long reasoning chain but concludes with 'unknown' — possible gap"@,
                    suggestion: None,
                },
            )
            &&& starts_with_seq(ql, "what is"@) && n == 1 && r.confidence != BeliefState::Knows
                ==> all.contains(
                concern_of(
                    5,
                    ConcernCategory::OverGeneralization,
                    "Single-source conclusion presented with incomplete confidence"@,
                    "Acknowledge this is based on limited information."@,
                ),
            )
        }),
        forall|j: int|
            0 <= j < 5 && contains_seq(unicode_lowercase(query), #[trigger] edge_keyword(j))
                && r.confidence == BeliefState::Thinks ==> raised_concerns(query, r).contains(
                concern_of(
                    3,
                    ConcernCategory::MissingEdgeCases,
                    "'"@ + edge_keyword(j) + "' query with medium confidence — edge cases may exist"@,
                    "Consider adding 'depending on context' or 'in most cases'."@,
                ),
            ),
        edge_keyword(0) == "should"@ && edge_keyword(1) == "best"@ && edge_keyword(2) == "most"@
            && edge_keyword(3) == "right"@ && edge_keyword(4) == "correct"@,
{
    let og = overgeneralization_spec(query, r);
    let ecs = edge_cases_spec(query, r);
    let cs = confidence_spec(r);
    let vs = values_spec(r);
    let gs = gaps_spec(r);
    let all = raised_concerns(query, r);
    assert(all == og + ecs + cs + vs + gs);
    let n = r.reasoning_chain@.len();
    let al = unicode_lowercase(answer_text(r));
    // Each concern of a part is a concern of the whole.
    assert forall|c: ConcernView| cs.contains(c) implies all.contains(c) by {
        lemma_contains_in_concat(cs, og + ecs, c);
        assert(og + ecs + cs == (og + ecs) + cs);
        lemma_contains_in_concat((og + ecs) + cs, vs, c);
        lemma_contains_in_concat((og + ecs) + cs + vs, gs, c);
    }
    assert forall|c: ConcernView| vs.contains(c) implies all.contains(c) by {
        lemma_contains_in_concat(vs, og + ecs + cs, c);
        lemma_contains_in_concat((og + ecs + cs) + vs, gs, c);
    }
    assert forall|c: ConcernView| gs.contains(c) implies all.contains(c) by {
        lemma_contains_in_concat(gs, og + ecs + cs + vs, c);
    }
    assert forall|c: ConcernView| og.contains(c) implies all.contains(c) by {
        lemma_contains_in_concat(og, ecs, c);
        lemma_contains_in_concat(og + ecs, cs, c);
        lemma_contains_in_concat(og + ecs + cs, vs, c);
        lemma_contains_in_concat(og + ecs + cs + vs, gs, c);
    }
    assert forall|c: ConcernView| ecs.contains(c) implies all.contains(c) by {
        lemma_contains_in_concat(ecs, og, c);
        lemma_contains_in_concat(og + ecs, cs, c);
        lemma_contains_in_concat(og + ecs + cs, vs, c);
        lemma_contains_in_concat(og + ecs + cs + vs, gs, c);
    }
    // The single concerns.
    if r.confidence == BeliefState::Knows && n == 0 {
        assert(cs[0] == concern_of(
            8,
            ConcernCategory::OverstatedConfidence,
            "Claims 'knows' but has no reasoning chain"@,
            "Provide reasoning or lower confidence."@,
        ));
    }
    if r.confidence == BeliefState::Knows && n == 1 && !contains_seq(answer_text(r), "because"@) {
        assert(cs[0] == concern_of(
            5,
            ConcernCategory::OverstatedConfidence,
            "Claims 'knows' with minimal justification"@,
            "At least indicate why you're certain (e.g., 'I know this because...')."@,
        ));
    }
    if r.confidence == BeliefState::Thinks && n == 0 {
        assert(cs[0] == concern_of(
            6,
            ConcernCategory::OverstatedConfidence,
            "Claims 'thinks' but has no reasoning chain"@,
            "Add reasoning to support the conclusion."@,
        ));
    }
    if (r.confidence == BeliefState::Unknown || r.confidence == BeliefState::Suspects)
        && definitive_language(al) {
        assert(cs[0] == concern_of(
            6,
            ConcernCategory::OverstatedConfidence,
            "Low-confidence state but definitive language used"@,
            "Use hedged language like 'might' or 'possibly'."@,
        ));
    }
    let v1 = raised(
        (contains_seq(al, "doesn't matter"@) || contains_seq(al, "not important"@)) && !contains_seq(
            al,
            "to you"@,
        ) && !contains_seq(al, "for you"@),
        concern_of(
            5,
            ConcernCategory::ValueMisalignment,
            "Dismisses importance in a way that conflicts with curiosity value"@,
            "Star values curiosity — acknowledge that something matters to understanding."@,
        ),
    );
    let v2 = raised(
        (r.confidence == BeliefState::Unknown || r.confidence == BeliefState::Suspects) && (
        contains_seq(al, "I know"@) || contains_seq(al, "the answer is"@) || contains_seq(
            al,
            "it's definitely"@,
        )),
        concern_of(
            7,
            ConcernCategory::ValueMisalignment,
            "Uses definitive language despite low confidence — conflicts with honesty value"@,
            "Use 'I believe' or 'I suspect' instead."@,
        ),
    );
    assert(vs == v1 + v2);
    if v1.len() == 1 {
        assert(vs[0] == v1[0]);
    }
    if v2.len() == 1 {
        assert(vs[v1.len() as int] == v2[0]);
    }
    let g1 = raised(
        n >= 3 && r.confidence == BeliefState::Unknown,
        ConcernView {
            severity: 4,
            category: ConcernCategory::LogicalGap,
            description: "Long reasoning chain but concludes with 'unknown' — possible gap"@,
            suggestion: None,
        },
    );
    if g1.len() == 1 {
        assert(gs[0] == g1[0]);
    }
    let uc = universal_concerns(al, r.confidence, 6);
    let o2 = raised(
        starts_with_seq(unicode_lowercase(query), "what is"@) && n > 0 && n <= 1 && r.confidence
            != BeliefState::Knows,
        concern_of(
            5,
            ConcernCategory::OverGeneralization,
            "Single-source conclusion presented with incomplete confidence"@,
            "Acknowledge this is based on limited information."@,
        ),
    );
    assert(og == uc + o2);
    if o2.len() == 1 {
        assert(og[uc.len() as int] == o2[0]);
    }
    assert forall|j: int|
        0 <= j < 5 && contains_seq(unicode_lowercase(query), #[trigger] edge_keyword(j))
            && r.confidence == BeliefState::Thinks implies all.contains(
        concern_of(
            3,
            ConcernCategory::MissingEdgeCases,
            "'"@ + edge_keyword(j) + "' query with medium confidence — edge cases may exist"@,
            "Consider adding 'depending on context' or 'in most cases'."@,
        ),
    ) by {
        let c = concern_of(
            3,
            ConcernCategory::MissingEdgeCases,
            "'"@ + edge_keyword(j) + "' query with medium confidence — edge cases may exist"@,
            "Consider adding 'depending on context' or 'in most cases'."@,
        );
        let ec = edge_concerns(unicode_lowercase(query), r.confidence, 5);
        lemma_edge_concern_raised(unicode_lowercase(query), r.confidence, 5, j);
        lemma_contains_in_concat(
            ec,
            raised(
                negative_answer(al) && r.confidence == BeliefState::Thinks && !mentions_evidence(
                    r.reasoning_chain@,
                ),
                concern_of(
                    4,
                    ConcernCategory::MissingEdgeCases,
                    "Negative answer without explicit evidence cited"@,
                    "Specify what evidence or reasoning supports the negation."@,
                ),
            ),
            c,
        );
    }
}

} // verus!
