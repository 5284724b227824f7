//! Structured metacognitive intents: what the system means to express about
//! curiosity, belief revision, surprise and insight, with the rendering of
//! each into prose.
use vstd::prelude::*;
use crate::persistence::memory::{belief_state_name, BeliefState};
use crate::text::{chars_of, concat3, concat5, contains_seq, lowercase, occurs_at, lowercase_contains, string_of, unicode_lowercase, utf8_len};

verus! {

broadcast use vstd::string::group_string_axioms;

/// The shape a curiosity takes.
#[derive(Debug, Clone, Copy, PartialEq, Eq, Structural)]
pub enum CuriosityKind {
    /// The topic cannot be pinned down.
    Confused,
    /// Attempts keep bouncing back.
    Stuck,
    /// The topic keeps re-entering the reasoning.
    Returning,
    /// Open exploration, no frustration yet.
    Wondering,
    /// Some footing, and a wish to go deeper.
    Saturated,
}

impl Default for CuriosityKind {
    /// Wondering: the most neutral state.
    fn default() -> (k: CuriosityKind)
        ensures
            k == CuriosityKind::Wondering,
    {
        CuriosityKind::Wondering
    }
}

/// The templates for a topic the system is not yet satisfied about, each a
/// text before and after the topic.
pub open spec fn low_curiosity_templates(kind: CuriosityKind) -> Seq<(Seq<char>, Seq<char>)> {
    match kind {
        CuriosityKind::Confused => seq![
            ("What is "@, "? I can't quite pin it down."@),
            ("I'm confused about "@, ". Why?"@),
            ("What do I actually understand about "@, "? I think I'm still working it out."@),
            ("Why does "@, " matter? I'm not sure I get it yet."@),
            ("What is '"@, "' really?"@),
            (""@, " is something I don't fully grasp yet..."@),
            ("What's the real nature of "@, "?"@),
        ],
        CuriosityKind::Stuck => seq![
            ("I'm stuck on "@, ". What am I missing?"@),
            ("I keep hitting this wall with "@, "."@),
            ("I keep returning to "@, ". What's the core of it?"@),
            ("I keep coming back to "@, " and not getting through."@),
        ],
        CuriosityKind::Returning => seq![
            ("I keep returning to "@, ". What's the core of it?"@),
            (""@, " keeps coming back. I think it matters."@),
            ("I notice "@, " keeps coming up in my thinking."@),
            ("I find myself returning to "@, " again."@),
        ],
        CuriosityKind::Wondering | CuriosityKind::Saturated => seq![
            ("I wonder what "@, " really means..."@),
            ("What is "@, "? I can't quite pin it down."@),
            ("I'm confused about "@, ". Why?"@),
        ],
    }
}

/// The templates for a topic the system has footing on, each a text before
/// and after the topic.
pub open spec fn high_curiosity_templates(kind: CuriosityKind) -> Seq<(Seq<char>, Seq<char>)> {
    match kind {
        CuriosityKind::Saturated => seq![
            ("I want to go deeper on "@, "."@),
            ("What else is "@, " connected to?"@),
            ("What does "@, " mean in the broader picture?"@),
        ],
        CuriosityKind::Returning => seq![
            (""@, " keeps coming back. I think it matters."@),
            ("I notice "@, " keeps coming up in my thinking."@),
        ],
        _ => seq![
            ("I'd like to understand "@, " better..."@),
            ("I'm still curious about "@, "."@),
            (""@, " is on my mind."@),
            ("I'm wondering about "@, "."@),
        ],
    }
}

/// The low-satisfaction template at a position.
fn low_curiosity_template(kind: CuriosityKind, idx: usize) -> (t: (&'static str, &'static str))
    requires
        idx < low_curiosity_templates(kind).len(),
    ensures
        (t.0@, t.1@) == low_curiosity_templates(kind)[idx as int],
{
    match kind {
        CuriosityKind::Confused => {
            if idx == 0 {
                ("What is ", "? I can't quite pin it down.")
            } else if idx == 1 {
                ("I'm confused about ", ". Why?")
            } else if idx == 2 {
                ("What do I actually understand about ", "? I think I'm still working it out.")
            } else if idx == 3 {
                ("Why does ", " matter? I'm not sure I get it yet.")
            } else if idx == 4 {
                ("What is '", "' really?")
            } else if idx == 5 {
                ("", " is something I don't fully grasp yet...")
            } else {
                ("What's the real nature of ", "?")
            }
        },
        CuriosityKind::Stuck => {
            if idx == 0 {
                ("I'm stuck on ", ". What am I missing?")
            } else if idx == 1 {
                ("I keep hitting this wall with ", ".")
            } else if idx == 2 {
                ("I keep returning to ", ". What's the core of it?")
            } else {
                ("I keep coming back to ", " and not getting through.")
            }
        },
        CuriosityKind::Returning => {
            if idx == 0 {
                ("I keep returning to ", ". What's the core of it?")
            } else if idx == 1 {
                ("", " keeps coming back. I think it matters.")
            } else if idx == 2 {
                ("I notice ", " keeps coming up in my thinking.")
            } else {
                ("I find myself returning to ", " again.")
            }
        },
        CuriosityKind::Wondering | CuriosityKind::Saturated => {
            if idx == 0 {
                ("I wonder what ", " really means...")
            } else if idx == 1 {
                ("What is ", "? I can't quite pin it down.")
            } else {
                ("I'm confused about ", ". Why?")
            }
        },
    }
}

/// The high-satisfaction template at a position.
fn high_curiosity_template(kind: CuriosityKind, idx: usize) -> (t: (&'static str, &'static str))
    requires
        idx < high_curiosity_templates(kind).len(),
    ensures
        (t.0@, t.1@) == high_curiosity_templates(kind)[idx as int],
{
    match kind {
        CuriosityKind::Saturated => {
            if idx == 0 {
                ("I want to go deeper on ", ".")
            } else if idx == 1 {
                ("What else is ", " connected to?")
            } else {
                ("What does ", " mean in the broader picture?")
            }
        },
        CuriosityKind::Returning => {
            if idx == 0 {
                ("", " keeps coming back. I think it matters.")
            } else {
                ("I notice ", " keeps coming up in my thinking.")
            }
        },
        _ => {
            if idx == 0 {
                ("I'd like to understand ", " better...")
            } else if idx == 1 {
                ("I'm still curious about ", ".")
            } else if idx == 2 {
                ("", " is on my mind.")
            } else {
                ("I'm wondering about ", ".")
            }
        },
    }
}


/// Where the template is picked: the selection over 7 (below the
/// satisfaction threshold) or over 11 (at or above it), modulo the number of
/// templates.
pub open spec fn curiosity_index(count: nat, low_satisfaction: bool, selection: nat) -> nat
    recommends
        count > 0,
{
    if low_satisfaction {
        (selection / 7) % count
    } else {
        (selection / 11) % count
    }
}

/// The selection behind a curiosity phrase: the topic's UTF-8 length plus the
/// clock reading, saturating at `usize::MAX`.
pub open spec fn curiosity_selection(topic: Seq<char>, now: nat) -> nat {
    if utf8_len(topic) + now > usize::MAX {
        usize::MAX as nat
    } else {
        (utf8_len(topic) + now) as nat
    }
}

/// The curiosity phrase about a topic: the chosen template with the topic in
/// its place.
pub open spec fn curiosity_phrase_spec(
    topic: Seq<char>,
    kind: CuriosityKind,
    low_satisfaction: bool,
    now: nat,
) -> Seq<char> {
    let table = if low_satisfaction {
        low_curiosity_templates(kind)
    } else {
        high_curiosity_templates(kind)
    };
    let t = table[curiosity_index(table.len(), low_satisfaction, curiosity_selection(topic, now))
        as int];
    t.0 + topic + t.1
}

/// The text asks something or trails off: it holds a `?` or a `...`.
pub open spec fn asks_or_trails(s: Seq<char>) -> bool {
    contains_seq(s, seq!['?']) || contains_seq(s, seq!['.', '.', '.'])
}

/// What occurs in the last part of a text occurs in the whole text.
proof fn lemma_occurs_in_suffix(a: Seq<char>, b: Seq<char>, needle: Seq<char>)
    requires
        contains_seq(b, needle),
    ensures
        contains_seq(a + b, needle),
{
    let i = choose|i: int| occurs_at(b, needle, i);
    assert((a + b).subrange(a.len() + i, a.len() + i + needle.len()) =~= b.subrange(
        i,
        i + needle.len(),
    ));
    assert(occurs_at(a + b, needle, a.len() + i));
}

/// Every template for a confused topic below the satisfaction threshold ends
/// in a text that asks or trails off.
proof fn lemma_confused_templates_ask(idx: int)
    requires
        0 <= idx < 7,
    ensures
        asks_or_trails(low_curiosity_templates(CuriosityKind::Confused)[idx].1),
{
    let q = seq!['?'];
    let dots = seq!['.', '.', '.'];
    let t = low_curiosity_templates(CuriosityKind::Confused)[idx].1;
    if idx == 0 {
        reveal_strlit("? I can't quite pin it down.");
        assert(t.subrange(0, 1) =~= q);
        assert(occurs_at(t, q, 0));
    } else if idx == 1 {
        reveal_strlit(". Why?");
        assert(t.subrange(5, 6) =~= q);
        assert(occurs_at(t, q, 5));
    } else if idx == 2 {
        reveal_strlit("? I think I'm still working it out.");
        assert(t.subrange(0, 1) =~= q);
        assert(occurs_at(t, q, 0));
    } else if idx == 3 {
        reveal_strlit(" matter? I'm not sure I get it yet.");
        assert(t.subrange(7, 8) =~= q);
        assert(occurs_at(t, q, 7));
    } else if idx == 4 {
        reveal_strlit("' really?");
        assert(t.subrange(8, 9) =~= q);
        assert(occurs_at(t, q, 8));
    } else if idx == 5 {
        reveal_strlit(" is something I don't fully grasp yet...");
        assert(t.subrange(37, 40) =~= dots);
        assert(occurs_at(t, dots, 37));
    } else {
        reveal_strlit("?");
        assert(t.subrange(0, 1) =~= q);
        assert(occurs_at(t, q, 0));
    }
}

/// A phrase about a confused topic below the satisfaction threshold names the
/// topic and asks or trails off, whatever the clock reads.
pub proof fn law_confused_phrase_asks(topic: Seq<char>, now: nat)
    ensures
        contains_seq(curiosity_phrase_spec(topic, CuriosityKind::Confused, true, now), topic),
        asks_or_trails(curiosity_phrase_spec(topic, CuriosityKind::Confused, true, now)),
{
    let table = low_curiosity_templates(CuriosityKind::Confused);
    let idx = curiosity_index(table.len(), true, curiosity_selection(topic, now));
    assert(idx < 7);
    let t = table[idx as int];
    let s = t.0 + topic + t.1;
    assert(s.subrange(t.0.len() as int, (t.0.len() + topic.len()) as int) =~= topic);
    assert(occurs_at(s, topic, t.0.len() as int));
    lemma_confused_templates_ask(idx as int);
    if contains_seq(t.1, seq!['?']) {
        lemma_occurs_in_suffix(t.0 + topic, t.1, seq!['?']);
    } else {
        lemma_occurs_in_suffix(t.0 + topic, t.1, seq!['.', '.', '.']);
    }
}

/// The curiosity phrase about `topic` of the given kind, for a satisfaction
/// below the threshold (`low_satisfaction`) or not, at clock reading `now`.
pub fn curiosity_phrase(topic: &str, kind: CuriosityKind, low_satisfaction: bool, now: usize) -> (r:
    String)
    ensures
        r@ == curiosity_phrase_spec(topic@, kind, low_satisfaction, now as nat),
        kind == CuriosityKind::Confused && low_satisfaction ==> contains_seq(r@, topic@)
            && asks_or_trails(r@),
{
    proof {
        law_confused_phrase_asks(topic@, now as nat);
    }
    let selection = topic.as_bytes().len().saturating_add(now);
    let t = if low_satisfaction {
        let count = if kind == CuriosityKind::Confused {
            7
        } else if kind == CuriosityKind::Stuck || kind == CuriosityKind::Returning {
            4
        } else {
            3
        };
        assert(count == low_curiosity_templates(kind).len());
        low_curiosity_template(kind, (selection / 7) % count)
    } else {
        let count = if kind == CuriosityKind::Saturated {
            3
        } else if kind == CuriosityKind::Returning {
            2
        } else {
            4
        };
        assert(count == high_curiosity_templates(kind).len());
        high_curiosity_template(kind, (selection / 11) % count)
    };
    concat3(t.0, topic, t.1)
}

/// The questions the curiosity engine asks about a topic it is not yet
/// satisfied about, each a text before and after the topic.
pub open spec fn low_question_templates() -> Seq<(Seq<char>, Seq<char>)> {
    seq![
        ("I wonder what "@, " really means..."@),
        ("What is "@, "? I can't quite pin it down."@),
        ("I'm confused about "@, ". Why?"@),
        ("What do I actually understand about "@, "? I think I'm still working it out."@),
        ("Why does "@, " matter? I'm not sure I get it yet."@),
        ("I keep returning to "@, ". What's the core of it?"@),
        ("What is '"@, "' really?"@),
        ("I'm stuck on "@, ". What am I missing?"@),
        (""@, " is something I don't fully grasp yet."@),
        ("What's the real nature of "@, "?"@),
    ]
}

/// The questions the curiosity engine asks about a topic it has footing on.
pub open spec fn high_question_templates() -> Seq<(Seq<char>, Seq<char>)> {
    seq![
        ("I'd like to understand "@, " better..."@),
        ("I'm still curious about "@, "."@),
        (""@, " is on my mind."@),
        ("I want to go deeper on "@, "."@),
        ("What else is "@, " connected to?"@),
        ("What does "@, " mean in the broader picture?"@),
        ("I'm wondering about "@, "."@),
    ]
}

/// The low-satisfaction question template at a position.
fn low_question_template(idx: usize) -> (t: (&'static str, &'static str))
    requires
        idx < low_question_templates().len(),
    ensures
        (t.0@, t.1@) == low_question_templates()[idx as int],
{
    if idx == 0 {
        ("I wonder what ", " really means...")
    } else if idx == 1 {
        ("What is ", "? I can't quite pin it down.")
    } else if idx == 2 {
        ("I'm confused about ", ". Why?")
    } else if idx == 3 {
        ("What do I actually understand about ", "? I think I'm still working it out.")
    } else if idx == 4 {
        ("Why does ", " matter? I'm not sure I get it yet.")
    } else if idx == 5 {
        ("I keep returning to ", ". What's the core of it?")
    } else if idx == 6 {
        ("What is '", "' really?")
    } else if idx == 7 {
        ("I'm stuck on ", ". What am I missing?")
    } else if idx == 8 {
        ("", " is something I don't fully grasp yet.")
    } else {
        ("What's the real nature of ", "?")
    }
}

/// The high-satisfaction question template at a position.
fn high_question_template(idx: usize) -> (t: (&'static str, &'static str))
    requires
        idx < high_question_templates().len(),
    ensures
        (t.0@, t.1@) == high_question_templates()[idx as int],
{
    if idx == 0 {
        ("I'd like to understand ", " better...")
    } else if idx == 1 {
        ("I'm still curious about ", ".")
    } else if idx == 2 {
        ("", " is on my mind.")
    } else if idx == 3 {
        ("I want to go deeper on ", ".")
    } else if idx == 4 {
        ("What else is ", " connected to?")
    } else if idx == 5 {
        ("What does ", " mean in the broader picture?")
    } else {
        ("I'm wondering about ", ".")
    }
}

/// The curiosity engine's question about a topic: below the satisfaction
/// threshold one of ten questions, otherwise one of seven, picked as for
/// [`curiosity_phrase`].
pub open spec fn curiosity_question_spec(topic: Seq<char>, low_satisfaction: bool, now: nat) -> Seq<
    char,
> {
    let table = if low_satisfaction {
        low_question_templates()
    } else {
        high_question_templates()
    };
    let t = table[curiosity_index(table.len(), low_satisfaction, curiosity_selection(topic, now))
        as int];
    t.0 + topic + t.1
}

/// The curiosity engine's question about `topic`, for a satisfaction below
/// the threshold (`low_satisfaction`) or not, at clock reading `now`.
pub fn curiosity_question(topic: &str, low_satisfaction: bool, now: usize) -> (r: String)
    ensures
        r@ == curiosity_question_spec(topic@, low_satisfaction, now as nat),
{
    let selection = topic.as_bytes().len().saturating_add(now);
    let t = if low_satisfaction {
        low_question_template((selection / 7) % 10)
    } else {
        high_question_template((selection / 11) % 7)
    };
    concat3(t.0, topic, t.1)
}

/// A belief-revision utterance: a topic and the states before and after.
#[derive(Debug, Clone)]
pub struct RevisionIntent {
    pub topic: String,
    pub old_state: BeliefState,
    pub new_state: BeliefState,
}

/// "I used to OLD about TOPIC, but now I NEW about it."
pub open spec fn revision_sentence(topic: Seq<char>, old_state: BeliefState, new_state: BeliefState) -> Seq<
    char,
> {
    "I used to "@ + belief_state_name(old_state) + " about "@ + topic + ", but now I "@
        + belief_state_name(new_state) + " about it."@
}

impl RevisionIntent {
    /// A revision of the belief about `topic` from `old_state` to `new_state`.
    pub fn new(topic: &str, old_state: BeliefState, new_state: BeliefState) -> (r: RevisionIntent)
        ensures
            r.topic@ == topic@,
            r.old_state == old_state,
            r.new_state == new_state,
    {
        RevisionIntent { topic: string_of(topic), old_state, new_state }
    }

    /// The revision as a sentence.
    pub fn format(&self) -> (r: String)
        ensures
            r@ == revision_sentence(self.topic@, self.old_state, self.new_state),
    {
        let head = concat5(
            "I used to ",
            self.old_state.as_str(),
            " about ",
            self.topic.as_str(),
            ", but now I ",
        );
        let r = concat3(head.as_str(), self.new_state.as_str(), " about it.");
        assert(r@ =~= revision_sentence(self.topic@, self.old_state, self.new_state));
        r
    }
}

/// The shape of a surprise.
#[derive(Debug, Clone, Copy, PartialEq, Eq, Structural)]
pub enum SurpriseKind {
    /// The system thought it knew and is now less certain.
    LostConfidence,
    /// The reasoning went somewhere unexpected.
    Contradicted,
    /// Anything else.
    Generic,
}

impl Default for SurpriseKind {
    /// Generic.
    fn default() -> (k: SurpriseKind)
        ensures
            k == SurpriseKind::Generic,
    {
        SurpriseKind::Generic
    }
}

/// The kind of surprise a lowercased conclusion shows: lost confidence when it
/// says "don't know" or "not sure", contradiction when it says "contrary",
/// "but" or "however", generic otherwise.
pub open spec fn surprise_kind_of(lower: Seq<char>) -> SurpriseKind {
    if contains_seq(lower, "don't know"@) || contains_seq(lower, "not sure"@) {
        SurpriseKind::LostConfidence
    } else if contains_seq(lower, "contrary"@) || contains_seq(lower, "but"@) || contains_seq(
        lower,
        "however"@,
    ) {
        SurpriseKind::Contradicted
    } else {
        SurpriseKind::Generic
    }
}

/// The phrases for each kind of surprise.
pub open spec fn surprise_options(kind: SurpriseKind) -> Seq<Seq<char>> {
    match kind {
        SurpriseKind::LostConfidence => seq![
            "That's unexpected — I thought I knew, but I'm less certain now."@,
            "Huh. I expected to know this. Something's off."@,
            "I'm surprised I don't know — I thought I had this."@,
            "That caught me off guard. I was more certain than I should have been."@,
            "Wait. I thought I knew this. Something's wrong with my reasoning."@,
        ],
        SurpriseKind::Contradicted => seq![
            "I didn't expect that conclusion."@,
            "Wait, that's not what I expected to find."@,
            "My reasoning went somewhere unexpected."@,
            "That's not what I thought I'd conclude."@,
        ],
        SurpriseKind::Generic => seq![
            "Something about that doesn't fit."@,
            "That doesn't quite add up."@,
            "Something's off here."@,
            "I'm noticing a gap between what I expected and what I found."@,
            "That surprised me."@,
        ],
    }
}

/// Which phrase a clock reading picks: the reading itself for lost
/// confidence, half of it for a contradiction, a third of it otherwise,
/// modulo the number of phrases.
pub open spec fn surprise_index(kind: SurpriseKind, now: nat) -> nat {
    match kind {
        SurpriseKind::LostConfidence => now % 5,
        SurpriseKind::Contradicted => (now / 2) % 4,
        SurpriseKind::Generic => (now / 3) % 5,
    }
}

impl SurpriseKind {
    /// The kind of surprise an already lowercased conclusion shows.
    pub fn from_lowered(lower: &str) -> (k: SurpriseKind)
        ensures
            k == surprise_kind_of(lower@),
    {
        let c = chars_of(lower);
        let cs = c.as_slice();
        if lowercase_contains(cs, "don't know") || lowercase_contains(cs, "not sure") {
            SurpriseKind::LostConfidence
        } else if lowercase_contains(cs, "contrary") || lowercase_contains(cs, "but")
            || lowercase_contains(cs, "however") {
            SurpriseKind::Contradicted
        } else {
            SurpriseKind::Generic
        }
    }
}

/// The surprise phrase a clock reading picks for a kind.
pub fn surprise_phrase(kind: SurpriseKind, now: usize) -> (s: &'static str)
    ensures
        s@ == surprise_options(kind)[surprise_index(kind, now as nat) as int],
{
    match kind {
        SurpriseKind::LostConfidence => {
            let i = now % 5;
            if i == 0 {
                "That's unexpected — I thought I knew, but I'm less certain now."
            } else if i == 1 {
                "Huh. I expected to know this. Something's off."
            } else if i == 2 {
                "I'm surprised I don't know — I thought I had this."
            } else if i == 3 {
                "That caught me off guard. I was more certain than I should have been."
            } else {
                "Wait. I thought I knew this. Something's wrong with my reasoning."
            }
        },
        SurpriseKind::Contradicted => {
            let i = (now / 2) % 4;
            if i == 0 {
                "I didn't expect that conclusion."
            } else if i == 1 {
                "Wait, that's not what I expected to find."
            } else if i == 2 {
                "My reasoning went somewhere unexpected."
            } else {
                "That's not what I thought I'd conclude."
            }
        },
        SurpriseKind::Generic => {
            let i = (now / 3) % 5;
            if i == 0 {
                "Something about that doesn't fit."
            } else if i == 1 {
                "That doesn't quite add up."
            } else if i == 2 {
                "Something's off here."
            } else if i == 3 {
                "I'm noticing a gap between what I expected and what I found."
            } else {
                "That surprised me."
            }
        },
    }
}

/// A clock reading in seconds as a selection: negative readings count as
/// zero, readings beyond `usize` as its largest value.
pub open spec fn selection_of(t: i64) -> usize {
    if t < 0 {
        0
    } else if t > usize::MAX {
        usize::MAX
    } else {
        t as usize
    }
}

/// The surprise phrase of a kind at a clock reading in seconds.
pub open spec fn surprise_at(kind: SurpriseKind, t: i64) -> Seq<char> {
    surprise_options(kind)[surprise_index(kind, selection_of(t) as nat) as int]
}

/// The current clock reading in seconds, as a selection for phrase rotation.
pub(crate) fn clock_selection() -> (n: usize)
    ensures
        exists|t: i64| n == selection_of(t),
{
    let t = crate::now_timestamp();
    let n: usize = if t < 0 {
        0
    } else if t as u64 > usize::MAX as u64 {
        usize::MAX
    } else {
        t as usize
    };
    assert(n == selection_of(t));
    n
}

/// A surprise utterance: the conclusion that surprised and its kind.
#[derive(Debug, Clone)]
pub struct SurpriseIntent {
    pub conclusion: String,
    pub kind: SurpriseKind,
}

impl SurpriseIntent {
    /// A surprise at `conclusion`, classified by its lowercase form.
    pub fn new(conclusion: &str) -> (r: SurpriseIntent)
        ensures
            r.conclusion@ == conclusion@,
            r.kind == surprise_kind_of(unicode_lowercase(conclusion@)),
    {
        let lower = lowercase(conclusion);
        let kind = SurpriseKind::from_lowered(lower.as_str());
        SurpriseIntent { conclusion: string_of(conclusion), kind }
    }

    /// The surprise as a phrase of its kind, rotated by the clock: the
    /// phrase of its kind at the clock reading taken.
    pub fn format(&self) -> (r: String)
        ensures
            exists|t: i64| r@ == surprise_at(self.kind, t),
            surprise_options(self.kind).contains(r@),
    {
        let now = clock_selection();
        let s = surprise_phrase(self.kind, now);
        proof {
            let k = surprise_index(self.kind, now as nat);
            assert(surprise_options(self.kind)[k as int] == s@);
            let t = choose|t: i64| now == selection_of(t);
            assert(s@ == surprise_at(self.kind, t));
        }
        string_of(s)
    }
}

/// The shape of an insight about the system's own reasoning.
#[derive(Debug, Clone, Copy, PartialEq, Eq, Structural)]
pub enum InsightKind {
    /// "That conclusion surprised me."
    SurprisingConclusion,
    /// A shift of belief about a topic.
    BeliefShift,
    /// Growing or shrinking certainty.
    ConfidenceTrend,
    /// Gaps that keep coming up around a topic.
    RecurringGap,
    /// A topic that keeps coming up.
    RecurringTopic,
}

impl Default for InsightKind {
    /// A recurring topic.
    fn default() -> (k: InsightKind)
        ensures
            k == InsightKind::RecurringTopic,
    {
        InsightKind::RecurringTopic
    }
}

/// An insight: its kind, and the topic and detail it refers to, if any.
#[derive(Debug, Clone)]
pub struct InsightIntent {
    pub kind: InsightKind,
    pub topic: Option<String>,
    pub detail: Option<String>,
}

/// The text of an optional string, or a default.
pub open spec fn text_or(o: Option<String>, default: Seq<char>) -> Seq<char> {
    match o {
        Some(s) => s@,
        None => default,
    }
}

/// The prose of an insight.
pub open spec fn insight_sentence(i: InsightIntent) -> Seq<char> {
    match i.kind {
        InsightKind::SurprisingConclusion => "That conclusion surprised me — I expected something different."@,
        InsightKind::BeliefShift => "I notice I've shifted "@ + text_or(i.detail, "shifted"@)
            + " about "@ + text_or(i.topic, "this"@) + "."@,
        InsightKind::ConfidenceTrend => text_or(
            i.detail,
            "I'm noticing something about my certainty."@,
        ),
        InsightKind::RecurringGap => "I keep running into gaps when I think about "@ + text_or(
            i.topic,
            "this"@,
        ) + ". I want to understand this better."@,
        InsightKind::RecurringTopic => "I've been thinking about '"@ + text_or(i.topic, "it"@)
            + "' repeatedly. It seems important."@,
    }
}

/// The text of an optional string, or the default text.
fn or_default<'a>(o: &'a Option<String>, default: &'static str) -> (r: &'a str)
    ensures
        r@ == text_or(*o, default@),
{
    match o {
        Some(s) => s.as_str(),
        None => default,
    }
}

impl InsightIntent {
    /// An insight of the given kind with no topic and no detail.
    pub fn new(kind: InsightKind) -> (r: InsightIntent)
        ensures
            r.kind == kind,
            r.topic is None,
            r.detail is None,
    {
        InsightIntent { kind, topic: None, detail: None }
    }

    /// The same insight about `topic`.
    pub fn with_topic(self, topic: &str) -> (r: InsightIntent)
        ensures
            r.kind == self.kind,
            r.topic matches Some(t) && t@ == topic@,
            r.detail == self.detail,
    {
        InsightIntent { kind: self.kind, topic: Some(string_of(topic)), detail: self.detail }
    }

    /// The same insight with `detail`.
    pub fn with_detail(self, detail: &str) -> (r: InsightIntent)
        ensures
            r.kind == self.kind,
            r.topic == self.topic,
            r.detail matches Some(d) && d@ == detail@,
    {
        InsightIntent { kind: self.kind, topic: self.topic, detail: Some(string_of(detail)) }
    }

    /// The insight as prose.
    pub fn format(&self) -> (r: String)
        ensures
            r@ == insight_sentence(*self),
    {
        match self.kind {
            InsightKind::SurprisingConclusion => string_of(
                "That conclusion surprised me — I expected something different.",
            ),
            InsightKind::BeliefShift => {
                let topic = or_default(&self.topic, "this");
                let detail = or_default(&self.detail, "shifted");
                let r = concat5("I notice I've shifted ", detail, " about ", topic, ".");
                r
            },
            InsightKind::ConfidenceTrend => string_of(
                or_default(&self.detail, "I'm noticing something about my certainty."),
            ),
            InsightKind::RecurringGap => {
                let topic = or_default(&self.topic, "this");
                concat3(
                    "I keep running into gaps when I think about ",
                    topic,
                    ". I want to understand this better.",
                )
            },
            InsightKind::RecurringTopic => {
                let topic = or_default(&self.topic, "it");
                concat3("I've been thinking about '", topic, "' repeatedly. It seems important.")
            },
        }
    }
}

} // verus!
