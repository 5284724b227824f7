//! The metacognitive record of the system's own reasoning: the reasoning
//! sessions it keeps, the belief revisions it has noted, and its surprise.
use vstd::prelude::*;
use crate::metacog::{
    surprise_note, surprising_in_lowered, insight_from, insight_spec, BeliefRevision, GapSignal, ReasoningRecord, SurpriseDetector,
    SurpriseModel, SURPRISE_CAPACITY,
};
use crate::metacog::intents::{
    revision_sentence, surprise_at, surprise_kind_of, surprise_options, RevisionIntent,
};
use crate::persistence::memory::BeliefState;
use crate::text::{concat2, lowercase, str_eq, string_of, unicode_lowercase, utf8_len};

verus! {

broadcast use vstd::string::group_string_axioms;

/// How many reasoning sessions the log keeps.
pub const MAX_HISTORY: usize = 50;

/// A belief state as `Debug` writes it: the variant's name.
pub open spec fn belief_state_debug(b: BeliefState) -> Seq<char> {
    match b {
        BeliefState::Knows => "Knows"@,
        BeliefState::Thinks => "Thinks"@,
        BeliefState::Believes => "Believes"@,
        BeliefState::Suspects => "Suspects"@,
        BeliefState::Unknown => "Unknown"@,
    }
}

/// The variant's name of a belief state.
pub(crate) fn belief_state_debug_name(b: BeliefState) -> (s: &'static str)
    ensures
        s@ == belief_state_debug(b),
{
    match b {
        BeliefState::Knows => "Knows",
        BeliefState::Thinks => "Thinks",
        BeliefState::Believes => "Believes",
        BeliefState::Suspects => "Suspects",
        BeliefState::Unknown => "Unknown",
    }
}

/// The reason a revision records for a new belief state.
pub open spec fn revision_reason(state: BeliefState) -> Seq<char> {
    "Evidence shifted confidence: "@ + belief_state_debug(state)
}

/// Whether a conclusion held with a confidence is surprising in itself.
pub open spec fn surprising_conclusion(conclusion: Seq<char>, confidence: BeliefState) -> bool {
    (confidence == BeliefState::Suspects || confidence == BeliefState::Believes) && utf8_len(
        conclusion,
    ) < 30
}

/// Whether a revision is about a topic, ignoring case.
pub open spec fn about_topic(r: BeliefRevision, topic: Seq<char>) -> bool {
    unicode_lowercase(r.topic@) == unicode_lowercase(topic)
}

/// The revisions about a topic, ignoring case, oldest first.
pub open spec fn revisions_about(revisions: Seq<BeliefRevision>, topic: Seq<char>) -> Seq<
    BeliefRevision,
> {
    revisions.filter(|r: BeliefRevision| about_topic(r, topic))
}

/// The reasoning sessions whose conclusion was surprising, oldest first.
pub open spec fn surprising_records(history: Seq<ReasoningRecord>) -> Seq<ReasoningRecord> {
    history.filter(|r: ReasoningRecord| r.was_surprising)
}

/// Whether the revision at `k` is the newest whose topic is exactly `topic`.
pub open spec fn newest_exact(revisions: Seq<BeliefRevision>, topic: Seq<char>, k: int) -> bool {
    &&& 0 <= k < revisions.len()
    &&& revisions[k].topic@ == topic
    &&& forall|j: int| k < j < revisions.len() ==> revisions[j].topic@ != topic
}

/// A history after one more session: the oldest goes when the history is full.
pub open spec fn bounded_push(
    history: Seq<ReasoningRecord>,
    max: nat,
    record: ReasoningRecord,
) -> Seq<ReasoningRecord> {
    (if history.len() >= max && history.len() > 0 {
        history.drop_first()
    } else {
        history
    }).push(record)
}

/// Whether a belief held before in state `previous` and now in `state`
/// makes a revision.
pub open spec fn revision_due(previous: Option<BeliefState>, state: BeliefState) -> bool {
    previous is Some && previous->0 != state
}

/// What the reflection log holds.
pub struct ReflectionModel {
    pub history: Seq<ReasoningRecord>,
    pub revisions: Seq<BeliefRevision>,
    pub surprise: SurpriseModel,
    pub max_history: nat,
}

/// The system's record of its own reasoning: the newest reasoning sessions,
/// every belief revision noted, and the surprise detector.
pub struct ReflectionLog {
    reasoning_history: Vec<ReasoningRecord>,
    revisions: Vec<BeliefRevision>,
    surprise: SurpriseDetector,
    max_history: usize,
}

impl ReflectionLog {
    /// The log's content.
    pub closed spec fn model(&self) -> ReflectionModel {
        ReflectionModel {
            history: self.reasoning_history@,
            revisions: self.revisions@,
            surprise: self.surprise.model(),
            max_history: self.max_history as nat,
        }
    }

    #[verifier::type_invariant]
    closed spec fn inv(&self) -> bool {
        &&& self.max_history == MAX_HISTORY
        &&& self.reasoning_history@.len() <= self.max_history
    }

    /// An empty log with a fresh surprise detector.
    pub fn new() -> (log: ReflectionLog)
        ensures
            log.model().history == Seq::<ReasoningRecord>::empty(),
            log.model().revisions == Seq::<BeliefRevision>::empty(),
            log.model().max_history == MAX_HISTORY,
            log.model().surprise == (SurpriseModel {
                surprised: false,
                count: 0,
                recorded: Seq::empty(),
                capacity: SURPRISE_CAPACITY as nat,
            }),
    {
        ReflectionLog {
            reasoning_history: Vec::new(),
            revisions: Vec::new(),
            surprise: SurpriseDetector::new(),
            max_history: MAX_HISTORY,
        }
    }

    /// Notes what became of the belief about `topic`: when one was held before
    /// (`previous`) in another state than `state`, a revision from the one to
    /// the other is recorded, not yet investigated and stamped with the clock;
    /// otherwise the log stays as it was.
    pub fn note_belief_change(
        &mut self,
        topic: &str,
        previous: Option<BeliefState>,
        state: BeliefState,
    )
        ensures
            final(self).model().history == old(self).model().history,
            final(self).model().surprise == old(self).model().surprise,
            final(self).model().max_history == old(self).model().max_history,
            revision_due(previous, state) ==> {
                &&& final(self).model().revisions.drop_last() == old(self).model().revisions
                &&& final(self).model().revisions.len() == old(self).model().revisions.len() + 1
                &&& final(self).model().revisions.last().topic@ == topic@
                &&& final(self).model().revisions.last().old_state == previous->0
                &&& final(self).model().revisions.last().new_state == state
                &&& final(self).model().revisions.last().reason@ == revision_reason(state)
                &&& !final(self).model().revisions.last().investigated
            },
            !revision_due(previous, state) ==> final(self).model().revisions == old(
                self,
            ).model().revisions,
    {
        proof {
            use_type_invariant(&*self);
        }
        match previous {
            Some(p) => {
                if p != state {
                    let reason = concat2(
                        "Evidence shifted confidence: ",
                        belief_state_debug_name(state),
                    );
                    let rev = BeliefRevision {
                        topic: string_of(topic),
                        old_state: p,
                        new_state: state,
                        reason,
                        timestamp: crate::now_timestamp(),
                        investigated: false,
                    };
                    let mut revisions: Vec<BeliefRevision> = Vec::new();
                    std::mem::swap(&mut revisions, &mut self.revisions);
                    revisions.push(rev);
                    self.revisions = revisions;
                }
            },
            None => {},
        }
    }

    /// Records a reasoning session, stamped with the clock and marked
    /// surprising when the conclusion is surprising in itself; when the
    /// history is full the oldest session goes first.
    pub fn record_reasoning(&mut self, query: &str, conclusion: &str, confidence: BeliefState)
        ensures
            final(self).model().history.len() <= final(self).model().max_history,
            final(self).model().history == bounded_push(
                old(self).model().history,
                old(self).model().max_history,
                final(self).model().history.last(),
            ),
            final(self).model().history.last().query@ == query@,
            final(self).model().history.last().conclusion@ == conclusion@,
            final(self).model().history.last().confidence == confidence,
            final(self).model().history.last().was_surprising == surprising_conclusion(
                conclusion@,
                confidence,
            ),
            final(self).model().revisions == old(self).model().revisions,
            final(self).model().surprise == old(self).model().surprise,
            final(self).model().max_history == old(self).model().max_history,
    {
        proof {
            use_type_invariant(&*self);
        }
        let ghost before = self.reasoning_history@;
        let mut history: Vec<ReasoningRecord> = Vec::new();
        std::mem::swap(&mut history, &mut self.reasoning_history);
        if history.len() >= self.max_history {
            let _ = history.remove(0);
            assert(history@ =~= before.drop_first());
        }
        let was_surprising = self.surprise.is_surprising(conclusion, confidence);
        let record = ReasoningRecord {
            query: string_of(query),
            conclusion: string_of(conclusion),
            confidence,
            timestamp: crate::now_timestamp(),
            was_surprising,
        };
        history.push(record);
        self.reasoning_history = history;
    }

    /// The reasoning sessions kept, oldest first.
    pub fn reasoning_history(&self) -> (r: &[ReasoningRecord])
        ensures
            r@ == self.model().history,
    {
        self.reasoning_history.as_slice()
    }

    /// The kept sessions whose conclusion was surprising, oldest first.
    pub fn surprising_conclusions(&self) -> (r: Vec<&ReasoningRecord>)
        ensures
            r@.map_values(|x: &ReasoningRecord| *x) == surprising_records(self.model().history),
    {
        let mut out: Vec<&ReasoningRecord> = Vec::new();
        let mut i: usize = 0;
        while i < self.reasoning_history.len()
            invariant
                i <= self.reasoning_history@.len(),
                out@.map_values(|x: &ReasoningRecord| *x) == surprising_records(
                    self.reasoning_history@.take(i as int),
                ),
            decreases self.reasoning_history@.len() - i,
        {
            let r = &self.reasoning_history[i];
            let ghost prev = out@;
            proof {
                reveal(Seq::filter);
                assert(self.reasoning_history@.take(i + 1).drop_last() =~= self.reasoning_history@.take(
                    i as int,
                ));
            }
            if r.was_surprising {
                out.push(r);
                assert(out@.map_values(|x: &ReasoningRecord| *x) =~= prev.map_values(
                    |x: &ReasoningRecord| *x,
                ).push(*r));
            }
            i = i + 1;
        }
        assert(self.reasoning_history@.take(i as int) =~= self.reasoning_history@);
        out
    }

    /// The belief revisions noted, oldest first.
    pub fn revisions(&self) -> (r: &[BeliefRevision])
        ensures
            r@ == self.model().revisions,
    {
        self.revisions.as_slice()
    }

    /// The revisions about a topic, ignoring case, oldest first.
    pub fn revision_history(&self, topic: &str) -> (r: Vec<&BeliefRevision>)
        ensures
            r@.map_values(|x: &BeliefRevision| *x) == revisions_about(
                self.model().revisions,
                topic@,
            ),
    {
        let key = lowercase(topic);
        let mut out: Vec<&BeliefRevision> = Vec::new();
        let mut i: usize = 0;
        while i < self.revisions.len()
            invariant
                i <= self.revisions@.len(),
                key@ == unicode_lowercase(topic@),
                out@.map_values(|x: &BeliefRevision| *x) == revisions_about(
                    self.revisions@.take(i as int),
                    topic@,
                ),
            decreases self.revisions@.len() - i,
        {
            let r = &self.revisions[i];
            let ghost prev = out@;
            proof {
                reveal(Seq::filter);
                assert(self.revisions@.take(i + 1).drop_last() =~= self.revisions@.take(i as int));
            }
            let t = lowercase(r.topic.as_str());
            if str_eq(t.as_str(), key.as_str()) {
                out.push(r);
                assert(out@.map_values(|x: &BeliefRevision| *x) =~= prev.map_values(
                    |x: &BeliefRevision| *x,
                ).push(*r));
            }
            i = i + 1;
        }
        assert(self.revisions@.take(i as int) =~= self.revisions@);
        out
    }

    /// Whether a revision about the topic, ignoring case, was noted.
    pub fn can_express_revision(&self, topic: &str) -> (b: bool)
        ensures
            b == exists|i: int|
                0 <= i < self.model().revisions.len() && about_topic(
                    #[trigger] self.model().revisions[i],
                    topic@,
                ),
    {
        let key = lowercase(topic);
        let mut i: usize = 0;
        while i < self.revisions.len()
            invariant
                i <= self.revisions@.len(),
                key@ == unicode_lowercase(topic@),
                forall|j: int| 0 <= j < i ==> !about_topic(#[trigger] self.revisions@[j], topic@),
            decreases self.revisions@.len() - i,
        {
            let t = lowercase(self.revisions[i].topic.as_str());
            if str_eq(t.as_str(), key.as_str()) {
                assert(about_topic(self.model().revisions[i as int], topic@));
                return true;
            }
            i = i + 1;
        }
        false
    }

    /// Marks the newest revision whose topic is exactly `topic` as
    /// investigated; when there is none the log stays as it was.
    pub fn mark_revision_investigated(&mut self, topic: &str)
        ensures
            final(self).model().history == old(self).model().history,
            final(self).model().surprise == old(self).model().surprise,
            final(self).model().max_history == old(self).model().max_history,
            final(self).model().revisions.len() == old(self).model().revisions.len(),
            forall|k: int|
                newest_exact(old(self).model().revisions, topic@, k) ==> {
                    &&& #[trigger] final(self).model().revisions[k].investigated
                    &&& final(self).model().revisions[k].topic == old(self).model().revisions[k].topic
                    &&& final(self).model().revisions[k].old_state == old(
                        self,
                    ).model().revisions[k].old_state
                    &&& final(self).model().revisions[k].new_state == old(
                        self,
                    ).model().revisions[k].new_state
                    &&& final(self).model().revisions[k].reason == old(self).model().revisions[k].reason
                    &&& final(self).model().revisions[k].timestamp == old(
                        self,
                    ).model().revisions[k].timestamp
                    &&& forall|j: int|
                        0 <= j < old(self).model().revisions.len() && j != k
                            ==> #[trigger] final(self).model().revisions[j] == old(
                            self,
                        ).model().revisions[j]
                },
            (forall|k: int| !newest_exact(old(self).model().revisions, topic@, k))
                ==> final(self).model().revisions == old(self).model().revisions,
    {
        proof {
            use_type_invariant(&*self);
        }
        let ghost revs = self.revisions@;
        let mut k: usize = self.revisions.len();
        let mut found: bool = false;
        while !found && k > 0
            invariant
                k <= revs.len(),
                revs == self.revisions@,
                found ==> k > 0 && revs[k - 1].topic@ == topic@,
                forall|j: int| k <= j < revs.len() ==> (#[trigger] revs[j]).topic@ != topic@,
            decreases k + (if found { 0int } else { 1int }),
        {
            if str_eq(self.revisions[k - 1].topic.as_str(), topic) {
                found = true;
            } else {
                k = k - 1;
            }
        }
        if !found {
            assert forall|m: int| !newest_exact(revs, topic@, m) by {
                if newest_exact(revs, topic@, m) {
                    assert(revs[m].topic@ != topic@);
                }
            }
            return;
        }
        let idx = k - 1;
        assert(newest_exact(revs, topic@, idx as int));
        assert forall|m: int| newest_exact(revs, topic@, m) implies m == idx by {
            if m < idx {
                assert(revs[idx as int].topic@ == topic@);
            } else if m > idx {
                assert(revs[m].topic@ != topic@);
            }
        }
        let mut revisions: Vec<BeliefRevision> = Vec::new();
        std::mem::swap(&mut revisions, &mut self.revisions);
        let mut rev = revisions.remove(idx);
        rev.investigated = true;
        revisions.insert(idx, rev);
        self.revisions = revisions;
    }

    /// "I used to ... about TOPIC, but now I ... about it.", from the newest
    /// revision about the topic, ignoring case; none when there is none.
    pub fn revision_statement(&self, topic: &str) -> (r: Option<String>)
        ensures
            revisions_about(self.model().revisions, topic@).len() == 0 ==> r is None,
            revisions_about(self.model().revisions, topic@).len() > 0 ==> (r matches Some(s)
                && s@ == revision_sentence(
                topic@,
                revisions_about(self.model().revisions, topic@).last().old_state,
                revisions_about(self.model().revisions, topic@).last().new_state,
            )),
    {
        let found = self.revision_history(topic);
        let n = found.len();
        if n == 0 {
            return None;
        }
        let last = found[n - 1];
        assert(revisions_about(self.revisions@, topic@)[n - 1] == *found@[n - 1]);
        Some(RevisionIntent::new(topic, last.old_state, last.new_state).format())
    }

    /// The surprise detector.
    pub fn surprise(&self) -> (d: &SurpriseDetector)
        ensures
            d.model() == self.model().surprise,
    {
        &self.surprise
    }

    /// Whether the surprise detector was surprised since it was last cleared.
    pub fn was_surprised(&self) -> (b: bool)
        ensures
            b == self.model().surprise.surprised,
    {
        self.surprise.was_recently_surprised()
    }

    /// A phrase of surprise at a conclusion: the phrase of its kind at the
    /// clock reading taken.
    pub fn surprise_statement(&self, conclusion: &str) -> (r: String)
        ensures
            exists|t: i64| r@ == surprise_at(surprise_kind_of(unicode_lowercase(conclusion@)), t),
            surprise_options(surprise_kind_of(unicode_lowercase(conclusion@))).contains(r@),
    {
        self.surprise.express_surprise(conclusion)
    }

    /// Whether a conclusion to a query was surprising; when it was, the
    /// surprise detector records it.
    pub fn check_surprise(&mut self, query: &str, conclusion: &str, confidence: BeliefState) -> (r:
        bool)
        requires
            surprising_in_lowered(
                unicode_lowercase(query@),
                unicode_lowercase(conclusion@),
                confidence,
            ) ==> old(self).model().surprise.count < usize::MAX,
        ensures
            r == surprising_in_lowered(
                unicode_lowercase(query@),
                unicode_lowercase(conclusion@),
                confidence,
            ),
            final(self).model().history == old(self).model().history,
            final(self).model().revisions == old(self).model().revisions,
            final(self).model().max_history == old(self).model().max_history,
            !r ==> final(self).model().surprise == old(self).model().surprise,
            r ==> {
                &&& final(self).model().surprise.surprised
                &&& final(self).model().surprise.count == old(self).model().surprise.count + 1
                &&& final(self).model().surprise.capacity == old(self).model().surprise.capacity
                &&& final(self).model().surprise.recorded == (if old(
                    self,
                ).model().surprise.recorded.len() >= old(self).model().surprise.capacity {
                    old(self).model().surprise.recorded.drop_first()
                } else {
                    old(self).model().surprise.recorded
                }).push(surprise_note())
            },
    {
        proof {
            use_type_invariant(&*self);
        }
        let surprising = self.surprise.detect_surprise(query, conclusion, confidence);
        if surprising {
            let mut detector = SurpriseDetector::new();
            std::mem::swap(&mut detector, &mut self.surprise);
            detector.mark_surprised();
            self.surprise = detector;
        }
        surprising
    }

    /// Checks a conclusion for surprise as `check_surprise` does, unless a
    /// surprise could no longer be counted: then `None`, and nothing changes.
    pub fn try_check_surprise(
        &mut self,
        query: &str,
        conclusion: &str,
        confidence: BeliefState,
    ) -> (r: Option<bool>)
        ensures
            r is None <==> (surprising_in_lowered(
                unicode_lowercase(query@),
                unicode_lowercase(conclusion@),
                confidence,
            ) && old(self).model().surprise.count == usize::MAX),
            r is None ==> final(self).model() == old(self).model(),
            r matches Some(b) ==> b == surprising_in_lowered(
                unicode_lowercase(query@),
                unicode_lowercase(conclusion@),
                confidence,
            ),
            r matches Some(b) ==> final(self).model().history == old(self).model().history,
            r matches Some(b) ==> final(self).model().revisions == old(self).model().revisions,
            r matches Some(b) ==> final(self).model().max_history == old(self).model().max_history,
            r == Some(false) ==> final(self).model().surprise == old(self).model().surprise,
            r == Some(true) ==> {
                &&& final(self).model().surprise.surprised
                &&& final(self).model().surprise.count == old(self).model().surprise.count + 1
                &&& final(self).model().surprise.capacity == old(self).model().surprise.capacity
                &&& final(self).model().surprise.recorded == (if old(
                    self,
                ).model().surprise.recorded.len() >= old(self).model().surprise.capacity {
                    old(self).model().surprise.recorded.drop_first()
                } else {
                    old(self).model().surprise.recorded
                }).push(surprise_note())
            },
    {
        if self.surprise.surprise_count() == usize::MAX && self.surprise.detect_surprise(
            query,
            conclusion,
            confidence,
        ) {
            return None;
        }
        Some(self.check_surprise(query, conclusion, confidence))
    }

    /// What the system notices about its own reasoning, given what the gap
    /// tracker reports of its most important gap.
    pub fn generate_insight(&self, top_gap: Option<&GapSignal>) -> (r: Option<String>)
        ensures
            match insight_spec(self.model().history, self.model().revisions, match top_gap {
                Some(g) => Some(*g),
                None => None,
            }) {
                Some(t) => r matches Some(s) && s@ == t,
                None => r is None,
            },
    {
        insight_from(self.reasoning_history.as_slice(), self.revisions.as_slice(), top_gap)
    }
}

/// A revision just noted about a topic is the newest revision about it: the
/// revision statement about the topic then speaks of that change.
pub proof fn law_noted_revision_is_newest(
    before: Seq<BeliefRevision>,
    after: Seq<BeliefRevision>,
    topic: Seq<char>,
)
    requires
        after.len() == before.len() + 1,
        after.drop_last() == before,
        after.last().topic@ == topic,
    ensures
        revisions_about(after, topic).len() > 0,
        revisions_about(after, topic).last() == after.last(),
{
    reveal(Seq::filter);
}

/// Recording a reasoning session never lets the history outgrow its bound,
/// and keeps every earlier session but the oldest when it was full.
pub proof fn law_history_stays_bounded(
    history: Seq<ReasoningRecord>,
    max: nat,
    record: ReasoningRecord,
)
    requires
        0 < max,
        history.len() <= max,
    ensures
        bounded_push(history, max, record).len() <= max,
        bounded_push(history, max, record).last() == record,
        history.len() < max ==> bounded_push(history, max, record).drop_last() == history,
        history.len() == max ==> bounded_push(history, max, record).drop_last()
            == history.subrange(1, history.len() as int),
{
    assert(bounded_push(history, max, record).drop_last() =~= (if history.len() >= max {
        history.drop_first()
    } else {
        history
    }));
}

} // verus!
