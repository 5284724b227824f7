//! Real-trace shadow observation of typed prediction batches.
//!
//! The observer passively copies the ranking of already-ranked prediction
//! batches and settles them with independently supplied outcomes. It keeps
//! only engine and kind category tokens and prediction identifiers; no raw
//! text. Its outputs are inert diagnostics: it cannot construct
//! certificates, admit grammar productions, influence predictions, persist
//! data, select tools, or act.
use vstd::prelude::*;
use crate::atom::{atoms_view, copy_atoms, Atom};
use crate::digest::{fnv1a, fnv_extend_exec, FNV_OFFSET};
use crate::text::{concat2, concat3, concat4, decimal, decimal_spec, str_eq};

verus! {

broadcast use vstd::string::group_string_axioms;

/// How the observer is bounded.
#[derive(Debug, Clone, Copy, PartialEq, Eq, Structural)]
pub struct OmegaG2ShadowConfig {
    pub rank_width: usize,
    pub min_witnesses_for_audit: usize,
    pub max_pending_traces: usize,
    pub max_witnesses_per_root: usize,
    pub max_roots: usize,
    pub max_vocabulary: usize,
}

impl Default for OmegaG2ShadowConfig {
    fn default() -> (c: Self)
        ensures
            c.rank_width == 5,
            c.min_witnesses_for_audit == 16,
            c.max_pending_traces == 512,
            c.max_witnesses_per_root == 256,
            c.max_roots == 32,
            c.max_vocabulary == 8,
    {
        OmegaG2ShadowConfig {
            rank_width: 5,
            min_witnesses_for_audit: 16,
            max_pending_traces: 512,
            max_witnesses_per_root: 256,
            max_roots: 32,
            max_vocabulary: 8,
        }
    }
}

/// How a root's composition audit came out.
#[derive(Debug, Clone, Copy, PartialEq, Eq, Structural)]
pub enum ShadowAuditClassification {
    NoDefects,
    NoCompositionalGain,
    PartialCompositionalGain,
    CompleteCompositionalCandidate,
    SkippedVocabularyLimit,
}

/// The label of an audit classification.
pub open spec fn classification_label_spec(c: ShadowAuditClassification) -> Seq<char> {
    match c {
        ShadowAuditClassification::NoDefects => "no_defects"@,
        ShadowAuditClassification::NoCompositionalGain => "no_compositional_gain"@,
        ShadowAuditClassification::PartialCompositionalGain => "partial_compositional_gain"@,
        ShadowAuditClassification::CompleteCompositionalCandidate => "complete_compositional_candidate"@,
        ShadowAuditClassification::SkippedVocabularyLimit => "skipped_vocabulary_limit"@,
    }
}

impl ShadowAuditClassification {
    /// The classification's label.
    pub fn label(self) -> (s: &'static str)
        ensures
            s@ == classification_label_spec(self),
    {
        match self {
            ShadowAuditClassification::NoDefects => "no_defects",
            ShadowAuditClassification::NoCompositionalGain => "no_compositional_gain",
            ShadowAuditClassification::PartialCompositionalGain => "partial_compositional_gain",
            ShadowAuditClassification::CompleteCompositionalCandidate => "complete_compositional_candidate",
            ShadowAuditClassification::SkippedVocabularyLimit => "skipped_vocabulary_limit",
        }
    }
}

/// Counters of the work an audit did.
#[derive(Debug, Clone, Copy, PartialEq, Eq, Structural)]
pub struct ShadowAuditBudget {
    pub vocabulary_history_scans: usize,
    pub history_pair_evaluations: usize,
    pub base_candidate_programs: usize,
    pub base_program_history_evaluations: usize,
    pub single_m1_candidate_programs: usize,
    pub single_m1_program_history_evaluations: usize,
    pub c1_candidate_programs: usize,
    pub c1_program_history_evaluations: usize,
}

impl Default for ShadowAuditBudget {
    fn default() -> (b: Self)
        ensures
            b.vocabulary_history_scans == 0,
            b.history_pair_evaluations == 0,
            b.base_candidate_programs == 0,
            b.base_program_history_evaluations == 0,
            b.single_m1_candidate_programs == 0,
            b.single_m1_program_history_evaluations == 0,
            b.c1_candidate_programs == 0,
            b.c1_program_history_evaluations == 0,
    {
        ShadowAuditBudget {
            vocabulary_history_scans: 0,
            history_pair_evaluations: 0,
            base_candidate_programs: 0,
            base_program_history_evaluations: 0,
            single_m1_candidate_programs: 0,
            single_m1_program_history_evaluations: 0,
            c1_candidate_programs: 0,
            c1_program_history_evaluations: 0,
        }
    }
}

/// The result of one root's composition audit.
#[derive(Debug, Clone, PartialEq, Eq)]
pub struct ShadowCompositionAudit {
    pub root_id: u64,
    pub witness_count: usize,
    pub vocabulary_size: usize,
    pub detected_defects: usize,
    pub base_candidate_programs: usize,
    pub base_unique_partitions: usize,
    pub base_best_repaired_defects: usize,
    pub single_m1_candidate_programs: usize,
    pub single_m1_unique_partitions: usize,
    pub single_m1_best_repaired_defects: usize,
    pub c1_candidate_programs: usize,
    pub c1_unique_partitions: usize,
    pub c1_best_repaired_defects: usize,
    pub c1_complete_repair_count: usize,
    pub best_c1_program: Option<String>,
    pub classification: ShadowAuditClassification,
    pub budget: ShadowAuditBudget,
}

/// What the observer may and may not influence: nothing.
#[derive(Debug, Clone, Copy, PartialEq, Eq, Structural)]
pub struct ShadowAuthorityBoundary {
    pub runtime_chat_response_influence: bool,
    pub prediction_generation_influence: bool,
    pub prediction_ranking_influence: bool,
    pub prediction_outcome_influence: bool,
    pub routing_authority: bool,
    pub persistence_authority: bool,
    pub belief_or_ontology_promotion: bool,
    pub grammar_registry_admission: bool,
    pub state_key_mutation: bool,
    pub tool_or_capability_selection: bool,
    pub external_side_effects: bool,
    pub autonomous_action: bool,
    pub automatic_source_modification: bool,
}

/// The closed authority boundary: every authority is off.
pub open spec fn closed_boundary(b: ShadowAuthorityBoundary) -> bool {
    &&& !b.runtime_chat_response_influence
    &&& !b.prediction_generation_influence
    &&& !b.prediction_ranking_influence
    &&& !b.prediction_outcome_influence
    &&& !b.routing_authority
    &&& !b.persistence_authority
    &&& !b.belief_or_ontology_promotion
    &&& !b.grammar_registry_admission
    &&& !b.state_key_mutation
    &&& !b.tool_or_capability_selection
    &&& !b.external_side_effects
    &&& !b.autonomous_action
    &&& !b.automatic_source_modification
}

impl Default for ShadowAuthorityBoundary {
    fn default() -> (b: Self)
        ensures
            closed_boundary(b),
    {
        ShadowAuthorityBoundary {
            runtime_chat_response_influence: false,
            prediction_generation_influence: false,
            prediction_ranking_influence: false,
            prediction_outcome_influence: false,
            routing_authority: false,
            persistence_authority: false,
            belief_or_ontology_promotion: false,
            grammar_registry_admission: false,
            state_key_mutation: false,
            tool_or_capability_selection: false,
            external_side_effects: false,
            autonomous_action: false,
            automatic_source_modification: false,
        }
    }
}

/// A snapshot of the observer's counters.
#[derive(Debug, Clone, PartialEq, Eq)]
pub struct OmegaG2ShadowSnapshot {
    pub config: OmegaG2ShadowConfig,
    pub observed_batches: usize,
    pub pending_traces: usize,
    pub settled_witnesses: usize,
    pub roots: usize,
    pub duplicate_evidence: usize,
    pub dropped_pending_traces: usize,
    pub evicted_witnesses: usize,
    pub audits: Vec<ShadowCompositionAudit>,
    pub authority: ShadowAuthorityBoundary,
}

/// What settling one piece of evidence did.
#[derive(Debug, Clone, Copy, PartialEq, Eq, Structural)]
pub enum ShadowEvidenceResolution {
    Settled,
    Duplicate,
    MissingPendingTrace,
}

/// Why an observer configuration is refused.
#[derive(Debug, Clone, PartialEq, Eq)]
pub enum OmegaG2ShadowError {
    RankWidthTooSmall,
    AuditThresholdTooSmall,
    ZeroCapacity,
    VocabularyLimitTooSmall,
    InvalidAtom(String),
    Audit(String),
}

/// A ranked prediction, as far as the observer reads it: its identifier and
/// the display texts of its engine and kind.
#[derive(Debug, Clone, PartialEq, Eq)]
pub struct Prediction {
    pub id: u64,
    pub engine: String,
    pub kind: String,
}

/// How a prediction turned out.
#[derive(Debug, Clone, Copy, PartialEq, Eq, Structural)]
pub enum PredictionOutcome {
    Confirmed,
    Refuted,
    Surprised,
    Uncertain,
}

/// The evidence that settles a prediction.
#[derive(Debug, Clone, Copy, PartialEq, Eq, Structural)]
pub struct Evidence {
    pub outcome: PredictionOutcome,
    pub prediction_id: u64,
}

/// Why a configuration is refused, if it is.
pub open spec fn config_error(c: OmegaG2ShadowConfig) -> Option<OmegaG2ShadowError> {
    if c.rank_width < 3 {
        Some(OmegaG2ShadowError::RankWidthTooSmall)
    } else if c.min_witnesses_for_audit < 2 {
        Some(OmegaG2ShadowError::AuditThresholdTooSmall)
    } else if c.max_pending_traces == 0 || c.max_witnesses_per_root == 0 || c.max_roots == 0 {
        Some(OmegaG2ShadowError::ZeroCapacity)
    } else if c.max_vocabulary < 3 {
        Some(OmegaG2ShadowError::VocabularyLimitTooSmall)
    } else {
        None
    }
}

/// The category text of a prediction.
pub open spec fn category_text(engine: Seq<char>, kind: Seq<char>) -> Seq<char> {
    "prediction:"@ + engine + ":"@ + kind
}

/// The intervention label of a prediction.
pub open spec fn intervention_text(engine: Seq<char>, kind: Seq<char>) -> Seq<char> {
    "selected:"@ + engine + ":"@ + kind
}

/// The category of prediction `k` of a batch.
pub open spec fn category_at(ps: Seq<Prediction>, k: int) -> Seq<char> {
    category_text(ps[k].engine@, ps[k].kind@)
}

/// How many of the first `k` predictions have category `c`.
pub open spec fn category_count(ps: Seq<Prediction>, k: int, c: Seq<char>) -> nat
    decreases k,
{
    if k <= 0 {
        0
    } else {
        category_count(ps, k - 1, c) + if category_at(ps, k - 1) == c {
            1nat
        } else {
            0nat
        }
    }
}

/// The ranking event of position `i` in a batch: the category with its
/// occurrence count so far, or padding past the end of the batch.
pub open spec fn ranking_event(ps: Seq<Prediction>, i: int) -> Seq<char> {
    if i < ps.len() {
        category_at(ps, i) + ":occurrence:"@ + decimal_spec(
            category_count(ps, i + 1, category_at(ps, i)),
        )
    } else {
        "prediction:padding:"@ + decimal_spec(i as nat)
    }
}

/// The ranking events of a batch, `w` of them.
pub open spec fn ranking_events_spec(ps: Seq<Prediction>, w: nat) -> Seq<Seq<char>> {
    Seq::new(w, |i: int| ranking_event(ps, i))
}

/// A pending trace: a prediction's ranking, waiting for its evidence.
#[derive(Debug)]
struct PendingTrace {
    history_id: u64,
    root_id: u64,
    events: Vec<Atom>,
    intervention: Atom,
}

/// A settled history with its evidence.
#[derive(Debug)]
struct WitnessedHistory {
    evidence_id: u64,
    history_id: u64,
    events: Vec<Atom>,
    intervention: Atom,
    outcome: Atom,
}

/// The settled witnesses of one root.
#[derive(Debug)]
struct RootBuffer {
    root_id: u64,
    intervention: Atom,
    discovery: Vec<WitnessedHistory>,
}

/// The model of a pending trace.
pub struct TraceModel {
    pub id: u64,
    pub root_id: u64,
    pub events: Seq<Seq<char>>,
    pub intervention: Seq<char>,
}

/// The model of a settled witness.
pub struct WitnessModel {
    pub evidence_id: u64,
    pub history_id: u64,
    pub events: Seq<Seq<char>>,
    pub intervention: Seq<char>,
    pub outcome: Seq<char>,
}

/// The model of a root.
pub struct RootModel {
    pub root_id: u64,
    pub intervention: Seq<char>,
    pub discovery: Seq<WitnessModel>,
}

/// The model of an observer.
pub struct ObserverModel {
    pub config: OmegaG2ShadowConfig,
    pub observed_batches: usize,
    pub next_evidence_id: u64,
    pub pending: Seq<TraceModel>,
    pub roots: Seq<RootModel>,
    pub settled: Seq<u64>,
    pub duplicate_evidence: usize,
    pub dropped_pending_traces: usize,
    pub evicted_witnesses: usize,
}

spec fn trace_model(t: PendingTrace) -> TraceModel {
    TraceModel {
        id: t.history_id,
        root_id: t.root_id,
        events: atoms_view(t.events@),
        intervention: t.intervention@,
    }
}

spec fn witness_model(w: WitnessedHistory) -> WitnessModel {
    WitnessModel {
        evidence_id: w.evidence_id,
        history_id: w.history_id,
        events: atoms_view(w.events@),
        intervention: w.intervention@,
        outcome: w.outcome@,
    }
}

spec fn root_model(r: RootBuffer) -> RootModel {
    RootModel {
        root_id: r.root_id,
        intervention: r.intervention@,
        discovery: r.discovery@.map_values(|w: WitnessedHistory| witness_model(w)),
    }
}

/// `a + k`, or `usize::MAX` where the sum does not fit.
pub open spec fn sat_add(a: int, k: int) -> usize {
    if a + k > usize::MAX {
        usize::MAX
    } else {
        (a + k) as usize
    }
}

/// Whether some pending trace has the identifier.
pub open spec fn pending_has(pending: Seq<TraceModel>, id: u64) -> bool {
    exists|i: int| 0 <= i < pending.len() && (#[trigger] pending[i]).id == id
}

/// The root of a prediction: the FNV-1a digest of its intervention label.
pub open spec fn prediction_root(p: Prediction) -> u64 {
    fnv1a(vstd::utf8::encode_utf8(intervention_text(p.engine@, p.kind@)))
}

/// The pending traces after the first `k` predictions of a batch: each new
/// identifier, not pending and not settled, becomes a trace.
pub open spec fn batch_pending(
    pending: Seq<TraceModel>,
    settled: Seq<u64>,
    ps: Seq<Prediction>,
    events: Seq<Seq<char>>,
    k: nat,
) -> Seq<TraceModel>
    decreases k,
{
    if k == 0 || k > ps.len() {
        pending
    } else {
        let prev = batch_pending(pending, settled, ps, events, (k - 1) as nat);
        let p = ps[k - 1];
        if pending_has(prev, p.id) || settled.contains(p.id) {
            prev
        } else {
            prev.push(
                TraceModel {
                    id: p.id,
                    root_id: prediction_root(p),
                    events,
                    intervention: intervention_text(p.engine@, p.kind@),
                },
            )
        }
    }
}

/// The newest `max` entries of a sequence.
pub open spec fn keep_newest<A>(s: Seq<A>, max: nat) -> Seq<A> {
    if s.len() > max {
        s.subrange(s.len() - max, s.len() as int)
    } else {
        s
    }
}

/// What observing a batch does to the observer, and how many traces it accepted.
pub open spec fn observe_step(m: ObserverModel, ps: Seq<Prediction>) -> (ObserverModel, nat) {
    let batches = sat_add(m.observed_batches as int, 1);
    if ps.len() == 0 {
        (ObserverModel { observed_batches: batches, ..m }, 0)
    } else {
        let events = ranking_events_spec(ps, m.config.rank_width as nat);
        let grown = batch_pending(m.pending, m.settled, ps, events, ps.len());
        let dropped = if grown.len() > m.config.max_pending_traces {
            grown.len() - m.config.max_pending_traces
        } else {
            0
        };
        (
            ObserverModel {
                observed_batches: batches,
                pending: keep_newest(grown, m.config.max_pending_traces as nat),
                dropped_pending_traces: sat_add(m.dropped_pending_traces as int, dropped),
                ..m
            },
            (grown.len() - m.pending.len()) as nat,
        )
    }
}

/// The label of an outcome.
pub open spec fn outcome_label_spec(o: PredictionOutcome) -> Seq<char> {
    match o {
        PredictionOutcome::Confirmed => "confirmed"@,
        PredictionOutcome::Refuted => "refuted"@,
        PredictionOutcome::Surprised => "surprised"@,
        PredictionOutcome::Uncertain => "uncertain"@,
    }
}

fn outcome_label(o: PredictionOutcome) -> (s: &'static str)
    ensures
        s@ == outcome_label_spec(o),
{
    match o {
        PredictionOutcome::Confirmed => "confirmed",
        PredictionOutcome::Refuted => "refuted",
        PredictionOutcome::Surprised => "surprised",
        PredictionOutcome::Uncertain => "uncertain",
    }
}

/// The position of the pending trace with the identifier.
pub open spec fn pending_position(pending: Seq<TraceModel>, id: u64) -> int {
    choose|i: int| 0 <= i < pending.len() && (#[trigger] pending[i]).id == id
}

/// Whether some root has the identifier.
pub open spec fn root_has(roots: Seq<RootModel>, id: u64) -> bool {
    exists|i: int| 0 <= i < roots.len() && (#[trigger] roots[i]).root_id == id
}

/// The position of the root with the identifier.
pub open spec fn root_position(roots: Seq<RootModel>, id: u64) -> int {
    choose|i: int| 0 <= i < roots.len() && (#[trigger] roots[i]).root_id == id
}

/// How many witnesses the roots hold.
pub open spec fn discovery_total(roots: Seq<RootModel>) -> nat
    decreases roots.len(),
{
    if roots.len() == 0 {
        0
    } else {
        discovery_total(roots.drop_last()) + roots.last().discovery.len()
    }
}

/// Makes room for a new root, evicting the oldest roots and counting their
/// witnesses, unless the root is already there.
pub open spec fn ensure_root_spec(
    roots: Seq<RootModel>,
    evicted: usize,
    root_id: u64,
    intervention: Seq<char>,
    max_roots: nat,
) -> (Seq<RootModel>, usize) {
    if root_has(roots, root_id) {
        (roots, evicted)
    } else {
        let k = if roots.len() >= max_roots {
            roots.len() - max_roots + 1
        } else {
            0
        };
        (
            roots.subrange(k, roots.len() as int).push(
                RootModel { root_id, intervention, discovery: Seq::empty() },
            ),
            sat_add(evicted as int, discovery_total(roots.subrange(0, k)) as int),
        )
    }
}

/// Adds a witness to a root, evicting its oldest witness when it is full.
pub open spec fn add_witness_spec(
    roots: Seq<RootModel>,
    evicted: usize,
    root_id: u64,
    w: WitnessModel,
    max_witnesses: nat,
) -> (Seq<RootModel>, usize) {
    let r = root_position(roots, root_id);
    let d = roots[r].discovery;
    if d.len() >= max_witnesses {
        (
            roots.update(r, RootModel { discovery: d.drop_first().push(w), ..roots[r] }),
            sat_add(evicted as int, 1),
        )
    } else {
        (roots.update(r, RootModel { discovery: d.push(w), ..roots[r] }), evicted)
    }
}

/// The largest number of settled identifiers remembered.
pub const MAX_SETTLED_IDS: usize = 1024;

/// What settling evidence does to the observer, and the resolution.
pub open spec fn resolve_step(m: ObserverModel, e: Evidence) -> (ObserverModel, ShadowEvidenceResolution) {
    let pid = e.prediction_id;
    if m.settled.contains(pid) {
        (
            ObserverModel { duplicate_evidence: sat_add(m.duplicate_evidence as int, 1), ..m },
            ShadowEvidenceResolution::Duplicate,
        )
    } else if !pending_has(m.pending, pid) {
        (m, ShadowEvidenceResolution::MissingPendingTrace)
    } else {
        let i = pending_position(m.pending, pid);
        let t = m.pending[i];
        let w = WitnessModel {
            evidence_id: m.next_evidence_id,
            history_id: t.id,
            events: t.events,
            intervention: t.intervention,
            outcome: outcome_label_spec(e.outcome),
        };
        let (roots1, ev1) = ensure_root_spec(
            m.roots,
            m.evicted_witnesses,
            t.root_id,
            t.intervention,
            m.config.max_roots as nat,
        );
        let (roots2, ev2) = add_witness_spec(
            roots1,
            ev1,
            t.root_id,
            w,
            m.config.max_witnesses_per_root as nat,
        );
        (
            ObserverModel {
                next_evidence_id: if m.next_evidence_id == u64::MAX {
                    u64::MAX
                } else {
                    (m.next_evidence_id + 1) as u64
                },
                pending: m.pending.remove(i),
                roots: roots2,
                settled: keep_newest(m.settled.push(pid), MAX_SETTLED_IDS as nat),
                evicted_witnesses: ev2,
                ..m
            },
            ShadowEvidenceResolution::Settled,
        )
    }
}

/// A prediction settles once: after evidence for a prediction has settled
/// it, any further evidence for the same prediction is counted as a
/// duplicate, and changes nothing but the duplicate counter.
pub proof fn law_evidence_settles_once(m: ObserverModel, e: Evidence, again: Evidence)
    requires
        resolve_step(m, e).1 == ShadowEvidenceResolution::Settled,
        again.prediction_id == e.prediction_id,
    ensures
        resolve_step(resolve_step(m, e).0, again).1 == ShadowEvidenceResolution::Duplicate,
        resolve_step(resolve_step(m, e).0, again).0 == (ObserverModel {
            duplicate_evidence: sat_add(resolve_step(m, e).0.duplicate_evidence as int, 1),
            ..resolve_step(m, e).0
        }),
{
    let pid = e.prediction_id;
    let s = m.settled.push(pid);
    let kept = keep_newest(s, MAX_SETTLED_IDS as nat);
    assert(kept[kept.len() - 1] == pid);
    assert(kept.contains(pid));
}

/// Replay is deterministic: observers in the same state that are handed the
/// same prediction batch, or the same evidence, reach the same state and
/// report the same result, so identical histories give identical snapshots.
pub proof fn law_replay_is_deterministic(
    m1: ObserverModel,
    m2: ObserverModel,
    ps: Seq<Prediction>,
    e: Evidence,
)
    requires
        m1 == m2,
    ensures
        observe_step(m1, ps) == observe_step(m2, ps),
        resolve_step(m1, e) == resolve_step(m2, e),
{
}

/// The identifiers among the first `k` predictions of a batch that are
/// neither pending nor settled, each once.
pub open spec fn fresh_ids(
    pending: Seq<TraceModel>,
    settled: Seq<u64>,
    ps: Seq<Prediction>,
    k: nat,
) -> Set<u64> {
    Set::new(
        |id: u64|
            exists|i: int|
                0 <= i < k && i < ps.len() && (#[trigger] ps[i]).id == id && !pending_has(pending, id)
                    && !settled.contains(id),
    )
}

proof fn lemma_pending_has_push(s: Seq<TraceModel>, t: TraceModel, id: u64)
    ensures
        pending_has(s.push(t), id) <==> pending_has(s, id) || t.id == id,
{
    if pending_has(s, id) {
        let i = choose|i: int| 0 <= i < s.len() && (#[trigger] s[i]).id == id;
        assert(s.push(t)[i].id == id);
    }
    if t.id == id {
        assert(s.push(t)[s.len() as int].id == id);
    }
    if pending_has(s.push(t), id) {
        let i = choose|i: int| 0 <= i < s.push(t).len() && (#[trigger] s.push(t)[i]).id == id;
        if i < s.len() {
            assert(s[i].id == id);
        }
    }
}

proof fn lemma_batch_pending_has(
    pending: Seq<TraceModel>,
    settled: Seq<u64>,
    ps: Seq<Prediction>,
    events: Seq<Seq<char>>,
    k: nat,
    id: u64,
)
    requires
        k <= ps.len(),
    ensures
        pending_has(batch_pending(pending, settled, ps, events, k), id) <==> (pending_has(
            pending,
            id,
        ) || fresh_ids(pending, settled, ps, k).contains(id)),
    decreases k,
{
    let f = fresh_ids(pending, settled, ps, k);
    if k == 0 {
        assert(!f.contains(id));
    } else {
        lemma_batch_pending_has(pending, settled, ps, events, (k - 1) as nat, id);
        let prev = batch_pending(pending, settled, ps, events, (k - 1) as nat);
        let f0 = fresh_ids(pending, settled, ps, (k - 1) as nat);
        let p = ps[k - 1];
        if f.contains(id) {
            let i = choose|i: int|
                0 <= i < k && i < ps.len() && (#[trigger] ps[i]).id == id && !pending_has(pending, id)
                    && !settled.contains(id);
            if i < k - 1 {
                assert(f0.contains(id));
            }
        }
        if f0.contains(id) {
            let i = choose|i: int|
                0 <= i < k - 1 && i < ps.len() && (#[trigger] ps[i]).id == id && !pending_has(
                    pending,
                    id,
                ) && !settled.contains(id);
            assert(0 <= i < k);
            assert(f.contains(id));
        }
        if !(pending_has(prev, p.id) || settled.contains(p.id)) {
            let t = TraceModel {
                id: p.id,
                root_id: prediction_root(p),
                events,
                intervention: intervention_text(p.engine@, p.kind@),
            };
            lemma_pending_has_push(prev, t, id);
            if id == p.id {
                assert(ps[k - 1].id == id);
                assert(!pending_has(pending, id));
                assert(f.contains(id));
            }
        }
    }
}

proof fn lemma_batch_pending_fresh(
    pending: Seq<TraceModel>,
    settled: Seq<u64>,
    ps: Seq<Prediction>,
    events: Seq<Seq<char>>,
    k: nat,
)
    requires
        k <= ps.len(),
    ensures
        fresh_ids(pending, settled, ps, k).finite(),
        batch_pending(pending, settled, ps, events, k).len() == pending.len() + fresh_ids(
            pending,
            settled,
            ps,
            k,
        ).len(),
    decreases k,
{
    let f = fresh_ids(pending, settled, ps, k);
    if k == 0 {
        assert(f =~= Set::empty());
    } else {
        lemma_batch_pending_fresh(pending, settled, ps, events, (k - 1) as nat);
        let prev = batch_pending(pending, settled, ps, events, (k - 1) as nat);
        let f0 = fresh_ids(pending, settled, ps, (k - 1) as nat);
        let p = ps[k - 1];
        lemma_batch_pending_has(pending, settled, ps, events, (k - 1) as nat, p.id);
        if pending_has(prev, p.id) || settled.contains(p.id) {
            assert forall|id: u64| f.contains(id) implies f0.contains(id) by {
                let i = choose|i: int|
                    0 <= i < k && i < ps.len() && (#[trigger] ps[i]).id == id && !pending_has(
                        pending,
                        id,
                    ) && !settled.contains(id);
                if i < k - 1 {
                    assert(f0.contains(id));
                }
            }
            assert forall|id: u64| f0.contains(id) implies f.contains(id) by {
                let i = choose|i: int|
                    0 <= i < k - 1 && i < ps.len() && (#[trigger] ps[i]).id == id && !pending_has(
                        pending,
                        id,
                    ) && !settled.contains(id);
                assert(0 <= i < k);
            }
            assert(f =~= f0);
        } else {
            assert(!f0.contains(p.id));
            assert(!pending_has(pending, p.id));
            assert(f.contains(p.id)) by {
                assert(ps[k - 1].id == p.id);
            }
            assert forall|id: u64| f.contains(id) implies f0.insert(p.id).contains(id) by {
                let i = choose|i: int|
                    0 <= i < k && i < ps.len() && (#[trigger] ps[i]).id == id && !pending_has(
                        pending,
                        id,
                    ) && !settled.contains(id);
                if i < k - 1 {
                    assert(f0.contains(id));
                }
            }
            assert forall|id: u64| f0.insert(p.id).contains(id) implies f.contains(id) by {
                if id != p.id {
                    let i = choose|i: int|
                        0 <= i < k - 1 && i < ps.len() && (#[trigger] ps[i]).id == id
                            && !pending_has(pending, id) && !settled.contains(id);
                    assert(0 <= i < k);
                }
            }
            assert(f =~= f0.insert(p.id));
        }
    }
}

/// Observing a batch, in closed form: with `k` the number of distinct
/// prediction identifiers in the batch that are neither pending nor settled,
/// the observer accepts `k` traces, counts one more batch (saturating),
/// keeps at most the configured number of pending traces, and counts the
/// traces over that capacity as dropped (saturating). The oldest traces are
/// the ones dropped.
pub proof fn law_observe_batch_counters(m: ObserverModel, ps: Seq<Prediction>)
    requires
        ps.len() > 0 || m.pending.len() <= m.config.max_pending_traces,
    ensures
        ({
            let k = fresh_ids(m.pending, m.settled, ps, ps.len()).len();
            let total: int = (m.pending.len() + k) as int;
            let max = m.config.max_pending_traces as int;
            let next = observe_step(m, ps).0;
            &&& observe_step(m, ps).1 == k
            &&& next.observed_batches == sat_add(m.observed_batches as int, 1)
            &&& next.pending.len() == if total > max {
                max
            } else {
                total
            }
            &&& next.dropped_pending_traces == sat_add(
                m.dropped_pending_traces as int,
                if total > max {
                    total - max
                } else {
                    0
                },
            )
        }),
        ps.len() > 0 ==> observe_step(m, ps).0.pending == keep_newest(
            batch_pending(
                m.pending,
                m.settled,
                ps,
                ranking_events_spec(ps, m.config.rank_width as nat),
                ps.len(),
            ),
            m.config.max_pending_traces as nat,
        ),
{
    let events = ranking_events_spec(ps, m.config.rank_width as nat);
    lemma_batch_pending_fresh(m.pending, m.settled, ps, events, ps.len());
    if ps.len() == 0 {
        assert(fresh_ids(m.pending, m.settled, ps, ps.len()) =~= Set::empty());
    }
}

/// The observer.
#[derive(Debug)]
pub struct OmegaG2ShadowObserver {
    config: OmegaG2ShadowConfig,
    observed_batches: usize,
    next_evidence_id: u64,
    pending: Vec<PendingTrace>,
    roots: Vec<RootBuffer>,
    settled: Vec<u64>,
    duplicate_evidence: usize,
    dropped_pending_traces: usize,
    evicted_witnesses: usize,
}

impl OmegaG2ShadowObserver {
    /// The observer's model.
    pub closed spec fn model(&self) -> ObserverModel {
        ObserverModel {
            config: self.config,
            observed_batches: self.observed_batches,
            next_evidence_id: self.next_evidence_id,
            pending: self.pending@.map_values(|t: PendingTrace| trace_model(t)),
            roots: self.roots@.map_values(|r: RootBuffer| root_model(r)),
            settled: self.settled@,
            duplicate_evidence: self.duplicate_evidence,
            dropped_pending_traces: self.dropped_pending_traces,
            evicted_witnesses: self.evicted_witnesses,
        }
    }

    /// The observer's invariants: a valid configuration, distinct pending,
    /// root and settled identifiers, and every bound respected.
    pub closed spec fn wf(&self) -> bool {
        let m = self.model();
        &&& config_error(m.config) is None
        &&& m.pending.len() <= m.config.max_pending_traces
        &&& forall|i: int, j: int|
            0 <= i < j < m.pending.len() ==> (#[trigger] m.pending[i]).id != (#[trigger] m.pending[j]).id
        &&& m.roots.len() <= m.config.max_roots
        &&& forall|i: int, j: int|
            0 <= i < j < m.roots.len() ==> (#[trigger] m.roots[i]).root_id != (#[trigger] m.roots[j]).root_id
        &&& forall|i: int| 0 <= i < m.roots.len() ==> (#[trigger] m.roots[i]).discovery.len() <= m.config.max_witnesses_per_root
        &&& m.settled.no_duplicates()
        &&& m.settled.len() <= MAX_SETTLED_IDS
    }

    /// The observer stays within its bounds: no more pending traces than
    /// configured, no more roots than configured, no root holding more
    /// witnesses than configured, and no more remembered settled identifiers
    /// than the fixed limit. Every operation keeps this (each ensures `wf`).
    pub proof fn lemma_within_bounds(&self)
        requires
            self.wf(),
        ensures
            self.model().pending.len() <= self.model().config.max_pending_traces,
            self.model().roots.len() <= self.model().config.max_roots,
            forall|i: int|
                0 <= i < self.model().roots.len() ==> (#[trigger] self.model().roots[i]).discovery.len()
                    <= self.model().config.max_witnesses_per_root,
            self.model().settled.len() <= MAX_SETTLED_IDS,
    {
    }

    /// An empty observer, if the configuration is valid.
    pub fn new(config: OmegaG2ShadowConfig) -> (r: Result<Self, OmegaG2ShadowError>)
        ensures
            match r {
                Ok(o) => {
                    &&& config_error(config) is None
                    &&& o.wf()
                    &&& o.model() == ObserverModel {
                        config,
                        observed_batches: 0,
                        next_evidence_id: 1,
                        pending: Seq::empty(),
                        roots: Seq::empty(),
                        settled: Seq::empty(),
                        duplicate_evidence: 0,
                        dropped_pending_traces: 0,
                        evicted_witnesses: 0,
                    }
                },
                Err(e) => config_error(config) == Some(e),
            },
    {
        if config.rank_width < 3 {
            return Err(OmegaG2ShadowError::RankWidthTooSmall);
        }
        if config.min_witnesses_for_audit < 2 {
            return Err(OmegaG2ShadowError::AuditThresholdTooSmall);
        }
        if config.max_pending_traces == 0 || config.max_witnesses_per_root == 0 || config.max_roots == 0 {
            return Err(OmegaG2ShadowError::ZeroCapacity);
        }
        if config.max_vocabulary < 3 {
            return Err(OmegaG2ShadowError::VocabularyLimitTooSmall);
        }
        let o = OmegaG2ShadowObserver {
            config,
            observed_batches: 0,
            next_evidence_id: 1,
            pending: Vec::new(),
            roots: Vec::new(),
            settled: Vec::new(),
            duplicate_evidence: 0,
            dropped_pending_traces: 0,
            evicted_witnesses: 0,
        };
        assert(o.model().pending =~= Seq::<TraceModel>::empty());
        assert(o.model().roots =~= Seq::<RootModel>::empty());
        Ok(o)
    }

    /// The observer's configuration.
    pub fn config(&self) -> (c: &OmegaG2ShadowConfig)
        ensures
            *c == self.model().config,
    {
        &self.config
    }
}

impl Default for OmegaG2ShadowObserver {
    fn default() -> (o: Self)
        ensures
            o.wf(),
            o.model().config.rank_width == 5,
            o.model().config.max_pending_traces == 512,
            o.model().config.max_roots == 32,
            o.model().config.max_witnesses_per_root == 256,
            o.model().pending.len() == 0,
            o.model().roots.len() == 0,
            o.model().settled.len() == 0,
            o.model().observed_batches == 0,
            o.model().next_evidence_id == 1,
            o.model().duplicate_evidence == 0,
            o.model().dropped_pending_traces == 0,
            o.model().evicted_witnesses == 0,
    {
        match OmegaG2ShadowObserver::new(OmegaG2ShadowConfig::default()) {
            Ok(o) => o,
            Err(_) => {
                assert(false);
                OmegaG2ShadowObserver {
                    config: OmegaG2ShadowConfig::default(),
                    observed_batches: 0,
                    next_evidence_id: 1,
                    pending: Vec::new(),
                    roots: Vec::new(),
                    settled: Vec::new(),
                    duplicate_evidence: 0,
                    dropped_pending_traces: 0,
                    evicted_witnesses: 0,
                }
            },
        }
    }
}

fn category_of(p: &Prediction) -> (s: String)
    ensures
        s@ == category_text(p.engine@, p.kind@),
{
    concat4("prediction:", p.engine.as_str(), ":", p.kind.as_str())
}

fn count_category(ps: &[Prediction], k: usize, c: &String) -> (n: usize)
    requires
        k <= ps@.len(),
    ensures
        n == category_count(ps@, k as int, c@),
        n <= k,
{
    let mut n: usize = 0;
    let mut j: usize = 0;
    while j < k
        invariant
            k <= ps@.len(),
            j <= k,
            n == category_count(ps@, j as int, c@),
            n <= j,
        decreases k - j,
    {
        let cj = category_of(&ps[j]);
        if str_eq(cj.as_str(), c.as_str()) {
            n = n + 1;
        }
        j = j + 1;
    }
    n
}

/// The ranking events of a batch: the first `rank_width` predictions as
/// category occurrences, padded to `rank_width`.
fn ranking_events(predictions: &[Prediction], rank_width: usize) -> (events: Vec<Atom>)
    ensures
        atoms_view(events@) == ranking_events_spec(predictions@, rank_width as nat),
{
    let mut events: Vec<Atom> = Vec::new();
    let mut i: usize = 0;
    while i < rank_width && i < predictions.len()
        invariant
            i <= rank_width,
            i <= predictions@.len(),
            events@.len() == i,
            forall|t: int| 0 <= t < i ==> (#[trigger] events@[t])@ == ranking_event(predictions@, t),
        decreases rank_width - i,
    {
        let category = category_of(&predictions[i]);
        let occurrence = count_category(predictions, i + 1, &category);
        let text = concat3(category.as_str(), ":occurrence:", decimal(occurrence as u64).as_str());
        events.push(Atom::new(text.as_str()));
        i = i + 1;
    }
    while events.len() < rank_width
        invariant
            events@.len() <= rank_width,
            forall|t: int| 0 <= t < events@.len() ==> (#[trigger] events@[t])@ == ranking_event(predictions@, t),
            events@.len() < rank_width ==> events@.len() >= predictions@.len(),
        decreases rank_width - events@.len(),
    {
        let n = events.len();
        let text = concat2("prediction:padding:", decimal(n as u64).as_str());
        events.push(Atom::new(text.as_str()));
    }
    assert(atoms_view(events@) =~= ranking_events_spec(predictions@, rank_width as nat));
    events
}

fn contains_u64(v: &Vec<u64>, x: u64) -> (r: bool)
    ensures
        r == v@.contains(x),
{
    let mut i: usize = 0;
    while i < v.len()
        invariant
            i <= v@.len(),
            forall|j: int| 0 <= j < i ==> v@[j] != x,
        decreases v@.len() - i,
    {
        if v[i] == x {
            return true;
        }
        i = i + 1;
    }
    false
}

impl OmegaG2ShadowObserver {
    fn pending_index(&self, id: u64) -> (r: Option<usize>)
        ensures
            match r {
                Some(i) => i < self.pending@.len() && self.pending@[i as int].history_id == id,
                None => !pending_has(self.model().pending, id),
            },
            r is None || (forall|j: int| 0 <= j < r->0 ==> self.pending@[j].history_id != id),
    {
        let mut i: usize = 0;
        while i < self.pending.len()
            invariant
                i <= self.pending@.len(),
                forall|j: int| 0 <= j < i ==> self.pending@[j].history_id != id,
            decreases self.pending@.len() - i,
        {
            if self.pending[i].history_id == id {
                return Some(i);
            }
            i = i + 1;
        }
        assert forall|j: int| 0 <= j < self.model().pending.len() implies (#[trigger] self.model().pending[j]).id != id by {
            assert(self.model().pending[j] == trace_model(self.pending@[j]));
        }
        None
    }

    /// Copies an already-ranked prediction batch into the pending ledger:
    /// one trace per new prediction identifier, holding only category tokens.
    /// The oldest traces beyond the capacity are dropped. Returns how many
    /// traces were accepted.
    pub fn observe_prediction_batch(&mut self, predictions: &[Prediction]) -> (accepted: usize)
        requires
            old(self).wf(),
        ensures
            final(self).wf(),
            final(self).model() == observe_step(old(self).model(), predictions@).0,
            accepted == observe_step(old(self).model(), predictions@).1,
    {
        let ghost m0 = self.model();
        self.observed_batches = self.observed_batches.saturating_add(1);
        if predictions.len() == 0 {
            return 0;
        }
        let events = ranking_events(predictions, self.config.rank_width);
        let ghost ev = atoms_view(events@);
        let ghost n0 = self.pending@.len();
        let mut accepted: usize = 0;
        let mut i: usize = 0;
        while i < predictions.len()
            invariant
                i <= predictions@.len(),
                predictions@.len() > 0,
                ev == atoms_view(events@),
                ev == ranking_events_spec(predictions@, m0.config.rank_width as nat),
                self.config == m0.config,
                self.observed_batches == sat_add(m0.observed_batches as int, 1),
                self.next_evidence_id == m0.next_evidence_id,
                self.roots@.map_values(|r: RootBuffer| root_model(r)) == m0.roots,
                self.settled@ == m0.settled,
                self.duplicate_evidence == m0.duplicate_evidence,
                self.dropped_pending_traces == m0.dropped_pending_traces,
                self.evicted_witnesses == m0.evicted_witnesses,
                self.model().pending == batch_pending(m0.pending, m0.settled, predictions@, ev, i as nat),
                n0 == m0.pending.len(),
                self.pending@.len() == n0 + accepted,
                accepted <= i,
                forall|a: int, b: int|
                    0 <= a < b < self.model().pending.len() ==> (#[trigger] self.model().pending[a]).id
                        != (#[trigger] self.model().pending[b]).id,
            decreases predictions@.len() - i,
        {
            let p = &predictions[i];
            let label = concat4("selected:", p.engine.as_str(), ":", p.kind.as_str());
            let root_id = fnv_extend_exec(FNV_OFFSET, label.as_str().as_bytes());
            let present = match self.pending_index(p.id) {
                Some(_) => true,
                None => false,
            };
            let ghost prev = self.model().pending;
            proof {
                if present {
                    let k = choose|k: int| 0 <= k < self.pending@.len() && self.pending@[k].history_id == p.id;
                    assert(prev[k].id == p.id);
                    assert(pending_has(prev, p.id));
                }
                assert(label@ == intervention_text(predictions@[i as int].engine@, predictions@[i as int].kind@));
                assert(root_id == prediction_root(predictions@[i as int]));
            }
            let in_settled = contains_u64(&self.settled, p.id);
            if !present && !in_settled {
                self.pending.push(
                    PendingTrace {
                        history_id: p.id,
                        root_id,
                        events: copy_atoms(events.as_slice()),
                        intervention: Atom::new(label.as_str()),
                    },
                );
                accepted = accepted + 1;
                proof {
                    assert(self.model().pending =~= prev.push(
                        TraceModel {
                            id: p.id,
                            root_id: prediction_root(predictions@[i as int]),
                            events: ev,
                            intervention: intervention_text(p.engine@, p.kind@),
                        },
                    ));
                    assert forall|a: int, b: int|
                        0 <= a < b < self.model().pending.len() implies (#[trigger] self.model().pending[a]).id
                            != (#[trigger] self.model().pending[b]).id by {
                        if b == self.model().pending.len() - 1 {
                            assert(self.model().pending[a] == prev[a]);
                        } else {
                            assert(self.model().pending[a] == prev[a]);
                            assert(self.model().pending[b] == prev[b]);
                        }
                    }
                }
            }
            proof {
                assert(batch_pending(m0.pending, m0.settled, predictions@, ev, (i + 1) as nat)
                    == self.model().pending);
            }
            i = i + 1;
        }
        let ghost grown = self.model().pending;
        let max = self.config.max_pending_traces;
        let grown_len = self.pending.len();
        assert(grown.len() == grown_len);
        let ghost d0 = self.dropped_pending_traces;
        let mut dropped: usize = 0;
        while self.pending.len() > max
            invariant
                max == m0.config.max_pending_traces,
                max >= 1,
                grown.len() <= usize::MAX,
                self.pending@.len() + dropped == grown.len(),
                dropped == 0 || grown.len() - dropped >= max,
                dropped <= grown.len(),
                self.model().pending == grown.subrange(dropped as int, grown.len() as int),
                self.dropped_pending_traces == sat_add(d0 as int, dropped as int),
                self.config == m0.config,
                self.observed_batches == sat_add(m0.observed_batches as int, 1),
                self.next_evidence_id == m0.next_evidence_id,
                self.roots@.map_values(|r: RootBuffer| root_model(r)) == m0.roots,
                self.settled@ == m0.settled,
                self.duplicate_evidence == m0.duplicate_evidence,
                self.evicted_witnesses == m0.evicted_witnesses,
            decreases self.pending@.len(),
        {
            let ghost before = self.model().pending;
            self.pending.remove(0);
            self.dropped_pending_traces = self.dropped_pending_traces.saturating_add(1);
            dropped = dropped + 1;
            proof {
                assert forall|t: int| 0 <= t < self.model().pending.len() implies #[trigger] self.model().pending[t]
                    == grown.subrange(dropped as int, grown.len() as int)[t] by {
                    assert(self.model().pending[t] == before[t + 1]);
                }
                assert(self.model().pending =~= grown.subrange(dropped as int, grown.len() as int));
            }
        }
        proof {
            if dropped == 0 {
                assert(grown.subrange(0, grown.len() as int) =~= grown);
            }
            assert(self.model().pending =~= keep_newest(grown, max as nat));
            assert(self.model() == observe_step(m0, predictions@).0);
        }
        accepted
    }
}

proof fn lemma_sat_add_compose(e: usize, a: int, b: int)
    requires
        a >= 0,
        b >= 0,
    ensures
        sat_add(sat_add(e as int, a) as int, b) == sat_add(e as int, a + b),
{
}

proof fn lemma_discovery_total_step(s: Seq<RootModel>, k: int)
    requires
        0 <= k < s.len(),
    ensures
        discovery_total(s.subrange(0, k + 1)) == discovery_total(s.subrange(0, k)) + s[k].discovery.len(),
{
    assert(s.subrange(0, k + 1).drop_last() =~= s.subrange(0, k));
}

proof fn lemma_discovery_total_prefix(s: Seq<RootModel>, k: int)
    requires
        0 <= k <= s.len(),
    ensures
        discovery_total(s.subrange(0, k)) <= discovery_total(s),
    decreases s.len() - k,
{
    if k < s.len() {
        lemma_discovery_total_prefix(s, k + 1);
        lemma_discovery_total_step(s, k);
    } else {
        assert(s.subrange(0, k) =~= s);
    }
}

/// The roots' identifiers are distinct, within the root bound, and each
/// root holds at most `max_w` witnesses.
pub open spec fn roots_ok(roots: Seq<RootModel>, max_roots: nat, max_w: nat) -> bool {
    &&& roots.len() <= max_roots
    &&& forall|i: int, j: int|
        0 <= i < j < roots.len() ==> (#[trigger] roots[i]).root_id != (#[trigger] roots[j]).root_id
    &&& forall|i: int| 0 <= i < roots.len() ==> (#[trigger] roots[i]).discovery.len() <= max_w
}

impl OmegaG2ShadowObserver {
    spec fn roots_model(&self) -> Seq<RootModel> {
        self.roots@.map_values(|r: RootBuffer| root_model(r))
    }

    fn root_index(&self, id: u64) -> (r: Option<usize>)
        ensures
            match r {
                Some(i) => i < self.roots@.len() && self.roots@[i as int].root_id == id,
                None => !root_has(self.roots_model(), id),
            },
    {
        let mut i: usize = 0;
        while i < self.roots.len()
            invariant
                i <= self.roots@.len(),
                forall|j: int| 0 <= j < i ==> self.roots@[j].root_id != id,
            decreases self.roots@.len() - i,
        {
            if self.roots[i].root_id == id {
                return Some(i);
            }
            i = i + 1;
        }
        assert forall|j: int| 0 <= j < self.roots_model().len() implies (#[trigger] self.roots_model()[j]).root_id != id by {
            assert(self.roots_model()[j] == root_model(self.roots@[j]));
        }
        None
    }

    /// Makes room for a root, evicting the oldest roots when full.
    fn ensure_root_capacity(&mut self, root_id: u64, intervention: Atom)
        requires
            old(self).config.max_roots >= 1,
            roots_ok(old(self).roots_model(), old(self).config.max_roots as nat, old(self).config.max_witnesses_per_root as nat),
        ensures
            (final(self).roots_model(), final(self).evicted_witnesses) == ensure_root_spec(
                old(self).roots_model(),
                old(self).evicted_witnesses,
                root_id,
                intervention@,
                old(self).config.max_roots as nat,
            ),
            final(self).config == old(self).config,
            final(self).observed_batches == old(self).observed_batches,
            final(self).next_evidence_id == old(self).next_evidence_id,
            final(self).pending@ == old(self).pending@,
            final(self).settled@ == old(self).settled@,
            final(self).duplicate_evidence == old(self).duplicate_evidence,
            final(self).dropped_pending_traces == old(self).dropped_pending_traces,
            roots_ok(final(self).roots_model(), final(self).config.max_roots as nat, final(self).config.max_witnesses_per_root as nat),
            root_has(final(self).roots_model(), root_id),
    {
        let ghost r0 = self.roots_model();
        let ghost e0 = self.evicted_witnesses;
        match self.root_index(root_id) {
            Some(i) => {
                assert(self.roots_model()[i as int].root_id == root_id);
                return;
            },
            None => {},
        }
        let max = self.config.max_roots;
        let ghost mut k: int = 0;
        assert(r0.subrange(0, 0) =~= Seq::<RootModel>::empty());
        assert(r0.subrange(0, r0.len() as int) =~= r0);
        while self.roots.len() >= max
            invariant
                max == self.config.max_roots,
                max >= 1,
                0 <= k <= r0.len(),
                self.roots_model() == r0.subrange(k, r0.len() as int),
                self.evicted_witnesses == sat_add(e0 as int, discovery_total(r0.subrange(0, k)) as int),
                k == 0 || r0.len() - k >= max - 1,
                r0.len() <= max,
                self.config == old(self).config,
                self.observed_batches == old(self).observed_batches,
                self.next_evidence_id == old(self).next_evidence_id,
                self.pending@ == old(self).pending@,
                self.settled@ == old(self).settled@,
                self.duplicate_evidence == old(self).duplicate_evidence,
                self.dropped_pending_traces == old(self).dropped_pending_traces,
            decreases self.roots@.len(),
        {
            let ghost before = self.roots_model();
            assert(before.len() == self.roots@.len());
            assert(before.len() == r0.len() - k);
            assert(before[0] == r0.subrange(k, r0.len() as int)[0]);
            let removed = self.roots.remove(0);
            proof {
                assert(before[0] == root_model(removed));
                assert(before[0] == r0[k]);
                lemma_discovery_total_step(r0, k);
                lemma_sat_add_compose(e0, discovery_total(r0.subrange(0, k)) as int, r0[k].discovery.len() as int);
            }
            self.evicted_witnesses = self.evicted_witnesses.saturating_add(removed.discovery.len());
            proof {
                assert forall|t: int| 0 <= t < self.roots_model().len() implies #[trigger] self.roots_model()[t]
                    == r0.subrange(k + 1, r0.len() as int)[t] by {
                    assert(self.roots_model()[t] == before[t + 1]);
                }
                assert(self.roots_model() =~= r0.subrange(k + 1, r0.len() as int));
                k = k + 1;
            }
        }
        let ghost mid = self.roots_model();
        let ghost iv = intervention@;
        let buffer = RootBuffer { root_id, intervention, discovery: Vec::new() };
        assert(root_model(buffer).discovery =~= Seq::<WitnessModel>::empty());
        self.roots.push(buffer);
        proof {
            let fresh = RootModel { root_id, intervention: iv, discovery: Seq::empty() };
            assert(self.roots_model() =~= mid.push(fresh));
            let kk = if r0.len() >= max { r0.len() - max + 1 } else { 0 };
            assert(k == kk);
            assert(self.roots_model()[self.roots_model().len() - 1].root_id == root_id);
            assert forall|i: int, j: int|
                0 <= i < j < self.roots_model().len() implies (#[trigger] self.roots_model()[i]).root_id
                    != (#[trigger] self.roots_model()[j]).root_id by {
                assert(self.roots_model()[i] == r0[i + k]);
                if j < self.roots_model().len() - 1 {
                    assert(self.roots_model()[j] == r0[j + k]);
                } else {
                    assert(r0[i + k].root_id != root_id);
                }
            }
            assert forall|i: int| 0 <= i < self.roots_model().len() implies (#[trigger] self.roots_model()[i]).discovery.len()
                <= self.config.max_witnesses_per_root by {
                if i < self.roots_model().len() - 1 {
                    assert(self.roots_model()[i] == r0[i + k]);
                }
            }
        }
    }
}

impl OmegaG2ShadowObserver {
    /// Adds a witness to its root, evicting the root's oldest witness when full.
    fn add_witness(&mut self, root_id: u64, w: WitnessedHistory)
        requires
            old(self).config.max_witnesses_per_root >= 1,
            roots_ok(old(self).roots_model(), old(self).config.max_roots as nat, old(self).config.max_witnesses_per_root as nat),
            root_has(old(self).roots_model(), root_id),
        ensures
            (final(self).roots_model(), final(self).evicted_witnesses) == add_witness_spec(
                old(self).roots_model(),
                old(self).evicted_witnesses,
                root_id,
                witness_model(w),
                old(self).config.max_witnesses_per_root as nat,
            ),
            final(self).config == old(self).config,
            final(self).observed_batches == old(self).observed_batches,
            final(self).next_evidence_id == old(self).next_evidence_id,
            final(self).pending@ == old(self).pending@,
            final(self).settled@ == old(self).settled@,
            final(self).duplicate_evidence == old(self).duplicate_evidence,
            final(self).dropped_pending_traces == old(self).dropped_pending_traces,
            roots_ok(final(self).roots_model(), final(self).config.max_roots as nat, final(self).config.max_witnesses_per_root as nat),
    {
        let ghost r0 = self.roots_model();
        let ghost wm = witness_model(w);
        let r = match self.root_index(root_id) {
            Some(i) => i,
            None => {
                assert(false);
                0
            },
        };
        proof {
            assert(r0[r as int].root_id == root_id);
            assert(root_position(r0, root_id) == r) by {
                let p = root_position(r0, root_id);
                assert(r0[p].root_id == root_id);
                if p != r {
                    if p < r {
                        assert(r0[p].root_id != r0[r as int].root_id);
                    } else {
                        assert(r0[r as int].root_id != r0[p].root_id);
                    }
                }
            }
        }
        let mut root = self.roots.remove(r);
        let ghost d = root_model(root).discovery;
        assert(d == r0[r as int].discovery);
        if root.discovery.len() >= self.config.max_witnesses_per_root {
            root.discovery.remove(0);
            self.evicted_witnesses = self.evicted_witnesses.saturating_add(1);
            root.discovery.push(w);
            proof {
                assert(root_model(root).discovery =~= d.drop_first().push(wm));
            }
        } else {
            root.discovery.push(w);
            proof {
                assert(root_model(root).discovery =~= d.push(wm));
            }
        }
        let ghost nr = root_model(root);
        self.roots.insert(r, root);
        proof {
            assert(self.roots_model() =~= r0.update(r as int, nr));
            assert(nr == RootModel { discovery: nr.discovery, ..r0[r as int] });
            assert forall|i: int, j: int|
                0 <= i < j < self.roots_model().len() implies (#[trigger] self.roots_model()[i]).root_id
                    != (#[trigger] self.roots_model()[j]).root_id by {
                assert(r0[i].root_id != r0[j].root_id);
            }
            assert forall|i: int| 0 <= i < self.roots_model().len() implies (#[trigger] self.roots_model()[i]).discovery.len()
                <= self.config.max_witnesses_per_root by {
                if i != r {
                    assert(self.roots_model()[i] == r0[i]);
                }
            }
        }
    }

    /// Settles one pending trace with the evidence that the live prediction
    /// center consumed. A prediction settles once; later evidence for it
    /// counts as a duplicate, and evidence without a pending trace is missing.
    pub fn resolve_prediction_evidence(
        &mut self,
        prediction: &Prediction,
        evidence: &Evidence,
    ) -> (r: ShadowEvidenceResolution)
        requires
            old(self).wf(),
            prediction.id == evidence.prediction_id,
        ensures
            final(self).wf(),
            (final(self).model(), r) == resolve_step(old(self).model(), *evidence),
    {
        let ghost m0 = self.model();
        let pid = evidence.prediction_id;
        if contains_u64(&self.settled, pid) {
            self.duplicate_evidence = self.duplicate_evidence.saturating_add(1);
            return ShadowEvidenceResolution::Duplicate;
        }
        let idx = match self.pending_index(pid) {
            Some(i) => i,
            None => return ShadowEvidenceResolution::MissingPendingTrace,
        };
        proof {
            assert(m0.pending[idx as int].id == pid);
            let p = pending_position(m0.pending, pid);
            assert(m0.pending[p].id == pid);
            if p != idx {
                if p < idx {
                    assert(m0.pending[p].id != m0.pending[idx as int].id);
                } else {
                    assert(m0.pending[idx as int].id != m0.pending[p].id);
                }
            }
        }
        let pending = self.pending.remove(idx);
        let ghost t = trace_model(pending);
        assert(t == m0.pending[idx as int]);
        proof {
            assert(self.model().pending =~= m0.pending.remove(idx as int));
        }
        let outcome = Atom::new(outcome_label(evidence.outcome));
        let witness = WitnessedHistory {
            evidence_id: self.next_evidence_id,
            history_id: pending.history_id,
            events: pending.events,
            intervention: pending.intervention.duplicate(),
            outcome,
        };
        self.next_evidence_id = self.next_evidence_id.saturating_add(1);
        self.ensure_root_capacity(pending.root_id, pending.intervention);
        self.add_witness(pending.root_id, witness);
        let ghost s0 = self.settled@;
        self.settled.push(pid);
        if self.settled.len() > MAX_SETTLED_IDS {
            self.settled.remove(0);
        }
        proof {
            assert(self.settled@ =~= keep_newest(s0.push(pid), MAX_SETTLED_IDS as nat));
            assert forall|i: int, j: int|
                0 <= i < self.model().pending.len() && 0 <= j < self.model().pending.len() && i < j implies (
                #[trigger] self.model().pending[i]).id != (#[trigger] self.model().pending[j]).id by {
                let ii = if i < idx { i } else { i + 1 };
                let jj = if j < idx { j } else { j + 1 };
                assert(self.model().pending[i] == m0.pending[ii]);
                assert(self.model().pending[j] == m0.pending[jj]);
            }
            assert(self.settled@.no_duplicates()) by {
                assert forall|i: int, j: int|
                    0 <= i < self.settled@.len() && 0 <= j < self.settled@.len() && i != j implies self.settled@[i]
                        != self.settled@[j] by {
                    let sp = s0.push(pid);
                    let off = if sp.len() > MAX_SETTLED_IDS { 1int } else { 0int };
                    assert(self.settled@[i] == sp[i + off]);
                    assert(self.settled@[j] == sp[j + off]);
                }
            }
        }
        ShadowEvidenceResolution::Settled
    }

    /// A snapshot of the observer's counters and its closed authority.
    pub fn snapshot(&self) -> (s: OmegaG2ShadowSnapshot)
        requires
            self.wf(),
            discovery_total(self.model().roots) <= usize::MAX,
        ensures
            s.config == self.model().config,
            s.observed_batches == self.model().observed_batches,
            s.pending_traces == self.model().pending.len(),
            s.settled_witnesses == discovery_total(self.model().roots),
            s.roots == self.model().roots.len(),
            s.duplicate_evidence == self.model().duplicate_evidence,
            s.dropped_pending_traces == self.model().dropped_pending_traces,
            s.evicted_witnesses == self.model().evicted_witnesses,
            s.audits@.len() == 0,
            closed_boundary(s.authority),
    {
        let ghost rm = self.roots_model();
        let mut settled_witnesses: usize = 0;
        let mut i: usize = 0;
        while i < self.roots.len()
            invariant
                rm == self.roots_model(),
                roots_ok(rm, self.config.max_roots as nat, self.config.max_witnesses_per_root as nat),
                i <= rm.len(),
                settled_witnesses == discovery_total(rm.subrange(0, i as int)),
                discovery_total(rm) <= usize::MAX,
            decreases rm.len() - i,
        {
            proof {
                lemma_discovery_total_step(rm, i as int);
                assert(rm[i as int].discovery.len() == self.roots@[i as int].discovery@.len());
                lemma_discovery_total_prefix(rm, i as int + 1);
            }
            settled_witnesses = settled_witnesses + self.roots[i].discovery.len();
            i = i + 1;
        }
        proof {
            assert(rm.subrange(0, rm.len() as int) =~= rm);
        }
        OmegaG2ShadowSnapshot {
            config: self.config,
            observed_batches: self.observed_batches,
            pending_traces: self.pending.len(),
            settled_witnesses,
            roots: self.roots.len(),
            duplicate_evidence: self.duplicate_evidence,
            dropped_pending_traces: self.dropped_pending_traces,
            evicted_witnesses: self.evicted_witnesses,
            audits: Vec::new(),
            authority: ShadowAuthorityBoundary::default(),
        }
    }
}

} // verus!
