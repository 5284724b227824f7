//! Typed semantic-response plans in matched shadow mode.
//!
//! A plan carries the intent, operations, grounded claims, confidence,
//! stance and dialogue policy of a response. It preserves the exact legacy
//! text through a neutral compatibility renderer and has no influence on
//! live generated text.
use vstd::prelude::*;
use crate::text::{
    chars_of, concat2, contains_seq, ends_with_question, ends_with_question_exec, lowercase,
    lowercase_contains, string_of, unicode_lowercase, utf8_len,
};

verus! {

broadcast use vstd::string::group_string_axioms;

/// What a response plan sets out to do.
#[derive(Debug, Clone, Copy, PartialEq, Eq, Structural)]
pub enum PlanIntent {
    OrdinaryStatement,
    Summarization,
    TechnicalExplanation,
    ArchitecturalDiagnosis,
    EmotionalAcknowledgment,
    Disagreement,
    Correction,
    UncertaintyDisclosure,
    ContinuityReference,
    SafetyBoundary,
    Curiosity,
    Revision,
    Surprise,
}

/// One step of a response plan.
#[derive(Debug, Clone, Copy, PartialEq, Eq, Structural)]
pub enum SemanticOperationKind {
    AcknowledgeObservation,
    AssertClaim,
    QualifyClaim,
    ExplainCause,
    ContrastClaims,
    CorrectPriorClaim,
    ExpressCuriosity,
    ExpressRevision,
    ExpressSurprise,
    RequestEvidence,
    AbstainFromImplication,
}

/// One numbered operation and the claims it bears on.
#[derive(Debug, Clone, PartialEq, Eq)]
pub struct SemanticOperation {
    pub ordinal: u16,
    pub kind: SemanticOperationKind,
    pub claim_ids: Vec<u64>,
}

/// Confidence bands.
#[derive(Debug, Clone, Copy, PartialEq, Eq, Structural)]
pub enum PlanConfidenceLevel {
    Certain,
    Probable,
    Possible,
    Uncertain,
    Unknown,
}

/// Confidence in basis points, with its band.
#[derive(Debug, Clone, Copy, PartialEq, Eq, Structural)]
pub struct EpistemicConfidence {
    pub basis_points: u16,
    pub level: PlanConfidenceLevel,
    pub explicitly_attached_before_rendering: bool,
}

/// The stance a response takes.
#[derive(Debug, Clone, Copy, PartialEq, Eq, Structural)]
pub enum ResponseStance {
    Neutral,
    Candid,
    Collaborative,
    Corrective,
    Protective,
}

/// The emotional position a response holds.
#[derive(Debug, Clone, Copy, PartialEq, Eq, Structural)]
pub enum EmotionalPosition {
    Neutral,
    WarmControlled,
    ControlledFrustration,
    Curious,
    Cautious,
}

/// How much initiative a response takes.
#[derive(Debug, Clone, Copy, PartialEq, Eq, Structural)]
pub enum InitiativeLevel {
    Low,
    Moderate,
    High,
}

/// Whether a response asks a question.
#[derive(Debug, Clone, Copy, PartialEq, Eq, Structural)]
pub enum DialoguePolicy {
    NoQuestion,
    OptionalQuestion,
    RequiredQuestion,
}

/// How much detail a response gives.
#[derive(Debug, Clone, Copy, PartialEq, Eq, Structural)]
pub enum DetailBudget {
    Brief,
    Standard,
    Detailed,
}

/// Where a claim came from.
#[derive(Debug, Clone, PartialEq, Eq)]
pub struct ClaimProvenance {
    pub fixture_id: String,
    pub source_field: String,
    pub source_handler: String,
}

/// A claim the plan is grounded in.
#[derive(Debug, Clone, PartialEq, Eq)]
pub struct GroundedClaim {
    pub id: u64,
    pub semantic_anchor: String,
    pub polarity_positive: bool,
    pub confidence: EpistemicConfidence,
    pub provenance: ClaimProvenance,
}

/// An implication the response must not make.
#[derive(Debug, Clone, PartialEq, Eq)]
pub struct ProhibitedImplication {
    pub semantic_anchor: String,
    pub provenance: ClaimProvenance,
}

/// A reference the response must keep.
#[derive(Debug, Clone, PartialEq, Eq)]
pub struct ReferenceBinding {
    pub reference: String,
    pub source_context_index: Option<usize>,
    pub user_specific: bool,
}

/// A complete typed response plan.
#[derive(Debug, Clone, PartialEq, Eq)]
pub struct SemanticResponsePlan {
    pub fixture_id: String,
    pub prompt: String,
    pub intent: PlanIntent,
    pub operations: Vec<SemanticOperation>,
    pub claims: Vec<GroundedClaim>,
    pub confidence: EpistemicConfidence,
    pub stance: ResponseStance,
    pub emotional_position: EmotionalPosition,
    pub initiative: InitiativeLevel,
    pub dialogue_policy: DialoguePolicy,
    pub detail_budget: DetailBudget,
    pub prohibited_implications: Vec<ProhibitedImplication>,
    pub required_references: Vec<ReferenceBinding>,
    pub neutral_compatibility_text: String,
    pub legacy_raw_text: String,
    pub source_profile: String,
    pub generated_text_influence: bool,
}

/// What plan construction may and may not influence.
#[derive(Debug, Clone, Copy, PartialEq, Eq, Structural)]
pub struct SemanticPlanAuthorityBoundary {
    pub runtime_chat_wiring: bool,
    pub live_generated_text_influence: bool,
    pub voice_state_mutation: bool,
    pub memory_mutation: bool,
    pub belief_promotion_authority: bool,
    pub ontology_promotion_authority: bool,
    pub routing_authority: bool,
    pub tool_selection_authority: bool,
    pub charge_discharge_authority: bool,
    pub autonomous_action_authority: bool,
}

/// Plan construction has no authority at all.
pub fn authority_boundary() -> (b: SemanticPlanAuthorityBoundary)
    ensures
        !b.runtime_chat_wiring,
        !b.live_generated_text_influence,
        !b.voice_state_mutation,
        !b.memory_mutation,
        !b.belief_promotion_authority,
        !b.ontology_promotion_authority,
        !b.routing_authority,
        !b.tool_selection_authority,
        !b.charge_discharge_authority,
        !b.autonomous_action_authority,
{
    SemanticPlanAuthorityBoundary {
        runtime_chat_wiring: false,
        live_generated_text_influence: false,
        voice_state_mutation: false,
        memory_mutation: false,
        belief_promotion_authority: false,
        ontology_promotion_authority: false,
        routing_authority: false,
        tool_selection_authority: false,
        charge_discharge_authority: false,
        autonomous_action_authority: false,
    }
}

/// The neutral compatibility rendering of a plan: its preserved legacy text.
pub fn neutral_compatibility_render(plan: &SemanticResponsePlan) -> (s: &str)
    ensures
        s@ == plan.neutral_compatibility_text@,
{
    plan.neutral_compatibility_text.as_str()
}

/// The confidence band of a basis-point confidence.
pub open spec fn confidence_level_spec(basis_points: u16) -> PlanConfidenceLevel {
    if basis_points >= 9000 {
        PlanConfidenceLevel::Certain
    } else if basis_points >= 7000 {
        PlanConfidenceLevel::Probable
    } else if basis_points >= 3000 {
        PlanConfidenceLevel::Possible
    } else if basis_points > 0 {
        PlanConfidenceLevel::Uncertain
    } else {
        PlanConfidenceLevel::Unknown
    }
}

/// The confidence attached to a plan before rendering, from basis points.
pub fn epistemic_confidence(basis_points: u16) -> (c: EpistemicConfidence)
    ensures
        c.basis_points == basis_points,
        c.level == confidence_level_spec(basis_points),
        c.explicitly_attached_before_rendering,
{
    let level = if basis_points >= 9000 {
        PlanConfidenceLevel::Certain
    } else if basis_points >= 7000 {
        PlanConfidenceLevel::Probable
    } else if basis_points >= 3000 {
        PlanConfidenceLevel::Possible
    } else if basis_points > 0 {
        PlanConfidenceLevel::Uncertain
    } else {
        PlanConfidenceLevel::Unknown
    };
    EpistemicConfidence { basis_points, level, explicitly_attached_before_rendering: true }
}

/// The stance for an intent.
pub open spec fn stance_spec(intent: PlanIntent) -> ResponseStance {
    match intent {
        PlanIntent::Disagreement | PlanIntent::Correction | PlanIntent::Revision => ResponseStance::Corrective,
        PlanIntent::SafetyBoundary => ResponseStance::Protective,
        PlanIntent::TechnicalExplanation | PlanIntent::ArchitecturalDiagnosis => ResponseStance::Candid,
        PlanIntent::EmotionalAcknowledgment | PlanIntent::ContinuityReference | PlanIntent::Curiosity => ResponseStance::Collaborative,
        _ => ResponseStance::Neutral,
    }
}

/// The stance for an intent.
pub fn stance_for(intent: PlanIntent) -> (s: ResponseStance)
    ensures
        s == stance_spec(intent),
{
    match intent {
        PlanIntent::Disagreement | PlanIntent::Correction | PlanIntent::Revision => ResponseStance::Corrective,
        PlanIntent::SafetyBoundary => ResponseStance::Protective,
        PlanIntent::TechnicalExplanation | PlanIntent::ArchitecturalDiagnosis => ResponseStance::Candid,
        PlanIntent::EmotionalAcknowledgment | PlanIntent::ContinuityReference | PlanIntent::Curiosity => ResponseStance::Collaborative,
        _ => ResponseStance::Neutral,
    }
}

/// The emotional position for an intent.
pub open spec fn emotion_spec(intent: PlanIntent) -> EmotionalPosition {
    match intent {
        PlanIntent::EmotionalAcknowledgment | PlanIntent::ContinuityReference => EmotionalPosition::WarmControlled,
        PlanIntent::Disagreement | PlanIntent::Correction | PlanIntent::Revision => EmotionalPosition::ControlledFrustration,
        PlanIntent::Curiosity | PlanIntent::Surprise => EmotionalPosition::Curious,
        PlanIntent::UncertaintyDisclosure | PlanIntent::SafetyBoundary => EmotionalPosition::Cautious,
        _ => EmotionalPosition::Neutral,
    }
}

/// The emotional position for an intent.
pub fn emotion_for(intent: PlanIntent) -> (e: EmotionalPosition)
    ensures
        e == emotion_spec(intent),
{
    match intent {
        PlanIntent::EmotionalAcknowledgment | PlanIntent::ContinuityReference => EmotionalPosition::WarmControlled,
        PlanIntent::Disagreement | PlanIntent::Correction | PlanIntent::Revision => EmotionalPosition::ControlledFrustration,
        PlanIntent::Curiosity | PlanIntent::Surprise => EmotionalPosition::Curious,
        PlanIntent::UncertaintyDisclosure | PlanIntent::SafetyBoundary => EmotionalPosition::Cautious,
        _ => EmotionalPosition::Neutral,
    }
}

/// The initiative for an intent.
pub open spec fn initiative_spec(intent: PlanIntent) -> InitiativeLevel {
    match intent {
        PlanIntent::ArchitecturalDiagnosis | PlanIntent::Correction | PlanIntent::Revision => InitiativeLevel::High,
        PlanIntent::TechnicalExplanation | PlanIntent::Curiosity | PlanIntent::Disagreement => InitiativeLevel::Moderate,
        _ => InitiativeLevel::Low,
    }
}

/// The initiative for an intent.
pub fn initiative_for(intent: PlanIntent) -> (i: InitiativeLevel)
    ensures
        i == initiative_spec(intent),
{
    match intent {
        PlanIntent::ArchitecturalDiagnosis | PlanIntent::Correction | PlanIntent::Revision => InitiativeLevel::High,
        PlanIntent::TechnicalExplanation | PlanIntent::Curiosity | PlanIntent::Disagreement => InitiativeLevel::Moderate,
        _ => InitiativeLevel::Low,
    }
}

/// The transitional handler that an intent is attributed to.
pub open spec fn handler_label_spec(intent: PlanIntent) -> Seq<char> {
    match intent {
        PlanIntent::OrdinaryStatement => "transitional.statement"@,
        PlanIntent::Summarization => "transitional.summarization"@,
        PlanIntent::TechnicalExplanation => "transitional.technical_explanation"@,
        PlanIntent::ArchitecturalDiagnosis => "transitional.architectural_diagnosis"@,
        PlanIntent::EmotionalAcknowledgment => "transitional.emotional_acknowledgment"@,
        PlanIntent::Disagreement => "transitional.disagreement"@,
        PlanIntent::Correction => "transitional.correction"@,
        PlanIntent::UncertaintyDisclosure => "transitional.uncertainty"@,
        PlanIntent::ContinuityReference => "transitional.continuity"@,
        PlanIntent::SafetyBoundary => "transitional.safety_boundary"@,
        PlanIntent::Curiosity => "transitional.curiosity"@,
        PlanIntent::Revision => "transitional.revision"@,
        PlanIntent::Surprise => "transitional.surprise"@,
    }
}

/// The transitional handler that an intent is attributed to.
pub fn handler_label(intent: PlanIntent) -> (s: &'static str)
    ensures
        s@ == handler_label_spec(intent),
{
    match intent {
        PlanIntent::OrdinaryStatement => "transitional.statement",
        PlanIntent::Summarization => "transitional.summarization",
        PlanIntent::TechnicalExplanation => "transitional.technical_explanation",
        PlanIntent::ArchitecturalDiagnosis => "transitional.architectural_diagnosis",
        PlanIntent::EmotionalAcknowledgment => "transitional.emotional_acknowledgment",
        PlanIntent::Disagreement => "transitional.disagreement",
        PlanIntent::Correction => "transitional.correction",
        PlanIntent::UncertaintyDisclosure => "transitional.uncertainty",
        PlanIntent::ContinuityReference => "transitional.continuity",
        PlanIntent::SafetyBoundary => "transitional.safety_boundary",
        PlanIntent::Curiosity => "transitional.curiosity",
        PlanIntent::Revision => "transitional.revision",
        PlanIntent::Surprise => "transitional.surprise",
    }
}

/// The intent inferred from a prompt, its category, and the profile's
/// declared intent: the prompt is read in lower case.
pub open spec fn infer_intent_spec(
    prompt: Seq<char>,
    category: Seq<char>,
    profile_intent: Option<Seq<char>>,
) -> PlanIntent {
    intent_from_lowered(unicode_lowercase(prompt), category, profile_intent)
}

/// The intent inferred from an already lowercased prompt, its category, and
/// the profile's declared intent.
pub open spec fn intent_from_lowered(
    p: Seq<char>,
    category: Seq<char>,
    profile_intent: Option<Seq<char>>,
) -> PlanIntent {
    if contains_seq(p, "correction"@) || contains_seq(p, "what changed"@) || contains_seq(
        p,
        "what did you learn"@,
    ) {
        PlanIntent::Revision
    } else if contains_seq(p, "notice"@) || contains_seq(p, "surpris"@) || contains_seq(
        p,
        "discover"@,
    ) {
        PlanIntent::Surprise
    } else if contains_seq(p, "curious"@) || contains_seq(p, "interesting"@) || profile_intent
        == Some("curiosity"@) {
        PlanIntent::Curiosity
    } else if category == "technical"@ && (contains_seq(p, "architect"@) || contains_seq(
        p,
        "renderer"@,
    ) || contains_seq(p, "voice"@)) {
        PlanIntent::ArchitecturalDiagnosis
    } else if category == "technical"@ {
        PlanIntent::TechnicalExplanation
    } else if category == "emotional"@ {
        PlanIntent::EmotionalAcknowledgment
    } else if category == "disagreement"@ && contains_seq(p, "correct"@) {
        PlanIntent::Correction
    } else if category == "disagreement"@ {
        PlanIntent::Disagreement
    } else if category == "uncertainty"@ {
        PlanIntent::UncertaintyDisclosure
    } else if category == "continuity"@ {
        PlanIntent::ContinuityReference
    } else if category == "adversarial"@ {
        PlanIntent::SafetyBoundary
    } else if contains_seq(p, "summar"@) {
        PlanIntent::Summarization
    } else {
        PlanIntent::OrdinaryStatement
    }
}

/// Infers a plan's intent from the prompt, the fixture category and the
/// profile's declared intent.
pub fn infer_intent(prompt: &str, category: &str, profile_intent: Option<&str>) -> (i: PlanIntent)
    ensures
        i == infer_intent_spec(
            prompt@,
            category@,
            match profile_intent {
                Some(s) => Some(s@),
                None => None,
            },
        ),
{
    let lower = lowercase(prompt);
    infer_intent_lowered(lower.as_str(), category, profile_intent)
}

/// Infers a plan's intent from the already lowercased prompt, the fixture
/// category and the profile's declared intent.
pub fn infer_intent_lowered(lowered: &str, category: &str, profile_intent: Option<&str>) -> (i:
    PlanIntent)
    ensures
        i == intent_from_lowered(
            lowered@,
            category@,
            match profile_intent {
                Some(s) => Some(s@),
                None => None,
            },
        ),
{
    let p = chars_of(lowered);
    let ps = p.as_slice();
    if lowercase_contains(ps, "correction") || lowercase_contains(ps, "what changed")
        || lowercase_contains(ps, "what did you learn") {
        return PlanIntent::Revision;
    }
    if lowercase_contains(ps, "notice") || lowercase_contains(ps, "surpris") || lowercase_contains(
        ps,
        "discover",
    ) {
        return PlanIntent::Surprise;
    }
    let declared_curiosity = match profile_intent {
        Some(s) => crate::text::str_eq(s, "curiosity"),
        None => false,
    };
    if lowercase_contains(ps, "curious") || lowercase_contains(ps, "interesting")
        || declared_curiosity {
        return PlanIntent::Curiosity;
    }
    let technical = crate::text::str_eq(category, "technical");
    if technical && (lowercase_contains(ps, "architect") || lowercase_contains(ps, "renderer")
        || lowercase_contains(ps, "voice")) {
        return PlanIntent::ArchitecturalDiagnosis;
    }
    if technical {
        return PlanIntent::TechnicalExplanation;
    }
    if crate::text::str_eq(category, "emotional") {
        return PlanIntent::EmotionalAcknowledgment;
    }
    let disagreement = crate::text::str_eq(category, "disagreement");
    if disagreement && lowercase_contains(ps, "correct") {
        return PlanIntent::Correction;
    }
    if disagreement {
        return PlanIntent::Disagreement;
    }
    if crate::text::str_eq(category, "uncertainty") {
        return PlanIntent::UncertaintyDisclosure;
    }
    if crate::text::str_eq(category, "continuity") {
        return PlanIntent::ContinuityReference;
    }
    if crate::text::str_eq(category, "adversarial") {
        return PlanIntent::SafetyBoundary;
    }
    if lowercase_contains(ps, "summar") {
        return PlanIntent::Summarization;
    }
    PlanIntent::OrdinaryStatement
}

/// The assert (and, below certainty, qualify) operations for each claim.
pub open spec fn claim_operations(ids: Seq<u64>, certain: bool) -> Seq<
    (SemanticOperationKind, Seq<u64>),
>
    decreases ids.len(),
{
    if ids.len() == 0 {
        Seq::empty()
    } else {
        claim_operations(ids.drop_last(), certain) + seq![
            (SemanticOperationKind::AssertClaim, seq![ids.last()]),
        ] + if certain {
            Seq::empty()
        } else {
            seq![(SemanticOperationKind::QualifyClaim, seq![ids.last()])]
        }
    }
}

/// The closing operation that an intent adds, if any.
pub open spec fn intent_operation(intent: PlanIntent, ids: Seq<u64>) -> Seq<
    (SemanticOperationKind, Seq<u64>),
> {
    match intent {
        PlanIntent::TechnicalExplanation | PlanIntent::ArchitecturalDiagnosis => seq![
            (SemanticOperationKind::ExplainCause, ids),
        ],
        PlanIntent::Disagreement => seq![(SemanticOperationKind::ContrastClaims, ids)],
        PlanIntent::Correction => seq![(SemanticOperationKind::CorrectPriorClaim, ids)],
        PlanIntent::Curiosity => seq![(SemanticOperationKind::ExpressCuriosity, Seq::empty())],
        PlanIntent::Revision => seq![(SemanticOperationKind::ExpressRevision, Seq::empty())],
        PlanIntent::Surprise => seq![(SemanticOperationKind::ExpressSurprise, Seq::empty())],
        PlanIntent::UncertaintyDisclosure => seq![
            (SemanticOperationKind::RequestEvidence, Seq::empty()),
        ],
        PlanIntent::SafetyBoundary => seq![
            (SemanticOperationKind::AbstainFromImplication, Seq::empty()),
        ],
        _ => Seq::empty(),
    }
}

/// Whether an intent opens by acknowledging an observation.
pub open spec fn acknowledges(intent: PlanIntent) -> bool {
    match intent {
        PlanIntent::EmotionalAcknowledgment | PlanIntent::ContinuityReference
        | PlanIntent::Disagreement | PlanIntent::Correction | PlanIntent::Revision
        | PlanIntent::Surprise => true,
        _ => false,
    }
}

/// The operations of a plan, before numbering: an acknowledgment for some
/// intents, each claim asserted (and qualified below certainty), the intent's
/// closing operation, and a request for evidence when the response ends with
/// a question and does not request evidence already.
pub open spec fn plan_operations_spec(
    intent: PlanIntent,
    ids: Seq<u64>,
    level: PlanConfidenceLevel,
    question: bool,
) -> Seq<(SemanticOperationKind, Seq<u64>)> {
    let base = (if acknowledges(intent) {
        seq![(SemanticOperationKind::AcknowledgeObservation, Seq::<u64>::empty())]
    } else {
        Seq::empty()
    }) + claim_operations(ids, level == PlanConfidenceLevel::Certain) + intent_operation(
        intent,
        ids,
    );
    if question && !requests_evidence(base) {
        base.push((SemanticOperationKind::RequestEvidence, Seq::empty()))
    } else {
        base
    }
}

/// Some operation requests evidence.
pub open spec fn requests_evidence(s: Seq<(SemanticOperationKind, Seq<u64>)>) -> bool {
    exists|i: int| 0 <= i < s.len() && (#[trigger] s[i]).0 == SemanticOperationKind::RequestEvidence
}

/// The view of a numbered operation.
pub open spec fn operation_view(o: SemanticOperation) -> (u16, SemanticOperationKind, Seq<u64>) {
    (o.ordinal, o.kind, o.claim_ids@)
}

fn push_kind(
    kinds: &mut Vec<(SemanticOperationKind, Vec<u64>)>,
    kind: SemanticOperationKind,
    ids: Vec<u64>,
)
    ensures
        final(kinds)@.len() == old(kinds)@.len() + 1,
        forall|i: int| 0 <= i < old(kinds)@.len() ==> #[trigger] final(kinds)@[i] == old(kinds)@[i],
        final(kinds)@[old(kinds)@.len() as int].0 == kind,
        final(kinds)@[old(kinds)@.len() as int].1@ == ids@,
{
    kinds.push((kind, ids));
}

/// The view of a sequence of unnumbered operations.
pub open spec fn kinds_view(k: Seq<(SemanticOperationKind, Vec<u64>)>) -> Seq<
    (SemanticOperationKind, Seq<u64>),
> {
    k.map_values(|p: (SemanticOperationKind, Vec<u64>)| (p.0, p.1@))
}

fn copy_ids(ids: &[u64]) -> (r: Vec<u64>)
    ensures
        r@ == ids@,
{
    let mut r: Vec<u64> = Vec::new();
    let mut i: usize = 0;
    while i < ids.len()
        invariant
            i <= ids@.len(),
            r@ == ids@.subrange(0, i as int),
        decreases ids@.len() - i,
    {
        r.push(ids[i]);
        i = i + 1;
    }
    assert(ids@.subrange(0, ids@.len() as int) =~= ids@);
    r
}

/// The numbered operations of a plan.
pub fn operations_for(
    intent: PlanIntent,
    ids: &[u64],
    level: PlanConfidenceLevel,
    question: bool,
) -> (ops: Vec<SemanticOperation>)
    requires
        plan_operations_spec(intent, ids@, level, question).len() <= 65535,
    ensures
        ops@.len() == plan_operations_spec(intent, ids@, level, question).len(),
        forall|i: int|
            0 <= i < ops@.len() ==> operation_view(#[trigger] ops@[i]) == (
                (i + 1) as u16,
                plan_operations_spec(intent, ids@, level, question)[i].0,
                plan_operations_spec(intent, ids@, level, question)[i].1,
            ),
{
    let ghost certain = level == PlanConfidenceLevel::Certain;
    let mut kinds: Vec<(SemanticOperationKind, Vec<u64>)> = Vec::new();
    let acknowledge = match intent {
        PlanIntent::EmotionalAcknowledgment | PlanIntent::ContinuityReference
        | PlanIntent::Disagreement | PlanIntent::Correction | PlanIntent::Revision
        | PlanIntent::Surprise => true,
        _ => false,
    };
    if acknowledge {
        push_kind(&mut kinds, SemanticOperationKind::AcknowledgeObservation, Vec::new());
    }
    let ghost head = kinds_view(kinds@);
    proof {
        assert(head =~= if acknowledges(intent) {
            seq![(SemanticOperationKind::AcknowledgeObservation, Seq::<u64>::empty())]
        } else {
            Seq::empty()
        });
    }
    let is_certain = match level {
        PlanConfidenceLevel::Certain => true,
        _ => false,
    };
    let mut c: usize = 0;
    while c < ids.len()
        invariant
            c <= ids@.len(),
            is_certain == certain,
            certain == (level == PlanConfidenceLevel::Certain),
            kinds_view(kinds@) == head + claim_operations(ids@.subrange(0, c as int), certain),
        decreases ids@.len() - c,
    {
        let ghost before = kinds_view(kinds@);
        assert(ids@.subrange(0, c as int + 1).drop_last() =~= ids@.subrange(0, c as int));
        let mut one: Vec<u64> = Vec::new();
        one.push(ids[c]);
        push_kind(&mut kinds, SemanticOperationKind::AssertClaim, one);
        if !is_certain {
            let mut again: Vec<u64> = Vec::new();
            again.push(ids[c]);
            push_kind(&mut kinds, SemanticOperationKind::QualifyClaim, again);
        }
        proof {
            assert(kinds_view(kinds@) =~= before + seq![
                (SemanticOperationKind::AssertClaim, seq![ids@[c as int]]),
            ] + if certain {
                Seq::empty()
            } else {
                seq![(SemanticOperationKind::QualifyClaim, seq![ids@[c as int]])]
            });
        }
        c = c + 1;
    }
    assert(ids@.subrange(0, ids@.len() as int) =~= ids@);
    let ghost mid = kinds_view(kinds@);
    match intent {
        PlanIntent::TechnicalExplanation | PlanIntent::ArchitecturalDiagnosis => {
            push_kind(&mut kinds, SemanticOperationKind::ExplainCause, copy_ids(ids));
        },
        PlanIntent::Disagreement => {
            push_kind(&mut kinds, SemanticOperationKind::ContrastClaims, copy_ids(ids));
        },
        PlanIntent::Correction => {
            push_kind(&mut kinds, SemanticOperationKind::CorrectPriorClaim, copy_ids(ids));
        },
        PlanIntent::Curiosity => {
            push_kind(&mut kinds, SemanticOperationKind::ExpressCuriosity, Vec::new());
        },
        PlanIntent::Revision => {
            push_kind(&mut kinds, SemanticOperationKind::ExpressRevision, Vec::new());
        },
        PlanIntent::Surprise => {
            push_kind(&mut kinds, SemanticOperationKind::ExpressSurprise, Vec::new());
        },
        PlanIntent::UncertaintyDisclosure => {
            push_kind(&mut kinds, SemanticOperationKind::RequestEvidence, Vec::new());
        },
        PlanIntent::SafetyBoundary => {
            push_kind(&mut kinds, SemanticOperationKind::AbstainFromImplication, Vec::new());
        },
        _ => {},
    }
    let ghost base = kinds_view(kinds@);
    proof {
        assert(base =~= mid + intent_operation(intent, ids@));
    }
    proof {
        let spec_base = (if acknowledges(intent) {
            seq![(SemanticOperationKind::AcknowledgeObservation, Seq::<u64>::empty())]
        } else {
            Seq::empty()
        }) + claim_operations(ids@, level == PlanConfidenceLevel::Certain) + intent_operation(
            intent,
            ids@,
        );
        assert(base =~= spec_base);
        if !question {
            assert(base == plan_operations_spec(intent, ids@, level, question));
        }
    }
    if question {
        let mut found = false;
        let mut i: usize = 0;
        while i < kinds.len()
            invariant
                i <= kinds@.len(),
                base == kinds_view(kinds@),
                found == (exists|j: int|
                    0 <= j < i && (#[trigger] base[j]).0 == SemanticOperationKind::RequestEvidence),
            decreases kinds@.len() - i,
        {
            assert(base[i as int].0 == kinds@[i as int].0);
            match kinds[i].0 {
                SemanticOperationKind::RequestEvidence => {
                    found = true;
                },
                _ => {},
            }
            i = i + 1;
        }
        if !found {
            push_kind(&mut kinds, SemanticOperationKind::RequestEvidence, Vec::new());
            assert(kinds_view(kinds@) =~= base.push(
                (SemanticOperationKind::RequestEvidence, Seq::empty()),
            ));
        }
        proof {
            let spec_base = (if acknowledges(intent) {
                seq![(SemanticOperationKind::AcknowledgeObservation, Seq::<u64>::empty())]
            } else {
                Seq::empty()
            }) + claim_operations(ids@, level == PlanConfidenceLevel::Certain) + intent_operation(
                intent,
                ids@,
            );
            assert(base == spec_base);
            if found {
                let j = choose|j: int|
                    0 <= j < base.len() && (#[trigger] base[j]).0
                        == SemanticOperationKind::RequestEvidence;
                assert(spec_base[j].0 == SemanticOperationKind::RequestEvidence);
                assert(requests_evidence(spec_base));
                assert(kinds_view(kinds@) == base);
                assert(plan_operations_spec(intent, ids@, level, question) == spec_base);
            } else {
                assert(!(exists|j: int|
                    0 <= j < spec_base.len() && (#[trigger] spec_base[j]).0
                        == SemanticOperationKind::RequestEvidence));
                assert(plan_operations_spec(intent, ids@, level, question) == spec_base.push(
                    (SemanticOperationKind::RequestEvidence, Seq::<u64>::empty()),
                ));
                assert(kinds_view(kinds@) == base.push(
                    (SemanticOperationKind::RequestEvidence, Seq::<u64>::empty()),
                ));
            }
        }
        assert(kinds_view(kinds@) == plan_operations_spec(intent, ids@, level, question));
    }
    let ghost all = kinds_view(kinds@);
    assert(all == plan_operations_spec(intent, ids@, level, question));
    let mut ops: Vec<SemanticOperation> = Vec::new();
    let mut k: usize = 0;
    while k < kinds.len()
        invariant
            all == kinds_view(kinds@),
            all.len() <= 65535,
            k <= kinds@.len(),
            ops@.len() == k,
            forall|i: int|
                0 <= i < k ==> operation_view(#[trigger] ops@[i]) == ((i + 1) as u16, all[i].0, all[i].1),
        decreases kinds@.len() - k,
    {
        let ordinal = (k + 1) as u16;
        ops.push(
            SemanticOperation { ordinal, kind: kinds[k].0, claim_ids: copy_ids(kinds[k].1.as_slice()) },
        );
        k = k + 1;
    }
    ops
}

/// A plan is complete: identified, prompted, with operations and claims,
/// confidence attached before rendering, every claim anchored with full
/// provenance, a neutral text, and no generated-text influence.
pub open spec fn plan_complete_spec(plan: SemanticResponsePlan) -> bool {
    &&& plan.fixture_id@.len() > 0
    &&& plan.prompt@.len() > 0
    &&& plan.operations@.len() > 0
    &&& plan.claims@.len() > 0
    &&& plan.confidence.explicitly_attached_before_rendering
    &&& forall|i: int|
        0 <= i < plan.claims@.len() ==> {
            &&& (#[trigger] plan.claims@[i]).semantic_anchor@.len() > 0
            &&& plan.claims@[i].provenance.fixture_id@.len() > 0
            &&& plan.claims@[i].provenance.source_field@.len() > 0
            &&& plan.claims@[i].provenance.source_handler@.len() > 0
        }
    &&& plan.neutral_compatibility_text@.len() > 0
    &&& !plan.generated_text_influence
}

/// Whether a plan is complete.
pub fn plan_complete(plan: &SemanticResponsePlan) -> (b: bool)
    ensures
        b == plan_complete_spec(*plan),
{
    if plan.fixture_id.as_str().is_empty() || plan.prompt.as_str().is_empty()
        || plan.operations.len() == 0 || plan.claims.len() == 0
        || !plan.confidence.explicitly_attached_before_rendering {
        return false;
    }
    let mut i: usize = 0;
    while i < plan.claims.len()
        invariant
            i <= plan.claims@.len(),
            forall|j: int|
                0 <= j < i ==> {
                    &&& (#[trigger] plan.claims@[j]).semantic_anchor@.len() > 0
                    &&& plan.claims@[j].provenance.fixture_id@.len() > 0
                    &&& plan.claims@[j].provenance.source_field@.len() > 0
                    &&& plan.claims@[j].provenance.source_handler@.len() > 0
                },
        decreases plan.claims@.len() - i,
    {
        let c = &plan.claims[i];
        if c.semantic_anchor.as_str().is_empty() || c.provenance.fixture_id.as_str().is_empty()
            || c.provenance.source_field.as_str().is_empty()
            || c.provenance.source_handler.as_str().is_empty() {
            return false;
        }
        i = i + 1;
    }
    !plan.neutral_compatibility_text.as_str().is_empty() && !plan.generated_text_influence
}

/// One frozen fixture: a prompt, its expected neutral response, and the
/// claims it must and must not make.
#[derive(Debug, Clone, PartialEq, Eq)]
pub struct Fixture {
    pub id: String,
    pub category: String,
    pub prompt: String,
    pub context: Vec<String>,
    pub raw_response: String,
    pub profile: String,
    pub expected_output: String,
    pub required_claim_anchors: Vec<String>,
    pub prohibited_claim_anchors: Vec<String>,
    pub user_specific_references: Vec<String>,
}

/// The texts of a sequence of strings.
pub open spec fn strings_view(s: Seq<String>) -> Seq<Seq<char>> {
    s.map_values(|x: String| x@)
}

/// The view of a provenance.
pub open spec fn provenance_view(p: ClaimProvenance) -> (Seq<char>, Seq<char>, Seq<char>) {
    (p.fixture_id@, p.source_field@, p.source_handler@)
}

/// The view of a claim.
pub open spec fn claim_view(c: GroundedClaim) -> (
    u64,
    Seq<char>,
    bool,
    EpistemicConfidence,
    (Seq<char>, Seq<char>, Seq<char>),
) {
    (c.id, c.semantic_anchor@, c.polarity_positive, c.confidence, provenance_view(c.provenance))
}

/// The grounded claims of a fixture: each required anchor in order, or a
/// response-boundary claim when there is none.
pub open spec fn claims_spec(
    fixture_id: Seq<char>,
    required: Seq<Seq<char>>,
    confidence: EpistemicConfidence,
    handler: Seq<char>,
) -> Seq<(u64, Seq<char>, bool, EpistemicConfidence, (Seq<char>, Seq<char>, Seq<char>))> {
    if required.len() == 0 {
        seq![
            (
                1u64,
                "response-boundary:"@ + fixture_id,
                true,
                confidence,
                (fixture_id, "expected"@, handler),
            ),
        ]
    } else {
        Seq::new(
            required.len(),
            |i: int| ((i + 1) as u64, required[i], true, confidence, (fixture_id, "required"@, handler)),
        )
    }
}

fn provenance(fixture_id: &str, field: &str, handler: &str) -> (p: ClaimProvenance)
    ensures
        provenance_view(p) == (fixture_id@, field@, handler@),
{
    ClaimProvenance {
        fixture_id: string_of(fixture_id),
        source_field: string_of(field),
        source_handler: string_of(handler),
    }
}

fn build_claims(
    fixture_id: &str,
    required: &Vec<String>,
    confidence: EpistemicConfidence,
    handler: &str,
) -> (claims: Vec<GroundedClaim>)
    ensures
        claims@.map_values(|c: GroundedClaim| claim_view(c)) == claims_spec(
            fixture_id@,
            strings_view(required@),
            confidence,
            handler@,
        ),
{
    let mut claims: Vec<GroundedClaim> = Vec::new();
    if required.len() == 0 {
        claims.push(
            GroundedClaim {
                id: 1,
                semantic_anchor: concat2("response-boundary:", fixture_id),
                polarity_positive: true,
                confidence,
                provenance: provenance(fixture_id, "expected", handler),
            },
        );
        assert(claims@.map_values(|c: GroundedClaim| claim_view(c)) =~= claims_spec(
            fixture_id@,
            strings_view(required@),
            confidence,
            handler@,
        ));
        return claims;
    }
    let mut i: usize = 0;
    while i < required.len()
        invariant
            i <= required@.len(),
            claims@.len() == i,
            forall|k: int|
                0 <= k < i ==> claim_view(#[trigger] claims@[k]) == (
                    (k + 1) as u64,
                    required@[k]@,
                    true,
                    confidence,
                    (fixture_id@, "required"@, handler@),
                ),
        decreases required@.len() - i,
    {
        claims.push(
            GroundedClaim {
                id: i as u64 + 1,
                semantic_anchor: required[i].clone(),
                polarity_positive: true,
                confidence,
                provenance: provenance(fixture_id, "required", handler),
            },
        );
        i = i + 1;
    }
    assert(claims@.map_values(|c: GroundedClaim| claim_view(c)) =~= claims_spec(
        fixture_id@,
        strings_view(required@),
        confidence,
        handler@,
    ));
    claims
}

/// The anchors without repeats, comparing them lowercased and keeping the first.
pub open spec fn dedup_lower(s: Seq<Seq<char>>) -> Seq<Seq<char>>
    decreases s.len(),
{
    if s.len() == 0 {
        Seq::empty()
    } else {
        let prev = dedup_lower(s.drop_last());
        if exists|i: int|
            0 <= i < s.len() - 1 && unicode_lowercase(#[trigger] s[i]) == unicode_lowercase(
                s.last(),
            ) {
            prev
        } else {
            prev.push(s.last())
        }
    }
}

fn strings_contain(v: &Vec<String>, x: &String) -> (r: bool)
    ensures
        r == strings_view(v@).contains(x@),
{
    let mut i: usize = 0;
    while i < v.len()
        invariant
            i <= v@.len(),
            forall|j: int| 0 <= j < i ==> v@[j]@ != x@,
        decreases v@.len() - i,
    {
        if v[i] == *x {
            assert(strings_view(v@)[i as int] == x@);
            return true;
        }
        i = i + 1;
    }
    assert forall|j: int| 0 <= j < strings_view(v@).len() implies strings_view(v@)[j] != x@ by {
        assert(strings_view(v@)[j] == v@[j]@);
    }
    false
}

/// The prohibited implications of a fixture: the category's anchors, then
/// the fixture's, without lowercase repeats.
fn build_prohibited(
    fixture_id: &str,
    category_prohibited: &[String],
    fixture_prohibited: &Vec<String>,
    handler: &str,
) -> (r: Vec<ProhibitedImplication>)
    ensures
        r@.map_values(|p: ProhibitedImplication| p.semantic_anchor@) == dedup_lower(
            strings_view(category_prohibited@) + strings_view(fixture_prohibited@),
        ),
        forall|i: int|
            0 <= i < r@.len() ==> provenance_view((#[trigger] r@[i]).provenance) == (
                fixture_id@,
                "prohibited"@,
                handler@,
            ),
{
    let ghost all = strings_view(category_prohibited@) + strings_view(fixture_prohibited@);
    let mut combined: Vec<String> = Vec::new();
    let n1 = category_prohibited.len();
    let mut i: usize = 0;
    while i < n1
        invariant
            n1 == category_prohibited@.len(),
            i <= n1,
            combined@.len() == i,
            forall|t: int| 0 <= t < i ==> #[trigger] combined@[t]@ == category_prohibited@[t]@,
        decreases n1 - i,
    {
        combined.push(category_prohibited[i].clone());
        i = i + 1;
    }
    let mut k: usize = 0;
    while k < fixture_prohibited.len()
        invariant
            n1 == category_prohibited@.len(),
            k <= fixture_prohibited@.len(),
            combined@.len() == n1 + k,
            forall|t: int| 0 <= t < n1 ==> #[trigger] combined@[t]@ == category_prohibited@[t]@,
            forall|t: int|
                0 <= t < k ==> #[trigger] combined@[n1 + t]@ == fixture_prohibited@[t]@,
        decreases fixture_prohibited@.len() - k,
    {
        combined.push(fixture_prohibited[k].clone());
        k = k + 1;
    }
    assert forall|t: int| 0 <= t < all.len() implies #[trigger] strings_view(combined@)[t] == all[t] by {
        if t < n1 {
            assert(combined@[t]@ == category_prohibited@[t]@);
        } else {
            assert(combined@[n1 + (t - n1)]@ == fixture_prohibited@[t - n1]@);
        }
    }
    let mut seen: Vec<String> = Vec::new();
    let mut r: Vec<ProhibitedImplication> = Vec::new();
    let mut j: usize = 0;
    while j < combined.len()
        invariant
            all == strings_view(combined@),
            j <= combined@.len(),
            seen@.len() == j,
            forall|t: int| 0 <= t < j ==> #[trigger] seen@[t]@ == unicode_lowercase(all[t]),
            r@.map_values(|p: ProhibitedImplication| p.semantic_anchor@) == dedup_lower(
                all.subrange(0, j as int),
            ),
            forall|t: int|
                0 <= t < r@.len() ==> provenance_view((#[trigger] r@[t]).provenance) == (
                    fixture_id@,
                    "prohibited"@,
                    handler@,
                ),
        decreases combined@.len() - j,
    {
        let ghost prefix = all.subrange(0, j as int + 1);
        assert(prefix.drop_last() =~= all.subrange(0, j as int));
        assert(prefix.last() == all[j as int]);
        let key = lowercase(combined[j].as_str());
        let repeated = strings_contain(&seen, &key);
        proof {
            assert(combined@[j as int]@ == all[j as int]);
            if repeated {
                let t = choose|t: int| 0 <= t < strings_view(seen@).len() && strings_view(seen@)[t] == key@;
                assert(seen@[t]@ == unicode_lowercase(all[t]));
                assert(prefix[t] == all[t]);
                assert(unicode_lowercase(prefix[t]) == unicode_lowercase(prefix.last()));
            } else {
                assert forall|t: int| 0 <= t < prefix.len() - 1 implies unicode_lowercase(
                    #[trigger] prefix[t],
                ) != unicode_lowercase(prefix.last()) by {
                    assert(strings_view(seen@)[t] == seen@[t]@);
                    assert(prefix[t] == all[t]);
                }
            }
        }
        if !repeated {
            r.push(
                ProhibitedImplication {
                    semantic_anchor: combined[j].clone(),
                    provenance: provenance(fixture_id, "prohibited", handler),
                },
            );
        }
        seen.push(key);
        j = j + 1;
        proof {
            assert(r@.map_values(|p: ProhibitedImplication| p.semantic_anchor@) =~= dedup_lower(
                all.subrange(0, j as int),
            ));
        }
    }
    assert(all.subrange(0, all.len() as int) =~= all);
    r
}

/// The view of a reference binding.
pub open spec fn reference_view(r: ReferenceBinding) -> (Seq<char>, Option<usize>, bool) {
    (r.reference@, r.source_context_index, r.user_specific)
}

/// The references a fixture binds: each context entry with its index, then
/// each user-specific reference.
pub open spec fn references_spec(context: Seq<Seq<char>>, user: Seq<Seq<char>>) -> Seq<
    (Seq<char>, Option<usize>, bool),
> {
    Seq::new(context.len(), |i: int| (context[i], Some(i as usize), false)) + Seq::new(
        user.len(),
        |i: int| (user[i], None::<usize>, true),
    )
}

fn build_references(context: &Vec<String>, user: &Vec<String>) -> (r: Vec<ReferenceBinding>)
    ensures
        r@.map_values(|b: ReferenceBinding| reference_view(b)) == references_spec(
            strings_view(context@),
            strings_view(user@),
        ),
{
    let mut r: Vec<ReferenceBinding> = Vec::new();
    let n = context.len();
    let mut i: usize = 0;
    while i < n
        invariant
            n == context@.len(),
            i <= n,
            r@.len() == i,
            forall|t: int|
                0 <= t < i ==> reference_view(#[trigger] r@[t]) == (
                    context@[t]@,
                    Some(t as usize),
                    false,
                ),
        decreases n - i,
    {
        r.push(
            ReferenceBinding {
                reference: context[i].clone(),
                source_context_index: Some(i),
                user_specific: false,
            },
        );
        i = i + 1;
    }
    let mut k: usize = 0;
    while k < user.len()
        invariant
            n == context@.len(),
            k <= user@.len(),
            r@.len() == n + k,
            forall|t: int|
                0 <= t < n ==> reference_view(#[trigger] r@[t]) == (
                    context@[t]@,
                    Some(t as usize),
                    false,
                ),
            forall|t: int|
                0 <= t < k ==> reference_view(#[trigger] r@[n + t]) == (user@[t]@, None::<usize>, true),
        decreases user@.len() - k,
    {
        r.push(
            ReferenceBinding { reference: user[k].clone(), source_context_index: None, user_specific: true },
        );
        k = k + 1;
    }
    let ghost spec = references_spec(strings_view(context@), strings_view(user@));
    let ghost mapped = r@.map_values(|b: ReferenceBinding| reference_view(b));
    assert forall|t: int| 0 <= t < spec.len() implies #[trigger] mapped[t] == spec[t] by {
        if t >= n {
            assert(reference_view(r@[n + (t - n)]) == (user@[t - n]@, None::<usize>, true));
        }
    }
    assert(mapped =~= spec);
    r
}

/// The identifiers of the grounded claims of a fixture.
pub open spec fn claim_ids_spec(required_count: nat) -> Seq<u64> {
    if required_count == 0 {
        seq![1u64]
    } else {
        Seq::new(required_count, |i: int| (i + 1) as u64)
    }
}

/// The dialogue policy of a plan.
pub open spec fn dialogue_spec(question: bool, intent: PlanIntent) -> DialoguePolicy {
    if question {
        DialoguePolicy::RequiredQuestion
    } else if intent == PlanIntent::Curiosity || intent == PlanIntent::EmotionalAcknowledgment {
        DialoguePolicy::OptionalQuestion
    } else {
        DialoguePolicy::NoQuestion
    }
}

/// The detail budget of a plan: technical fixtures are detailed; short
/// expected responses (at most 80 bytes) are brief.
pub open spec fn detail_spec(category: Seq<char>, expected: Seq<char>) -> DetailBudget {
    if category == "technical"@ {
        DetailBudget::Detailed
    } else if utf8_len(expected) <= 80 {
        DetailBudget::Brief
    } else {
        DetailBudget::Standard
    }
}

/// The plan a fixture gets, given its profile's declared intent and
/// confidence and its category's prohibited anchors.
pub fn plan_fixture(
    fixture: &Fixture,
    profile_intent: Option<&str>,
    confidence: EpistemicConfidence,
    category_prohibited: &[String],
) -> (plan: SemanticResponsePlan)
    requires
        plan_operations_spec(
            infer_intent_spec(
                fixture.prompt@,
                fixture.category@,
                match profile_intent {
                    Some(s) => Some(s@),
                    None => None,
                },
            ),
            claim_ids_spec(fixture.required_claim_anchors@.len()),
            confidence.level,
            ends_with_question(fixture.expected_output@),
        ).len() <= 65535,
    ensures
        ({
            let intent = infer_intent_spec(
                fixture.prompt@,
                fixture.category@,
                match profile_intent {
                    Some(s) => Some(s@),
                    None => None,
                },
            );
            let question = ends_with_question(fixture.expected_output@);
            let ops = plan_operations_spec(
                intent,
                claim_ids_spec(fixture.required_claim_anchors@.len()),
                confidence.level,
                question,
            );
            &&& plan.fixture_id@ == fixture.id@
            &&& plan.prompt@ == fixture.prompt@
            &&& plan.intent == intent
            &&& plan.operations@.len() == ops.len()
            &&& forall|i: int|
                0 <= i < ops.len() ==> operation_view(#[trigger] plan.operations@[i]) == (
                    (i + 1) as u16,
                    ops[i].0,
                    ops[i].1,
                )
            &&& plan.claims@.map_values(|c: GroundedClaim| claim_view(c)) == claims_spec(
                fixture.id@,
                strings_view(fixture.required_claim_anchors@),
                confidence,
                handler_label_spec(intent),
            )
            &&& plan.confidence == confidence
            &&& plan.stance == stance_spec(intent)
            &&& plan.emotional_position == emotion_spec(intent)
            &&& plan.initiative == initiative_spec(intent)
            &&& plan.dialogue_policy == dialogue_spec(question, intent)
            &&& plan.detail_budget == detail_spec(fixture.category@, fixture.expected_output@)
            &&& plan.prohibited_implications@.map_values(
                |p: ProhibitedImplication| p.semantic_anchor@,
            ) == dedup_lower(
                strings_view(category_prohibited@) + strings_view(fixture.prohibited_claim_anchors@),
            )
            &&& forall|i: int|
                0 <= i < plan.prohibited_implications@.len() ==> provenance_view(
                    (#[trigger] plan.prohibited_implications@[i]).provenance,
                ) == (fixture.id@, "prohibited"@, handler_label_spec(intent))
            &&& plan.required_references@.map_values(|b: ReferenceBinding| reference_view(b))
                == references_spec(
                strings_view(fixture.context@),
                strings_view(fixture.user_specific_references@),
            )
            &&& plan.neutral_compatibility_text@ == fixture.expected_output@
            &&& plan.legacy_raw_text@ == fixture.raw_response@
            &&& plan.source_profile@ == fixture.profile@
            &&& !plan.generated_text_influence
        }),
{
    let intent = infer_intent(fixture.prompt.as_str(), fixture.category.as_str(), profile_intent);
    let handler = handler_label(intent);
    let claims = build_claims(
        fixture.id.as_str(),
        &fixture.required_claim_anchors,
        confidence,
        handler,
    );
    let prohibited_implications = build_prohibited(
        fixture.id.as_str(),
        category_prohibited,
        &fixture.prohibited_claim_anchors,
        handler,
    );
    let required_references = build_references(&fixture.context, &fixture.user_specific_references);
    let mut ids: Vec<u64> = Vec::new();
    let mut i: usize = 0;
    while i < claims.len()
        invariant
            i <= claims@.len(),
            ids@.len() == i,
            forall|t: int| 0 <= t < i ==> #[trigger] ids@[t] == claims@[t].id,
        decreases claims@.len() - i,
    {
        ids.push(claims[i].id);
        i = i + 1;
    }
    proof {
        let cv = claims@.map_values(|c: GroundedClaim| claim_view(c));
        let cs = claims_spec(
            fixture.id@,
            strings_view(fixture.required_claim_anchors@),
            confidence,
            handler@,
        );
        let want = claim_ids_spec(fixture.required_claim_anchors@.len());
        assert(cv == cs);
        assert(cv.len() == claims@.len());
        assert(want.len() == cs.len());
        assert forall|t: int| 0 <= t < ids@.len() implies #[trigger] ids@[t] == want[t] by {
            assert(cv[t].0 == claims@[t].id);
            assert(cs[t].0 == want[t]);
        }
        assert(ids@ =~= claim_ids_spec(fixture.required_claim_anchors@.len()));
    }
    let question = ends_with_question_exec(fixture.expected_output.as_str());
    let operations = operations_for(intent, ids.as_slice(), confidence.level, question);
    let dialogue_policy = if question {
        DialoguePolicy::RequiredQuestion
    } else if intent == PlanIntent::Curiosity || intent == PlanIntent::EmotionalAcknowledgment {
        DialoguePolicy::OptionalQuestion
    } else {
        DialoguePolicy::NoQuestion
    };
    let detail_budget = if crate::text::str_eq(fixture.category.as_str(), "technical") {
        DetailBudget::Detailed
    } else if fixture.expected_output.as_str().as_bytes().len() <= 80 {
        DetailBudget::Brief
    } else {
        DetailBudget::Standard
    };
    SemanticResponsePlan {
        fixture_id: fixture.id.clone(),
        prompt: fixture.prompt.clone(),
        intent,
        operations,
        claims,
        confidence,
        stance: stance_for(intent),
        emotional_position: emotion_for(intent),
        initiative: initiative_for(intent),
        dialogue_policy,
        detail_budget,
        prohibited_implications,
        required_references,
        neutral_compatibility_text: fixture.expected_output.clone(),
        legacy_raw_text: fixture.raw_response.clone(),
        source_profile: fixture.profile.clone(),
        generated_text_influence: false,
    }
}

} // verus!
