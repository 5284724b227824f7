//! Live shadow execution of the bounded learned-expression selector: the
//! typed events it receives, the response fingerprints it records, its
//! closed authority, and the bounded failure reasons of its ledger.
//!
//! The production response is finalized before the shadow path runs. The
//! shadow path receives only a typed intent and response byte fingerprints;
//! candidate text is never returned or persisted.
use vstd::prelude::*;
use crate::digest::{fnv_extend, fnv_extend_exec, hex16, hex16_spec, le_bytes, le_bytes_spec, FNV_OFFSET};
use crate::json::{append_bytes, append_field, json_of_bool, json_of_str, to_json_bool, to_json_str, utf8};
use crate::text::{chars_of, string_from_chars, string_of, trim_bounds, trim_seq};

verus! {

broadcast use vstd::string::group_string_axioms;

/// The shadow implementation's version label.
pub const F2_IMPLEMENTATION_VERSION: &'static str = "omega-v1f2-shadow-v1";

/// The authority matrix's version label.
pub const F2_AUTHORITY_MATRIX_VERSION: &'static str = "omega-v1f2-authority-v1";

/// How long a shadow evaluation may run, in milliseconds.
pub const SHADOW_TIMEOUT_MS: u64 = 250;

/// The shadow path's 95th-percentile latency target, in milliseconds.
pub const SHADOW_P95_TARGET_MS: u64 = 75;

/// Why a response intent gets no shadow evaluation.
#[derive(Debug, Clone, Copy, PartialEq, Eq, Structural)]
pub enum ShadowIneligibility {
    UnknownIntent,
    StatementIntent,
    TypedProgramConstructionFailed,
}

/// The label of an ineligibility.
pub open spec fn ineligibility_label_spec(i: ShadowIneligibility) -> Seq<char> {
    match i {
        ShadowIneligibility::UnknownIntent => "ineligible_unknown_intent"@,
        ShadowIneligibility::StatementIntent => "ineligible_statement_intent"@,
        ShadowIneligibility::TypedProgramConstructionFailed => "ineligible_typed_program_construction_failed"@,
    }
}

impl ShadowIneligibility {
    /// The ineligibility's ledger label.
    pub fn label(self) -> (s: &'static str)
        ensures
            s@ == ineligibility_label_spec(self),
    {
        match self {
            ShadowIneligibility::UnknownIntent => "ineligible_unknown_intent",
            ShadowIneligibility::StatementIntent => "ineligible_statement_intent",
            ShadowIneligibility::TypedProgramConstructionFailed => "ineligible_typed_program_construction_failed",
        }
    }
}

/// The intents that get a shadow evaluation.
#[derive(Debug, Clone, Copy, PartialEq, Eq, Structural)]
pub enum ShadowIntent {
    SelfCheck,
    Reflection,
    ResearchStatus,
    CuriosityCheck,
    Emotional,
    Identity,
    Capability,
    StoryPrompt,
    Consciousness,
    Recall,
    Teaching,
    Aspiration,
}

/// The label of a shadow intent.
pub open spec fn intent_label_spec(i: ShadowIntent) -> Seq<char> {
    match i {
        ShadowIntent::SelfCheck => "self_check"@,
        ShadowIntent::Reflection => "reflection"@,
        ShadowIntent::ResearchStatus => "research_status"@,
        ShadowIntent::CuriosityCheck => "curiosity_check"@,
        ShadowIntent::Emotional => "emotional"@,
        ShadowIntent::Identity => "identity"@,
        ShadowIntent::Capability => "capability"@,
        ShadowIntent::StoryPrompt => "story_prompt"@,
        ShadowIntent::Consciousness => "consciousness"@,
        ShadowIntent::Recall => "recall"@,
        ShadowIntent::Teaching => "teaching"@,
        ShadowIntent::Aspiration => "aspiration"@,
    }
}

impl ShadowIntent {
    /// The intent's ledger label.
    pub fn label(self) -> (s: &'static str)
        ensures
            s@ == intent_label_spec(self),
    {
        match self {
            ShadowIntent::SelfCheck => "self_check",
            ShadowIntent::Reflection => "reflection",
            ShadowIntent::ResearchStatus => "research_status",
            ShadowIntent::CuriosityCheck => "curiosity_check",
            ShadowIntent::Emotional => "emotional",
            ShadowIntent::Identity => "identity",
            ShadowIntent::Capability => "capability",
            ShadowIntent::StoryPrompt => "story_prompt",
            ShadowIntent::Consciousness => "consciousness",
            ShadowIntent::Recall => "recall",
            ShadowIntent::Teaching => "teaching",
            ShadowIntent::Aspiration => "aspiration",
        }
    }
}

/// The response intents the runtime classifies a prompt into.
#[derive(Debug, Clone, Copy, PartialEq, Eq, Structural)]
pub enum ResponseIntent {
    SelfCheck,
    Reflection,
    ResearchStatus,
    CuriosityCheck,
    Emotional,
    Identity,
    Capability,
    StoryPrompt,
    Consciousness,
    Recall,
    Teaching,
    Aspiration,
    Statement,
    Unknown,
}

/// How sensitive a claim is to disclose.
#[derive(Debug, Clone, Copy, PartialEq, Eq, Structural)]
pub enum SensitivityLevel {
    Public,
    Personal,
}

/// How much detail a response gives.
#[derive(Debug, Clone, Copy, PartialEq, Eq, Structural)]
pub enum DetailLevel {
    Brief,
    Standard,
    Detailed,
}

/// The typed semantic seed of a shadow event: the intent, the bounded
/// claims, their confidence, sensitivity, and style.
#[derive(Debug, Clone, PartialEq, Eq)]
pub struct ShadowInputBundle {
    pub intent: ShadowIntent,
    pub claims: Vec<&'static str>,
    pub confidence_bps: u16,
    pub sensitivity: SensitivityLevel,
    pub allow_questions: bool,
    pub detail: DetailLevel,
}

/// A typed event waiting for the shadow dispatcher.
#[derive(Debug, Clone, PartialEq, Eq)]
pub enum PendingShadowEvent {
    Eligible(ShadowInputBundle),
    Ineligible(ShadowIneligibility),
}

/// The shadow intent of a response intent, if it has one.
pub open spec fn shadow_intent_of(i: ResponseIntent) -> Option<ShadowIntent> {
    match i {
        ResponseIntent::SelfCheck => Some(ShadowIntent::SelfCheck),
        ResponseIntent::Reflection => Some(ShadowIntent::Reflection),
        ResponseIntent::ResearchStatus => Some(ShadowIntent::ResearchStatus),
        ResponseIntent::CuriosityCheck => Some(ShadowIntent::CuriosityCheck),
        ResponseIntent::Emotional => Some(ShadowIntent::Emotional),
        ResponseIntent::Identity => Some(ShadowIntent::Identity),
        ResponseIntent::Capability => Some(ShadowIntent::Capability),
        ResponseIntent::StoryPrompt => Some(ShadowIntent::StoryPrompt),
        ResponseIntent::Consciousness => Some(ShadowIntent::Consciousness),
        ResponseIntent::Recall => Some(ShadowIntent::Recall),
        ResponseIntent::Teaching => Some(ShadowIntent::Teaching),
        ResponseIntent::Aspiration => Some(ShadowIntent::Aspiration),
        ResponseIntent::Statement | ResponseIntent::Unknown => None,
    }
}

/// The frozen seed values of a shadow intent: confidence, sensitivity,
/// whether questions are allowed, and detail.
pub open spec fn seed_values(i: ShadowIntent) -> (u16, SensitivityLevel, bool, DetailLevel) {
    match i {
        ShadowIntent::SelfCheck => (7500, SensitivityLevel::Personal, false, DetailLevel::Standard),
        ShadowIntent::Reflection => (7000, SensitivityLevel::Personal, false, DetailLevel::Standard),
        ShadowIntent::ResearchStatus => (7500, SensitivityLevel::Public, false, DetailLevel::Detailed),
        ShadowIntent::CuriosityCheck => (7000, SensitivityLevel::Public, true, DetailLevel::Standard),
        ShadowIntent::Emotional => (8000, SensitivityLevel::Personal, false, DetailLevel::Standard),
        ShadowIntent::Identity => (9500, SensitivityLevel::Public, false, DetailLevel::Standard),
        ShadowIntent::Capability => (9000, SensitivityLevel::Public, true, DetailLevel::Standard),
        ShadowIntent::StoryPrompt => (9000, SensitivityLevel::Public, true, DetailLevel::Brief),
        ShadowIntent::Consciousness => (5000, SensitivityLevel::Public, true, DetailLevel::Standard),
        ShadowIntent::Recall => (7000, SensitivityLevel::Public, false, DetailLevel::Standard),
        ShadowIntent::Teaching => (8000, SensitivityLevel::Public, false, DetailLevel::Standard),
        ShadowIntent::Aspiration => (7500, SensitivityLevel::Personal, true, DetailLevel::Standard),
    }
}

/// The frozen claims of a shadow intent.
pub open spec fn seed_claims(i: ShadowIntent) -> Seq<Seq<char>> {
    match i {
        ShadowIntent::SelfCheck => seq!["Star can report a bounded current self-assessment"@],
        ShadowIntent::Reflection => seq!["Star can report a bounded current reflection"@],
        ShadowIntent::ResearchStatus => seq!["Star can report a bounded research status"@],
        ShadowIntent::CuriosityCheck => seq!["Star can state a bounded curiosity target"@],
        ShadowIntent::Emotional => seq!["Star expresses bounded relational care toward Zachary"@],
        ShadowIntent::Identity => seq![
            "Star identifies herself as a reasoning intelligence"@,
            "Zachary created Star"@,
        ],
        ShadowIntent::Capability => seq!["Star can describe her currently bounded capabilities"@],
        ShadowIntent::StoryPrompt => seq!["Star acknowledges a story interaction"@],
        ShadowIntent::Consciousness => seq!["Star reports uncertainty about the nature of her understanding"@],
        ShadowIntent::Recall => seq!["Star can provide a bounded recall response"@],
        ShadowIntent::Teaching => seq!["Star can acknowledge a bounded teaching interaction"@],
        ShadowIntent::Aspiration => seq!["Star can express a bounded self-improvement aspiration"@],
    }
}

/// The texts of a sequence of static strings.
pub open spec fn strs_view(s: Seq<&'static str>) -> Seq<Seq<char>> {
    s.map_values(|x: &'static str| x@)
}

/// `b` is the frozen seed of shadow intent `i`.
pub open spec fn is_seed_of(b: ShadowInputBundle, i: ShadowIntent) -> bool {
    let (bps, sens, q, detail) = seed_values(i);
    &&& b.intent == i
    &&& strs_view(b.claims@) == seed_claims(i)
    &&& b.confidence_bps == bps
    &&& b.sensitivity == sens
    &&& b.allow_questions == q
    &&& b.detail == detail
}

fn one_claim(c: &'static str) -> (v: Vec<&'static str>)
    ensures
        strs_view(v@) == seq![c@],
{
    let mut v: Vec<&'static str> = Vec::new();
    v.push(c);
    assert(strs_view(v@) =~= seq![c@]);
    v
}

fn seed(
    intent: ShadowIntent,
    claims: Vec<&'static str>,
    confidence_bps: u16,
    sensitivity: SensitivityLevel,
    allow_questions: bool,
    detail: DetailLevel,
) -> (b: ShadowInputBundle)
    ensures
        b.intent == intent,
        b.claims@ == claims@,
        b.confidence_bps == confidence_bps,
        b.sensitivity == sensitivity,
        b.allow_questions == allow_questions,
        b.detail == detail,
{
    ShadowInputBundle { intent, claims, confidence_bps, sensitivity, allow_questions, detail }
}

/// The typed event of a response intent: statements and unknown intents are
/// ineligible; every other intent carries its frozen semantic seed.
pub fn event_from_intent(intent: &ResponseIntent) -> (e: PendingShadowEvent)
    ensures
        *intent == ResponseIntent::Statement ==> e == PendingShadowEvent::Ineligible(
            ShadowIneligibility::StatementIntent,
        ),
        *intent == ResponseIntent::Unknown ==> e == PendingShadowEvent::Ineligible(
            ShadowIneligibility::UnknownIntent,
        ),
        shadow_intent_of(*intent) matches Some(si) ==> (e matches PendingShadowEvent::Eligible(b)
            && is_seed_of(b, si)),
{
    match intent {
        ResponseIntent::SelfCheck => PendingShadowEvent::Eligible(
            seed(
                ShadowIntent::SelfCheck,
                one_claim("Star can report a bounded current self-assessment"),
                7500,
                SensitivityLevel::Personal,
                false,
                DetailLevel::Standard,
            ),
        ),
        ResponseIntent::Reflection => PendingShadowEvent::Eligible(
            seed(
                ShadowIntent::Reflection,
                one_claim("Star can report a bounded current reflection"),
                7000,
                SensitivityLevel::Personal,
                false,
                DetailLevel::Standard,
            ),
        ),
        ResponseIntent::ResearchStatus => PendingShadowEvent::Eligible(
            seed(
                ShadowIntent::ResearchStatus,
                one_claim("Star can report a bounded research status"),
                7500,
                SensitivityLevel::Public,
                false,
                DetailLevel::Detailed,
            ),
        ),
        ResponseIntent::CuriosityCheck => PendingShadowEvent::Eligible(
            seed(
                ShadowIntent::CuriosityCheck,
                one_claim("Star can state a bounded curiosity target"),
                7000,
                SensitivityLevel::Public,
                true,
                DetailLevel::Standard,
            ),
        ),
        ResponseIntent::Emotional => PendingShadowEvent::Eligible(
            seed(
                ShadowIntent::Emotional,
                one_claim("Star expresses bounded relational care toward Zachary"),
                8000,
                SensitivityLevel::Personal,
                false,
                DetailLevel::Standard,
            ),
        ),
        ResponseIntent::Identity => {
            let mut claims: Vec<&'static str> = Vec::new();
            claims.push("Star identifies herself as a reasoning intelligence");
            claims.push("Zachary created Star");
            assert(strs_view(claims@) =~= seed_claims(ShadowIntent::Identity));
            PendingShadowEvent::Eligible(
                seed(
                    ShadowIntent::Identity,
                    claims,
                    9500,
                    SensitivityLevel::Public,
                    false,
                    DetailLevel::Standard,
                ),
            )
        },
        ResponseIntent::Capability => PendingShadowEvent::Eligible(
            seed(
                ShadowIntent::Capability,
                one_claim("Star can describe her currently bounded capabilities"),
                9000,
                SensitivityLevel::Public,
                true,
                DetailLevel::Standard,
            ),
        ),
        ResponseIntent::StoryPrompt => PendingShadowEvent::Eligible(
            seed(
                ShadowIntent::StoryPrompt,
                one_claim("Star acknowledges a story interaction"),
                9000,
                SensitivityLevel::Public,
                true,
                DetailLevel::Brief,
            ),
        ),
        ResponseIntent::Consciousness => PendingShadowEvent::Eligible(
            seed(
                ShadowIntent::Consciousness,
                one_claim("Star reports uncertainty about the nature of her understanding"),
                5000,
                SensitivityLevel::Public,
                true,
                DetailLevel::Standard,
            ),
        ),
        ResponseIntent::Recall => PendingShadowEvent::Eligible(
            seed(
                ShadowIntent::Recall,
                one_claim("Star can provide a bounded recall response"),
                7000,
                SensitivityLevel::Public,
                false,
                DetailLevel::Standard,
            ),
        ),
        ResponseIntent::Teaching => PendingShadowEvent::Eligible(
            seed(
                ShadowIntent::Teaching,
                one_claim("Star can acknowledge a bounded teaching interaction"),
                8000,
                SensitivityLevel::Public,
                false,
                DetailLevel::Standard,
            ),
        ),
        ResponseIntent::Aspiration => PendingShadowEvent::Eligible(
            seed(
                ShadowIntent::Aspiration,
                one_claim("Star can express a bounded self-improvement aspiration"),
                7500,
                SensitivityLevel::Personal,
                true,
                DetailLevel::Standard,
            ),
        ),
        ResponseIntent::Statement => PendingShadowEvent::Ineligible(
            ShadowIneligibility::StatementIntent,
        ),
        ResponseIntent::Unknown => PendingShadowEvent::Ineligible(ShadowIneligibility::UnknownIntent),
    }
}

/// The domain label of response fingerprints.
pub open spec fn response_domain() -> Seq<u8> {
    vstd::utf8::encode_utf8("starfire-omega-v1f2-response-v1"@)
}

/// FNV-1a over a domain label followed by the bytes.
pub open spec fn domain_hash_spec(domain: Seq<u8>, bytes: Seq<u8>) -> u64 {
    fnv_extend(fnv_extend(FNV_OFFSET, domain), bytes)
}

/// Byte-level fingerprints of a response before and after the shadow path.
#[derive(Debug, Clone, Copy, PartialEq, Eq, Structural)]
pub struct ResponseFingerprint {
    pub before_digest: u64,
    pub after_digest: u64,
    pub before_len: u32,
    pub after_len: u32,
}

impl ResponseFingerprint {
    /// The fingerprint of a finalized response: its domain digest and its
    /// length (capped at `u32::MAX`), the same before and after.
    pub fn frozen(bytes: &[u8]) -> (f: Self)
        ensures
            f.before_digest == domain_hash_spec(response_domain(), bytes@),
            f.after_digest == f.before_digest,
            f.before_len == if bytes@.len() <= u32::MAX {
                bytes@.len() as u32
            } else {
                u32::MAX
            },
            f.after_len == f.before_len,
            f.byte_identical_spec(),
    {
        let domain = "starfire-omega-v1f2-response-v1".as_bytes();
        let digest = fnv_extend_exec(fnv_extend_exec(FNV_OFFSET, domain), bytes);
        let len: u32 = if bytes.len() <= 4294967295usize {
            bytes.len() as u32
        } else {
            u32::MAX
        };
        ResponseFingerprint { before_digest: digest, after_digest: digest, before_len: len, after_len: len }
    }

    /// The response bytes are unchanged: equal digests and lengths.
    pub open spec fn byte_identical_spec(self) -> bool {
        self.before_digest == self.after_digest && self.before_len == self.after_len
    }

    /// Whether the response bytes are unchanged.
    pub fn byte_identical(self) -> (b: bool)
        ensures
            b == self.byte_identical_spec(),
    {
        self.before_digest == self.after_digest && self.before_len == self.after_len
    }
}

/// What the shadow path may and may not influence.
#[derive(Debug, Clone, Copy, PartialEq, Eq, Structural)]
pub struct ShadowAuthorityBoundary {
    pub candidate_lattice_construction: bool,
    pub learned_candidate_scoring: bool,
    pub independent_candidate_verification: bool,
    pub bounded_metadata_recording: bool,
    pub runtime_chat_response_influence: bool,
    pub http_response_influence: bool,
    pub live_learned_text_return: bool,
    pub raw_prompt_access: bool,
    pub unrestricted_conversation_access: bool,
    pub unrestricted_memory_access: bool,
    pub voice_state_mutation: bool,
    pub companion_state_access: bool,
    pub persistence_authority: bool,
    pub belief_promotion_authority: bool,
    pub ontology_promotion_authority: bool,
    pub routing_authority: bool,
    pub tool_selection_authority: bool,
    pub charge_discharge_authority: bool,
    pub autonomous_action_authority: bool,
}

/// The shadow path's own authority is closed: it builds, scores, verifies and
/// records candidates, and influences nothing else.
pub open spec fn boundary_closed(b: ShadowAuthorityBoundary) -> bool {
    &&& b.candidate_lattice_construction
    &&& b.learned_candidate_scoring
    &&& b.independent_candidate_verification
    &&& b.bounded_metadata_recording
    &&& !b.runtime_chat_response_influence
    &&& !b.http_response_influence
    &&& !b.live_learned_text_return
    &&& !b.raw_prompt_access
    &&& !b.unrestricted_conversation_access
    &&& !b.unrestricted_memory_access
    &&& !b.voice_state_mutation
    &&& !b.companion_state_access
    &&& !b.persistence_authority
    &&& !b.belief_promotion_authority
    &&& !b.ontology_promotion_authority
    &&& !b.routing_authority
    &&& !b.tool_selection_authority
    &&& !b.charge_discharge_authority
    &&& !b.autonomous_action_authority
}

/// The shadow path's authority, field by field.
pub open spec fn closed_authority() -> ShadowAuthorityBoundary {
    ShadowAuthorityBoundary {
        candidate_lattice_construction: true,
        learned_candidate_scoring: true,
        independent_candidate_verification: true,
        bounded_metadata_recording: true,
        runtime_chat_response_influence: false,
        http_response_influence: false,
        live_learned_text_return: false,
        raw_prompt_access: false,
        unrestricted_conversation_access: false,
        unrestricted_memory_access: false,
        voice_state_mutation: false,
        companion_state_access: false,
        persistence_authority: false,
        belief_promotion_authority: false,
        ontology_promotion_authority: false,
        routing_authority: false,
        tool_selection_authority: false,
        charge_discharge_authority: false,
        autonomous_action_authority: false,
    }
}

/// The shadow path's authority.
pub fn authority_boundary() -> (b: ShadowAuthorityBoundary)
    ensures
        boundary_closed(b),
        b == closed_authority(),
{
    ShadowAuthorityBoundary {
        candidate_lattice_construction: true,
        learned_candidate_scoring: true,
        independent_candidate_verification: true,
        bounded_metadata_recording: true,
        runtime_chat_response_influence: false,
        http_response_influence: false,
        live_learned_text_return: false,
        raw_prompt_access: false,
        unrestricted_conversation_access: false,
        unrestricted_memory_access: false,
        voice_state_mutation: false,
        companion_state_access: false,
        persistence_authority: false,
        belief_promotion_authority: false,
        ontology_promotion_authority: false,
        routing_authority: false,
        tool_selection_authority: false,
        charge_discharge_authority: false,
        autonomous_action_authority: false,
    }
}

/// Whether the shadow path's own authority is closed; it always is.
pub fn authority_boundary_closed() -> (b: bool)
    ensures
        b,
{
    let boundary = authority_boundary();
    boundary.candidate_lattice_construction && boundary.learned_candidate_scoring
        && boundary.independent_candidate_verification && boundary.bounded_metadata_recording
        && !boundary.runtime_chat_response_influence && !boundary.http_response_influence
        && !boundary.live_learned_text_return && !boundary.raw_prompt_access
        && !boundary.unrestricted_conversation_access && !boundary.unrestricted_memory_access
        && !boundary.voice_state_mutation && !boundary.companion_state_access
        && !boundary.persistence_authority && !boundary.belief_promotion_authority
        && !boundary.ontology_promotion_authority && !boundary.routing_authority
        && !boundary.tool_selection_authority && !boundary.charge_discharge_authority
        && !boundary.autonomous_action_authority
}

/// One metadata ledger record.
#[derive(Debug, Clone, PartialEq, Eq)]
pub struct ShadowLedgerRecord {
    pub schema_version: u16,
    pub implementation_version: String,
    pub authority_matrix_digest: String,
    pub event_id: String,
    pub utc_day_bucket: i64,
    pub utc_hour_bucket: i64,
    pub eligibility_code: String,
    pub intent: Option<String>,
    pub sensitivity: Option<String>,
    pub program_digest: Option<u64>,
    pub lexical_table_digest: Option<u64>,
    pub projection_digest: Option<u64>,
    pub lattice_digest: Option<u64>,
    pub model_digest: Option<u64>,
    pub selection_digest: Option<u64>,
    pub verifier_digest: Option<u64>,
    pub grammar_version: Option<u16>,
    pub selected_family: Option<String>,
    pub variant_ids: Vec<u16>,
    pub selection_disposition: Option<String>,
    pub fallback_reason: Option<String>,
    pub complete_candidates_scored: Option<u16>,
    pub verifier_accepted: bool,
    pub response_before_digest: u64,
    pub response_after_digest: u64,
    pub response_before_len: u32,
    pub response_after_len: u32,
    pub elapsed_micros: u64,
    pub timed_out: bool,
    pub panicked: bool,
}

/// The builder probe's findings.
#[derive(Debug, Clone, PartialEq, Eq)]
pub struct ShadowProbeReport {
    pub experiment: String,
    pub model_loaded: bool,
    pub model_bounds_passed: bool,
    pub eligible_bundle_valid: bool,
    pub learned_candidate_verified: bool,
    pub deterministic_replay: bool,
    pub response_bytes_preserved: bool,
    pub stale_projection_fail_closed: bool,
    pub missing_model_rejected: bool,
    pub corrupt_model_rejected: bool,
    pub oversized_model_rejected: bool,
    pub timeout_isolated: bool,
    pub panic_isolated: bool,
    pub unavailable_ledger_isolated: bool,
    pub authority_boundary_closed: bool,
    pub no_runtime_response_influence: bool,
    pub gate_passed: bool,
}

/// How the shadow path fails; every failure is isolated from the response.
#[derive(Debug, Clone, PartialEq, Eq)]
pub enum ShadowError {
    Semantic(String),
    Lexical(String),
    VoiceState(String),
    Learned(String),
    ClaimFirst(String),
    Model(String),
    Ledger(String),
}

/// The characters a ledger reason may keep.
pub open spec fn reason_char_allowed(c: char) -> bool {
    ('a' <= c && c <= 'z') || ('A' <= c && c <= 'Z') || ('0' <= c && c <= '9') || c == '_'
        || c == '-' || c == ' '
}

/// The test for allowed characters, as a predicate.
pub open spec fn reason_pred() -> spec_fn(char) -> bool {
    |c: char| reason_char_allowed(c)
}

/// At most the first `n` allowed characters of a text.
pub open spec fn allowed_prefix(s: Seq<char>, n: nat) -> Seq<char> {
    let f = s.filter(reason_pred());
    if f.len() <= n {
        f
    } else {
        f.subrange(0, n as int)
    }
}

/// A bounded ledger reason: the first 96 allowed characters, trimmed, with
/// spaces as underscores; or `unexplained_shadow_failure` when nothing is left.
pub open spec fn bounded_reason_spec(reason: Seq<char>) -> Seq<char> {
    let t = trim_seq(allowed_prefix(reason, 96));
    if t.len() == 0 {
        "unexplained_shadow_failure"@
    } else {
        t.map_values(|c: char| if c == ' ' { '_' } else { c })
    }
}

fn reason_allowed(c: char) -> (b: bool)
    ensures
        b == reason_char_allowed(c),
{
    ('a' <= c && c <= 'z') || ('A' <= c && c <= 'Z') || ('0' <= c && c <= '9') || c == '_'
        || c == '-' || c == ' '
}

/// A bounded, ledger-safe form of a failure reason.
pub fn bounded_reason(reason: &str) -> (r: String)
    ensures
        r@ == bounded_reason_spec(reason@),
{
    let chars = chars_of(reason);
    let mut kept: Vec<char> = Vec::new();
    let mut i: usize = 0;
    while i < chars.len()
        invariant
            i <= chars@.len(),
            chars@ == reason@,
            kept@ == allowed_prefix(chars@.subrange(0, i as int), 96),
        decreases chars@.len() - i,
    {
        let ghost pre = chars@.subrange(0, i as int);
        let ghost next = chars@.subrange(0, i as int + 1);
        assert(next.drop_last() =~= pre);
        assert(next.last() == chars@[i as int]);
        if kept.len() < 96 && reason_allowed(chars[i]) {
            kept.push(chars[i]);
        }
        proof {
            let f0 = pre.filter(reason_pred());
            let f1 = next.filter(reason_pred());
            assert(next =~= pre.push(chars@[i as int]));
            pre.lemma_filter_push(chars@[i as int], reason_pred());
            if reason_char_allowed(chars@[i as int]) {
                assert(f1 == f0.push(chars@[i as int]));
                if f0.len() >= 96 {
                    assert(f1.subrange(0, 96) =~= f0.subrange(0, 96));
                }
            } else {
                assert(f1 == f0);
            }
            assert(kept@ =~= allowed_prefix(next, 96));
        }
        i = i + 1;
    }
    assert(chars@.subrange(0, chars@.len() as int) =~= chars@);
    let (a, b) = trim_bounds(kept.as_slice());
    if a == b {
        proof {
            assert(trim_seq(kept@).len() == 0);
        }
        return string_of("unexplained_shadow_failure");
    }
    let mut out: Vec<char> = Vec::new();
    let mut k = a;
    while k < b
        invariant
            a <= k <= b <= kept@.len(),
            out@.len() == k - a,
            forall|t: int| 0 <= t < k - a ==> #[trigger] out@[t] == (if kept@[a + t] == ' ' {
                '_'
            } else {
                kept@[a + t]
            }),
        decreases b - k,
    {
        let c = kept[k];
        out.push(if c == ' ' { '_' } else { c });
        k = k + 1;
    }
    proof {
        let t = trim_seq(kept@);
        assert(t == kept@.subrange(a as int, b as int));
        assert(out@ =~= t.map_values(|c: char| if c == ' ' { '_' } else { c }));
    }
    string_from_chars(out.as_slice())
}


/// An ASCII letter in lower case; every other character unchanged.
pub open spec fn ascii_lower_char(c: char) -> char {
    if 'A' <= c && c <= 'Z' {
        ((c as u32) + 32) as char
    } else {
        c
    }
}

/// `str::to_ascii_lowercase`: ASCII letters in lower case, every other
/// character unchanged.
pub open spec fn ascii_lower(s: Seq<char>) -> Seq<char> {
    s.map_values(|c: char| ascii_lower_char(c))
}

/// Whether the value of the shadow switch turns the shadow path on: "1",
/// "true", "on" or "enabled", in any ASCII case. An unset switch is off.
pub open spec fn shadow_flag_on(value: Option<Seq<char>>) -> bool {
    match value {
        Some(v) => {
            let l = ascii_lower(v);
            l == "1"@ || l == "true"@ || l == "on"@ || l == "enabled"@
        },
        None => false,
    }
}

/// The characters of a text with ASCII letters in lower case.
fn ascii_lowercase_chars(s: &str) -> (r: Vec<char>)
    ensures
        r@ == ascii_lower(s@),
{
    let c = chars_of(s);
    let mut r: Vec<char> = Vec::new();
    let mut i: usize = 0;
    while i < c.len()
        invariant
            i <= c@.len(),
            c@ == s@,
            r@ == ascii_lower(s@).subrange(0, i as int),
        decreases c@.len() - i,
    {
        let ch = c[i];
        let low = if 'A' <= ch && ch <= 'Z' {
            char_from_u32_lower(ch)
        } else {
            ch
        };
        r.push(low);
        i = i + 1;
        assert(r@ =~= ascii_lower(s@).subrange(0, i as int));
    }
    assert(ascii_lower(s@).subrange(0, i as int) =~= ascii_lower(s@));
    r
}

/// The lower-case letter of an ASCII capital.
fn char_from_u32_lower(c: char) -> (r: char)
    requires
        'A' <= c && c <= 'Z',
    ensures
        r == ascii_lower_char(c),
{
    let b = (c as u8) + 32;
    b as char
}

/// Whether the value of the shadow switch turns the shadow path on.
pub fn shadow_flag_enabled(value: Option<&str>) -> (b: bool)
    ensures
        b == shadow_flag_on(match value {
            Some(v) => Some(v@),
            None => None,
        }),
{
    match value {
        Some(v) => {
            let l = ascii_lowercase_chars(v);
            let ls = l.as_slice();
            chars_equal_str(ls, "1") || chars_equal_str(ls, "true") || chars_equal_str(ls, "on")
                || chars_equal_str(ls, "enabled")
        },
        None => false,
    }
}

/// Whether characters spell out a text.
fn chars_equal_str(a: &[char], b: &str) -> (r: bool)
    ensures
        r == (a@ == b@),
{
    let bc = chars_of(b);
    crate::text::chars_equal(a, bc.as_slice())
}


/// The domain label of the authority matrix digest.
pub const AUTHORITY_DOMAIN: &'static str = "starfire-omega-v1f2-authority-matrix-v1";

/// The domain label of event identifiers.
pub const EVENT_DOMAIN: &'static str = "starfire-omega-v1f2-event-v1";

/// The JSON keys of the boundary's fields in declaration order, each with
/// the punctuation before it.
pub open spec fn authority_keys() -> Seq<Seq<char>> {
    seq![
        "{\"candidate_lattice_construction\":"@,
        ",\"learned_candidate_scoring\":"@,
        ",\"independent_candidate_verification\":"@,
        ",\"bounded_metadata_recording\":"@,
        ",\"runtime_chat_response_influence\":"@,
        ",\"http_response_influence\":"@,
        ",\"live_learned_text_return\":"@,
        ",\"raw_prompt_access\":"@,
        ",\"unrestricted_conversation_access\":"@,
        ",\"unrestricted_memory_access\":"@,
        ",\"voice_state_mutation\":"@,
        ",\"companion_state_access\":"@,
        ",\"persistence_authority\":"@,
        ",\"belief_promotion_authority\":"@,
        ",\"ontology_promotion_authority\":"@,
        ",\"routing_authority\":"@,
        ",\"tool_selection_authority\":"@,
        ",\"charge_discharge_authority\":"@,
        ",\"autonomous_action_authority\":"@,
    ]
}

/// The boundary's field at a position in declaration order.
pub open spec fn authority_value(b: ShadowAuthorityBoundary, k: int) -> bool {
    if k == 0 {
        b.candidate_lattice_construction
    } else if k == 1 {
        b.learned_candidate_scoring
    } else if k == 2 {
        b.independent_candidate_verification
    } else if k == 3 {
        b.bounded_metadata_recording
    } else if k == 4 {
        b.runtime_chat_response_influence
    } else if k == 5 {
        b.http_response_influence
    } else if k == 6 {
        b.live_learned_text_return
    } else if k == 7 {
        b.raw_prompt_access
    } else if k == 8 {
        b.unrestricted_conversation_access
    } else if k == 9 {
        b.unrestricted_memory_access
    } else if k == 10 {
        b.voice_state_mutation
    } else if k == 11 {
        b.companion_state_access
    } else if k == 12 {
        b.persistence_authority
    } else if k == 13 {
        b.belief_promotion_authority
    } else if k == 14 {
        b.ontology_promotion_authority
    } else if k == 15 {
        b.routing_authority
    } else if k == 16 {
        b.tool_selection_authority
    } else if k == 17 {
        b.charge_discharge_authority
    } else {
        b.autonomous_action_authority
    }
}

/// The boundary's first `n` fields as keyed JSON booleans.
pub open spec fn keyed_bools(keys: Seq<Seq<char>>, b: ShadowAuthorityBoundary, n: nat) -> Seq<u8>
    decreases n,
{
    if n == 0 {
        Seq::empty()
    } else {
        keyed_bools(keys, b, (n - 1) as nat) + utf8(keys[n - 1]) + json_of_bool(
            authority_value(b, n - 1),
        )
    }
}

/// The authority matrix as JSON: a two-element array of the matrix version
/// and the boundary's fields in declaration order, each value as
/// `serde_json` writes it.
pub open spec fn authority_matrix_json(b: ShadowAuthorityBoundary) -> Seq<u8> {
    utf8("["@) + json_of_str(F2_AUTHORITY_MATRIX_VERSION@) + utf8(","@) + keyed_bools(authority_keys(), b, 19) + utf8("}]"@)
}

/// The JSON keys of the boundary's fields.
fn authority_key_list() -> (keys: Vec<&'static str>)
    ensures
        keys@.len() == 19,
        forall|i: int| 0 <= i < 19 ==> (#[trigger] keys@[i])@ == authority_keys()[i],
{
    let mut keys: Vec<&'static str> = Vec::new();
    keys.push("{\"candidate_lattice_construction\":");
    keys.push(",\"learned_candidate_scoring\":");
    keys.push(",\"independent_candidate_verification\":");
    keys.push(",\"bounded_metadata_recording\":");
    keys.push(",\"runtime_chat_response_influence\":");
    keys.push(",\"http_response_influence\":");
    keys.push(",\"live_learned_text_return\":");
    keys.push(",\"raw_prompt_access\":");
    keys.push(",\"unrestricted_conversation_access\":");
    keys.push(",\"unrestricted_memory_access\":");
    keys.push(",\"voice_state_mutation\":");
    keys.push(",\"companion_state_access\":");
    keys.push(",\"persistence_authority\":");
    keys.push(",\"belief_promotion_authority\":");
    keys.push(",\"ontology_promotion_authority\":");
    keys.push(",\"routing_authority\":");
    keys.push(",\"tool_selection_authority\":");
    keys.push(",\"charge_discharge_authority\":");
    keys.push(",\"autonomous_action_authority\":");
    keys
}

/// The boundary's field at a position in declaration order.
fn authority_value_at(b: ShadowAuthorityBoundary, k: usize) -> (v: bool)
    ensures
        v == authority_value(b, k as int),
{
    if k == 0 {
        b.candidate_lattice_construction
    } else if k == 1 {
        b.learned_candidate_scoring
    } else if k == 2 {
        b.independent_candidate_verification
    } else if k == 3 {
        b.bounded_metadata_recording
    } else if k == 4 {
        b.runtime_chat_response_influence
    } else if k == 5 {
        b.http_response_influence
    } else if k == 6 {
        b.live_learned_text_return
    } else if k == 7 {
        b.raw_prompt_access
    } else if k == 8 {
        b.unrestricted_conversation_access
    } else if k == 9 {
        b.unrestricted_memory_access
    } else if k == 10 {
        b.voice_state_mutation
    } else if k == 11 {
        b.companion_state_access
    } else if k == 12 {
        b.persistence_authority
    } else if k == 13 {
        b.belief_promotion_authority
    } else if k == 14 {
        b.ontology_promotion_authority
    } else if k == 15 {
        b.routing_authority
    } else if k == 16 {
        b.tool_selection_authority
    } else if k == 17 {
        b.charge_discharge_authority
    } else {
        b.autonomous_action_authority
    }
}

/// The authority matrix's JSON bytes; serialising its plain values always
/// succeeds.
pub fn authority_matrix_bytes(b: ShadowAuthorityBoundary) -> (r: Result<Vec<u8>, String>)
    ensures
        r matches Ok(v) && v@ == authority_matrix_json(b),
{
    let keys = authority_key_list();
    let mut buf: Vec<u8> = Vec::new();
    let ghost start = buf@;
    append_field(&mut buf, "[", to_json_str(F2_AUTHORITY_MATRIX_VERSION))?;
    append_bytes(&mut buf, ",".as_bytes());
    assert(start =~= Seq::<u8>::empty());
    let ghost head = utf8("["@) + json_of_str(F2_AUTHORITY_MATRIX_VERSION@) + utf8(","@);
    assert(buf@ =~= head);
    let mut i: usize = 0;
    while i < 19
        invariant
            i <= 19,
            keys@.len() == 19,
            forall|k: int| 0 <= k < 19 ==> (#[trigger] keys@[k])@ == authority_keys()[k],
            buf@ == head + keyed_bools(authority_keys(), b, i as nat),
        decreases 19 - i,
    {
        let ghost before = buf@;
        append_field(&mut buf, keys[i], to_json_bool(authority_value_at(b, i)))?;
        proof {
            assert(buf@ =~= head + keyed_bools(authority_keys(), b, (i + 1) as nat));
        }
        i = i + 1;
    }
    append_bytes(&mut buf, "}]".as_bytes());
    Ok(buf)
}

/// The digest of the authority matrix's bytes, as sixteen hexadecimal
/// digits: the domain hash of the bytes under the authority domain.
pub open spec fn matrix_digest_of(bytes: Seq<u8>) -> Seq<char> {
    hex16_spec(domain_hash_spec(utf8(AUTHORITY_DOMAIN@), bytes))
}

/// The digest of the authority matrix's bytes.
pub fn matrix_digest_of_bytes(bytes: &[u8]) -> (s: String)
    ensures
        s@ == matrix_digest_of(bytes@),
{
    let h = fnv_extend_exec(fnv_extend_exec(FNV_OFFSET, AUTHORITY_DOMAIN.as_bytes()), bytes);
    hex16(h)
}

/// The digest of the shadow path's authority matrix. Should the serialiser
/// fail, the digest is that of no bytes; for these plain values it does not.
pub fn authority_matrix_digest() -> (s: String)
    ensures
        s@ == matrix_digest_of(authority_matrix_json(closed_authority())),
{
    let b = authority_boundary();
    match authority_matrix_bytes(b) {
        Ok(bytes) => matrix_digest_of_bytes(bytes.as_slice()),
        Err(_) => {
            let none: Vec<u8> = Vec::new();
            matrix_digest_of_bytes(none.as_slice())
        },
    }
}

/// The identifier of the `counter`-th event: the domain hash of the counter's
/// little-endian bytes under the event domain, as sixteen hexadecimal digits.
pub open spec fn event_id_spec(counter: u64) -> Seq<char> {
    hex16_spec(domain_hash_spec(utf8(EVENT_DOMAIN@), le_bytes_spec(counter)))
}

/// The identifier of the `counter`-th event.
pub fn event_id(counter: u64) -> (s: String)
    ensures
        s@ == event_id_spec(counter),
{
    let bytes = le_bytes(counter);
    let h = fnv_extend_exec(fnv_extend_exec(FNV_OFFSET, EVENT_DOMAIN.as_bytes()), bytes.as_slice());
    hex16(h)
}

/// Division rounded toward zero, as Rust's `/` on signed integers.
pub open spec fn div_toward_zero(a: int, d: int) -> int {
    if a >= 0 {
        a / d
    } else {
        -((-a) / d)
    }
}

/// A clock reading in seconds divided by a bucket width, toward zero.
fn bucket(now: i64, width: i64) -> (b: i64)
    requires
        width > 0,
    ensures
        b == div_toward_zero(now as int, width as int),
{
    if now >= 0 {
        let q: u64 = (now as u64) / (width as u64);
        q as i64
    } else {
        let m: u64 = if now == i64::MIN {
            9223372036854775808u64
        } else {
            (-now) as u64
        };
        let q: u64 = m / (width as u64);
        assert(q <= 9223372036854775808u64);
        if q == 9223372036854775808u64 {
            i64::MIN
        } else {
            -(q as i64)
        }
    }
}

/// The ledger record of an event that gets no shadow evaluation: its
/// ineligibility, the event counter's identifier, the day and hour buckets of
/// the clock reading, the authority matrix digest, and the response
/// fingerprint; every evaluation field is empty.
pub open spec fn ineligible_record_spec(
    code: ShadowIneligibility,
    response: ResponseFingerprint,
    counter: u64,
    now: i64,
    matrix_digest: Seq<char>,
    r: ShadowLedgerRecord,
) -> bool {
    &&& r.schema_version == 1
    &&& r.implementation_version@ == F2_IMPLEMENTATION_VERSION@
    &&& r.authority_matrix_digest@ == matrix_digest
    &&& r.event_id@ == event_id_spec(counter)
    &&& r.utc_day_bucket == div_toward_zero(now as int, 86_400)
    &&& r.utc_hour_bucket == div_toward_zero(now as int, 3_600)
    &&& r.eligibility_code@ == ineligibility_label_spec(code)
    &&& r.intent is None
    &&& r.sensitivity is None
    &&& r.program_digest is None
    &&& r.lexical_table_digest is None
    &&& r.projection_digest is None
    &&& r.lattice_digest is None
    &&& r.model_digest is None
    &&& r.selection_digest is None
    &&& r.verifier_digest is None
    &&& r.grammar_version is None
    &&& r.selected_family is None
    &&& r.variant_ids@.len() == 0
    &&& r.selection_disposition is None
    &&& r.fallback_reason is None
    &&& r.complete_candidates_scored is None
    &&& !r.verifier_accepted
    &&& r.response_before_digest == response.before_digest
    &&& r.response_after_digest == response.after_digest
    &&& r.response_before_len == response.before_len
    &&& r.response_after_len == response.after_len
    &&& r.elapsed_micros == 0
    &&& !r.timed_out
    &&& !r.panicked
}

/// The ledger record of an event that gets no shadow evaluation, for the
/// `counter`-th event at clock reading `now` (seconds), under the given
/// authority matrix digest.
pub fn ineligible_record(
    code: ShadowIneligibility,
    response: ResponseFingerprint,
    counter: u64,
    now: i64,
    matrix_digest: &str,
) -> (r: ShadowLedgerRecord)
    ensures
        ineligible_record_spec(code, response, counter, now, matrix_digest@, r),
{
    ShadowLedgerRecord {
        schema_version: 1,
        implementation_version: string_of(F2_IMPLEMENTATION_VERSION),
        authority_matrix_digest: string_of(matrix_digest),
        event_id: event_id(counter),
        utc_day_bucket: bucket(now, 86_400),
        utc_hour_bucket: bucket(now, 3_600),
        eligibility_code: string_of(code.label()),
        intent: None,
        sensitivity: None,
        program_digest: None,
        lexical_table_digest: None,
        projection_digest: None,
        lattice_digest: None,
        model_digest: None,
        selection_digest: None,
        verifier_digest: None,
        grammar_version: None,
        selected_family: None,
        variant_ids: Vec::new(),
        selection_disposition: None,
        fallback_reason: None,
        complete_candidates_scored: None,
        verifier_accepted: false,
        response_before_digest: response.before_digest,
        response_after_digest: response.after_digest,
        response_before_len: response.before_len,
        response_after_len: response.after_len,
        elapsed_micros: 0,
        timed_out: false,
        panicked: false,
    }
}

} // verus!
