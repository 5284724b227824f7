//! Bounded deterministic live-response bridge kernel.
//!
//! The kernel receives only a completed neutral response and the current
//! prompt. It may replace one exact, preregistered filler opener with one
//! member of a closed deterministic table. The protected response body stays
//! byte-for-byte identical. Any ineligible input returns the exact neutral
//! response.
use vstd::prelude::*;
use crate::digest::{fnv_extend, fnv_extend_exec, fnv_step, FNV_OFFSET, FNV_PRIME};
use crate::text::{
    all_ws, chars_of, concat2, ends_with_chars, is_blank, lemma_ascii_utf8_len,
    lemma_encode_concat, slice_chars, starts_with_chars, starts_with_seq, string_from_chars,
    string_of, utf8_len,
};

verus! {

broadcast use vstd::string::group_string_axioms;

/// The one filler opener that may be replaced.
pub const ELIGIBLE_OPENER: &'static str = "Here for it. ";

/// How many replacement openers the closed table holds.
pub const REPLACEMENT_OPENER_COUNT: usize = 3;

/// The largest protected body, in bytes, that the kernel transforms.
pub const MAX_PROTECTED_BODY_BYTES: usize = 4096;

/// The largest growth, in bytes, of a rendered response over the neutral one.
pub const MAX_OUTPUT_GROWTH_BYTES: usize = 3;

/// Whether the kernel applied its transformation.
#[derive(Debug, Clone, Copy, PartialEq, Eq, Structural)]
pub enum LiveBridgeMode {
    Applied,
    NeutralFallback,
}

/// Why the neutral response was returned unchanged.
#[derive(Debug, Clone, Copy, PartialEq, Eq, Structural)]
pub enum FallbackReason {
    IneligibleOpener,
    EmptyProtectedBody,
    ProtectedBodyTooLarge,
    InvariantViolation,
}

/// The outcome of one rendering.
#[derive(Debug, Clone, PartialEq, Eq)]
pub struct LiveBridgeDecision {
    pub mode: LiveBridgeMode,
    pub neutral_text: String,
    pub rendered_text: String,
    pub selected_opener: Option<String>,
    pub protected_body_bytes: usize,
    pub body_preserved_exactly: bool,
    pub fallback_reason: Option<FallbackReason>,
}

/// What the kernel may and may not influence.
#[derive(Debug, Clone, Copy, PartialEq, Eq, Structural)]
pub struct LiveBridgeAuthorityBoundary {
    pub bounded_transform_available: bool,
    pub api_chat_wiring: bool,
    pub live_generated_text_influence: bool,
    pub raw_conversation_access: bool,
    pub unrestricted_memory_access: bool,
    pub voice_state_mutation: bool,
    pub companion_state_mutation: bool,
    pub persistence_authority: bool,
    pub belief_promotion_authority: bool,
    pub ontology_promotion_authority: bool,
    pub routing_authority: bool,
    pub tool_selection_authority: bool,
    pub charge_discharge_authority: bool,
    pub autonomous_action_authority: bool,
}

/// The kernel's authority: the bounded transform and nothing else.
pub fn authority_boundary() -> (b: LiveBridgeAuthorityBoundary)
    ensures
        b.bounded_transform_available,
        !b.api_chat_wiring,
        !b.live_generated_text_influence,
        !b.raw_conversation_access,
        !b.unrestricted_memory_access,
        !b.voice_state_mutation,
        !b.companion_state_mutation,
        !b.persistence_authority,
        !b.belief_promotion_authority,
        !b.ontology_promotion_authority,
        !b.routing_authority,
        !b.tool_selection_authority,
        !b.charge_discharge_authority,
        !b.autonomous_action_authority,
{
    LiveBridgeAuthorityBoundary {
        bounded_transform_available: true,
        api_chat_wiring: false,
        live_generated_text_influence: false,
        raw_conversation_access: false,
        unrestricted_memory_access: false,
        voice_state_mutation: false,
        companion_state_mutation: false,
        persistence_authority: false,
        belief_promotion_authority: false,
        ontology_promotion_authority: false,
        routing_authority: false,
        tool_selection_authority: false,
        charge_discharge_authority: false,
        autonomous_action_authority: false,
    }
}

/// The eligible opener's text.
pub open spec fn eligible_opener_spec() -> Seq<char> {
    ELIGIBLE_OPENER@
}

/// The replacement opener at table position `k`.
pub open spec fn opener_spec(k: int) -> Seq<char> {
    if k == 0 {
        "Got it. "@
    } else if k == 1 {
        "I'm following. "@
    } else {
        "I'm with you. "@
    }
}

/// The replacement opener at table position `index`.
pub fn replacement_opener(index: usize) -> (s: &'static str)
    requires
        index < REPLACEMENT_OPENER_COUNT,
    ensures
        s@ == opener_spec(index as int),
{
    if index == 0 {
        "Got it. "
    } else if index == 1 {
        "I'm following. "
    } else {
        "I'm with you. "
    }
}

/// The FNV-1a digest over the prompt's bytes, one zero byte, and the body's bytes.
pub open spec fn opener_hash(prompt: Seq<char>, body: Seq<char>) -> u64 {
    fnv_extend(
        fnv_step(fnv_extend(FNV_OFFSET, vstd::utf8::encode_utf8(prompt)), 0u8),
        vstd::utf8::encode_utf8(body),
    )
}

/// The table position chosen for a prompt and a protected body.
pub open spec fn opener_index(prompt: Seq<char>, body: Seq<char>) -> int {
    ((opener_hash(prompt, body) as usize) % 3) as int
}

/// The table position chosen for a prompt and a protected body.
fn select_opener(prompt: &str, protected_body: &str) -> (k: usize)
    ensures
        k == opener_index(prompt@, protected_body@),
        k < REPLACEMENT_OPENER_COUNT,
{
    let mut hash = fnv_extend_exec(FNV_OFFSET, prompt.as_bytes());
    hash = (hash ^ 0u64).wrapping_mul(FNV_PRIME);
    hash = fnv_extend_exec(hash, protected_body.as_bytes());
    (hash as usize) % 3
}

/// `d` returns the exact neutral text, for the given reason.
pub open spec fn is_neutral_fallback(
    d: LiveBridgeDecision,
    neutral: Seq<char>,
    reason: FallbackReason,
    body_bytes: int,
) -> bool {
    &&& d.mode == LiveBridgeMode::NeutralFallback
    &&& d.neutral_text@ == neutral
    &&& d.rendered_text@ == neutral
    &&& d.selected_opener is None
    &&& d.protected_body_bytes == body_bytes
    &&& d.body_preserved_exactly
    &&& d.fallback_reason == Some(reason)
}

/// `d` replaces the opener with table entry `k` and keeps `body`.
pub open spec fn is_applied(
    d: LiveBridgeDecision,
    neutral: Seq<char>,
    k: int,
    body: Seq<char>,
) -> bool {
    &&& d.mode == LiveBridgeMode::Applied
    &&& d.neutral_text@ == neutral
    &&& d.rendered_text@ == opener_spec(k) + body
    &&& d.selected_opener matches Some(s) && s@ == opener_spec(k)
    &&& d.protected_body_bytes == utf8_len(body)
    &&& d.body_preserved_exactly
    &&& d.fallback_reason is None
}

fn neutral_fallback(
    neutral_text: &str,
    reason: FallbackReason,
    protected_body_bytes: usize,
) -> (d: LiveBridgeDecision)
    ensures
        is_neutral_fallback(d, neutral_text@, reason, protected_body_bytes as int),
{
    LiveBridgeDecision {
        mode: LiveBridgeMode::NeutralFallback,
        neutral_text: string_of(neutral_text),
        rendered_text: string_of(neutral_text),
        selected_opener: None,
        protected_body_bytes,
        body_preserved_exactly: true,
        fallback_reason: Some(reason),
    }
}

proof fn lemma_opener_bytes()
    ensures
        utf8_len(eligible_opener_spec()) == 13,
        eligible_opener_spec().len() == 13,
        utf8_len(opener_spec(0)) == 8,
        utf8_len(opener_spec(1)) == 15,
        utf8_len(opener_spec(2)) == 14,
{
    reveal_strlit("Here for it. ");
    reveal_strlit("Got it. ");
    reveal_strlit("I'm following. ");
    reveal_strlit("I'm with you. ");
    lemma_ascii_utf8_len(eligible_opener_spec());
    lemma_ascii_utf8_len(opener_spec(0));
    lemma_ascii_utf8_len(opener_spec(1));
    lemma_ascii_utf8_len(opener_spec(2));
}

/// Applies the bounded opener replacement, or returns the exact neutral text.
///
/// The response is eligible when it starts with `ELIGIBLE_OPENER`; the rest
/// is the protected body. An all-whitespace body or one longer than
/// `MAX_PROTECTED_BODY_BYTES` bytes falls back. Otherwise the opener is
/// replaced by the table entry that the prompt and the body select, and the
/// body is kept exactly. The rendered text never grows by more than
/// `MAX_OUTPUT_GROWTH_BYTES` bytes.
pub fn render_live_response(prompt: &str, neutral_text: &str) -> (d: LiveBridgeDecision)
    ensures
        !starts_with_seq(neutral_text@, eligible_opener_spec()) ==> is_neutral_fallback(
            d,
            neutral_text@,
            FallbackReason::IneligibleOpener,
            0,
        ),
        starts_with_seq(neutral_text@, eligible_opener_spec()) ==> {
            let body = neutral_text@.subrange(
                eligible_opener_spec().len() as int,
                neutral_text@.len() as int,
            );
            &&& all_ws(body) ==> is_neutral_fallback(
                d,
                neutral_text@,
                FallbackReason::EmptyProtectedBody,
                utf8_len(body),
            )
            &&& !all_ws(body) && utf8_len(body) > MAX_PROTECTED_BODY_BYTES ==> is_neutral_fallback(
                d,
                neutral_text@,
                FallbackReason::ProtectedBodyTooLarge,
                utf8_len(body),
            )
            &&& !all_ws(body) && utf8_len(body) <= MAX_PROTECTED_BODY_BYTES ==> is_applied(
                d,
                neutral_text@,
                opener_index(prompt@, body),
                body,
            )
        },
        d.fallback_reason != Some(FallbackReason::InvariantViolation),
        utf8_len(d.rendered_text@) <= utf8_len(neutral_text@) + MAX_OUTPUT_GROWTH_BYTES,
        (d.mode == LiveBridgeMode::Applied) == live_applies(neutral_text@),
        d.rendered_text@ == live_rendered_text(prompt@, neutral_text@),
{
    proof {
        lemma_opener_bytes();
    }
    let chars = chars_of(neutral_text);
    let opener = chars_of(ELIGIBLE_OPENER);
    if !starts_with_chars(chars.as_slice(), opener.as_slice()) {
        return neutral_fallback(neutral_text, FallbackReason::IneligibleOpener, 0);
    }
    let body_chars = slice_chars(chars.as_slice(), opener.len(), chars.len());
    let body = string_from_chars(body_chars.as_slice());
    let body_bytes = body.as_str().as_bytes().len();
    proof {
        assert(neutral_text@ =~= eligible_opener_spec() + body@);
        lemma_encode_concat(eligible_opener_spec(), body@);
    }
    if is_blank(body_chars.as_slice()) {
        return neutral_fallback(neutral_text, FallbackReason::EmptyProtectedBody, body_bytes);
    }
    if body_bytes > MAX_PROTECTED_BODY_BYTES {
        return neutral_fallback(neutral_text, FallbackReason::ProtectedBodyTooLarge, body_bytes);
    }
    apply_replacement(prompt, neutral_text, body_chars.as_slice(), body.as_str(), body_bytes)
}

/// Replaces the eligible opener of `neutral_text` and re-checks that the body is kept.
fn apply_replacement(
    prompt: &str,
    neutral_text: &str,
    body_chars: &[char],
    body: &str,
    body_bytes: usize,
) -> (d: LiveBridgeDecision)
    requires
        neutral_text@ == eligible_opener_spec() + body@,
        body_chars@ == body@,
        body_bytes == utf8_len(body@),
        body_bytes <= MAX_PROTECTED_BODY_BYTES,
        utf8_len(neutral_text@) == 13 + utf8_len(body@),
    ensures
        is_applied(d, neutral_text@, opener_index(prompt@, body@), body@),
        utf8_len(d.rendered_text@) <= utf8_len(neutral_text@) + MAX_OUTPUT_GROWTH_BYTES,
{
    proof {
        lemma_opener_bytes();
    }
    let k = select_opener(prompt, body);
    let selected = replacement_opener(k);
    let rendered_text = concat2(selected, body);
    let rendered_chars = chars_of(rendered_text.as_str());
    let selected_chars = chars_of(selected);
    proof {
        lemma_encode_concat(opener_spec(k as int), body@);
        assert(rendered_chars@.subrange(0, selected_chars@.len() as int) =~= selected_chars@);
        assert(rendered_chars@.subrange(
            rendered_chars@.len() - body_chars@.len(),
            rendered_chars@.len() as int,
        ) =~= body_chars@);
    }
    let body_preserved_exactly = starts_with_chars(
        rendered_chars.as_slice(),
        selected_chars.as_slice(),
    ) && rendered_chars.len() - selected_chars.len() == body_chars.len();
    let growth = rendered_text.as_str().as_bytes().len().saturating_sub(neutral_text.as_bytes().len());
    if !body_preserved_exactly || !ends_with_chars(rendered_chars.as_slice(), body_chars)
        || growth > MAX_OUTPUT_GROWTH_BYTES {
        return neutral_fallback(neutral_text, FallbackReason::InvariantViolation, body_bytes);
    }
    LiveBridgeDecision {
        mode: LiveBridgeMode::Applied,
        neutral_text: string_of(neutral_text),
        rendered_text,
        selected_opener: Some(string_of(selected)),
        protected_body_bytes: body_bytes,
        body_preserved_exactly,
        fallback_reason: None,
    }
}

/// The body that the bridge protects: the neutral text after the eligible
/// opener.
pub open spec fn protected_body(neutral: Seq<char>) -> Seq<char> {
    neutral.subrange(eligible_opener_spec().len() as int, neutral.len() as int)
}

/// The bridge transforms a response: it begins with the eligible opener and
/// its protected body is not blank and fits the byte limit.
pub open spec fn live_applies(neutral: Seq<char>) -> bool {
    &&& starts_with_seq(neutral, eligible_opener_spec())
    &&& !all_ws(protected_body(neutral))
    &&& utf8_len(protected_body(neutral)) <= MAX_PROTECTED_BODY_BYTES
}

/// The text the bridge renders: a replacement opener before the protected
/// body where it applies, the neutral text unchanged where it does not.
pub open spec fn live_rendered_text(prompt: Seq<char>, neutral: Seq<char>) -> Seq<char> {
    if live_applies(neutral) {
        let body = protected_body(neutral);
        opener_spec(opener_index(prompt, body)) + body
    } else {
        neutral
    }
}

/// The rendered text of `render_live_response`: the transformed response, or
/// the exact neutral text when it falls back.
pub fn render_or_neutral(prompt: &str, neutral_text: &str) -> (s: String)
    ensures
        s@ == live_rendered_text(prompt@, neutral_text@),
        !live_applies(neutral_text@) ==> s@ == neutral_text@,
{
    render_live_response(prompt, neutral_text).rendered_text
}

} // verus!
