use star::omega_g2_shadow::{
    Evidence, OmegaG2ShadowConfig, OmegaG2ShadowObserver, Prediction, PredictionOutcome,
    ShadowAuthorityBoundary, ShadowEvidenceResolution,
};
use star::omega_v1_live_bridge::{
    authority_boundary as live_authority_boundary, render_live_response, render_or_neutral,
    replacement_opener,
    FallbackReason, LiveBridgeMode, ELIGIBLE_OPENER, MAX_OUTPUT_GROWTH_BYTES,
    MAX_PROTECTED_BODY_BYTES, REPLACEMENT_OPENER_COUNT,
};
use star::omega_v1_semantic_plan::authority_boundary as plan_authority_boundary;
use star::digest::{fnv_extend_exec, FNV_OFFSET};
use star::omega_v1f1_projection_guard::{
    digest_packet_bytes, projection_bytes, LearnedExpressionError, LearnedVoiceProjection,
    ProjectionPacketError, VerifiedVoiceProjection,
};
use star::omega_v1f2_shadow::{
    authority_boundary_closed, event_from_intent, PendingShadowEvent, ResponseFingerprint,
    ResponseIntent, ShadowIneligibility, ShadowIntent,
};

fn prediction(id: u64, engine: &str, kind: &str) -> Prediction {
    Prediction { id, engine: engine.to_string(), kind: kind.to_string() }
}

fn three_predictions(a: u64, b: u64, c: u64) -> Vec<Prediction> {
    vec![
        prediction(a, "QuestionGravity", "Question"),
        prediction(b, "BeliefRevision", "Conclusion"),
        prediction(c, "Basin", "NecessaryTruth"),
    ]
}

#[test]
fn captures_only_typed_ranking_and_settles_once() {
    let mut observer = OmegaG2ShadowObserver::default();
    let predictions = three_predictions(1, 2, 3);
    assert_eq!(observer.observe_prediction_batch(&predictions), 3);
    let evidence = Evidence { outcome: PredictionOutcome::Confirmed, prediction_id: 1 };
    assert_eq!(
        observer.resolve_prediction_evidence(&predictions[0], &evidence),
        ShadowEvidenceResolution::Settled
    );
    assert_eq!(
        observer.resolve_prediction_evidence(&predictions[0], &evidence),
        ShadowEvidenceResolution::Duplicate
    );
    let snapshot = observer.snapshot();
    assert_eq!(snapshot.settled_witnesses, 1);
    assert_eq!(snapshot.duplicate_evidence, 1);
    assert_eq!(snapshot.pending_traces, 2);
    assert_eq!(snapshot.authority, ShadowAuthorityBoundary::default());
}

#[test]
fn pending_capacity_is_bounded() {
    let mut observer = OmegaG2ShadowObserver::new(OmegaG2ShadowConfig {
        max_pending_traces: 2,
        ..OmegaG2ShadowConfig::default()
    })
    .expect("config");
    let predictions = three_predictions(1, 2, 3);
    observer.observe_prediction_batch(&predictions);
    let snapshot = observer.snapshot();
    assert_eq!(snapshot.pending_traces, 2);
    assert_eq!(snapshot.dropped_pending_traces, 1);
}

#[test]
fn identical_replay_produces_identical_snapshot() {
    let predictions = three_predictions(11, 12, 13);
    let evidence = Evidence { outcome: PredictionOutcome::Refuted, prediction_id: 12 };
    let mut first = OmegaG2ShadowObserver::default();
    let mut second = OmegaG2ShadowObserver::default();
    first.observe_prediction_batch(&predictions);
    second.observe_prediction_batch(&predictions);
    first.resolve_prediction_evidence(&predictions[1], &evidence);
    second.resolve_prediction_evidence(&predictions[1], &evidence);
    assert_eq!(first.snapshot(), second.snapshot());
}

#[test]
fn evidence_for_an_unseen_prediction_finds_no_trace() {
    let mut observer = OmegaG2ShadowObserver::default();
    let lone = prediction(5, "Basin", "Question");
    let evidence = Evidence { outcome: PredictionOutcome::Confirmed, prediction_id: 5 };
    assert_eq!(
        observer.resolve_prediction_evidence(&lone, &evidence),
        ShadowEvidenceResolution::MissingPendingTrace
    );
}

#[test]
fn eligible_response_is_deterministic_and_preserves_body() {
    let prompt = "Explain the next architecture step.";
    let neutral = "Here for it. The semantic body remains protected.";
    let first = render_live_response(prompt, neutral);
    let second = render_live_response(prompt, neutral);

    assert_eq!(first, second);
    assert_eq!(first.mode, LiveBridgeMode::Applied);
    assert!(first.body_preserved_exactly);
    let body = neutral.strip_prefix(ELIGIBLE_OPENER).unwrap();
    let selected = first.selected_opener.as_deref().unwrap();
    let openers: Vec<&str> = (0..REPLACEMENT_OPENER_COUNT).map(replacement_opener).collect();
    assert!(openers.contains(&selected));
    assert_eq!(first.rendered_text.strip_prefix(selected), Some(body));
    assert!(first.rendered_text.len() <= neutral.len() + MAX_OUTPUT_GROWTH_BYTES);
}

#[test]
fn ineligible_response_returns_exact_neutral_text() {
    let neutral = "The architecture is already bounded.";
    let decision = render_live_response("Continue.", neutral);

    assert_eq!(decision.mode, LiveBridgeMode::NeutralFallback);
    assert_eq!(decision.rendered_text.as_bytes(), neutral.as_bytes());
    assert_eq!(decision.fallback_reason, Some(FallbackReason::IneligibleOpener));
}

#[test]
fn empty_body_returns_exact_neutral_text() {
    let neutral = ELIGIBLE_OPENER;
    let decision = render_live_response("Continue.", neutral);

    assert_eq!(decision.mode, LiveBridgeMode::NeutralFallback);
    assert_eq!(decision.rendered_text.as_bytes(), neutral.as_bytes());
    assert_eq!(decision.fallback_reason, Some(FallbackReason::EmptyProtectedBody));
}

#[test]
fn oversized_body_returns_exact_neutral_text() {
    let body = "x".repeat(MAX_PROTECTED_BODY_BYTES + 1);
    let neutral = format!("{ELIGIBLE_OPENER}{body}");
    let decision = render_live_response("Continue.", &neutral);

    assert_eq!(decision.mode, LiveBridgeMode::NeutralFallback);
    assert_eq!(decision.rendered_text.as_bytes(), neutral.as_bytes());
    assert_eq!(decision.fallback_reason, Some(FallbackReason::ProtectedBodyTooLarge));
}

#[test]
fn kernel_authority_remains_shadow_only() {
    let boundary = live_authority_boundary();
    assert!(boundary.bounded_transform_available);
    assert!(!boundary.api_chat_wiring);
    assert!(!boundary.live_generated_text_influence);
    assert!(!boundary.raw_conversation_access);
    assert!(!boundary.unrestricted_memory_access);
    assert!(!boundary.voice_state_mutation);
    assert!(!boundary.companion_state_mutation);
    assert!(!boundary.persistence_authority);
    assert!(!boundary.belief_promotion_authority);
    assert!(!boundary.ontology_promotion_authority);
    assert!(!boundary.routing_authority);
    assert!(!boundary.tool_selection_authority);
    assert!(!boundary.charge_discharge_authority);
    assert!(!boundary.autonomous_action_authority);
}

#[test]
fn shadow_authority_boundary_is_closed() {
    let boundary = plan_authority_boundary();
    assert!(!boundary.runtime_chat_wiring);
    assert!(!boundary.live_generated_text_influence);
    assert!(!boundary.voice_state_mutation);
    assert!(!boundary.memory_mutation);
    assert!(!boundary.belief_promotion_authority);
    assert!(!boundary.ontology_promotion_authority);
    assert!(!boundary.routing_authority);
    assert!(!boundary.tool_selection_authority);
    assert!(!boundary.charge_discharge_authority);
    assert!(!boundary.autonomous_action_authority);
}

#[test]
fn typed_identity_event_contains_no_prompt_or_response_text() {
    let event = event_from_intent(&ResponseIntent::Identity);
    let PendingShadowEvent::Eligible(bundle) = event else {
        panic!("identity event should be eligible");
    };
    assert_eq!(bundle.intent, ShadowIntent::Identity);
}

#[test]
fn unknown_and_statement_are_ineligible() {
    assert!(matches!(
        event_from_intent(&ResponseIntent::Unknown),
        PendingShadowEvent::Ineligible(ShadowIneligibility::UnknownIntent)
    ));
    assert!(matches!(
        event_from_intent(&ResponseIntent::Statement),
        PendingShadowEvent::Ineligible(ShadowIneligibility::StatementIntent)
    ));
}

#[test]
fn response_fingerprint_is_byte_exact() {
    let fingerprint = ResponseFingerprint::frozen(b"exact response bytes");
    assert!(fingerprint.byte_identical());
}

#[test]
fn authority_remains_shadow_only() {
    assert!(authority_boundary_closed());
}

#[test]
fn facade_preserves_closed_f2_authority() {
    let boundary = star::omega_v1f2_shadow_bridge::authority_boundary();
    assert!(!boundary.runtime_chat_response_influence);
    assert!(!boundary.http_response_influence);
    assert!(!boundary.live_learned_text_return);
    assert!(!boundary.raw_prompt_access);
    assert!(!boundary.autonomous_action_authority);
}

#[test]
fn shadow_switch_accepts_only_the_on_words() {
    assert!(star::omega_v1f2_shadow_bridge::shadow_enabled(Some("1")));
    assert!(star::omega_v1f2_shadow_bridge::shadow_enabled(Some("TRUE")));
    assert!(star::omega_v1f2_shadow_bridge::shadow_enabled(Some("On")));
    assert!(star::omega_v1f2_shadow_bridge::shadow_enabled(Some("enabled")));
    assert!(!star::omega_v1f2_shadow_bridge::shadow_enabled(Some("yes")));
    assert!(!star::omega_v1f2_shadow_bridge::shadow_enabled(Some(" on")));
    assert!(!star::omega_v1f2_shadow_bridge::shadow_enabled(None));
}

#[test]
fn projection_packet_detects_mutation() {
    let mut packet = VerifiedVoiceProjection::new(
        1,
        9_000,
        2_000,
        9_000,
        8_000,
        9_000,
        8_500,
        5_000,
        "voice-state-digest-v1",
    )
    .expect("packet");
    assert!(packet.verify_integrity().is_ok());
    packet.projection.source_digest.push_str(":stale");
    assert_eq!(packet.verify_integrity(), Err(ProjectionPacketError::DigestMismatch));
}

#[test]
fn projection_packet_digest_is_the_framed_json_digest() {
    let packet = VerifiedVoiceProjection::new(1, 1, 2, 3, 4, 5, 6, 7, "d\"q").expect("packet");
    let expected = "{\"version\":1,\"directness_bps\":1,\"warmth_bps\":2,\"compression_bps\":3,\"initiative_bps\":4,\"disagreement_bps\":5,\"uncertainty_bps\":6,\"intensity_bps\":7,\"source_digest\":\"d\\\"q\"}";
    let bytes = projection_bytes(&packet.projection).expect("bytes");
    assert_eq!(String::from_utf8(bytes.clone()).unwrap(), expected);
    assert_eq!(packet.packet_digest, digest_packet_bytes(&bytes));
    let by_hand = fnv_extend_exec(
        fnv_extend_exec(FNV_OFFSET, b"starfire-omega-v1f1-projection-packet-v1"),
        expected.as_bytes(),
    );
    assert_eq!(packet.packet_digest, by_hand);
}

#[test]
fn projection_with_out_of_range_dimension_is_refused() {
    let refused = VerifiedVoiceProjection::new(1, 10_001, 0, 0, 0, 0, 0, 0, "d");
    assert!(refused.is_err());
}

#[test]
fn zeroed_packet_digest_is_empty() {
    let mut packet = VerifiedVoiceProjection::new(2, 0, 0, 0, 0, 0, 0, 0, "d").expect("packet");
    packet.packet_digest = 0;
    assert_eq!(packet.verify_integrity(), Err(ProjectionPacketError::EmptyDigest));
}

#[test]
fn render_or_neutral_gives_the_decision_text() {
    let prompt = "Explain the next architecture step.";
    let neutral = "Here for it. The semantic body remains protected.";
    let rendered = render_or_neutral(prompt, neutral);
    assert_eq!(rendered, render_live_response(prompt, neutral).rendered_text);
    assert_ne!(rendered, neutral);
    assert!(rendered.ends_with(" The semantic body remains protected."));
    let plain = "The architecture is already bounded.";
    assert_eq!(render_or_neutral("Continue.", plain), plain);
}

#[test]
fn sealing_a_projection_records_its_digest() {
    let projection =
        LearnedVoiceProjection::new(3, 100, 200, 300, 400, 500, 600, 700, "src").expect("projection");
    let sealed = VerifiedVoiceProjection::seal(projection.clone()).expect("sealed");
    let bytes = projection_bytes(&projection).expect("bytes");
    assert_eq!(sealed.projection, projection);
    assert_eq!(sealed.packet_digest, digest_packet_bytes(&bytes));
    assert!(sealed.verify_integrity().is_ok());
    let mut stale = sealed.clone();
    stale.packet_digest ^= 1;
    assert_eq!(stale.verify_integrity(), Err(ProjectionPacketError::DigestMismatch));
    assert_eq!(
        VerifiedVoiceProjection::new(1, 0, 0, 0, 0, 0, 0, 10_001, "d"),
        Err(LearnedExpressionError::BasisPointsOutOfRange)
    );
}

#[test]
fn batch_counters_follow_the_fresh_identifiers() {
    let mut observer = OmegaG2ShadowObserver::new(OmegaG2ShadowConfig {
        max_pending_traces: 3,
        ..OmegaG2ShadowConfig::default()
    })
    .expect("config");
    // Ids 1, 2, 2: two distinct fresh identifiers.
    let first = vec![prediction(1, "a", "x"), prediction(2, "b", "y"), prediction(2, "b", "y")];
    assert_eq!(observer.observe_prediction_batch(&first), 2);
    // Ids 2, 3, 4: 2 is already pending, so two fresh; 2 + 2 = 4 over a capacity of 3.
    let second = vec![prediction(2, "b", "y"), prediction(3, "c", "z"), prediction(4, "d", "w")];
    assert_eq!(observer.observe_prediction_batch(&second), 2);
    assert_eq!(observer.observe_prediction_batch(&[]), 0);
    let snapshot = observer.snapshot();
    assert_eq!(snapshot.observed_batches, 3);
    assert_eq!(snapshot.pending_traces, 3);
    assert_eq!(snapshot.dropped_pending_traces, 1);
}

#[test]
fn projection_json_escapes_the_source_digest() {
    let packet = VerifiedVoiceProjection::new(0, 0, 0, 0, 0, 0, 0, 0, "t\u{1}\u{1f}\té\\\n").expect("packet");
    let bytes = projection_bytes(&packet.projection).expect("bytes");
    let text = String::from_utf8(bytes).unwrap();
    assert!(text.ends_with(",\"source_digest\":\"t\\u0001\\u001f\\té\\\\\\n\"}"));
}
