use star::digest::{hex16, le_bytes};
use star::omega_v1f2_shadow::{
    authority_boundary, authority_matrix_bytes, authority_matrix_digest, event_id,
    ineligible_record, matrix_digest_of_bytes, ResponseFingerprint, ShadowIneligibility,
};

const FIELDS: [(&str, bool); 19] = [
    ("candidate_lattice_construction", true),
    ("learned_candidate_scoring", true),
    ("independent_candidate_verification", true),
    ("bounded_metadata_recording", true),
    ("runtime_chat_response_influence", false),
    ("http_response_influence", false),
    ("live_learned_text_return", false),
    ("raw_prompt_access", false),
    ("unrestricted_conversation_access", false),
    ("unrestricted_memory_access", false),
    ("voice_state_mutation", false),
    ("companion_state_access", false),
    ("persistence_authority", false),
    ("belief_promotion_authority", false),
    ("ontology_promotion_authority", false),
    ("routing_authority", false),
    ("tool_selection_authority", false),
    ("charge_discharge_authority", false),
    ("autonomous_action_authority", false),
];

fn expected_matrix_json() -> String {
    let body: Vec<String> = FIELDS.iter().map(|(k, v)| format!("\"{}\":{}", k, v)).collect();
    format!("[\"omega-v1f2-authority-v1\",{{{}}}]", body.join(","))
}

#[test]
fn hex_and_little_endian_bytes() {
    assert_eq!(hex16(0), "0000000000000000");
    assert_eq!(hex16(0xdead_beef), "00000000deadbeef");
    assert_eq!(hex16(u64::MAX), "ffffffffffffffff");
    assert_eq!(le_bytes(0x0102_0304_0506_0708), vec![8, 7, 6, 5, 4, 3, 2, 1]);
}

#[test]
fn authority_matrix_is_framed_json() {
    let bytes = authority_matrix_bytes(authority_boundary()).expect("bytes");
    assert_eq!(String::from_utf8(bytes).unwrap(), expected_matrix_json());
    assert_eq!(authority_matrix_digest(), matrix_digest_of_bytes(expected_matrix_json().as_bytes()));
    assert_eq!(authority_matrix_digest().len(), 16);
}

#[test]
fn event_ids_hash_the_counter() {
    let mut hash = 0xcbf2_9ce4_8422_2325u64;
    for byte in b"starfire-omega-v1f2-event-v1".iter().chain(7u64.to_le_bytes().iter()) {
        hash ^= u64::from(*byte);
        hash = hash.wrapping_mul(0x0000_0100_0000_01b3);
    }
    assert_eq!(event_id(7), format!("{:016x}", hash));
    assert_ne!(event_id(7), event_id(8));
}

#[test]
fn ineligible_record_fields() {
    let response = ResponseFingerprint::frozen(b"hello");
    let record = ineligible_record(ShadowIneligibility::StatementIntent, response, 3, 90_000, "abc");
    assert_eq!(record.schema_version, 1);
    assert_eq!(record.implementation_version, "omega-v1f2-shadow-v1");
    assert_eq!(record.authority_matrix_digest, "abc");
    assert_eq!(record.event_id, event_id(3));
    assert_eq!(record.utc_day_bucket, 1);
    assert_eq!(record.utc_hour_bucket, 25);
    assert_eq!(record.eligibility_code, "ineligible_statement_intent");
    assert_eq!(record.intent, None);
    assert!(record.variant_ids.is_empty());
    assert_eq!(record.response_before_digest, response.before_digest);
    assert_eq!(record.response_after_len, 5);
    let past = ineligible_record(ShadowIneligibility::UnknownIntent, response, 1, -3_601, "d");
    assert_eq!(past.utc_hour_bucket, -1);
    assert_eq!(past.utc_day_bucket, 0);
}
