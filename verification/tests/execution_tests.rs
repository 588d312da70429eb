use zktrace::execution::{AgentIdentity, ExecutionDigest, ExecutionEvent, ExecutionStatus};
use zktrace::field::u64_to_fr;
use zktrace::json::{JsonNumber, JsonValue};
use zktrace::poseidon::{poseidon_hash_bytes, poseidon_hash_many};

fn object(members: Vec<(&str, JsonValue)>) -> JsonValue {
    JsonValue::Object(members.into_iter().map(|(k, v)| (k.to_string(), v)).collect())
}

#[test]
fn test_execution_event_leaf_computation() {
    let agent = AgentIdentity::new("agent_alpha_01", "enterprise_corp");
    let session_id = u64_to_fr(1001u64);
    let raw_json = br#"{"query":"SELECT id FROM payments WHERE amount < 500"}"#;
    let masked = object(vec![(
        "query",
        JsonValue::String("SELECT id FROM payments WHERE amount < [MASKED]".to_string()),
    )]);

    let event = ExecutionEvent::new(agent, session_id, "postgres_query", raw_json, masked, ExecutionStatus::Success);

    let leaf1 = event.compute_ledger_leaf();
    let leaf2 = event.compute_ledger_leaf();
    assert_eq!(leaf1, leaf2);
    assert_ne!(leaf1, u64_to_fr(0u64));
}

#[test]
fn agent_identity_commits_to_id_colon_org() {
    let agent = AgentIdentity::new("agent-1", "org-test");
    assert_eq!(agent.agent_id, "agent-1");
    assert_eq!(agent.organization, "org-test");
    assert_eq!(agent.pubkey_hash, poseidon_hash_bytes(b"agent-1:org-test"));
}

#[test]
fn status_codes() {
    assert_eq!(ExecutionStatus::Success.code(), 0);
    assert_eq!(ExecutionStatus::PolicyViolation.code(), 1);
    assert_eq!(ExecutionStatus::ExecutionFailed.code(), 2);
    assert_eq!(ExecutionStatus::Timeout.code(), 3);
}

#[test]
fn digest_commitment_is_hash_of_five_fields() {
    let d = ExecutionDigest {
        tool_id_hash: u64_to_fr(1),
        param_digest: u64_to_fr(2),
        result_code: 3,
        timestamp: 1725000000,
        session_id: u64_to_fr(5),
    };
    let expected = poseidon_hash_many(&[u64_to_fr(1), u64_to_fr(2), u64_to_fr(3), u64_to_fr(1725000000), u64_to_fr(5)]);
    assert_eq!(d.compute_commitment(), expected);
    let negative = ExecutionDigest { timestamp: -1, ..d };
    let expected_neg =
        poseidon_hash_many(&[u64_to_fr(1), u64_to_fr(2), u64_to_fr(3), u64_to_fr(u64::MAX), u64_to_fr(5)]);
    assert_eq!(negative.compute_commitment(), expected_neg);
}

#[test]
fn event_fields_and_leaf_at_fixed_time() {
    let agent = AgentIdentity::new("a", "o");
    let pk = agent.pubkey_hash;
    let masked = object(vec![("amount", JsonValue::Number(JsonNumber::PosInt(7)))]);
    let ev = ExecutionEvent::new_at(
        agent,
        u64_to_fr(9),
        "tool",
        b"{}",
        masked,
        ExecutionStatus::ExecutionFailed,
        0x1234,
        1_700_000_000,
    );
    assert_eq!(ev.event_id, 0x1234);
    assert_eq!(ev.timestamp, 1_700_000_000);
    assert_eq!(ev.tool_name, "tool");
    assert_eq!(ev.raw_param_digest, poseidon_hash_bytes(b"{}"));
    assert_eq!(ev.digest.tool_id_hash, poseidon_hash_bytes(b"tool"));
    assert_eq!(ev.digest.param_digest, ev.raw_param_digest);
    assert_eq!(ev.digest.result_code, 2);
    assert_eq!(ev.digest.timestamp, 1_700_000_000);
    assert_eq!(ev.digest.session_id, u64_to_fr(9));
    let leaf = poseidon_hash_many(&[pk, u64_to_fr(9), ev.digest.compute_commitment()]);
    assert_eq!(ev.compute_ledger_leaf(), leaf);
    let copy = ev.clone();
    assert_eq!(copy.compute_ledger_leaf(), leaf);
    assert_eq!(copy.masked_parameters.get("amount").and_then(|v| v.as_u64()), Some(7));
}

#[test]
fn fresh_events_get_version_4_ids_and_current_time() {
    let ev = ExecutionEvent::new(
        AgentIdentity::new("a", "o"),
        u64_to_fr(1),
        "t",
        b"",
        JsonValue::Null,
        ExecutionStatus::Success,
    );
    assert_eq!((ev.event_id >> 76) & 0xf, 4);
    assert_eq!((ev.event_id >> 62) & 0x3, 2);
    assert!(ev.timestamp > 1_600_000_000);
}
