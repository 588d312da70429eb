use zktrace::health::{probe_address, probe_request, response_is_healthy};
use zktrace::policy::{ConstraintType, PolicyTree};
use zktrace::poseidon::poseidon_hash_bytes;

#[test]
fn wildcard_bind_is_probed_on_loopback() {
    assert_eq!(probe_address("0.0.0.0", 8080), "127.0.0.1:8080");
    assert_eq!(probe_address("zktrace-verifier", 80), "zktrace-verifier:80");
}

#[test]
fn probe_request_text() {
    assert_eq!(
        probe_request("127.0.0.1:8080"),
        "GET /health HTTP/1.1\r\nHost: 127.0.0.1:8080\r\nUser-Agent: zktrace-healthcheck\r\nConnection: close\r\nAccept: application/json\r\n\r\n"
    );
}

#[test]
fn healthy_replies_open_with_status_200() {
    assert!(response_is_healthy(b"HTTP/1.1 200 OK\r\n\r\n{}"));
    assert!(response_is_healthy(b"HTTP/1.0 200 OK"));
    assert!(!response_is_healthy(b"HTTP/1.1 503 Service Unavailable"));
    assert!(!response_is_healthy(b"HTTP/1.1 20"));
    assert!(!response_is_healthy(b""));
}

#[test]
fn default_policy_rules() {
    let p = PolicyTree::default_policy();
    assert_eq!(p.policy_id, "enterprise-default-policy");
    assert_eq!(p.version, 1);
    assert_eq!(p.rules.len(), 2);
    assert_eq!(p.rules[0].tool_name, "postgres_query");
    assert_eq!(p.rules[0].constraints[0].constraint, ConstraintType::ReadOnlyOnly);
    assert_eq!(p.rules[1].tool_name, "stripe_payment");
    assert_eq!(p.rules[1].tool_id_hash, poseidon_hash_bytes(b"stripe_payment"));
    assert_eq!(p.rules[1].constraints[0].constraint, ConstraintType::MaxSpendLimit { max_amount: 100_000 });
    assert!(p.compute_policy_root(4).is_ok());
}
