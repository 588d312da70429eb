use zktrace::error::ProverError;
use zktrace::execution::{AgentIdentity, ExecutionEvent, ExecutionStatus};
use zktrace::field::u64_to_fr;
use zktrace::json::{JsonNumber, JsonValue};
use zktrace::merkle::MerkleTree;
use zktrace::policy::{ConstraintType, ParamConstraint, PolicyRule, PolicyTree};
use zktrace::poseidon::poseidon_hash_bytes;
use zktrace::prover::{public_inputs_of, receipt_for_proof, template_circuit};
use zktrace::witness::WitnessSynthesizer;

fn object(members: Vec<(&str, JsonValue)>) -> JsonValue {
    JsonValue::Object(members.into_iter().map(|(k, v)| (k.to_string(), v)).collect())
}

fn amount(n: u64) -> JsonValue {
    object(vec![("amount", JsonValue::Number(JsonNumber::PosInt(n)))])
}

#[test]
fn test_witness_synthesizer_success() {
    let agent = AgentIdentity::new("agent_test", "acme_corp");
    let session_id = u64_to_fr(5555u64);
    let raw_json = br#"{"amount": 2500}"#;
    let masked = amount(2500);

    let event = ExecutionEvent::new(agent, session_id, "sql_query", raw_json, masked, ExecutionStatus::Success);

    let mut policy_tree = PolicyTree::new("test-policy", 1);
    let rule = PolicyRule::new("sql_query", "SQL query tool").with_constraint(ParamConstraint {
        param_name: "amount".to_string(),
        constraint: ConstraintType::MaxSpendLimit { max_amount: 10_000 },
    });
    policy_tree.add_rule(rule);

    let circuit = WitnessSynthesizer::synthesize(&event, &policy_tree, 4, None, 3600).expect("Synthesis must succeed");

    assert!(circuit.policy_root_hash.is_some());
    assert_eq!(circuit.param_value, Some(2500));
    assert_eq!(circuit.param_max_bound, Some(10_000));
}

fn event_at(tool: &str, masked: JsonValue) -> ExecutionEvent {
    ExecutionEvent::new_at(
        AgentIdentity::new("ag", "org"),
        u64_to_fr(42),
        tool,
        b"{}",
        masked,
        ExecutionStatus::Success,
        1,
        1_000,
    )
}

#[test]
fn synthesis_fills_every_wire() {
    let ev = event_at("pay", amount(30));
    let mut policy = PolicyTree::new("p", 1);
    let rule = PolicyRule::new("pay", "").with_constraint(ParamConstraint {
        param_name: "amount".to_string(),
        constraint: ConstraintType::NumericRange { min: 10, max: 50 },
    });
    let leaf = rule.compute_leaf();
    policy.add_rule(PolicyRule::new("other", ""));
    policy.add_rule(rule);
    let c = WitnessSynthesizer::synthesize(&ev, &policy, 3, Some(b"prompt"), 60).unwrap();
    assert_eq!(c.policy_root_hash, Some(policy.compute_policy_root(3).unwrap()));
    assert_eq!(c.execution_digest, Some(ev.digest.compute_commitment()));
    assert_eq!(c.agent_pubkey_hash, Some(ev.agent.pubkey_hash));
    assert_eq!(c.session_id, Some(u64_to_fr(42)));
    assert_eq!(c.timestamp_window, Some(u64_to_fr(1_060)));
    assert_eq!(c.tool_id_hash, Some(poseidon_hash_bytes(b"pay")));
    assert_eq!(c.param_digest, Some(poseidon_hash_bytes(b"{}")));
    assert_eq!(c.raw_prompt_hash, Some(poseidon_hash_bytes(b"prompt")));
    assert_eq!(c.rule_leaf, Some(leaf));
    let p = c.policy_proof.as_ref().unwrap();
    assert_eq!(p.leaf_index, 1);
    assert!(p.verify(&leaf));
    assert_eq!(p.expected_root, c.policy_root_hash.unwrap());
    assert_eq!(c.param_value, Some(30));
    assert_eq!(c.param_max_bound, Some(50));
    assert_eq!(c.result_code, Some(0));
    assert_eq!(c.timestamp, Some(1_000));
    let pi = public_inputs_of(&c).unwrap();
    assert_eq!(pi.policy_root_hash, c.policy_root_hash.unwrap());
    assert_eq!(pi.timestamp_window, u64_to_fr(1_060));
}

#[test]
fn synthesis_refuses_unlisted_tool() {
    let ev = event_at("missing", JsonValue::Null);
    let policy = PolicyTree::new("corp", 1);
    match WitnessSynthesizer::synthesize(&ev, &policy, 2, None, 1) {
        Err(ProverError::PolicyViolation(msg)) => {
            assert_eq!(msg, "Tool 'missing' is not whitelisted in policy 'corp'")
        }
        other => panic!("unexpected {:?}", other.map(|c| c.param_value)),
    }
}

#[test]
fn synthesis_fails_when_rules_overflow_tree() {
    let ev = event_at("a", JsonValue::Null);
    let mut policy = PolicyTree::new("p", 1);
    for n in ["a", "b", "c"] {
        policy.add_rule(PolicyRule::new(n, ""));
    }
    assert!(matches!(WitnessSynthesizer::synthesize(&ev, &policy, 1, None, 1), Err(ProverError::WitnessError(_))));
}

#[test]
fn parameters_without_integer_argument_keep_bound_only() {
    let ev = event_at("t", object(vec![("amount", JsonValue::String("many".to_string()))]));
    let mut policy = PolicyTree::new("p", 1);
    policy.add_rule(PolicyRule::new("t", "").with_constraint(ParamConstraint {
        param_name: "amount".to_string(),
        constraint: ConstraintType::MaxSpendLimit { max_amount: 9 },
    }));
    let c = WitnessSynthesizer::synthesize(&ev, &policy, 2, None, 0).unwrap();
    assert_eq!(c.param_value, None);
    assert_eq!(c.param_max_bound, Some(9));
    assert_eq!(c.raw_prompt_hash, None);
}

#[test]
fn template_assignment_for_key_generation() {
    let c = template_circuit(4).unwrap();
    let mut t = MerkleTree::new(4);
    t.insert(u64_to_fr(1)).unwrap();
    assert_eq!(c.policy_root_hash, Some(t.root()));
    assert!(c.policy_proof.as_ref().unwrap().verify(&u64_to_fr(1)));
    assert_eq!(c.timestamp_window, Some(u64_to_fr(100_000)));
    assert_eq!((c.param_value, c.param_max_bound, c.result_code, c.timestamp), (Some(10), Some(100), Some(0), Some(50_000)));
}

#[test]
fn public_inputs_need_every_public_wire() {
    let mut c = template_circuit(2).unwrap();
    c.session_id = None;
    match public_inputs_of(&c) {
        Err(ProverError::WitnessError(msg)) => assert_eq!(msg, "Missing session id in synthesized circuit"),
        other => panic!("unexpected {:?}", other),
    }
}

#[test]
fn receipt_wraps_proof_bytes_as_hex() {
    let ev = event_at("t", JsonValue::Null);
    let c = template_circuit(2).unwrap();
    let pi = public_inputs_of(&c).unwrap();
    let r = receipt_for_proof(&ev, pi, &[0xde, 0xad], None, u64_to_fr(3));
    assert_eq!(r.proof.proof_hex, "0xdead");
    assert_eq!(r.event_id, ev.event_id);
    assert_eq!(r.timestamp, 1_000);
    assert_eq!(r.public_inputs, pi);
    assert_eq!(r.ledger_root, u64_to_fr(3));
    assert_eq!((r.receipt_id >> 76) & 0xf, 4);
}

#[test]
fn default_assignment_is_empty() {
    let c = zktrace::witness::ExecutionPolicyCircuit::default();
    assert!(c.policy_root_hash.is_none() && c.policy_proof.is_none() && c.timestamp.is_none());
    assert!(matches!(public_inputs_of(&c), Err(ProverError::WitnessError(_))));
}

#[test]
fn fresh_receipt_passes_timestamp_check() {
    let ev = event_at("pay", amount(1));
    let mut policy = PolicyTree::new("p", 1);
    policy.add_rule(PolicyRule::new("pay", ""));
    let c = WitnessSynthesizer::synthesize(&ev, &policy, 2, None, 3600).unwrap();
    let pi = public_inputs_of(&c).unwrap();
    let r = receipt_for_proof(&ev, pi, &[1], None, u64_to_fr(0));
    let report = zktrace::receipt_verifier::build_report(&r, None, None, true, 0);
    assert!(report.timestamp_valid);
    assert!(report.is_valid);
}

#[test]
fn duplicate_rules_prove_the_first_rule_leaf() {
    let ev = event_at("dup", amount(1));
    let mut policy = PolicyTree::new("p", 1);
    policy.add_rule(PolicyRule::new("dup", "first"));
    policy.add_rule(PolicyRule::new("dup", "second").with_constraint(ParamConstraint {
        param_name: "amount".to_string(),
        constraint: ConstraintType::MaxSpendLimit { max_amount: 5 },
    }));
    let c = WitnessSynthesizer::synthesize(&ev, &policy, 2, None, 1).unwrap();
    let p = c.policy_proof.as_ref().unwrap();
    assert_eq!(p.leaf_index, 0);
    assert_eq!(c.rule_leaf, Some(policy.rules[0].compute_leaf()));
    assert_eq!(p.expected_root, c.policy_root_hash.unwrap());
    assert!(p.verify(&c.rule_leaf.unwrap()));
    assert!(!p.verify(&policy.rules[1].compute_leaf()));
}
