use ark_bn254::{Bn254, Fr as ArkFr};
use ark_ff::PrimeField;
use ark_groth16::{Groth16, ProvingKey};
use ark_relations::r1cs::{ConstraintSynthesizer, ConstraintSystemRef, LinearCombination, SynthesisError, Variable};
use ark_serialize::CanonicalSerialize;
use ark_snark::SNARK;
use rand::rngs::StdRng;
use rand::SeedableRng;
use zktrace::error::VerifierError;
use zktrace::execution::{AgentIdentity, ExecutionEvent, ExecutionStatus};
use zktrace::field::{fr_to_be_bytes, fr_to_hex, u64_to_fr, Fr};
use zktrace::json::{JsonNumber, JsonValue};
use zktrace::ledger::CryptographicLedger;
use zktrace::mcp::{route_client_request, JsonRpcRequest, ProxyAction};
use zktrace::merkle::{MerkleProof, MerkleTree};
use zktrace::policy::{ConstraintType, ParamConstraint, PolicyRule, PolicyTree};
use zktrace::poseidon::poseidon_hash_many;
use zktrace::prover::{public_inputs_of, receipt_for_proof};
use zktrace::receipt::{AuditReceipt, ProofBytes, PublicInputs};
use zktrace::receipt_verifier::{build_report, VerificationVerdict, ZKTraceVerifier};
use zktrace::witness::WitnessSynthesizer;

/// A circuit with five public inputs, each copied from a private witness.
struct FiveInputs {
    vals: [ArkFr; 5],
}

impl ConstraintSynthesizer<ArkFr> for FiveInputs {
    fn generate_constraints(self, cs: ConstraintSystemRef<ArkFr>) -> Result<(), SynthesisError> {
        for v in self.vals {
            let x = cs.new_input_variable(|| Ok(v))?;
            let w = cs.new_witness_variable(|| Ok(v))?;
            cs.enforce_constraint(
                LinearCombination::from(w),
                LinearCombination::from(Variable::One),
                LinearCombination::from(x),
            )?;
        }
        Ok(())
    }
}

fn to_ark(fr: &Fr) -> ArkFr {
    ArkFr::from_be_bytes_mod_order(&fr_to_be_bytes(fr))
}

fn inputs(vals: [u64; 5]) -> PublicInputs {
    PublicInputs {
        policy_root_hash: u64_to_fr(vals[0]),
        execution_digest: u64_to_fr(vals[1]),
        agent_pubkey_hash: u64_to_fr(vals[2]),
        session_id: u64_to_fr(vals[3]),
        timestamp_window: u64_to_fr(vals[4]),
    }
}

/// The proving key and the verifying-key bytes of the five-input circuit.
fn setup() -> (ProvingKey<Bn254>, Vec<u8>) {
    let mut rng = StdRng::seed_from_u64(7);
    let zero = [ArkFr::from(0u64); 5];
    let (pk, vk) = Groth16::<Bn254>::circuit_specific_setup(FiveInputs { vals: zero }, &mut rng).unwrap();
    let mut vk_bytes = Vec::new();
    vk.serialize_compressed(&mut vk_bytes).unwrap();
    (pk, vk_bytes)
}

/// Proof bytes for the given public inputs.
fn prove(pk: &ProvingKey<Bn254>, pi: &PublicInputs) -> Vec<u8> {
    let elems = pi.to_field_elements();
    let vals = [to_ark(&elems[0]), to_ark(&elems[1]), to_ark(&elems[2]), to_ark(&elems[3]), to_ark(&elems[4])];
    let mut rng = StdRng::seed_from_u64(11);
    let proof = Groth16::<Bn254>::prove(pk, FiveInputs { vals }, &mut rng).unwrap();
    let mut proof_bytes = Vec::new();
    proof.serialize_compressed(&mut proof_bytes).unwrap();
    proof_bytes
}

/// Verifying-key bytes and a proof for the public inputs `vals`.
fn keys_and_proof(vals: [u64; 5]) -> (Vec<u8>, Vec<u8>) {
    let (pk, vk) = setup();
    (vk, prove(&pk, &inputs(vals)))
}

/// The receipt of an event proved under a policy with a tree of depth 4
/// and a one-hour timestamp window.
fn prove_execution(pk: &ProvingKey<Bn254>, event: &ExecutionEvent, policy: &PolicyTree, ledger_root: Fr) -> AuditReceipt {
    let circuit = WitnessSynthesizer::synthesize(event, policy, 4, None, 3600).unwrap();
    let pi = public_inputs_of(&circuit).unwrap();
    let proof = prove(pk, &pi);
    receipt_for_proof(event, pi, &proof, None, ledger_root)
}

fn object(members: Vec<(&str, JsonValue)>) -> JsonValue {
    JsonValue::Object(members.into_iter().map(|(k, v)| (k.to_string(), v)).collect())
}

fn receipt(vals: [u64; 5], proof: &[u8], timestamp: i64, inclusion: Option<MerkleProof>) -> AuditReceipt {
    AuditReceipt {
        receipt_id: 9,
        event_id: 8,
        public_inputs: inputs(vals),
        proof: ProofBytes::from_bytes(proof),
        merkle_inclusion: inclusion,
        ledger_root: u64_to_fr(0),
        timestamp,
    }
}

const VALS: [u64; 5] = [11, 22, 33, 44, 1_000];

#[test]
fn valid_receipt_verifies() {
    let (vk, proof) = keys_and_proof(VALS);
    let verifier = ZKTraceVerifier::new(vk);
    let rep = verifier.verify_receipt(&receipt(VALS, &proof, 999, None), None, None).unwrap();
    assert!(rep.is_valid);
    assert_eq!(rep.verdict, VerificationVerdict::Valid);
    assert!(rep.proof_verified && rep.policy_root_matched && rep.merkle_inclusion_verified && rep.timestamp_valid);
    assert_eq!(rep.receipt_id, 9);
    assert_eq!(rep.execution_digest_hex, fr_to_hex(&u64_to_fr(22)));
    assert_eq!(rep.policy_root_hex, fr_to_hex(&u64_to_fr(11)));
    assert!(rep.details.starts_with("Successfully verified in "));
    assert!(verifier.verify_proof_raw(&proof, &[u64_to_fr(11), u64_to_fr(22), u64_to_fr(33), u64_to_fr(44), u64_to_fr(1_000)]).unwrap());
}

#[test]
fn policy_mismatch_is_reported() {
    let (vk, proof) = keys_and_proof(VALS);
    let verifier = ZKTraceVerifier::new(vk);
    let wrong = u64_to_fr(12);
    let rep = verifier.verify_receipt(&receipt(VALS, &proof, 999, None), Some(&wrong), None).unwrap();
    assert!(!rep.is_valid);
    assert_eq!(rep.verdict, VerificationVerdict::PolicyRootMismatch);
    assert_eq!(rep.details, "Committed policy root does not match active enterprise policy.");
    let right = u64_to_fr(11);
    let ok = verifier.verify_receipt(&receipt(VALS, &proof, 999, None), Some(&right), None).unwrap();
    assert!(ok.is_valid);
}

#[test]
fn forged_inputs_are_an_invalid_proof() {
    let (vk, proof) = keys_and_proof(VALS);
    let verifier = ZKTraceVerifier::new(vk);
    let forged = [11, 23, 33, 44, 1_000];
    let rep = verifier.verify_receipt(&receipt(forged, &proof, 999, None), None, None).unwrap();
    assert_eq!(rep.verdict, VerificationVerdict::InvalidProof);
    assert!(!rep.proof_verified);
    assert_eq!(rep.details, "Cryptographic pairing checks failed: Proof is forged or invalid.");
}

#[test]
fn late_timestamp_and_ledger_mismatch_are_reported() {
    let (vk, proof) = keys_and_proof(VALS);
    let verifier = ZKTraceVerifier::new(vk);
    let late = verifier.verify_receipt(&receipt(VALS, &proof, 1_001, None), None, None).unwrap();
    assert_eq!(late.verdict, VerificationVerdict::TimestampExpired);
    let on_edge = verifier.verify_receipt(&receipt(VALS, &proof, 1_000, None), None, None).unwrap();
    assert_eq!(on_edge.verdict, VerificationVerdict::Valid);
    // The ledger leaf the public inputs commit to: Poseidon(agent, session, digest).
    let leaf = poseidon_hash_many(&[u64_to_fr(33), u64_to_fr(44), u64_to_fr(22)]);
    let mut tree = MerkleTree::new(3);
    tree.insert(u64_to_fr(1)).unwrap();
    tree.insert(leaf).unwrap();
    let inc = tree.generate_proof(1).unwrap();
    let lr_ok = tree.root();
    let r = receipt(VALS, &proof, 10, Some(inc.clone()));
    let lr_bad = u64_to_fr(6);
    let rep = verifier.verify_receipt(&r, None, Some(&lr_bad)).unwrap();
    assert_eq!(rep.verdict, VerificationVerdict::MerkleInclusionFailed);
    assert!(!rep.merkle_inclusion_verified);
    let good = verifier.verify_receipt(&r, None, Some(&lr_ok)).unwrap();
    assert!(good.is_valid);
    assert!(good.merkle_inclusion_verified);
    // Same root, tampered path: the inclusion fails.
    let mut tampered = inc.clone();
    tampered.steps[0].sibling = u64_to_fr(99);
    let rt = receipt(VALS, &proof, 10, Some(tampered));
    let rep_t = verifier.verify_receipt(&rt, None, Some(&lr_ok)).unwrap();
    assert!(!rep_t.merkle_inclusion_verified);
    assert!(!rep_t.is_valid);
    assert_eq!(rep_t.verdict, VerificationVerdict::MerkleInclusionFailed);
    assert_eq!(rep_t.details, "Merkle inclusion proof verification failed against committed ledger root.");
    // A path for another leaf of the same tree fails too.
    let other = tree.generate_proof(0).unwrap();
    let ro = receipt(VALS, &proof, 10, Some(other));
    assert!(!verifier.verify_receipt(&ro, None, Some(&lr_ok)).unwrap().merkle_inclusion_verified);
    let batch = verifier
        .verify_batch(&[receipt(VALS, &proof, 1, None), receipt(VALS, &proof, 2_000, None)], None, None)
        .unwrap();
    assert_eq!(batch.len(), 2);
    assert_eq!(batch[0].verdict, VerificationVerdict::Valid);
    assert_eq!(batch[1].verdict, VerificationVerdict::TimestampExpired);
}

#[test]
fn undecodable_proofs_and_keys_are_errors() {
    let (vk, proof) = keys_and_proof(VALS);
    let verifier = ZKTraceVerifier::new(vk);
    let mut bad_hex = receipt(VALS, &proof, 1, None);
    bad_hex.proof = ProofBytes { proof_hex: "0xnothex".to_string() };
    match verifier.verify_receipt(&bad_hex, None, None) {
        Err(VerifierError::InvalidProofEncoding(msg)) => assert!(msg.starts_with("Failed to decode proof bytes: ")),
        other => panic!("unexpected {:?}", other),
    }
    let garbage = receipt(VALS, &[1, 2, 3], 1, None);
    match verifier.verify_receipt(&garbage, None, None) {
        Err(VerifierError::InvalidProofEncoding(msg)) => assert!(msg.starts_with("Failed to deserialize proof: ")),
        other => panic!("unexpected {:?}", other),
    }
    let no_key = ZKTraceVerifier::new(vec![0u8; 3]);
    assert!(matches!(
        no_key.verify_receipt(&receipt(VALS, &proof, 1, None), None, None),
        Err(VerifierError::InvalidVerifyingKey(_))
    ));
    assert!(matches!(verifier.verify_proof_raw(&proof, &[u64_to_fr(1)]), Err(VerifierError::ExecutionError(_))));
}

#[test]
fn report_puts_the_proof_check_first() {
    let r = receipt(VALS, &[], 5_000, None);
    let wrong = u64_to_fr(0);
    let rep = build_report(&r, Some(&wrong), None, false, 12);
    assert_eq!(rep.verdict, VerificationVerdict::InvalidProof);
    assert!(!rep.policy_root_matched);
    assert!(!rep.timestamp_valid);
    let rep2 = build_report(&r, None, None, true, 12);
    assert_eq!(rep2.verdict, VerificationVerdict::TimestampExpired);
    let fine = receipt(VALS, &[], 5, None);
    let rep3 = build_report(&fine, None, None, true, 12);
    assert_eq!(rep3.details, "Successfully verified in 12 µs. Tool execution strictly adhered to committed policy.");
    assert_eq!(rep3.duration_micros, 12);
}

#[test]
fn test_instant_verifier_valid_receipt() {
    let (pk, vk) = setup();
    let verifier = ZKTraceVerifier::new(vk);

    let mut policy = PolicyTree::new("prod-policy", 1);
    let rule = PolicyRule::new("query_database", "Read-only SQL").with_constraint(ParamConstraint {
        param_name: "max_rows".to_string(),
        constraint: ConstraintType::NumericRange { min: 1, max: 1000 },
    });
    let rule_leaf = rule.compute_leaf();
    policy.add_rule(rule);

    let mut policy_merkle = MerkleTree::new(4);
    policy_merkle.insert(rule_leaf).unwrap();
    let expected_policy_root = policy_merkle.root();

    let agent = AgentIdentity::new("db-analyst-agent", "corp");
    let session_id = u64_to_fr(9999u64);
    let event = ExecutionEvent::new(
        agent,
        session_id,
        "query_database",
        br#"{"query": "SELECT * FROM analytics", "max_rows": 500}"#,
        object(vec![("max_rows", JsonValue::Number(JsonNumber::PosInt(500)))]),
        ExecutionStatus::Success,
    );

    let ledger_tree = MerkleTree::new(4);
    let receipt = prove_execution(&pk, &event, &policy, ledger_tree.root());

    let report = verifier.verify_receipt(&receipt, Some(&expected_policy_root), None).expect("Verification failed");
    assert!(report.is_valid);
    assert_eq!(report.verdict, VerificationVerdict::Valid);
    assert!(report.proof_verified);
    assert!(report.policy_root_matched);
}

#[test]
fn test_instant_verifier_detects_policy_mismatch() {
    let (pk, vk) = setup();
    let verifier = ZKTraceVerifier::new(vk);

    let mut policy = PolicyTree::new("prod-policy", 1);
    policy.add_rule(PolicyRule::new("query_database", "Read-only SQL"));

    let agent = AgentIdentity::new("db-analyst-agent", "corp");
    let event = ExecutionEvent::new(
        agent,
        u64_to_fr(9999u64),
        "query_database",
        b"{}",
        object(vec![]),
        ExecutionStatus::Success,
    );

    let ledger_tree = MerkleTree::new(4);
    let receipt = prove_execution(&pk, &event, &policy, ledger_tree.root());

    let wrong_policy_root = u64_to_fr(123456789u64);
    let report = verifier.verify_receipt(&receipt, Some(&wrong_policy_root), None).unwrap();
    assert!(!report.is_valid);
    assert_eq!(report.verdict, VerificationVerdict::PolicyRootMismatch);
    assert!(!report.policy_root_matched);
}

#[test]
fn test_instant_verifier_detects_forged_proof() {
    let (pk, vk) = setup();
    let verifier = ZKTraceVerifier::new(vk);

    let mut policy = PolicyTree::new("prod-policy", 1);
    policy.add_rule(PolicyRule::new("tool_a", "desc"));

    let agent = AgentIdentity::new("agent", "corp");
    let event = ExecutionEvent::new(agent, u64_to_fr(1u64), "tool_a", b"{}", object(vec![]), ExecutionStatus::Success);

    let mut receipt = prove_execution(&pk, &event, &policy, u64_to_fr(0u64));
    receipt.public_inputs.session_id = u64_to_fr(9999999u64);

    let report = verifier.verify_receipt(&receipt, None, None).unwrap();
    assert!(!report.is_valid);
    assert_eq!(report.verdict, VerificationVerdict::InvalidProof);
}

fn tool_call_request(id: u64, name: &str, arguments: JsonValue) -> JsonRpcRequest {
    JsonRpcRequest {
        jsonrpc: "2.0".to_string(),
        id: JsonValue::Number(JsonNumber::PosInt(id)),
        method: "tools/call".to_string(),
        params: Some(object(vec![("name", JsonValue::String(name.to_string())), ("arguments", arguments)])),
    }
}

#[test]
fn test_full_enterprise_ai_agent_audit_lifecycle() {
    let tree_depth = 4;
    let (pk, vk) = setup();
    let verifier = ZKTraceVerifier::new(vk);

    let mut policy = PolicyTree::new("enterprise-agent-governance-v1", 1);
    policy.add_rule(
        PolicyRule::new("execute_sql", "Read-only SQL queries on analytics warehouse").with_constraint(ParamConstraint {
            param_name: "query_type".to_string(),
            constraint: ConstraintType::ReadOnlyOnly,
        }),
    );
    policy.add_rule(
        PolicyRule::new("charge_card", "Stripe payment gateway with $5,000 limit").with_constraint(ParamConstraint {
            param_name: "amount_cents".to_string(),
            constraint: ConstraintType::MaxSpendLimit { max_amount: 500_000 },
        }),
    );
    let policy_root = policy.compute_policy_root(tree_depth).expect("Policy root failed");

    let mut ledger = CryptographicLedger::open_in_memory(tree_depth);
    let agent = AgentIdentity::new("autonomous_finance_agent_01", "enterprise_corp");
    let session_id = u64_to_fr(0xbeefcafeu64);

    let calls = vec![
        tool_call_request(
            1,
            "execute_sql",
            object(vec![
                ("query_type", JsonValue::String("SELECT".to_string())),
                ("statement", JsonValue::String("SELECT count(*) FROM orders;".to_string())),
            ]),
        ),
        tool_call_request(
            2,
            "charge_card",
            object(vec![
                ("amount_cents", JsonValue::Number(JsonNumber::PosInt(150000))),
                ("currency", JsonValue::String("usd".to_string())),
            ]),
        ),
    ];
    for req in calls {
        match route_client_request(&policy, req) {
            ProxyAction::Forward { request: _, tool_call } => {
                let tc = tool_call.unwrap();
                let event = ExecutionEvent::new(
                    agent.clone(),
                    session_id,
                    &tc.name,
                    b"{}",
                    tc.arguments.clone(),
                    ExecutionStatus::Success,
                );
                let current_root = ledger.get_root();
                let receipt = prove_execution(&pk, &event, &policy, current_root);
                ledger.append_execution(&event, Some(receipt)).expect("Audit completed");
            },
            ProxyAction::Reject { .. } => panic!("A compliant tool call was rejected!"),
        }
    }

    assert_eq!(ledger.count(), 2);
    let bundle = ledger.export_bundle(0, 10).expect("Export bundle failed");
    assert_eq!(bundle.leaf_count, 2);
    assert_eq!(bundle.receipts.len(), 2);

    let reports = verifier
        .verify_batch(&bundle.receipts, Some(&policy_root), Some(&bundle.ledger_root))
        .expect("Auditor batch verification failed");
    assert_eq!(reports.len(), 2);
    for (i, report) in reports.iter().enumerate() {
        assert!(report.is_valid, "Receipt #{} must be cryptographically valid", i + 1);
        assert_eq!(report.verdict, VerificationVerdict::Valid);
        assert!(report.proof_verified);
        assert!(report.policy_root_matched);
        assert!(report.merkle_inclusion_verified);
        assert!(report.duration_micros < 50_000, "Verification must complete in milliseconds");
    }
}
