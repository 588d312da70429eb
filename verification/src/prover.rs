//! The parts of proving that surround the Groth16 calls: the template
//! assignment used for key generation, the public inputs of an assignment,
//! and the receipt around a serialized proof.

use vstd::prelude::*;
use crate::error::ProverError;
use crate::execution::ExecutionEvent;
use crate::field::{Fr, u64_to_fr};
use crate::ids::{random_uuid, uuid_v4_bits};
use crate::ledger::proves_leaf;
use crate::merkle::{MerkleProof, MerkleTree, spec_root};
use crate::receipt::{AuditReceipt, ProofBytes, PublicInputs};
use crate::field::hex_lower;
use crate::witness::{ExecutionPolicyCircuit, WitnessSynthesizer, holds_val};
use crate::policy::PolicyTree;
use crate::receipt_verifier::timestamp_ok;

verus! {

/// The template assignment from which the circuit's constraint structure
/// is extracted for key generation: a policy tree of the given depth
/// holding the single leaf 1, its path, and fixed sample values.
pub fn template_circuit(policy_tree_depth: usize) -> (r: Result<ExecutionPolicyCircuit, ProverError>)
    requires
        1 <= policy_tree_depth <= 32,
    ensures
        r matches Ok(c) && {
            &&& holds_val(c.policy_root_hash, spec_root(seq![1nat], policy_tree_depth as nat))
            &&& c.policy_proof matches Some(p) && proves_leaf(p, seq![1nat], 0, policy_tree_depth as nat)
            &&& holds_val(c.execution_digest, 1)
            &&& holds_val(c.agent_pubkey_hash, 1)
            &&& holds_val(c.session_id, 1)
            &&& holds_val(c.timestamp_window, 100_000)
            &&& holds_val(c.tool_id_hash, 1)
            &&& holds_val(c.param_digest, 1)
            &&& holds_val(c.raw_prompt_hash, 1)
            &&& holds_val(c.rule_leaf, 1)
            &&& c.param_value == Some(10u64)
            &&& c.param_max_bound == Some(100u64)
            &&& c.result_code == Some(0u32)
            &&& c.timestamp == Some(50_000i64)
        },
{
    let mut dummy_tree = MerkleTree::new(policy_tree_depth);
    let one = u64_to_fr(1);
    proof {
        vstd::arithmetic::power2::lemma_pow2_pos(policy_tree_depth as nat);
    }
    match dummy_tree.insert(one) {
        Ok(_) => {},
        Err(e) => {
            let mut msg = String::from_str("Failed to build template tree: ");
            msg.append(e.message().as_str());
            return Err(ProverError::SetupError(msg));
        },
    }
    assert(dummy_tree.leaf_values() =~= seq![1nat]);
    let dummy_proof = match dummy_tree.generate_proof(0) {
        Ok(p) => p,
        Err(e) => {
            let mut msg = String::from_str("Failed to build template proof: ");
            msg.append(e.message().as_str());
            return Err(ProverError::SetupError(msg));
        },
    };
    Ok(ExecutionPolicyCircuit {
        policy_root_hash: Some(dummy_tree.root()),
        execution_digest: Some(u64_to_fr(1)),
        agent_pubkey_hash: Some(u64_to_fr(1)),
        session_id: Some(u64_to_fr(1)),
        timestamp_window: Some(u64_to_fr(100_000)),
        tool_id_hash: Some(u64_to_fr(1)),
        param_digest: Some(u64_to_fr(1)),
        raw_prompt_hash: Some(u64_to_fr(1)),
        rule_leaf: Some(u64_to_fr(1)),
        policy_proof: Some(dummy_proof),
        param_value: Some(10),
        param_max_bound: Some(100),
        result_code: Some(0),
        timestamp: Some(50_000),
    })
}

/// The public inputs of an assignment, in wire order; fails with a witness
/// error naming the first one that is missing.
pub fn public_inputs_of(circuit: &ExecutionPolicyCircuit) -> (r: Result<PublicInputs, ProverError>)
    ensures
        r is Ok <==> circuit.policy_root_hash is Some && circuit.execution_digest is Some
            && circuit.agent_pubkey_hash is Some && circuit.session_id is Some && circuit.timestamp_window is Some,
        r matches Ok(p) ==> {
            &&& circuit.policy_root_hash == Some(p.policy_root_hash)
            &&& circuit.execution_digest == Some(p.execution_digest)
            &&& circuit.agent_pubkey_hash == Some(p.agent_pubkey_hash)
            &&& circuit.session_id == Some(p.session_id)
            &&& circuit.timestamp_window == Some(p.timestamp_window)
        },
        r matches Err(e) ==> e is WitnessError,
{
    let policy_root_hash = match circuit.policy_root_hash {
        Some(x) => x,
        None => return Err(ProverError::WitnessError(String::from_str("Missing policy root in synthesized circuit"))),
    };
    let execution_digest = match circuit.execution_digest {
        Some(x) => x,
        None => return Err(
            ProverError::WitnessError(String::from_str("Missing execution digest in synthesized circuit")),
        ),
    };
    let agent_pubkey_hash = match circuit.agent_pubkey_hash {
        Some(x) => x,
        None => return Err(ProverError::WitnessError(String::from_str("Missing agent pubkey in synthesized circuit"))),
    };
    let session_id = match circuit.session_id {
        Some(x) => x,
        None => return Err(ProverError::WitnessError(String::from_str("Missing session id in synthesized circuit"))),
    };
    let timestamp_window = match circuit.timestamp_window {
        Some(x) => x,
        None => return Err(
            ProverError::WitnessError(String::from_str("Missing timestamp window in synthesized circuit")),
        ),
    };
    Ok(PublicInputs { policy_root_hash, execution_digest, agent_pubkey_hash, session_id, timestamp_window })
}

/// The receipt around a serialized proof of an event: a fresh random
/// receipt id, the event's id and timestamp, the public inputs, the proof
/// bytes as hex, and the given inclusion proof and ledger root.
pub fn receipt_for_proof(
    event: &ExecutionEvent,
    public_inputs: PublicInputs,
    proof_bytes: &[u8],
    merkle_inclusion: Option<MerkleProof>,
    ledger_root: Fr,
) -> (r: AuditReceipt)
    ensures
        uuid_v4_bits(r.receipt_id),
        r.event_id == event.event_id,
        r.public_inputs == public_inputs,
        r.proof.proof_hex@ == seq!['0', 'x'] + hex_lower(proof_bytes@),
        r.merkle_inclusion == merkle_inclusion,
        r.ledger_root == ledger_root,
        r.timestamp == event.timestamp,
{
    AuditReceipt {
        receipt_id: random_uuid(),
        event_id: event.event_id,
        public_inputs,
        proof: ProofBytes::from_bytes(proof_bytes),
        merkle_inclusion,
        ledger_root,
        timestamp: event.timestamp,
    }
}

/// A receipt issued for a synthesized assignment, carrying its public
/// inputs and its event's timestamp, passes the timestamp-window check.
pub proof fn lemma_fresh_receipt_within_window(
    c: ExecutionPolicyCircuit,
    event: ExecutionEvent,
    policy_tree: PolicyTree,
    tree_depth: nat,
    raw_prompt: Option<Seq<u8>>,
    timestamp_window_secs: u64,
    receipt: AuditReceipt,
)
    requires
        WitnessSynthesizer::synthesized(c, event, policy_tree, tree_depth, raw_prompt, timestamp_window_secs),
        (event.timestamp as u64) + timestamp_window_secs <= u64::MAX,
        c.timestamp_window == Some(receipt.public_inputs.timestamp_window),
        receipt.timestamp == event.timestamp,
    ensures
        timestamp_ok(receipt),
{
}

} // verus!
