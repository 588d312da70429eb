//! Audit receipts, their public inputs and hex-encoded proof containers.

use vstd::prelude::*;
use vstd::utf8::encode_utf8;
use crate::error::CoreError;
use crate::field::{Fr, hex_lower, hex_decode_spec, hex_body, hex_encode, hex_decode, lemma_prefixed_hex_decodes};
use crate::merkle::MerkleProof;
use crate::text::{str_trim, str_strip_prefix, string_push};

verus! {

/// Serialized Groth16 proof bytes, kept as `0x`-prefixed hex text.
#[derive(Debug, PartialEq, Eq)]
pub struct ProofBytes {
    /// The proof encoded as `0x` followed by lower-case hex digits.
    pub proof_hex: String,
}

/// The bytes that the hex text of a proof decodes to, if it decodes:
/// surrounding whitespace and one `0x` prefix are ignored.
pub open spec fn spec_proof_bytes(proof_hex: Seq<char>) -> Option<Seq<u8>> {
    hex_decode_spec(encode_utf8(hex_body(proof_hex)))
}

impl ProofBytes {
    /// Wraps raw proof bytes as `0x` followed by their lower-case hex.
    pub fn from_bytes(bytes: &[u8]) -> (r: ProofBytes)
        ensures
            r.proof_hex@ == seq!['0', 'x'] + hex_lower(bytes@),
    {
        let digits = hex_encode(bytes);
        let mut s = String::new();
        string_push(&mut s, '0');
        string_push(&mut s, 'x');
        s.append(digits.as_str());
        ProofBytes { proof_hex: s }
    }

    /// Decodes the hex text back into raw bytes; fails with a
    /// serialization error on text that is not hexadecimal.
    pub fn to_bytes(&self) -> (r: Result<Vec<u8>, CoreError>)
        ensures
            r is Ok <==> spec_proof_bytes(self.proof_hex@) is Some,
            r matches Ok(v) ==> spec_proof_bytes(self.proof_hex@) == Some(v@),
            r matches Err(e) ==> e is SerializationError,
    {
        let trimmed = str_trim(self.proof_hex.as_str());
        let clean = match str_strip_prefix(trimmed, "0x") {
            Some(t) => t,
            None => trimmed,
        };
        proof {
            reveal_strlit("0x");
            assert("0x"@ =~= seq!['0', 'x']);
            assert(clean@ == hex_body(self.proof_hex@));
        }
        match hex_decode(clean) {
            Ok(b) => Ok(b),
            Err(e) => {
                let mut msg = String::from_str("Invalid proof hex string: ");
                msg.append(e.to_string().as_str());
                Err(CoreError::SerializationError(msg))
            },
        }
    }
}

impl Clone for ProofBytes {
    fn clone(&self) -> (r: Self)
        ensures
            r == *self,
    {
        ProofBytes { proof_hex: self.proof_hex.clone() }
    }
}

/// Decoding the hex text of wrapped bytes gives the bytes back.
pub proof fn lemma_proof_bytes_roundtrip(bytes: Seq<u8>)
    ensures
        spec_proof_bytes(seq!['0', 'x'] + hex_lower(bytes)) == Some(bytes),
{
    lemma_prefixed_hex_decodes(bytes);
}

/// The public inputs of the policy circuit, in the order of its public wires.
#[derive(Clone, Copy, Debug, PartialEq, Eq, Structural)]
pub struct PublicInputs {
    /// Merkle root of the committed policy.
    pub policy_root_hash: Fr,
    /// Commitment of the execution digest.
    pub execution_digest: Fr,
    /// Identity commitment of the agent.
    pub agent_pubkey_hash: Fr,
    /// Session nonce.
    pub session_id: Fr,
    /// Upper bound of the timestamp window.
    pub timestamp_window: Fr,
}

impl PublicInputs {
    /// The public inputs as field elements, in wire order.
    pub open spec fn spec_elements(self) -> Seq<Fr> {
        seq![self.policy_root_hash, self.execution_digest, self.agent_pubkey_hash, self.session_id, self.timestamp_window]
    }

    /// The ordered list of field elements handed to the Groth16 verifier.
    pub fn to_field_elements(&self) -> (r: Vec<Fr>)
        ensures
            r@ == self.spec_elements(),
    {
        let mut v: Vec<Fr> = Vec::new();
        v.push(self.policy_root_hash);
        v.push(self.execution_digest);
        v.push(self.agent_pubkey_hash);
        v.push(self.session_id);
        v.push(self.timestamp_window);
        assert(v@ =~= self.spec_elements());
        v
    }
}

/// A standalone cryptographic audit receipt.
#[derive(Debug, PartialEq, Eq)]
pub struct AuditReceipt {
    /// Unique receipt UUID, as its 128-bit integer.
    pub receipt_id: u128,
    /// UUID of the execution event this receipt proves.
    pub event_id: u128,
    /// Public inputs checked by the proof.
    pub public_inputs: PublicInputs,
    /// The zero-knowledge execution proof.
    pub proof: ProofBytes,
    /// Inclusion proof in the append-only execution ledger.
    pub merkle_inclusion: Option<MerkleProof>,
    /// Ledger root at the time of issuance.
    pub ledger_root: Fr,
    /// Creation timestamp in UTC seconds.
    pub timestamp: i64,
}

/// Two optional inclusion proofs carry the same content.
pub open spec fn same_inclusion(a: Option<MerkleProof>, b: Option<MerkleProof>) -> bool {
    match (a, b) {
        (Some(p), Some(q)) => p.leaf_index == q.leaf_index && p.steps@ == q.steps@ && p.expected_root == q.expected_root,
        (None, None) => true,
        _ => false,
    }
}

impl AuditReceipt {
    /// Two receipts carry the same content.
    pub open spec fn same_content(self, other: AuditReceipt) -> bool {
        &&& self.receipt_id == other.receipt_id
        &&& self.event_id == other.event_id
        &&& self.public_inputs == other.public_inputs
        &&& self.proof == other.proof
        &&& same_inclusion(self.merkle_inclusion, other.merkle_inclusion)
        &&& self.ledger_root == other.ledger_root
        &&& self.timestamp == other.timestamp
    }
}

impl Clone for AuditReceipt {
    fn clone(&self) -> (r: Self)
        ensures
            r.same_content(*self),
    {
        let merkle_inclusion = match &self.merkle_inclusion {
            Some(p) => Some(p.clone()),
            None => None,
        };
        AuditReceipt {
            receipt_id: self.receipt_id,
            event_id: self.event_id,
            public_inputs: self.public_inputs,
            proof: self.proof.clone(),
            merkle_inclusion,
            ledger_root: self.ledger_root,
            timestamp: self.timestamp,
        }
    }
}

} // verus!
