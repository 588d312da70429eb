//! Verification of audit receipts: the Groth16 check of the proof and the
//! policy-root, ledger-root and timestamp checks, summed up in a verdict.

use vstd::prelude::*;
use ark_bn254::{Bn254, Fr as ArkFr};
use ark_ff::BigInt;
use ark_groth16::{prepare_verifying_key, Groth16, Proof, VerifyingKey};
use ark_serialize::CanonicalDeserialize;
use ark_snark::SNARK;
use std::time::Instant;
use crate::error::VerifierError;
use crate::field::{Fr, fr_to_hex, spec_fr_hex, u64_to_fr};
use crate::poseidon::{fr_vals, poseidon_hash_many, spec_hash_many};
use crate::receipt::{AuditReceipt, spec_proof_bytes};
use crate::text::{decimal, decimal_string};
use crate::receipt_verifier::Groth16Check::{Checked, CheckFailed, KeyUndecodable, ProofUndecodable};

verus! {

/// Outcome of a receipt verification.
#[derive(Clone, Copy, Debug, PartialEq, Eq, Structural)]
pub enum VerificationVerdict {
    /// Sound proof, matching policy root, ledger inclusion and timestamp.
    Valid,
    /// The Groth16 proof does not verify.
    InvalidProof,
    /// The committed policy root differs from the expected one.
    PolicyRootMismatch,
    /// The inclusion proof fails against the expected ledger root.
    MerkleInclusionFailed,
    /// The execution timestamp lies past the timestamp window.
    TimestampExpired,
    /// The execution digest does not match.
    ExecutionDigestMismatch,
}

/// A detailed verification report.
#[derive(Clone, Debug, PartialEq, Eq)]
pub struct VerificationReport {
    /// Id of the receipt audited.
    pub receipt_id: u128,
    /// The verdict.
    pub verdict: VerificationVerdict,
    /// Whether every check passed.
    pub is_valid: bool,
    /// Whether the Groth16 proof verified.
    pub proof_verified: bool,
    /// Whether the committed policy root matched the expected one.
    pub policy_root_matched: bool,
    /// Whether the Merkle tree inclusion path was mathematically sound: it
    /// leads from the receipt's ledger leaf to the expected ledger root.
    pub merkle_inclusion_verified: bool,
    /// Whether the timestamp lies within its window.
    pub timestamp_valid: bool,
    /// The execution digest commitment in hex.
    pub execution_digest_hex: String,
    /// The policy root in hex.
    pub policy_root_hex: String,
    /// Verification time in microseconds.
    pub duration_micros: u64,
    /// Explanation of the verdict.
    pub details: String,
}

/// What a Groth16 check of serialized proof bytes against serialized
/// verifying-key bytes and public inputs comes to.
#[derive(Clone, Copy, Debug, PartialEq, Eq, Structural)]
pub enum Groth16Check {
    /// The proof bytes do not decode to a proof.
    ProofUndecodable,
    /// The verifying-key bytes do not decode to a key.
    KeyUndecodable,
    /// The pairing check could not be carried out.
    CheckFailed,
    /// The pairing check ran; whether the proof is valid.
    Checked(bool),
}

/// The outcome of the Groth16 check of `proof` (compressed canonical bytes)
/// against the key `vk` (compressed canonical bytes) and the public inputs.
pub uninterp spec fn spec_groth16_check(vk: Seq<u8>, public_inputs: Seq<nat>, proof: Seq<u8>) -> Groth16Check;

/// Decodes the proof and the verifying key with
/// `CanonicalDeserialize::deserialize_compressed`, prepares the key with
/// `prepare_verifying_key` and runs `Groth16::verify_with_processed_vk`. The
/// outcome is named by `spec_groth16_check`; the returned text is the
/// outside error's display and is not stated.
#[verifier::external_body]
fn groth16_check(vk: &[u8], public_inputs: &[Fr], proof: &[u8]) -> (r: (Groth16Check, String))
    ensures
        r.0 == spec_groth16_check(vk@, fr_vals(public_inputs@), proof@),
{
    let xs: Vec<_> = public_inputs.iter().map(|f| ArkFr::from(BigInt::new([f.l0, f.l1, f.l2, f.l3]))).collect();
    match (Proof::deserialize_compressed(proof), VerifyingKey::deserialize_compressed(vk)) {
        (Err(e), _) => (ProofUndecodable, e.to_string()),
        (_, Err(e)) => (KeyUndecodable, e.to_string()),
        (Ok(p), Ok(k)) => match Groth16::<Bn254>::verify_with_processed_vk(&prepare_verifying_key(&k), &xs, &p) {
            Ok(b) => (Checked(b), String::new()),
            Err(e) => (CheckFailed, e.to_string()),
        },
    }
}

/// `std::time::Instant`, a monotonic clock reading, carried through opaquely.
#[verifier::external_type_specification]
#[verifier::external_body]
pub struct ExInstant(Instant);

/// `Instant::now`: a reading of the monotonic clock.
#[verifier::external_body]
fn clock_now() -> (t: Instant) {
    Instant::now()
}

/// `Instant::elapsed` in whole microseconds, truncated to 64 bits. The
/// reading depends on the clock and is not stated.
#[verifier::external_body]
fn micros_since(start: &Instant) -> (us: u64) {
    start.elapsed().as_micros() as u64
}

/// The verdict from the individual checks, the proof check first.
pub open spec fn spec_verdict(
    proof_verified: bool,
    policy_root_matched: bool,
    merkle_inclusion_verified: bool,
    timestamp_valid: bool,
) -> VerificationVerdict {
    if !proof_verified {
        VerificationVerdict::InvalidProof
    } else if !policy_root_matched {
        VerificationVerdict::PolicyRootMismatch
    } else if !merkle_inclusion_verified {
        VerificationVerdict::MerkleInclusionFailed
    } else if !timestamp_valid {
        VerificationVerdict::TimestampExpired
    } else {
        VerificationVerdict::Valid
    }
}

/// A receipt is valid exactly when all four checks pass.
pub proof fn lemma_valid_iff_all_checks(
    proof_verified: bool,
    policy_root_matched: bool,
    merkle_inclusion_verified: bool,
    timestamp_valid: bool,
)
    ensures
        spec_verdict(proof_verified, policy_root_matched, merkle_inclusion_verified, timestamp_valid)
            == VerificationVerdict::Valid <==> (proof_verified && policy_root_matched && merkle_inclusion_verified
            && timestamp_valid),
{
}

/// The explanation of a verdict, with the verification time for a valid one.
pub open spec fn spec_details(verdict: VerificationVerdict, micros: u64) -> Seq<char> {
    match verdict {
        VerificationVerdict::Valid => "Successfully verified in "@ + decimal(micros as nat)
            + " µs. Tool execution strictly adhered to committed policy."@,
        VerificationVerdict::InvalidProof => "Cryptographic pairing checks failed: Proof is forged or invalid."@,
        VerificationVerdict::PolicyRootMismatch => "Committed policy root does not match active enterprise policy."@,
        VerificationVerdict::MerkleInclusionFailed => "Merkle inclusion proof verification failed against committed ledger root."@,
        VerificationVerdict::TimestampExpired => "Execution timestamp exceeded bounded timestamp window."@,
        VerificationVerdict::ExecutionDigestMismatch => "Execution digest mismatch."@,
    }
}

/// The policy root matches: no root is expected, or the committed one is it.
pub open spec fn policy_root_ok(receipt: AuditReceipt, expected: Option<Fr>) -> bool {
    match expected {
        Some(p) => receipt.public_inputs.policy_root_hash == p,
        None => true,
    }
}

/// The ledger leaf that a receipt's public inputs commit to:
/// `Poseidon(agent_pubkey_hash, session_id, execution_digest)`.
pub open spec fn receipt_leaf(receipt: AuditReceipt) -> nat {
    spec_hash_many(
        seq![
            receipt.public_inputs.agent_pubkey_hash.val(),
            receipt.public_inputs.session_id.val(),
            receipt.public_inputs.execution_digest.val(),
        ],
    )
}

/// The ledger inclusion holds: no inclusion proof or no ledger root is
/// given, or the proof's root is the expected one and its path leads from
/// the receipt's ledger leaf to that root.
pub open spec fn inclusion_ok(receipt: AuditReceipt, expected: Option<Fr>) -> bool {
    match (receipt.merkle_inclusion, expected) {
        (Some(inc), Some(lr)) => inc.expected_root == lr && inc.spec_compute_root(receipt_leaf(receipt))
            == inc.expected_root.val(),
        _ => true,
    }
}

/// `e` is the error that verifying `receipt` under the key `vk` ends with:
/// an encoding error when its proof text or bytes do not decode, a key
/// error when the key does not decode, an execution error when the pairing
/// check cannot run.
pub open spec fn verification_error(vk: Seq<u8>, receipt: AuditReceipt, e: VerifierError) -> bool {
    match spec_proof_bytes(receipt.proof.proof_hex@) {
        None => e is InvalidProofEncoding,
        Some(bytes) => match spec_groth16_check(vk, fr_vals(receipt.public_inputs.spec_elements()), bytes) {
            Groth16Check::ProofUndecodable => e is InvalidProofEncoding,
            Groth16Check::KeyUndecodable => e is InvalidVerifyingKey,
            Groth16Check::CheckFailed => e is ExecutionError,
            Groth16Check::Checked(_) => false,
        },
    }
}

/// The timestamp, read as its 64-bit pattern, lies within the window.
pub open spec fn timestamp_ok(receipt: AuditReceipt) -> bool {
    (receipt.timestamp as u64) as nat <= receipt.public_inputs.timestamp_window.val()
}

/// The report of a receipt given the outcome of its Groth16 check.
pub open spec fn reports(
    rep: VerificationReport,
    receipt: AuditReceipt,
    expected_policy_root: Option<Fr>,
    expected_ledger_root: Option<Fr>,
    proof_verified: bool,
    duration_micros: u64,
) -> bool {
    let verdict = spec_verdict(
        proof_verified,
        policy_root_ok(receipt, expected_policy_root),
        inclusion_ok(receipt, expected_ledger_root),
        timestamp_ok(receipt),
    );
    &&& rep.receipt_id == receipt.receipt_id
    &&& rep.verdict == verdict
    &&& rep.is_valid == (verdict == VerificationVerdict::Valid)
    &&& rep.proof_verified == proof_verified
    &&& rep.policy_root_matched == policy_root_ok(receipt, expected_policy_root)
    &&& rep.merkle_inclusion_verified == inclusion_ok(receipt, expected_ledger_root)
    &&& rep.timestamp_valid == timestamp_ok(receipt)
    &&& rep.execution_digest_hex@ == spec_fr_hex(receipt.public_inputs.execution_digest.val())
    &&& rep.policy_root_hex@ == spec_fr_hex(receipt.public_inputs.policy_root_hash.val())
    &&& rep.duration_micros == duration_micros
    &&& rep.details@ == spec_details(verdict, duration_micros)
}

/// A receipt's proof text decodes to bytes and its Groth16 check runs, so
/// that verifying it yields a report rather than an error.
pub open spec fn receipt_checkable(vk: Seq<u8>, receipt: AuditReceipt) -> bool {
    spec_proof_bytes(receipt.proof.proof_hex@) matches Some(bytes) && spec_groth16_check(
        vk,
        fr_vals(receipt.public_inputs.spec_elements()),
        bytes,
    ) is Checked
}

/// `Some(*r)` of an optional reference.
pub open spec fn deref_opt(o: Option<&Fr>) -> Option<Fr> {
    match o {
        Some(r) => Some(*r),
        None => None,
    }
}

/// The explanation text of a verdict.
fn details_text(verdict: VerificationVerdict, micros: u64) -> (r: String)
    ensures
        r@ == spec_details(verdict, micros),
{
    match verdict {
        VerificationVerdict::Valid => {
            let mut s = String::from_str("Successfully verified in ");
            s.append(decimal_string(micros).as_str());
            s.append(" µs. Tool execution strictly adhered to committed policy.");
            s
        },
        VerificationVerdict::InvalidProof => String::from_str(
            "Cryptographic pairing checks failed: Proof is forged or invalid.",
        ),
        VerificationVerdict::PolicyRootMismatch => String::from_str(
            "Committed policy root does not match active enterprise policy.",
        ),
        VerificationVerdict::MerkleInclusionFailed => String::from_str(
            "Merkle inclusion proof verification failed against committed ledger root.",
        ),
        VerificationVerdict::TimestampExpired => String::from_str(
            "Execution timestamp exceeded bounded timestamp window.",
        ),
        VerificationVerdict::ExecutionDigestMismatch => String::from_str("Execution digest mismatch."),
    }
}

/// Builds the report of a receipt from the outcome of its proof check and
/// the time it took: the policy root is compared with the expected one, the
/// inclusion proof's root with the expected ledger root and its path with
/// the receipt's ledger leaf, the timestamp with
/// its window, and the verdict puts the proof check first.
pub fn build_report(
    receipt: &AuditReceipt,
    expected_policy_root: Option<&Fr>,
    expected_ledger_root: Option<&Fr>,
    proof_verified: bool,
    duration_micros: u64,
) -> (rep: VerificationReport)
    ensures
        reports(
            rep,
            *receipt,
            deref_opt(expected_policy_root),
            deref_opt(expected_ledger_root),
            proof_verified,
            duration_micros,
        ),
{
    let policy_root_matched = match expected_policy_root {
        Some(p) => receipt.public_inputs.policy_root_hash == *p,
        None => true,
    };
    let merkle_inclusion_verified = match (&receipt.merkle_inclusion, expected_ledger_root) {
        (Some(inc), Some(lr)) => {
            let pi = &receipt.public_inputs;
            let leaf_inputs = [pi.agent_pubkey_hash, pi.session_id, pi.execution_digest];
            assert(fr_vals(leaf_inputs@) =~= seq![
                pi.agent_pubkey_hash.val(),
                pi.session_id.val(),
                pi.execution_digest.val(),
            ]);
            let leaf = poseidon_hash_many(&leaf_inputs);
            inc.expected_root == *lr && inc.verify(&leaf)
        },
        _ => true,
    };
    let ts_fr = u64_to_fr(receipt.timestamp as u64);
    let timestamp_valid = ts_fr.le(&receipt.public_inputs.timestamp_window);
    let verdict = if !proof_verified {
        VerificationVerdict::InvalidProof
    } else if !policy_root_matched {
        VerificationVerdict::PolicyRootMismatch
    } else if !merkle_inclusion_verified {
        VerificationVerdict::MerkleInclusionFailed
    } else if !timestamp_valid {
        VerificationVerdict::TimestampExpired
    } else {
        VerificationVerdict::Valid
    };
    let is_valid = verdict == VerificationVerdict::Valid;
    VerificationReport {
        receipt_id: receipt.receipt_id,
        verdict,
        is_valid,
        proof_verified,
        policy_root_matched,
        merkle_inclusion_verified,
        timestamp_valid,
        execution_digest_hex: fr_to_hex(&receipt.public_inputs.execution_digest),
        policy_root_hex: fr_to_hex(&receipt.public_inputs.policy_root_hash),
        duration_micros,
        details: details_text(verdict, duration_micros),
    }
}

/// Verifier of audit receipts under one Groth16 verifying key.
#[derive(Clone)]
pub struct ZKTraceVerifier {
    /// The verifying key, as its compressed canonical bytes.
    pub vk: Vec<u8>,
}

impl ZKTraceVerifier {
    /// A verifier for the given verifying key (compressed canonical bytes).
    pub fn new(vk: Vec<u8>) -> (v: ZKTraceVerifier)
        ensures
            v.vk == vk,
    {
        ZKTraceVerifier { vk }
    }

    /// Checks a serialized Groth16 proof against the public inputs: whether
    /// it verifies; fails when the proof or the key does not decode or the
    /// pairing check cannot run.
    pub fn verify_proof_raw(&self, proof: &[u8], public_inputs: &[Fr]) -> (r: Result<bool, VerifierError>)
        ensures
            ({
                let check = spec_groth16_check(self.vk@, fr_vals(public_inputs@), proof@);
                &&& r is Ok <==> check is Checked
                &&& r matches Ok(b) ==> check == Groth16Check::Checked(b)
                &&& check is ProofUndecodable ==> (r matches Err(e) && e is InvalidProofEncoding)
                &&& check is KeyUndecodable ==> (r matches Err(e) && e is InvalidVerifyingKey)
                &&& check is CheckFailed ==> (r matches Err(e) && e is ExecutionError)
            }),
    {
        let (check, why) = groth16_check(self.vk.as_slice(), public_inputs, proof);
        match check {
            Groth16Check::Checked(b) => Ok(b),
            Groth16Check::ProofUndecodable => {
                let mut msg = String::from_str("Failed to deserialize proof: ");
                msg.append(why.as_str());
                Err(VerifierError::InvalidProofEncoding(msg))
            },
            Groth16Check::KeyUndecodable => {
                let mut msg = String::from_str("Failed to deserialize verifying key: ");
                msg.append(why.as_str());
                Err(VerifierError::InvalidVerifyingKey(msg))
            },
            Groth16Check::CheckFailed => {
                let mut msg = String::from_str("Groth16 pairing check failed: ");
                msg.append(why.as_str());
                Err(VerifierError::ExecutionError(msg))
            },
        }
    }

    /// Verifies a receipt against optional expected policy and ledger
    /// roots: decodes its proof, checks it against its public inputs, and
    /// reports the verdict of all checks. Fails when the proof text or bytes
    /// do not decode, the key does not decode or the pairing check cannot run.
    pub fn verify_receipt(
        &self,
        receipt: &AuditReceipt,
        expected_policy_root: Option<&Fr>,
        expected_ledger_root: Option<&Fr>,
    ) -> (r: Result<VerificationReport, VerifierError>)
        ensures
            spec_proof_bytes(receipt.proof.proof_hex@) is None ==> (r matches Err(e) && e is InvalidProofEncoding),
            r matches Err(e) ==> verification_error(self.vk@, *receipt, e),
            spec_proof_bytes(receipt.proof.proof_hex@) matches Some(bytes) ==> {
                let check = spec_groth16_check(self.vk@, fr_vals(receipt.public_inputs.spec_elements()), bytes);
                &&& r is Ok <==> check is Checked
                &&& r matches Ok(rep) ==> check is Checked && reports(
                    rep,
                    *receipt,
                    deref_opt(expected_policy_root),
                    deref_opt(expected_ledger_root),
                    check->0,
                    rep.duration_micros,
                )
            },
    {
        let start = clock_now();
        let proof_bytes = match receipt.proof.to_bytes() {
            Ok(b) => b,
            Err(e) => {
                let mut msg = String::from_str("Failed to decode proof bytes: ");
                msg.append(e.message().as_str());
                return Err(VerifierError::InvalidProofEncoding(msg));
            },
        };
        let public_inputs = receipt.public_inputs.to_field_elements();
        let proof_verified = match self.verify_proof_raw(proof_bytes.as_slice(), public_inputs.as_slice()) {
            Ok(b) => b,
            Err(e) => return Err(e),
        };
        let elapsed = micros_since(&start);
        Ok(build_report(receipt, expected_policy_root, expected_ledger_root, proof_verified, elapsed))
    }

    /// Verifies receipts one after the other; stops at the first failure.
    pub fn verify_batch(
        &self,
        receipts: &[AuditReceipt],
        expected_policy_root: Option<&Fr>,
        expected_ledger_root: Option<&Fr>,
    ) -> (r: Result<Vec<VerificationReport>, VerifierError>)
        ensures
            r is Ok <==> forall|i: int| 0 <= i < receipts@.len() ==> receipt_checkable(self.vk@, #[trigger] receipts@[i]),
            r matches Err(e) ==> exists|i: int|
                0 <= i < receipts@.len() && !receipt_checkable(self.vk@, #[trigger] receipts@[i]) && (forall|j: int|
                    0 <= j < i ==> receipt_checkable(self.vk@, #[trigger] receipts@[j])) && verification_error(
                    self.vk@,
                    receipts@[i],
                    e,
                ),
            r matches Ok(reps) ==> reps@.len() == receipts@.len() && forall|i: int|
                0 <= i < receipts@.len() ==> ({
                    let rc = receipts@[i];
                    spec_proof_bytes(rc.proof.proof_hex@) matches Some(bytes) && spec_groth16_check(
                        self.vk@,
                        fr_vals(rc.public_inputs.spec_elements()),
                        bytes,
                    ) == Groth16Check::Checked((#[trigger] reps@[i]).proof_verified) && reports(
                        reps@[i],
                        rc,
                        deref_opt(expected_policy_root),
                        deref_opt(expected_ledger_root),
                        reps@[i].proof_verified,
                        reps@[i].duration_micros,
                    )
                }),
    {
        let mut reports_out: Vec<VerificationReport> = Vec::new();
        let mut i: usize = 0;
        while i < receipts.len()
            invariant
                i <= receipts@.len(),
                reports_out@.len() == i,
                forall|j: int| 0 <= j < i ==> receipt_checkable(self.vk@, #[trigger] receipts@[j]),
                forall|j: int|
                    0 <= j < i ==> ({
                        let rc = receipts@[j];
                        spec_proof_bytes(rc.proof.proof_hex@) matches Some(bytes) && spec_groth16_check(
                            self.vk@,
                            fr_vals(rc.public_inputs.spec_elements()),
                            bytes,
                        ) == Groth16Check::Checked((#[trigger] reports_out@[j]).proof_verified) && reports(
                            reports_out@[j],
                            rc,
                            deref_opt(expected_policy_root),
                            deref_opt(expected_ledger_root),
                            reports_out@[j].proof_verified,
                            reports_out@[j].duration_micros,
                        )
                    }),
            decreases receipts@.len() - i,
        {
            let rep = match self.verify_receipt(&receipts[i], expected_policy_root, expected_ledger_root) {
                Ok(rep) => rep,
                Err(e) => {
                    proof {
                        assert(!receipt_checkable(self.vk@, receipts@[i as int]));
                    }
                    return Err(e);
                },
            };
            reports_out.push(rep);
            i = i + 1;
        }
        Ok(reports_out)
    }
}

/// The ledger inclusion is only checked when the receipt carries an
/// inclusion proof and a ledger root is expected: otherwise the report
/// records it as verified, and the receipt is valid exactly when its proof,
/// policy root and timestamp checks pass.
pub proof fn lemma_inclusion_needs_proof_and_root(
    rep: VerificationReport,
    receipt: AuditReceipt,
    expected_policy_root: Option<Fr>,
    expected_ledger_root: Option<Fr>,
    proof_verified: bool,
    duration_micros: u64,
)
    requires
        reports(rep, receipt, expected_policy_root, expected_ledger_root, proof_verified, duration_micros),
        receipt.merkle_inclusion is None || expected_ledger_root is None,
    ensures
        rep.merkle_inclusion_verified,
        rep.is_valid <==> (proof_verified && rep.policy_root_matched && rep.timestamp_valid),
{
}

/// For a receipt without an inclusion proof, expecting a ledger root
/// changes nothing: the report equals, field by field, the one made with no
/// expected ledger root.
pub proof fn lemma_ledger_root_irrelevant_without_inclusion(
    with_root: VerificationReport,
    without_root: VerificationReport,
    receipt: AuditReceipt,
    expected_policy_root: Option<Fr>,
    ledger_root: Fr,
    proof_verified: bool,
    duration_micros: u64,
)
    requires
        receipt.merkle_inclusion is None,
        reports(with_root, receipt, expected_policy_root, Some(ledger_root), proof_verified, duration_micros),
        reports(without_root, receipt, expected_policy_root, None, proof_verified, duration_micros),
    ensures
        with_root.verdict == without_root.verdict,
        with_root.is_valid == without_root.is_valid,
        with_root.merkle_inclusion_verified && without_root.merkle_inclusion_verified,
        with_root.details@ == without_root.details@,
{
}

} // verus!
