use zktrace::error::CoreError;
use zktrace::field::u64_to_fr;
use zktrace::receipt::{ProofBytes, PublicInputs};

#[test]
fn proof_bytes_roundtrip() {
    let p = ProofBytes::from_bytes(&[1, 2, 3, 4, 5, 6, 7, 8]);
    assert_eq!(p.proof_hex, "0x0102030405060708");
    assert_eq!(p.to_bytes().unwrap(), vec![1, 2, 3, 4, 5, 6, 7, 8]);
    assert_eq!(ProofBytes::from_bytes(&[]).to_bytes().unwrap(), Vec::<u8>::new());
}

#[test]
fn proof_bytes_accept_spaces_and_missing_prefix() {
    let p = ProofBytes { proof_hex: "  0xAbCd\t".to_string() };
    assert_eq!(p.to_bytes().unwrap(), vec![0xab, 0xcd]);
    let q = ProofBytes { proof_hex: "abcd".to_string() };
    assert_eq!(q.to_bytes().unwrap(), vec![0xab, 0xcd]);
}

#[test]
fn proof_bytes_reject_bad_hex() {
    for bad in ["0xabc", "0xzz", "0x0x12"] {
        match (ProofBytes { proof_hex: bad.to_string() }).to_bytes() {
            Err(CoreError::SerializationError(msg)) => assert!(msg.starts_with("Invalid proof hex string: ")),
            other => panic!("unexpected {:?} for {}", other, bad),
        }
    }
}

#[test]
fn public_inputs_in_wire_order() {
    let pi = PublicInputs {
        policy_root_hash: u64_to_fr(100),
        execution_digest: u64_to_fr(200),
        agent_pubkey_hash: u64_to_fr(300),
        session_id: u64_to_fr(400),
        timestamp_window: u64_to_fr(500),
    };
    assert_eq!(
        pi.to_field_elements(),
        vec![u64_to_fr(100), u64_to_fr(200), u64_to_fr(300), u64_to_fr(400), u64_to_fr(500)]
    );
}
