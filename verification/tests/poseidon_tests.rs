use ark_ff::{BigInteger, Field, PrimeField};
use sha2::{Digest, Sha256};
use zktrace::field::{bytes32_to_fr, u64_to_fr, Fr};
use zktrace::poseidon::{
    generate_poseidon_parameters, poseidon_config_rate_2, poseidon_config_rate_4, poseidon_hash_1, poseidon_hash_2,
    poseidon_hash_bytes, poseidon_hash_many,
};

#[test]
fn test_poseidon_hash_2_deterministic() {
    let l = u64_to_fr(100u64);
    let r = u64_to_fr(200u64);
    let h1 = poseidon_hash_2(l, r);
    let h2 = poseidon_hash_2(l, r);
    assert_eq!(h1, h2);
    assert_ne!(h1, Fr::zero());

    let h3 = poseidon_hash_2(r, l);
    assert_ne!(h1, h3, "Poseidon hash must not be commutative");
}

#[test]
fn test_poseidon_hash_many() {
    let inputs = vec![u64_to_fr(1u64), u64_to_fr(2u64), u64_to_fr(3u64), u64_to_fr(4u64), u64_to_fr(5u64)];
    let h1 = poseidon_hash_many(&inputs);
    let h2 = poseidon_hash_many(&inputs);
    assert_eq!(h1, h2);
}

#[test]
fn test_poseidon_hash_bytes() {
    let payload_a = b"SELECT * FROM users WHERE tenant_id = 'org_123';";
    let payload_b = b"SELECT * FROM users WHERE tenant_id = 'org_456';";

    let h_a = poseidon_hash_bytes(payload_a);
    let h_b = poseidon_hash_bytes(payload_b);

    assert_ne!(h_a, h_b);
    assert_eq!(h_a, poseidon_hash_bytes(payload_a));
}

#[test]
fn hash_many_of_two_is_hash_2() {
    let a = u64_to_fr(9);
    let b = u64_to_fr(10);
    assert_eq!(poseidon_hash_many(&[a, b]), poseidon_hash_2(a, b));
    assert_eq!(poseidon_hash_many(&[a]), poseidon_hash_1(a));
}

#[test]
fn hash_bytes_of_nothing_is_hash_of_zero() {
    assert_eq!(poseidon_hash_bytes(&[]), poseidon_hash_1(Fr::zero()));
}

#[test]
fn hash_bytes_packs_31_byte_chunks() {
    let data: Vec<u8> = (0u8..40).collect();
    let mut blk1 = [0u8; 32];
    blk1[1..32].copy_from_slice(&data[0..31]);
    let mut blk2 = [0u8; 32];
    blk2[1..10].copy_from_slice(&data[31..40]);
    let expected = poseidon_hash_many(&[bytes32_to_fr(&blk1), bytes32_to_fr(&blk2)]);
    assert_eq!(poseidon_hash_bytes(&data), expected);
    let mut one = [0u8; 32];
    one[1] = 7;
    assert_eq!(poseidon_hash_bytes(&[7]), poseidon_hash_many(&[bytes32_to_fr(&one)]));
}

#[test]
fn parameter_shapes() {
    let p2 = poseidon_config_rate_2();
    assert_eq!((p2.full_rounds, p2.partial_rounds, p2.alpha, p2.rate, p2.capacity), (8, 57, 5, 2, 1));
    assert_eq!(p2.mds.len(), 3);
    assert!(p2.mds.iter().all(|row| row.len() == 3));
    assert_eq!(p2.ark.len(), 65);
    assert!(p2.ark.iter().all(|row| row.len() == 3));
    let p4 = poseidon_config_rate_4();
    assert_eq!((p4.full_rounds, p4.partial_rounds, p4.rate), (8, 60, 4));
    assert_eq!(p4.mds.len(), 5);
    assert_eq!(p4.ark.len(), 68);
    let custom = generate_poseidon_parameters(2, 8, 57, 5);
    assert_eq!(custom.mds, p2.mds);
    assert_eq!(custom.ark, p2.ark);
}

fn ark_to_fr(x: &ark_bn254::Fr) -> Fr {
    let bytes = x.into_bigint().to_bytes_be();
    let mut buf = [0u8; 32];
    buf[32 - bytes.len()..].copy_from_slice(&bytes);
    bytes32_to_fr(&buf)
}

fn tagged(tag: &[u8], words: &[u32]) -> ark_bn254::Fr {
    let mut h = Sha256::new();
    h.update(tag);
    for w in words {
        h.update(w.to_be_bytes());
    }
    ark_bn254::Fr::from_be_bytes_mod_order(&h.finalize())
}

#[test]
fn constants_follow_the_sha256_derivation() {
    let p = poseidon_config_rate_2();
    let c0 = tagged(b"ZKTrace_Poseidon_BN254_RoundConstant_v1", &[0, 2]);
    let c4 = tagged(b"ZKTrace_Poseidon_BN254_RoundConstant_v1", &[4, 2]);
    assert_eq!(p.ark[0][0], ark_to_fr(&c0));
    assert_eq!(p.ark[1][1], ark_to_fr(&c4));
    let x1 = tagged(b"ZKTrace_Poseidon_BN254_MDS_X_v1", &[1]);
    let y2 = tagged(b"ZKTrace_Poseidon_BN254_MDS_Y_v1", &[2]);
    let entry = (x1 + y2).inverse().unwrap();
    assert_eq!(p.mds[1][2], ark_to_fr(&entry));
}
