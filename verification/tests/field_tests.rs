use zktrace::error::CoreError;
use zktrace::field::{be_bytes_to_fr, bytes32_to_fr, bytes_to_fr, fr_to_be_bytes, fr_to_hex, hex_to_fr, u64_to_fr, Fr};

fn fr_from_u128(v: u128) -> Fr {
    let mut b = [0u8; 32];
    b[16..].copy_from_slice(&v.to_be_bytes());
    bytes32_to_fr(&b)
}

#[test]
fn test_u64_conversion() {
    let val = 42u64;
    let fr = u64_to_fr(val);
    assert_eq!(fr, u64_to_fr(42u64));
}

#[test]
fn test_hex_roundtrip() {
    let fr = fr_from_u128(12345678901234567890u128);
    let hex_str = fr_to_hex(&fr);
    assert!(hex_str.starts_with("0x"));
    let recovered = hex_to_fr(&hex_str).expect("Hex decoding should succeed");
    assert_eq!(fr, recovered);
}

#[test]
fn test_bytes_to_fr_deterministic() {
    let input1 = b"test payload prompt";
    let input2 = b"test payload prompt";
    let input3 = b"different prompt";

    let fr1 = bytes_to_fr(input1);
    let fr2 = bytes_to_fr(input2);
    let fr3 = bytes_to_fr(input3);

    assert_eq!(fr1, fr2);
    assert_ne!(fr1, fr3);
}

#[test]
fn fr_to_hex_exact_text() {
    let hex_str = fr_to_hex(&u64_to_fr(255));
    assert_eq!(hex_str, format!("0x{}ff", "0".repeat(62)));
    assert_eq!(fr_to_hex(&Fr::zero()), format!("0x{}", "0".repeat(64)));
}

#[test]
fn fr_to_be_bytes_exact() {
    let b = fr_to_be_bytes(&u64_to_fr(0x0102));
    let mut want = [0u8; 32];
    want[30] = 1;
    want[31] = 2;
    assert_eq!(b, want);
}

#[test]
fn hex_to_fr_accepts_whitespace_and_missing_prefix() {
    assert_eq!(hex_to_fr("  0x2a \n").unwrap(), u64_to_fr(42));
    assert_eq!(hex_to_fr("2a").unwrap(), u64_to_fr(42));
    assert_eq!(hex_to_fr("0x").unwrap(), Fr::zero());
}

#[test]
fn hex_to_fr_rejects_bad_digits() {
    match hex_to_fr("0xzz") {
        Err(CoreError::FieldError(msg)) => assert!(msg.starts_with("Invalid hex string '0xzz'")),
        other => panic!("unexpected result {:?}", other),
    }
    assert!(matches!(hex_to_fr("abc"), Err(CoreError::FieldError(_))));
}

#[test]
fn hex_to_fr_rejects_more_than_32_bytes() {
    let long = format!("0x{}", "11".repeat(33));
    match hex_to_fr(&long) {
        Err(CoreError::FieldError(msg)) => {
            assert_eq!(msg, "Hex string byte length 33 exceeds 32-byte field element capacity")
        }
        other => panic!("unexpected result {:?}", other),
    }
}

#[test]
fn hex_to_fr_reduces_modulo_order() {
    // r + 1 reduces to 1.
    let r_plus_one = "0x30644e72e131a029b85045b68181585d2833e84879b9709143e1f593f0000002";
    assert_eq!(hex_to_fr(r_plus_one).unwrap(), u64_to_fr(1));
}

#[test]
fn be_bytes_to_fr_reads_any_length() {
    assert_eq!(be_bytes_to_fr(&[1, 0]), u64_to_fr(256));
    assert_eq!(be_bytes_to_fr(&[]), Fr::zero());
    let v = 987654321098765432109876543210u128;
    assert_eq!(be_bytes_to_fr(&v.to_be_bytes()), fr_from_u128(v));
}

#[test]
fn fr_order_and_equality_helpers() {
    let a = u64_to_fr(5);
    let b = u64_to_fr(7);
    assert!(a.le(&b));
    assert!(!b.le(&a));
    assert!(a.le(&a));
    assert!(a.equals(&u64_to_fr(5)));
    assert!(!a.equals(&b));
}

#[test]
fn bytes32_to_fr_reduces_modulo_order() {
    let all_ff = [0xffu8; 32];
    let reduced = bytes32_to_fr(&all_ff);
    // 2^256 - 1 mod r, computed independently.
    assert_eq!(fr_to_hex(&reduced), "0x0e0a77c19a07df2f666ea36f7879462e36fc76959f60cd29ac96341c4ffffffa");
}
