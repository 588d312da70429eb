//! Elements of the BN254 scalar field and their canonical conversions.

use vstd::prelude::*;
use vstd::arithmetic::power::*;
use vstd::string::StringSliceAdditionalSpecFns;
use crate::bytes::{be_nat, pow256, lemma_pow256_pos, lemma_pow256_succ, lemma_be_nat_concat, lemma_be_nat_bound, lemma_be_nat_leading_zeros};
use crate::error::CoreError;
use crate::text::{trim, trim_start, trim_end, has_prefix, is_unicode_whitespace, str_trim, str_strip_prefix, string_push, decimal_string};
use ark_bn254::Fr as ArkFr;
use ark_ff::{BigInt, Field, PrimeField};
use sha2::{Digest, Sha256};

verus! {

/// The order `r` of the BN254 scalar field.
pub open spec fn field_modulus() -> nat {
    21888242871839275222246405745257275088548364400416034343698204186575808495617nat
}

/// `2^64`.
pub open spec fn limb_base() -> nat {
    0x1_0000_0000_0000_0000nat
}

/// An element of the BN254 scalar field, held as the four little-endian
/// 64-bit limbs of its canonical representative in `0..r`.
#[derive(Clone, Copy, Debug, PartialEq, Eq, Structural)]
pub struct Fr {
    pub(crate) l0: u64,
    pub(crate) l1: u64,
    pub(crate) l2: u64,
    pub(crate) l3: u64,
}

impl Fr {
    /// The integer in `0..r` that this element stands for.
    pub closed spec fn val(self) -> nat {
        self.l0 as nat + limb_base() * (self.l1 as nat + limb_base() * (self.l2 as nat
            + limb_base() * self.l3 as nat))
    }

    /// Canonical form: the value lies below the field modulus.
    #[verifier::type_invariant]
    pub open spec fn wf(self) -> bool {
        self.val() < field_modulus()
    }

    /// The zero element.
    pub fn zero() -> (r: Fr)
        ensures
            r.val() == 0,
    {
        Fr { l0: 0, l1: 0, l2: 0, l3: 0 }
    }

    /// Whether two elements are the same field element.
    pub fn equals(&self, other: &Fr) -> (b: bool)
        ensures
            b <==> self.val() == other.val(),
    {
        proof {
            lemma_fr_val_injective(*self, *other);
        }
        self.l0 == other.l0 && self.l1 == other.l1 && self.l2 == other.l2 && self.l3 == other.l3
    }

    /// Whether this element's canonical integer is at most the other's.
    pub fn le(&self, other: &Fr) -> (b: bool)
        ensures
            b <==> self.val() <= other.val(),
    {
        proof {
            lemma_fr_val_lex(*self, *other);
        }
        if self.l3 != other.l3 {
            self.l3 < other.l3
        } else if self.l2 != other.l2 {
            self.l2 < other.l2
        } else if self.l1 != other.l1 {
            self.l1 < other.l1
        } else {
            self.l0 <= other.l0
        }
    }
}

proof fn lemma_limbs_unique(a0: nat, a1: nat, b0: nat, b1: nat)
    requires
        a0 < limb_base(),
        b0 < limb_base(),
        a0 + limb_base() * a1 == b0 + limb_base() * b1,
    ensures
        a0 == b0,
        a1 == b1,
{
    assert(a0 == b0 && a1 == b1) by (nonlinear_arith)
        requires
            a0 < limb_base(),
            b0 < limb_base(),
            a0 + limb_base() * a1 == b0 + limb_base() * b1,
            limb_base() > 0,
    {
        if a1 < b1 {
            assert(limb_base() * a1 + limb_base() <= limb_base() * b1);
        } else if a1 > b1 {
            assert(limb_base() * b1 + limb_base() <= limb_base() * a1);
        }
    }
}

proof fn lemma_limbs_lex(a0: nat, a1: nat, b0: nat, b1: nat)
    requires
        a0 < limb_base(),
        b0 < limb_base(),
    ensures
        a1 < b1 ==> a0 + limb_base() * a1 < b0 + limb_base() * b1,
        a1 == b1 ==> (a0 + limb_base() * a1 <= b0 + limb_base() * b1 <==> a0 <= b0),
{
    if a1 < b1 {
        assert(a0 + limb_base() * a1 < b0 + limb_base() * b1) by (nonlinear_arith)
            requires
                a0 < limb_base(),
                a1 < b1,
        {
            assert(limb_base() * a1 + limb_base() <= limb_base() * b1);
        }
    }
}

/// Two elements are equal exactly when their values are.
pub proof fn lemma_fr_val_injective(a: Fr, b: Fr)
    ensures
        a == b <==> a.val() == b.val(),
{
    if a.val() == b.val() {
        let a3 = a.l3 as nat;
        let b3 = b.l3 as nat;
        let a2 = a.l2 as nat + limb_base() * a3;
        let b2 = b.l2 as nat + limb_base() * b3;
        let a1 = a.l1 as nat + limb_base() * a2;
        let b1 = b.l1 as nat + limb_base() * b2;
        lemma_limbs_unique(a.l0 as nat, a1, b.l0 as nat, b1);
        lemma_limbs_unique(a.l1 as nat, a2, b.l1 as nat, b2);
        lemma_limbs_unique(a.l2 as nat, a3, b.l2 as nat, b3);
    }
}

proof fn lemma_fr_val_lex(a: Fr, b: Fr)
    ensures
        a.val() <= b.val() <==> (if a.l3 != b.l3 {
            a.l3 < b.l3
        } else if a.l2 != b.l2 {
            a.l2 < b.l2
        } else if a.l1 != b.l1 {
            a.l1 < b.l1
        } else {
            a.l0 <= b.l0
        }),
{
    let a3 = a.l3 as nat;
    let b3 = b.l3 as nat;
    let a2 = a.l2 as nat + limb_base() * a3;
    let b2 = b.l2 as nat + limb_base() * b3;
    let a1 = a.l1 as nat + limb_base() * a2;
    let b1 = b.l1 as nat + limb_base() * b2;
    lemma_limbs_lex(a.l2 as nat, a3, b.l2 as nat, b3);
    lemma_limbs_lex(b.l2 as nat, b3, a.l2 as nat, a3);
    lemma_limbs_lex(a.l1 as nat, a2, b.l1 as nat, b2);
    lemma_limbs_lex(b.l1 as nat, b2, a.l1 as nat, a2);
    lemma_limbs_lex(a.l0 as nat, a1, b.l0 as nat, b1);
    lemma_limbs_lex(b.l0 as nat, b1, a.l0 as nat, a1);
}

/// The integer held by four little-endian 64-bit limbs.
pub open spec fn limbs_val(l: [u64; 4]) -> nat {
    l@[0] as nat + limb_base() * (l@[1] as nat + limb_base() * (l@[2] as nat + limb_base() * l@[3] as nat))
}

/// The field element with the given canonical limbs.
pub(crate) fn fr_from_limbs(l: [u64; 4]) -> (r: Fr)
    requires
        limbs_val(l) < field_modulus(),
    ensures
        r.val() == limbs_val(l),
{
    Fr { l0: l[0], l1: l[1], l2: l[2], l3: l[3] }
}

/// Converts a 64-bit unsigned integer into a field element.
pub fn u64_to_fr(val: u64) -> (r: Fr)
    ensures
        r.val() == val,
{
    Fr { l0: val, l1: 0, l2: 0, l3: 0 }
}

/// `PrimeField::from_be_bytes_mod_order`: reads `bytes` as a big-endian
/// integer and reduces it modulo the field order.
#[verifier::external_body]
pub(crate) fn fr_from_be_bytes_mod_order(bytes: &[u8]) -> (r: Fr)
    ensures
        r.val() == be_nat(bytes@) % field_modulus(),
{
    let b = ArkFr::from_be_bytes_mod_order(bytes).into_bigint().0;
    Fr { l0: b[0], l1: b[1], l2: b[2], l3: b[3] }
}

/// Field addition (`Add` on `ark_bn254::Fr`).
#[verifier::external_body]
pub(crate) fn fr_add(a: &Fr, b: &Fr) -> (r: Fr)
    ensures
        r.val() == (a.val() + b.val()) % field_modulus(),
{
    let x = ArkFr::from_bigint(BigInt::new([a.l0, a.l1, a.l2, a.l3])).unwrap();
    let y = ArkFr::from_bigint(BigInt::new([b.l0, b.l1, b.l2, b.l3])).unwrap();
    let s = (x + y).into_bigint().0;
    Fr { l0: s[0], l1: s[1], l2: s[2], l3: s[3] }
}

/// `x` is an inverse of `a` in the field: below the modulus, with product one.
pub open spec fn is_fr_inverse(a: nat, x: nat) -> bool {
    x < field_modulus() && (a * x) % field_modulus() == 1
}

/// The multiplicative inverse of `a` in the field.
pub open spec fn spec_fr_inverse(a: nat) -> nat {
    choose|x: nat| #[trigger] is_fr_inverse(a, x)
}

/// An element whose product with `a` is one is the inverse of `a`: there
/// is only one below the modulus.
pub proof fn lemma_fr_inverse_unique(a: nat, x: nat)
    requires
        x < field_modulus(),
        (a * x) % field_modulus() == 1,
    ensures
        x == spec_fr_inverse(a),
{
    let p = field_modulus();
    assert(is_fr_inverse(a, x));
    let y = spec_fr_inverse(a);
    assert(is_fr_inverse(a, y));
    let (xi, yi, ai, pi) = (x as int, y as int, a as int, p as int);
    vstd::arithmetic::div_mod::lemma_small_mod(x, p);
    vstd::arithmetic::div_mod::lemma_small_mod(y, p);
    vstd::arithmetic::div_mod::lemma_mul_mod_noop_right(xi, ai * yi, pi);
    assert(xi * ((ai * yi) % pi) == xi);
    vstd::arithmetic::mul::lemma_mul_is_associative(xi, ai, yi);
    vstd::arithmetic::mul::lemma_mul_is_commutative(xi, ai);
    vstd::arithmetic::div_mod::lemma_mul_mod_noop_left(xi * ai, yi, pi);
    assert(((xi * ai) % pi) * yi == yi);
}

/// Multiplicative inverse (`Field::inverse` on `ark_bn254::Fr`): none for
/// zero, otherwise the element whose product with `a` is one.
#[verifier::external_body]
pub(crate) fn fr_inverse(a: &Fr) -> (r: Option<Fr>)
    ensures
        r is None <==> a.val() == 0,
        r matches Some(x) ==> (a.val() * x.val()) % field_modulus() == 1,
{
    let x = ArkFr::from_bigint(BigInt::new([a.l0, a.l1, a.l2, a.l3])).unwrap();
    x.inverse().map(|i| {
        let s = i.into_bigint().0;
        Fr { l0: s[0], l1: s[1], l2: s[2], l3: s[3] }
    })
}

/// The SHA-256 digest of a byte string.
pub uninterp spec fn spec_sha256(data: Seq<u8>) -> Seq<u8>;

/// `Sha256::digest`: the 32-byte SHA-256 digest of `data`.
#[verifier::external_body]
pub(crate) fn sha256_digest(data: &[u8]) -> (d: [u8; 32])
    ensures
        d@ == spec_sha256(data@),
{
    Sha256::digest(data).into()
}

/// Hashes arbitrary bytes with SHA-256 and reduces the big-endian digest
/// modulo the field order.
pub fn bytes_to_fr(bytes: &[u8]) -> (r: Fr)
    ensures
        r.val() == be_nat(spec_sha256(bytes@)) % field_modulus(),
{
    let digest = sha256_digest(bytes);
    fr_from_be_bytes_mod_order(&digest)
}

/// Reads big-endian bytes of any length as an integer and reduces it
/// modulo the field order (the value of a big unsigned integer's bytes).
pub fn be_bytes_to_fr(bytes: &[u8]) -> (r: Fr)
    ensures
        r.val() == be_nat(bytes@) % field_modulus(),
{
    fr_from_be_bytes_mod_order(bytes)
}

/// Reads 32 big-endian bytes as an integer and reduces it modulo the field order.
pub fn bytes32_to_fr(bytes: &[u8; 32]) -> (r: Fr)
    ensures
        r.val() == be_nat(bytes@) % field_modulus(),
{
    fr_from_be_bytes_mod_order(bytes)
}

/// The `n` big-endian bytes of `v` modulo `256^n`.
pub open spec fn be_fixed(v: nat, n: nat) -> Seq<u8>
    decreases n,
{
    if n == 0 {
        seq![]
    } else {
        be_fixed(v / 256, (n - 1) as nat).push((v % 256) as u8)
    }
}

/// A byte string is the fixed-width encoding of the value it reads as.
pub proof fn lemma_be_fixed_unique(s: Seq<u8>)
    ensures
        s == be_fixed(be_nat(s), s.len()),
    decreases s.len(),
{
    if s.len() > 0 {
        let d = s.drop_last();
        lemma_be_fixed_unique(d);
        let v = be_nat(s);
        assert(v == be_nat(d) * 256 + s.last() as nat);
        assert(v / 256 == be_nat(d) && v % 256 == s.last() as nat) by (nonlinear_arith)
            requires
                v == be_nat(d) * 256 + s.last() as nat,
                s.last() < 256,
        ;
        assert(s =~= be_fixed(v / 256, d.len()).push((v % 256) as u8));
    }
}

/// Reading back a fixed-width encoding gives the value, when it fits.
pub proof fn lemma_be_nat_of_fixed(v: nat, n: nat)
    requires
        v < pow256(n),
    ensures
        be_nat(be_fixed(v, n)) == v,
        be_fixed(v, n).len() == n,
    decreases n,
{
    if n == 0 {
        reveal(pow);
    } else {
        lemma_pow256_succ((n - 1) as nat);
        lemma_pow256_pos((n - 1) as nat);
        let p = pow256((n - 1) as nat);
        assert(v / 256 < p) by (nonlinear_arith)
            requires
                v < 256 * p,
        ;
        lemma_be_nat_of_fixed(v / 256, (n - 1) as nat);
        let f = be_fixed(v, n);
        assert(f.drop_last() =~= be_fixed(v / 256, (n - 1) as nat));
        assert(v == (v / 256) * 256 + v % 256) by (nonlinear_arith);
    }
}

proof fn lemma_pow256_8()
    ensures
        pow256(8) == limb_base(),
{
    reveal_with_fuel(pow, 9);
}

proof fn lemma_pow256_32()
    ensures
        pow256(32) > field_modulus(),
{
    reveal_with_fuel(pow, 33);
}

/// The `n` big-endian bytes of `x`, for `x < 256^n`.
pub fn be_bytes_n(x: u64, n: usize) -> (r: Vec<u8>)
    requires
        n <= 8,
        x < pow256(n as nat),
    ensures
        r@ == be_fixed(x as nat, n as nat),
        r@.len() == n,
        be_nat(r@) == x,
{
    let mut out: Vec<u8> = Vec::new();
    let mut c: usize = 0;
    while c < n
        invariant
            c <= n,
            out@.len() == c,
            forall|j: int| 0 <= j < c ==> out@[j] == 0,
        decreases n - c,
    {
        out.push(0u8);
        c = c + 1;
    }
    let mut y: u64 = x;
    let mut k: usize = n;
    proof {
        reveal(pow);
        assert(out@.subrange(n as int, n as int) =~= Seq::<u8>::empty());
        assert(be_nat(Seq::<u8>::empty()) == 0);
        assert(pow256(0) == 1);
        assert(y * pow256(0) == y) by (nonlinear_arith)
            requires
                pow256(0) == 1,
        ;
    }
    while k > 0
        invariant
            k <= n,
            n <= 8,
            out@.len() == n,
            x == y * pow256((n - k) as nat) + be_nat(out@.subrange(k as int, n as int)),
        decreases k,
    {
        let ghost old_suffix = out@.subrange(k as int, n as int);
        let ghost old_y = y;
        k = k - 1;
        let b: u8 = (y % 256) as u8;
        out.set(k, b);
        y = y / 256;
        proof {
            let suffix = out@.subrange(k as int, n as int);
            assert(suffix =~= seq![b] + old_suffix);
            lemma_be_nat_concat(seq![b], old_suffix);
            assert(seq![b].drop_last() =~= Seq::<u8>::empty());
            assert(be_nat(Seq::<u8>::empty()) == 0);
            assert(be_nat(seq![b]) == b as nat);
            let e = (n - (k + 1)) as nat;
            lemma_pow256_succ(e);
            assert((n - k) as nat == e + 1);
            assert(old_y == y * 256 + b as nat) by (nonlinear_arith)
                requires
                    y == old_y / 256,
                    b as nat == old_y % 256,
            ;
            let p = pow256(e);
            assert(old_y * p == y * (256 * p) + (b as nat) * p) by (nonlinear_arith)
                requires
                    old_y == y * 256 + b as nat,
            ;
        }
    }
    proof {
        assert(out@.subrange(0, n as int) =~= out@);
        lemma_be_nat_bound(out@);
        assert(y == 0) by (nonlinear_arith)
            requires
                x == y * pow256(n as nat) + be_nat(out@),
                x < pow256(n as nat),
        ;
        lemma_be_fixed_unique(out@);
    }
    out
}

/// The canonical 32-byte big-endian encoding of a field element.
pub fn fr_to_be_bytes(fr: &Fr) -> (r: [u8; 32])
    ensures
        r@ == be_fixed(fr.val(), 32),
        be_nat(r@) == fr.val(),
{
    proof {
        lemma_pow256_8();
    }
    let b3 = be_bytes_n(fr.l3, 8);
    let b2 = be_bytes_n(fr.l2, 8);
    let b1 = be_bytes_n(fr.l1, 8);
    let b0 = be_bytes_n(fr.l0, 8);
    let mut out = [0u8; 32];
    let mut i: usize = 0;
    while i < 8
        invariant
            i <= 8,
            out@.len() == 32,
            b3@.len() == 8,
            b2@.len() == 8,
            b1@.len() == 8,
            b0@.len() == 8,
            forall|j: int| 0 <= j < i ==> out@[j] == b3@[j] && out@[8 + j] == b2@[j] && out@[16
                + j] == b1@[j] && out@[24 + j] == b0@[j],
        decreases 8 - i,
    {
        out[i] = b3[i];
        out[8 + i] = b2[i];
        out[16 + i] = b1[i];
        out[24 + i] = b0[i];
        i = i + 1;
    }
    proof {
        assert(out@ =~= b3@ + b2@ + b1@ + b0@);
        lemma_be_nat_concat(b3@, b2@);
        lemma_be_nat_concat(b3@ + b2@, b1@);
        lemma_be_nat_concat(b3@ + b2@ + b1@, b0@);
        assert((b3@ + b2@).len() == 16);
        let v3 = fr.l3 as nat;
        let v2 = fr.l2 as nat;
        let v1 = fr.l1 as nat;
        let v0 = fr.l0 as nat;
        assert(((v3 * limb_base() + v2) * limb_base() + v1) * limb_base() + v0 == v0 + limb_base()
            * (v1 + limb_base() * (v2 + limb_base() * v3))) by (nonlinear_arith);
        lemma_be_fixed_unique(out@);
    }
    out
}

/// Lower-case hexadecimal digit for `n < 16`.
pub open spec fn hex_digit(n: nat) -> char {
    if n < 10 {
        (48 + n) as char
    } else {
        (87 + n) as char
    }
}

/// Lower-case hexadecimal text of a byte string, two digits per byte.
pub open spec fn hex_lower(b: Seq<u8>) -> Seq<char> {
    Seq::new(
        2 * b.len(),
        |i: int|
            if i % 2 == 0 {
                hex_digit(b[i / 2] as nat / 16)
            } else {
                hex_digit(b[i / 2] as nat % 16)
            },
    )
}

/// Value of an ASCII hexadecimal digit of either case.
pub open spec fn hex_value(c: u8) -> Option<nat> {
    if 48 <= c && c <= 57 {
        Some((c - 48) as nat)
    } else if 97 <= c && c <= 102 {
        Some((c - 87) as nat)
    } else if 65 <= c && c <= 70 {
        Some((c - 55) as nat)
    } else {
        None
    }
}

/// Hexadecimal decoding of a byte string: `None` for an odd length or a
/// non-hexadecimal byte, otherwise one byte per pair of digits.
pub open spec fn hex_decode_spec(s: Seq<u8>) -> Option<Seq<u8>> {
    if s.len() % 2 != 0 {
        None
    } else if exists|i: int| 0 <= i < s.len() && #[trigger] hex_value(s[i]) is None {
        None
    } else {
        Some(
            Seq::new(
                s.len() / 2,
                |i: int| (hex_value(s[2 * i])->0 * 16 + hex_value(s[2 * i + 1])->0) as u8,
            ),
        )
    }
}

/// `hex::encode`: lower-case hexadecimal text of `data`.
#[verifier::external_body]
pub(crate) fn hex_encode(data: &[u8]) -> (s: String)
    ensures
        s@ == hex_lower(data@),
{
    hex::encode(data)
}

/// The error type of `hex::decode`, carried through opaquely.
#[verifier::external_type_specification]
#[verifier::external_body]
pub struct ExFromHexError(hex::FromHexError);

/// `hex::decode` of the UTF-8 bytes of `s`.
#[verifier::external_body]
pub(crate) fn hex_decode(s: &str) -> (r: Result<Vec<u8>, hex::FromHexError>)
    ensures
        r is Ok <==> hex_decode_spec(s.spec_bytes()) is Some,
        r matches Ok(v) ==> hex_decode_spec(s.spec_bytes()) == Some(v@),
{
    hex::decode(s)
}

/// `0x` followed by the lower-case hex of the 32 big-endian bytes of `v`.
pub open spec fn spec_fr_hex(v: nat) -> Seq<char> {
    seq!['0', 'x'] + hex_lower(be_fixed(v, 32))
}

/// The text after trimming and removing one `0x` prefix.
pub open spec fn hex_body(s: Seq<char>) -> Seq<char> {
    let t = trim(s);
    if has_prefix(t, seq!['0', 'x']) {
        t.skip(2)
    } else {
        t
    }
}

/// What `hex_to_fr` yields for a text: the reduced value of its decoded
/// bytes, when they decode and are at most 32.
pub open spec fn spec_hex_to_fr(s: Seq<char>) -> Option<nat> {
    match hex_decode_spec(vstd::utf8::encode_utf8(hex_body(s))) {
        Some(b) => if b.len() <= 32 {
            Some(be_nat(b) % field_modulus())
        } else {
            None
        },
        None => None,
    }
}

/// Renders a field element as `0x` followed by 64 lower-case hex digits.
pub fn fr_to_hex(fr: &Fr) -> (r: String)
    ensures
        r@ == spec_fr_hex(fr.val()),
{
    let bytes = fr_to_be_bytes(fr);
    let digits = hex_encode(&bytes);
    let mut s = String::new();
    string_push(&mut s, '0');
    string_push(&mut s, 'x');
    s.append(digits.as_str());
    proof {
        assert(s@ =~= spec_fr_hex(fr.val()));
    }
    s
}

/// Parses hexadecimal text (surrounding whitespace and a `0x` prefix
/// allowed) of at most 32 bytes into a field element, reducing modulo `r`.
pub fn hex_to_fr(hex_str: &str) -> (r: Result<Fr, CoreError>)
    ensures
        r is Ok <==> spec_hex_to_fr(hex_str@) is Some,
        r matches Ok(f) ==> spec_hex_to_fr(hex_str@) == Some(f.val()),
        r matches Err(e) ==> e is FieldError,
{
    let trimmed = str_trim(hex_str);
    let clean = match str_strip_prefix(trimmed, "0x") {
        Some(t) => t,
        None => trimmed,
    };
    proof {
        reveal_strlit("0x");
        assert("0x"@ =~= seq!['0', 'x']);
        assert(clean@ == hex_body(hex_str@));
    }
    let bytes = match hex_decode(clean) {
        Ok(b) => b,
        Err(e) => {
            let mut msg = String::from_str("Invalid hex string '");
            msg.append(hex_str);
            msg.append("': ");
            msg.append(e.to_string().as_str());
            return Err(CoreError::FieldError(msg));
        },
    };
    if bytes.len() > 32 {
        let mut msg = String::from_str("Hex string byte length ");
        msg.append(decimal_string(bytes.len() as u64).as_str());
        msg.append(" exceeds 32-byte field element capacity");
        return Err(CoreError::FieldError(msg));
    }
    let mut padded = [0u8; 32];
    let offset = 32 - bytes.len();
    let mut i: usize = 0;
    while i < bytes.len()
        invariant
            bytes.len() <= 32,
            offset == 32 - bytes.len(),
            i <= bytes.len(),
            padded@.len() == 32,
            forall|j: int| 0 <= j < offset ==> padded@[j] == 0,
            forall|j: int| 0 <= j < i ==> padded@[offset + j] == bytes@[j],
        decreases bytes.len() - i,
    {
        padded[offset + i] = bytes[i];
        i = i + 1;
    }
    proof {
        let z = padded@.subrange(0, offset as int);
        assert(padded@ =~= z + bytes@);
        lemma_be_nat_leading_zeros(z, bytes@);
    }
    Ok(fr_from_be_bytes_mod_order(&padded))
}

/// Rendering a field element as hex and parsing it back gives the element.
pub proof fn lemma_hex_roundtrip(fr: Fr)
    requires
        fr.wf(),
    ensures
        spec_hex_to_fr(spec_fr_hex(fr.val())) == Some(fr.val()),
{
    let v = fr.val();
    lemma_pow256_32();
    lemma_be_nat_of_fixed(v, 32);
    lemma_prefixed_hex_decodes(be_fixed(v, 32));
}

/// `0x` followed by the lower-case hex of `b`, once trimmed and stripped of
/// its prefix, decodes back to `b`.
pub proof fn lemma_prefixed_hex_decodes(b: Seq<u8>)
    ensures
        hex_decode_spec(vstd::utf8::encode_utf8(hex_body(seq!['0', 'x'] + hex_lower(b)))) == Some(b),
{
    let h = hex_lower(b);
    let s = seq!['0', 'x'] + h;
    lemma_hex_chars_not_whitespace(b);
    assert(s.len() > 0 && !is_unicode_whitespace(s[0]));
    lemma_trim_start_noop(s);
    if h.len() > 0 {
        assert(s.last() == h.last());
    } else {
        assert(s.last() == 'x');
    }
    lemma_trim_end_noop(s);
    assert(trim(s) == s);
    assert(has_prefix(s, seq!['0', 'x'])) by {
        assert(s.subrange(0, 2) =~= seq!['0', 'x']);
    }
    assert(s.skip(2) =~= h);
    lemma_hex_ascii_encode(b);
    lemma_hex_decode_encode(b);
}

proof fn lemma_hex_chars_not_whitespace(b: Seq<u8>)
    ensures
        forall|i: int| 0 <= i < hex_lower(b).len() ==> !is_unicode_whitespace(#[trigger] hex_lower(b)[i]),
        forall|i: int| 0 <= i < hex_lower(b).len() ==> (#[trigger] hex_lower(b)[i] as u32) < 128,
{
    assert forall|i: int| 0 <= i < hex_lower(b).len() implies !is_unicode_whitespace(#[trigger] hex_lower(b)[i]) && (hex_lower(b)[i] as u32) < 128 by {
        let n = if i % 2 == 0 { b[i / 2] as nat / 16 } else { b[i / 2] as nat % 16 };
        assert(n < 16);
    }
}

proof fn lemma_trim_start_noop(s: Seq<char>)
    requires
        s.len() > 0 ==> !is_unicode_whitespace(s[0]),
    ensures
        trim_start(s) == s,
{
}

proof fn lemma_trim_end_noop(s: Seq<char>)
    requires
        s.len() > 0 ==> !is_unicode_whitespace(s.last()),
    ensures
        trim_end(s) == s,
{
}

proof fn lemma_hex_ascii_encode(b: Seq<u8>)
    ensures
        vstd::utf8::encode_utf8(hex_lower(b)) == Seq::new(hex_lower(b).len(), |i: int| hex_lower(b)[i] as u8),
{
    lemma_hex_chars_not_whitespace(b);
    assert(vstd::utf8::is_ascii_chars(hex_lower(b)));
    vstd::utf8::is_ascii_chars_encode_utf8(hex_lower(b));
}

proof fn lemma_hex_decode_encode(b: Seq<u8>)
    ensures
        hex_decode_spec(Seq::new(hex_lower(b).len(), |i: int| hex_lower(b)[i] as u8)) == Some(b),
{
    let h = hex_lower(b);
    let e = Seq::new(h.len(), |i: int| h[i] as u8);
    assert forall|i: int| 0 <= i < e.len() implies (#[trigger] hex_value(e[i])) == Some(if i % 2 == 0 {
        b[i / 2] as nat / 16
    } else {
        b[i / 2] as nat % 16
    }) by {
        let n = if i % 2 == 0 { b[i / 2] as nat / 16 } else { b[i / 2] as nat % 16 };
        assert(n < 16);
    }
    assert(!exists|i: int| 0 <= i < e.len() && #[trigger] hex_value(e[i]) is None);
    let d = Seq::new(e.len() / 2, |i: int| (hex_value(e[2 * i])->0 * 16 + hex_value(e[2 * i + 1])->0) as u8);
    assert forall|i: int| 0 <= i < b.len() implies d[i] == b[i] by {
        assert(hex_value(e[2 * i]) == Some(b[i] as nat / 16));
        assert(hex_value(e[2 * i + 1]) == Some(b[i] as nat % 16));
        assert((b[i] as nat / 16) * 16 + b[i] as nat % 16 == b[i]);
    }
    assert(d =~= b);
}

} // verus!
