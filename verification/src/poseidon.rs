//! Poseidon sponge hashing over the BN254 scalar field, with deterministic
//! round constants and Cauchy MDS matrices derived from SHA-256.

use vstd::prelude::*;
use crate::bytes::be_nat;
use crate::field::{
    Fr, field_modulus, be_fixed, be_bytes_n, spec_sha256, sha256_digest,
    fr_from_be_bytes_mod_order, fr_add, fr_inverse, u64_to_fr, spec_fr_inverse, lemma_fr_inverse_unique, limbs_val, fr_from_limbs,
};
use ark_bn254::Fr as ArkFr;
use ark_crypto_primitives::sponge::poseidon::{PoseidonConfig, PoseidonSponge};
use ark_crypto_primitives::sponge::CryptographicSponge;
use ark_ff::{BigInt, PrimeField};

verus! {

/// Plain-value Poseidon parameters: round counts, S-box exponent, MDS
/// matrix (`t x t`), additive round keys (one row of `t` per round),
/// rate and capacity, where `t = rate + capacity`.
#[derive(Clone, Debug)]
pub struct PoseidonParams {
    pub full_rounds: usize,
    pub partial_rounds: usize,
    pub alpha: u64,
    pub mds: Vec<Vec<Fr>>,
    pub ark: Vec<Vec<Fr>>,
    pub rate: usize,
    pub capacity: usize,
}

/// The values of a sequence of field elements.
pub open spec fn fr_vals(s: Seq<Fr>) -> Seq<nat> {
    s.map_values(|f: Fr| f.val())
}

/// The values of a matrix of field elements.
pub open spec fn fr_matrix_vals(m: Seq<Vec<Fr>>) -> Seq<Seq<nat>> {
    m.map_values(|row: Vec<Fr>| fr_vals(row@))
}

impl PoseidonParams {
    /// The shape that the sponge construction accepts.
    pub open spec fn well_shaped(&self) -> bool {
        let t = self.rate + self.capacity;
        &&& self.rate >= 1
        &&& self.ark@.len() == self.full_rounds + self.partial_rounds
        &&& forall|i: int| 0 <= i < self.ark@.len() ==> (#[trigger] self.ark@[i])@.len() == t
        &&& self.mds@.len() == t
        &&& forall|i: int| 0 <= i < self.mds@.len() ==> (#[trigger] self.mds@[i])@.len() == t
    }
}

/// The single element squeezed from a Poseidon sponge (`PoseidonSponge`)
/// built from the given parameters after absorbing `inputs`.
pub uninterp spec fn spec_poseidon_sponge(
    full_rounds: nat,
    partial_rounds: nat,
    alpha: nat,
    mds: Seq<Seq<nat>>,
    ark: Seq<Seq<nat>>,
    rate: nat,
    capacity: nat,
    inputs: Seq<nat>,
) -> nat;

/// `PoseidonSponge::new` on the configuration made of `params`, then
/// `absorb(inputs)` and `squeeze_field_elements(1)`.
#[verifier::external_body]
fn poseidon_sponge(params: &PoseidonParams, inputs: &[Fr]) -> (out: [u64; 4])
    requires
        params.well_shaped(),
    ensures
        limbs_val(out) < field_modulus(),
        limbs_val(out) == spec_poseidon_sponge(
            params.full_rounds as nat,
            params.partial_rounds as nat,
            params.alpha as nat,
            fr_matrix_vals(params.mds@),
            fr_matrix_vals(params.ark@),
            params.rate as nat,
            params.capacity as nat,
            fr_vals(inputs@),
        ),
{
    let cv = |v: &[Fr]| v.iter().map(|x| ArkFr::from(BigInt::new([x.l0, x.l1, x.l2, x.l3]))).collect::<Vec<ArkFr>>();
    let config = PoseidonConfig::new(params.full_rounds, params.partial_rounds, params.alpha,
        params.mds.iter().map(|r| cv(r)).collect(), params.ark.iter().map(|r| cv(r)).collect(),
        params.rate, params.capacity);
    let mut sponge = PoseidonSponge::new(&config);
    sponge.absorb(&cv(inputs));
    sponge.squeeze_field_elements::<ArkFr>(1)[0].into_bigint().0
}

/// Domain tag of the round-constant stream.
pub open spec fn round_constant_tag() -> Seq<u8> {
    vstd::utf8::encode_utf8("ZKTrace_Poseidon_BN254_RoundConstant_v1"@)
}

/// Domain tag of the MDS `x` coordinates.
pub open spec fn mds_x_tag() -> Seq<u8> {
    vstd::utf8::encode_utf8("ZKTrace_Poseidon_BN254_MDS_X_v1"@)
}

/// Domain tag of the MDS `y` coordinates.
pub open spec fn mds_y_tag() -> Seq<u8> {
    vstd::utf8::encode_utf8("ZKTrace_Poseidon_BN254_MDS_Y_v1"@)
}

/// `2^32`.
pub open spec fn u32_modulus() -> nat {
    0x1_0000_0000nat
}

/// The `i`-th round constant for a given rate: SHA-256 of the tag, then
/// `i` and `rate` as big-endian 32-bit words, reduced modulo `r`.
pub open spec fn spec_round_constant(i: nat, rate: nat) -> nat {
    be_nat(
        spec_sha256(
            round_constant_tag() + be_fixed(i % u32_modulus(), 4) + be_fixed(rate % u32_modulus(), 4),
        ),
    ) % field_modulus()
}

/// The `i`-th MDS `x` coordinate.
pub open spec fn spec_mds_x(i: nat) -> nat {
    be_nat(spec_sha256(mds_x_tag() + be_fixed(i % u32_modulus(), 4))) % field_modulus()
}

/// The `j`-th MDS `y` coordinate.
pub open spec fn spec_mds_y(j: nat) -> nat {
    be_nat(spec_sha256(mds_y_tag() + be_fixed(j % u32_modulus(), 4))) % field_modulus()
}

/// Cauchy matrix entry `1 / (x_i + y_j)`, or `i * t + j + 1` when the
/// denominator vanishes.
pub open spec fn spec_mds_entry(i: nat, j: nat, t: nat) -> nat {
    let d = (spec_mds_x(i) + spec_mds_y(j)) % field_modulus();
    if d == 0 {
        i * t + j + 1
    } else {
        spec_fr_inverse(d)
    }
}

/// The `t x t` MDS matrix.
pub open spec fn spec_mds(t: nat) -> Seq<Seq<nat>> {
    Seq::new(t, |i: int| Seq::new(t, |j: int| spec_mds_entry(i as nat, j as nat, t)))
}

/// The round keys: `rounds` rows of `t` consecutive round constants.
pub open spec fn spec_ark(rate: nat, rounds: nat) -> Seq<Seq<nat>> {
    let t = rate + 1;
    Seq::new(rounds, |k: int| Seq::new(t, |e: int| spec_round_constant((k * t + e) as nat, rate)))
}

/// The Poseidon hash of `inputs` under the parameters that
/// `generate_poseidon_parameters(rate, full_rounds, partial_rounds, alpha)` derives.
pub open spec fn spec_poseidon(rate: nat, full_rounds: nat, partial_rounds: nat, alpha: nat, inputs: Seq<nat>) -> nat {
    spec_poseidon_sponge(
        full_rounds,
        partial_rounds,
        alpha,
        spec_mds((rate + 1) as nat),
        spec_ark(rate, full_rounds + partial_rounds),
        rate,
        1,
        inputs,
    )
}

/// 2-to-1 Poseidon (`t = 3`, 8 full and 57 partial rounds, `alpha = 5`).
pub open spec fn spec_hash_rate_2(inputs: Seq<nat>) -> nat {
    spec_poseidon(2, 8, 57, 5, inputs)
}

/// 4-to-1 Poseidon (`t = 5`, 8 full and 60 partial rounds, `alpha = 5`).
pub open spec fn spec_hash_rate_4(inputs: Seq<nat>) -> nat {
    spec_poseidon(4, 8, 60, 5, inputs)
}

/// `H(left, right)`.
pub open spec fn spec_hash_2(left: nat, right: nat) -> nat {
    spec_hash_rate_2(seq![left, right])
}

/// `H(x)`.
pub open spec fn spec_hash_1(x: nat) -> nat {
    spec_hash_rate_2(seq![x])
}

/// Poseidon over any number of inputs: the 2-to-1 sponge for at most two
/// inputs, the 4-to-1 sponge otherwise.
pub open spec fn spec_hash_many(inputs: Seq<nat>) -> nat {
    if inputs.len() <= 2 {
        spec_hash_rate_2(inputs)
    } else {
        spec_hash_rate_4(inputs)
    }
}

/// The UTF-8 bytes of a text.
fn text_bytes(s: &str) -> (r: Vec<u8>)
    ensures
        r@ == vstd::utf8::encode_utf8(s@),
{
    vstd::slice::slice_to_vec(s.as_bytes())
}

/// Appends the bytes of `src` to `dst`.
pub fn append_bytes(dst: &mut Vec<u8>, src: &[u8])
    ensures
        final(dst)@ == old(dst)@ + src@,
{
    let mut i: usize = 0;
    while i < src.len()
        invariant
            i <= src@.len(),
            dst@ == old(dst)@ + src@.subrange(0, i as int),
        decreases src@.len() - i,
    {
        dst.push(src[i]);
        i = i + 1;
        assert(dst@ =~= old(dst)@ + src@.subrange(0, i as int));
    }
    assert(src@.subrange(0, src@.len() as int) =~= src@);
}

/// The big-endian bytes of the low 32 bits of `i`.
fn u32_word(i: usize) -> (r: Vec<u8>)
    ensures
        r@ == be_fixed(i as nat % u32_modulus(), 4),
{
    let w: u32 = i as u32;
    assert(w as nat == i as nat % u32_modulus()) by (bit_vector)
        requires
            w == i as u32,
    ;
    proof {
        reveal_with_fuel(vstd::arithmetic::power::pow, 5);
    }
    be_bytes_n(w as u64, 4)
}

/// SHA-256 of `tag ++ word(a) [++ word(b)]`, reduced into the field.
fn tagged_digest(tag: &Vec<u8>, a: usize, b: Option<usize>) -> (r: Fr)
    ensures
        r.val() == be_nat(spec_sha256(match b {
            Some(b) => tag@ + be_fixed(a as nat % u32_modulus(), 4) + be_fixed(b as nat % u32_modulus(), 4),
            None => tag@ + be_fixed(a as nat % u32_modulus(), 4),
        })) % field_modulus(),
{
    let mut pre: Vec<u8> = Vec::new();
    append_bytes(&mut pre, tag.as_slice());
    let wa = u32_word(a);
    append_bytes(&mut pre, wa.as_slice());
    match b {
        Some(bb) => {
            let wb = u32_word(bb);
            append_bytes(&mut pre, wb.as_slice());
        },
        None => {},
    }
    let d = sha256_digest(pre.as_slice());
    fr_from_be_bytes_mod_order(&d)
}

/// Derives Poseidon parameters deterministically: `(full_rounds +
/// partial_rounds) * t` round constants from a SHA-256 stream (laid out as
/// one row of `t` per round) and a Cauchy MDS matrix `1 / (x_i + y_j)`,
/// with `t = rate + 1` and capacity one.
pub fn generate_poseidon_parameters(
    rate: usize,
    full_rounds: usize,
    partial_rounds: usize,
    alpha: u64,
) -> (p: PoseidonParams)
    requires
        rate + 1 <= usize::MAX,
        full_rounds + partial_rounds <= usize::MAX,
        (full_rounds + partial_rounds) * (rate + 1) <= usize::MAX,
        (rate + 1) * (rate + 1) <= usize::MAX,
    ensures
        p.full_rounds == full_rounds,
        p.partial_rounds == partial_rounds,
        p.alpha == alpha,
        p.rate == rate,
        p.capacity == 1,
        fr_matrix_vals(p.mds@) == spec_mds((rate + 1) as nat),
        fr_matrix_vals(p.ark@) == spec_ark(rate as nat, (full_rounds + partial_rounds) as nat),
        rate >= 1 ==> p.well_shaped(),
{
    let t = rate + 1;
    let rounds = full_rounds + partial_rounds;
    let num_constants = rounds * t;
    proof {
        reveal_strlit("ZKTrace_Poseidon_BN254_RoundConstant_v1");
        reveal_strlit("ZKTrace_Poseidon_BN254_MDS_X_v1");
        reveal_strlit("ZKTrace_Poseidon_BN254_MDS_Y_v1");
    }
    let rc_tag = text_bytes("ZKTrace_Poseidon_BN254_RoundConstant_v1");
    let mut round_constants: Vec<Fr> = Vec::new();
    let mut i: usize = 0;
    while i < num_constants
        invariant
            i <= num_constants,
            rc_tag@ == round_constant_tag(),
            round_constants@.len() == i,
            forall|k: int| 0 <= k < i ==> (#[trigger] round_constants@[k]).val() == spec_round_constant(k as nat, rate as nat),
        decreases num_constants - i,
    {
        let c = tagged_digest(&rc_tag, i, Some(rate));
        round_constants.push(c);
        i = i + 1;
    }
    let mut ark: Vec<Vec<Fr>> = Vec::new();
    let mut k: usize = 0;
    while k < rounds
        invariant
            k <= rounds,
            num_constants == rounds * t,
            t == rate + 1,
            round_constants@.len() == num_constants,
            forall|m: int| 0 <= m < num_constants ==> (#[trigger] round_constants@[m]).val() == spec_round_constant(m as nat, rate as nat),
            ark@.len() == k,
            forall|m: int| 0 <= m < k ==> (#[trigger] ark@[m])@.len() == t,
            forall|m: int| 0 <= m < k ==> fr_vals((#[trigger] ark@[m])@) == spec_ark(rate as nat, rounds as nat)[m],
        decreases rounds - k,
    {
        let mut row: Vec<Fr> = Vec::new();
        let mut e: usize = 0;
        while e < t
            invariant
                e <= t,
                k < rounds,
                num_constants == rounds * t,
                t == rate + 1,
                round_constants@.len() == num_constants,
                forall|m: int| 0 <= m < num_constants ==> (#[trigger] round_constants@[m]).val() == spec_round_constant(m as nat, rate as nat),
                row@.len() == e,
                forall|m: int| 0 <= m < e ==> (#[trigger] row@[m]).val() == spec_round_constant((k * t + m) as nat, rate as nat),
            decreases t - e,
        {
            assert(k * t + e < rounds * t) by (nonlinear_arith)
                requires
                    k < rounds,
                    e < t,
            ;
            row.push(round_constants[k * t + e]);
            e = e + 1;
        }
        assert(fr_vals(row@) =~= spec_ark(rate as nat, rounds as nat)[k as int]);
        ark.push(row);
        k = k + 1;
    }
    let x_tag = text_bytes("ZKTrace_Poseidon_BN254_MDS_X_v1");
    let y_tag = text_bytes("ZKTrace_Poseidon_BN254_MDS_Y_v1");
    let mut x_vals: Vec<Fr> = Vec::new();
    let mut y_vals: Vec<Fr> = Vec::new();
    let mut i: usize = 0;
    while i < t
        invariant
            i <= t,
            x_tag@ == mds_x_tag(),
            y_tag@ == mds_y_tag(),
            x_vals@.len() == i,
            y_vals@.len() == i,
            forall|m: int| 0 <= m < i ==> (#[trigger] x_vals@[m]).val() == spec_mds_x(m as nat),
            forall|m: int| 0 <= m < i ==> (#[trigger] y_vals@[m]).val() == spec_mds_y(m as nat),
        decreases t - i,
    {
        x_vals.push(tagged_digest(&x_tag, i, None));
        y_vals.push(tagged_digest(&y_tag, i, None));
        i = i + 1;
    }
    let mut mds: Vec<Vec<Fr>> = Vec::new();
    let mut i: usize = 0;
    while i < t
        invariant
            i <= t,
            t == rate + 1,
            (rate + 1) * (rate + 1) <= usize::MAX,
            x_vals@.len() == t,
            y_vals@.len() == t,
            forall|m: int| 0 <= m < t ==> (#[trigger] x_vals@[m]).val() == spec_mds_x(m as nat),
            forall|m: int| 0 <= m < t ==> (#[trigger] y_vals@[m]).val() == spec_mds_y(m as nat),
            mds@.len() == i,
            forall|m: int| 0 <= m < i ==> (#[trigger] mds@[m])@.len() == t,
            forall|m: int| 0 <= m < i ==> fr_vals((#[trigger] mds@[m])@) == spec_mds(t as nat)[m],
        decreases t - i,
    {
        let mut row: Vec<Fr> = Vec::new();
        let mut j: usize = 0;
        while j < t
            invariant
                j <= t,
                i < t,
                t == rate + 1,
                (rate + 1) * (rate + 1) <= usize::MAX,
                x_vals@.len() == t,
                y_vals@.len() == t,
                forall|m: int| 0 <= m < t ==> (#[trigger] x_vals@[m]).val() == spec_mds_x(m as nat),
                forall|m: int| 0 <= m < t ==> (#[trigger] y_vals@[m]).val() == spec_mds_y(m as nat),
                row@.len() == j,
                forall|m: int| 0 <= m < j ==> (#[trigger] row@[m]).val() == spec_mds_entry(i as nat, m as nat, t as nat),
            decreases t - j,
        {
            let denom = fr_add(&x_vals[i], &y_vals[j]);
            assert(i * t + j + 1 <= t * t) by (nonlinear_arith)
                requires
                    i < t,
                    j < t,
            ;
            let entry = match fr_inverse(&denom) {
                Some(v) => {
                    proof {
                        use_type_invariant(&v);
                        lemma_fr_inverse_unique(denom.val(), v.val());
                    }
                    v
                },
                None => u64_to_fr((i * t + j + 1) as u64),
            };
            row.push(entry);
            j = j + 1;
        }
        assert(fr_vals(row@) =~= spec_mds(t as nat)[i as int]);
        mds.push(row);
        i = i + 1;
    }
    let p = PoseidonParams {
        full_rounds,
        partial_rounds,
        alpha,
        mds,
        ark,
        rate,
        capacity: 1,
    };
    assert(fr_matrix_vals(p.mds@) =~~= spec_mds((rate + 1) as nat));
    assert(fr_matrix_vals(p.ark@) =~~= spec_ark(rate as nat, (full_rounds + partial_rounds) as nat));
    p
}

/// The 2-to-1 parameters (`t = 3`, 8 full rounds, 57 partial rounds, `alpha = 5`).
pub fn poseidon_config_rate_2() -> (p: PoseidonParams)
    ensures
        p.well_shaped(),
        p.full_rounds == 8,
        p.partial_rounds == 57,
        p.alpha == 5,
        p.rate == 2,
        p.capacity == 1,
        fr_matrix_vals(p.mds@) == spec_mds(3),
        fr_matrix_vals(p.ark@) == spec_ark(2, 65),
{
    generate_poseidon_parameters(2, 8, 57, 5)
}

/// The 4-to-1 parameters (`t = 5`, 8 full rounds, 60 partial rounds, `alpha = 5`).
pub fn poseidon_config_rate_4() -> (p: PoseidonParams)
    ensures
        p.well_shaped(),
        p.full_rounds == 8,
        p.partial_rounds == 60,
        p.alpha == 5,
        p.rate == 4,
        p.capacity == 1,
        fr_matrix_vals(p.mds@) == spec_mds(5),
        fr_matrix_vals(p.ark@) == spec_ark(4, 68),
{
    generate_poseidon_parameters(4, 8, 60, 5)
}

/// The 2-to-1 Poseidon hash `H(left, right)`, used for Merkle nodes.
pub fn poseidon_hash_2(left: Fr, right: Fr) -> (h: Fr)
    ensures
        h.val() == spec_hash_2(left.val(), right.val()),
{
    let config = poseidon_config_rate_2();
    let inputs = [left, right];
    let h = fr_from_limbs(poseidon_sponge(&config, &inputs));
    assert(fr_vals(inputs@) =~= seq![left.val(), right.val()]);
    h
}

/// The Poseidon hash of one element `H(x)`.
pub fn poseidon_hash_1(val: Fr) -> (h: Fr)
    ensures
        h.val() == spec_hash_1(val.val()),
{
    let config = poseidon_config_rate_2();
    let inputs = [val];
    let h = fr_from_limbs(poseidon_sponge(&config, &inputs));
    assert(fr_vals(inputs@) =~= seq![val.val()]);
    h
}

/// The Poseidon hash of a sequence of elements: the 2-to-1 sponge for at
/// most two inputs, the 4-to-1 sponge otherwise.
pub fn poseidon_hash_many(inputs: &[Fr]) -> (h: Fr)
    ensures
        h.val() == spec_hash_many(fr_vals(inputs@)),
        inputs@.len() <= 2 ==> h.val() == spec_poseidon(2, 8, 57, 5, fr_vals(inputs@)),
        inputs@.len() >= 3 ==> h.val() == spec_poseidon(4, 8, 60, 5, fr_vals(inputs@)),
{
    if inputs.len() <= 2 {
        let config = poseidon_config_rate_2();
        fr_from_limbs(poseidon_sponge(&config, inputs))
    } else {
        let config = poseidon_config_rate_4();
        fr_from_limbs(poseidon_sponge(&config, inputs))
    }
}

/// The 31-byte chunks of `d`, the last one possibly shorter.
pub open spec fn byte_chunks(d: Seq<u8>) -> Seq<Seq<u8>> {
    Seq::new(
        ((d.len() + 30) / 31) as nat,
        |k: int| d.subrange(31 * k, if 31 * (k + 1) <= d.len() { 31 * (k + 1) } else { d.len() as int }),
    )
}

/// The 32-byte block of a chunk: one zero byte, the chunk, then zero padding.
pub open spec fn chunk_block(c: Seq<u8>) -> Seq<u8> {
    seq![0u8] + c + Seq::new((31 - c.len()) as nat, |i: int| 0u8)
}

/// The field element of a chunk: its block read big-endian, reduced.
pub open spec fn chunk_value(c: Seq<u8>) -> nat {
    be_nat(chunk_block(c)) % field_modulus()
}

/// Poseidon digest of raw bytes: `H(0)` for no bytes, otherwise the
/// many-input hash of the values of the 31-byte chunks.
pub open spec fn spec_hash_bytes(d: Seq<u8>) -> nat {
    if d.len() == 0 {
        spec_hash_1(0)
    } else {
        spec_hash_many(byte_chunks(d).map_values(|c: Seq<u8>| chunk_value(c)))
    }
}

/// Hashes raw bytes (prompts, payloads, names) into a field element by
/// packing 31-byte chunks into field elements and applying Poseidon.
pub fn poseidon_hash_bytes(data: &[u8]) -> (h: Fr)
    ensures
        h.val() == spec_hash_bytes(data@),
{
    if data.len() == 0 {
        return poseidon_hash_1(Fr::zero());
    }
    let n = data.len();
    let num_chunks: usize = n / 31 + if n % 31 != 0 { 1 } else { 0 };
    let mut chunks: Vec<Fr> = Vec::new();
    let ghost spec_chunks = byte_chunks(data@);
    assert(num_chunks == spec_chunks.len());
    let mut k: usize = 0;
    while k < num_chunks
        invariant
            n == data@.len(),
            spec_chunks == byte_chunks(data@),
            num_chunks == spec_chunks.len(),
            num_chunks == n / 31 + if n % 31 != 0 { 1nat } else { 0nat },
            k <= num_chunks,
            chunks@.len() == k,
            forall|m: int| 0 <= m < k ==> (#[trigger] chunks@[m]).val() == chunk_value(spec_chunks[m]),
        decreases num_chunks - k,
    {
        let start: usize = 31 * k;
        let end: usize = if n - start >= 31 { start + 31 } else { n };
        let mut buf = [0u8; 32];
        let mut i: usize = 0;
        while i < end - start
            invariant
                start < end <= n,
                end - start <= 31,
                n == data@.len(),
                i <= end - start,
                buf@.len() == 32,
                buf@[0] == 0,
                forall|j: int| 0 <= j < i ==> #[trigger] buf@[1 + j] == data@[start + j],
                forall|j: int| 1 + i <= j < 32 ==> buf@[j] == 0,
            decreases end - start - i,
        {
            buf[1 + i] = data[start + i];
            i = i + 1;
        }
        proof {
            let c = spec_chunks[k as int];
            assert(c =~= data@.subrange(start as int, end as int));
            let blk = chunk_block(c);
            assert(blk.len() == 32);
            assert forall|j: int| 0 <= j < 32 implies buf@[j] == blk[j] by {
                if j == 0 {
                } else if j <= c.len() {
                    assert(buf@[1 + (j - 1)] == data@[start + (j - 1)]);
                } else {
                }
            }
            assert(buf@ =~= blk);
        }
        chunks.push(fr_from_be_bytes_mod_order(&buf));
        k = k + 1;
    }
    let h = poseidon_hash_many(chunks.as_slice());
    proof {
        assert(fr_vals(chunks@) =~= spec_chunks.map_values(|c: Seq<u8>| chunk_value(c)));
    }
    h
}

/// The many-input hash picks its parameters by the number of inputs: at
/// most two inputs go through the 2-to-1 sponge (`t = 3`, 8 full and 57
/// partial rounds), three or more through the 4-to-1 sponge (`t = 5`, 8 full
/// and 60 partial rounds).
pub proof fn lemma_hash_many_parameters(inputs: Seq<nat>)
    ensures
        inputs.len() <= 2 ==> spec_hash_many(inputs) == spec_poseidon(2, 8, 57, 5, inputs),
        inputs.len() >= 3 ==> spec_hash_many(inputs) == spec_poseidon(4, 8, 60, 5, inputs),
{
}

/// The byte hash of data spanning three or more 31-byte chunks (more than
/// 62 bytes) is the 4-to-1 sponge over the chunk values; data of one to 62
/// bytes goes through the 2-to-1 sponge.
pub proof fn lemma_hash_bytes_parameters(d: Seq<u8>)
    ensures
        d.len() > 62 ==> spec_hash_bytes(d) == spec_poseidon(
            4,
            8,
            60,
            5,
            byte_chunks(d).map_values(|c: Seq<u8>| chunk_value(c)),
        ),
        0 < d.len() <= 62 ==> spec_hash_bytes(d) == spec_poseidon(
            2,
            8,
            57,
            5,
            byte_chunks(d).map_values(|c: Seq<u8>| chunk_value(c)),
        ),
{
    assert(d.len() > 62 ==> (d.len() + 30) / 31 >= 3);
    assert(0 < d.len() <= 62 ==> (d.len() + 30) / 31 <= 2);
}

} // verus!
