//! Big-endian byte sequences read as natural numbers.

use vstd::prelude::*;
use vstd::arithmetic::power::*;
use vstd::arithmetic::mul::*;

verus! {

/// The natural number that `s` encodes in big-endian order.
pub open spec fn be_nat(s: Seq<u8>) -> nat
    decreases s.len(),
{
    if s.len() == 0 {
        0
    } else {
        be_nat(s.drop_last()) * 256 + s.last() as nat
    }
}

/// `256^n`.
pub open spec fn pow256(n: nat) -> nat {
    pow(256, n) as nat
}

pub proof fn lemma_pow256_pos(n: nat)
    ensures
        pow256(n) > 0,
        pow(256, n) > 0,
{
    lemma_pow_positive(256, n);
}

pub proof fn lemma_pow256_succ(n: nat)
    ensures
        pow256(n + 1) == 256 * pow256(n),
{
    lemma_pow_positive(256, n);
    reveal(pow);
    assert(pow(256, (n + 1) as nat) == 256 * pow(256, n));
}

/// Reading the concatenation `a + b` shifts `a` by the length of `b`.
pub proof fn lemma_be_nat_concat(a: Seq<u8>, b: Seq<u8>)
    ensures
        be_nat(a + b) == be_nat(a) * pow256(b.len()) + be_nat(b),
    decreases b.len(),
{
    lemma_pow256_pos(b.len());
    if b.len() == 0 {
        assert(a + b =~= a);
        reveal(pow);
        assert(pow(256, 0) == 1);
    } else {
        let bl = b.drop_last();
        assert((a + b).drop_last() =~= a + bl);
        assert((a + b).last() == b.last());
        lemma_be_nat_concat(a, bl);
        lemma_pow256_succ(bl.len());
        assert(be_nat(a + b) == be_nat(a + bl) * 256 + b.last() as nat);
        assert(be_nat(a + bl) * 256 == (be_nat(a) * pow256(bl.len()) + be_nat(bl)) * 256);
        assert((be_nat(a) * pow256(bl.len()) + be_nat(bl)) * 256
            == be_nat(a) * (256 * pow256(bl.len())) + be_nat(bl) * 256) by (nonlinear_arith);
    }
}

/// Leading zero bytes do not change the value.
pub proof fn lemma_be_nat_leading_zeros(z: Seq<u8>, b: Seq<u8>)
    requires
        forall|i: int| 0 <= i < z.len() ==> z[i] == 0,
    ensures
        be_nat(z + b) == be_nat(b),
{
    lemma_be_nat_concat(z, b);
    lemma_be_nat_all_zero(z);
    assert(be_nat(z) * pow256(b.len()) == 0);
}

pub proof fn lemma_be_nat_all_zero(z: Seq<u8>)
    requires
        forall|i: int| 0 <= i < z.len() ==> z[i] == 0,
    ensures
        be_nat(z) == 0,
    decreases z.len(),
{
    if z.len() > 0 {
        lemma_be_nat_all_zero(z.drop_last());
    }
}

/// A sequence of `n` bytes encodes a number below `256^n`.
pub proof fn lemma_be_nat_bound(s: Seq<u8>)
    ensures
        be_nat(s) < pow256(s.len()),
    decreases s.len(),
{
    if s.len() == 0 {
        reveal(pow);
    } else {
        lemma_be_nat_bound(s.drop_last());
        lemma_pow256_succ(s.drop_last().len());
        let x = be_nat(s.drop_last());
        let p = pow256(s.drop_last().len());
        assert(x * 256 + (s.last() as nat) < 256 * p) by (nonlinear_arith)
            requires x < p, s.last() < 256;
    }
}

} // verus!
