//! Incremental Poseidon Merkle trees and inclusion proofs.

use vstd::prelude::*;
use vstd::arithmetic::power2::{pow2, lemma_pow2_pos, lemma2_to64};
use vstd::bits::{lemma_u64_shl_is_mul, lemma_u64_pow2_no_overflow};
use crate::error::CoreError;
use crate::field::Fr;
use crate::poseidon::{fr_vals, poseidon_hash_2, spec_hash_2};
use crate::text::{decimal, decimal_string};

verus! {

/// The root of an empty subtree of height `d`.
pub open spec fn zero_hash(d: nat) -> nat
    decreases d,
{
    if d == 0 {
        0
    } else {
        let z = zero_hash((d - 1) as nat);
        spec_hash_2(z, z)
    }
}

/// The parents of a level: pairs hashed left to right, an odd last node
/// paired with the empty-subtree hash `z` of that level.
pub open spec fn next_level(cur: Seq<nat>, z: nat) -> Seq<nat> {
    Seq::new(
        ((cur.len() + 1) / 2) as nat,
        |k: int| spec_hash_2(cur[2 * k], if 2 * k + 1 < cur.len() { cur[2 * k + 1] } else { z }),
    )
}

/// The nodes at height `d` above the leaves.
pub open spec fn level(leaves: Seq<nat>, d: nat) -> Seq<nat>
    decreases d,
{
    if d == 0 {
        leaves
    } else {
        next_level(level(leaves, (d - 1) as nat), zero_hash((d - 1) as nat))
    }
}

/// The root of a tree of the given depth over `leaves`.
pub open spec fn spec_root(leaves: Seq<nat>, depth: nat) -> nat {
    if leaves.len() == 0 {
        zero_hash(depth)
    } else {
        level(leaves, depth)[0]
    }
}

/// The position at height `d` of the ancestor of leaf `i`.
pub open spec fn path_index(i: nat, d: nat) -> nat
    decreases d,
{
    if d == 0 {
        i
    } else {
        path_index(i, (d - 1) as nat) / 2
    }
}

/// The sibling of leaf `i`'s ancestor at height `d` (the empty-subtree
/// hash when it lies past the end of the level).
pub open spec fn spec_sibling(leaves: Seq<nat>, i: nat, d: nat) -> nat {
    let idx = path_index(i, d);
    let lv = level(leaves, d);
    let sib: int = if idx % 2 == 1 { idx - 1 } else { (idx + 1) as int };
    if 0 <= sib < lv.len() {
        lv[sib]
    } else {
        zero_hash(d)
    }
}

/// Whether the sibling at height `d` is the right child.
pub open spec fn spec_is_right(i: nat, d: nat) -> bool {
    path_index(i, d) % 2 == 0
}

/// The authentication path of leaf `i`: `n` sibling hashes from the leaves up.
pub open spec fn spec_siblings(leaves: Seq<nat>, i: nat, n: nat) -> Seq<nat> {
    Seq::new(n, |d: int| spec_sibling(leaves, i, d as nat))
}

/// The directions of the authentication path of leaf `i`.
pub open spec fn spec_directions(i: nat, n: nat) -> Seq<bool> {
    Seq::new(n, |d: int| spec_is_right(i, d as nat))
}

/// The root reached from `leaf` along a path: at each step the sibling goes
/// to the right when its flag is set, to the left otherwise.
pub open spec fn path_root(leaf: nat, siblings: Seq<nat>, is_right: Seq<bool>) -> nat
    decreases siblings.len(),
{
    if siblings.len() == 0 {
        leaf
    } else {
        let c = path_root(leaf, siblings.drop_last(), is_right.drop_last());
        if is_right.last() {
            spec_hash_2(c, siblings.last())
        } else {
            spec_hash_2(siblings.last(), c)
        }
    }
}

/// One step of a Merkle inclusion proof.
#[derive(Clone, Copy, Debug, PartialEq, Eq, Structural)]
pub struct MerkleProofStep {
    /// The sibling node hash at this level.
    pub sibling: Fr,
    /// `true` if the sibling is the right child, `false` if it is the left one.
    pub is_right: bool,
}

/// The sibling hashes of a sequence of proof steps.
pub open spec fn step_siblings(steps: Seq<MerkleProofStep>) -> Seq<nat> {
    steps.map_values(|s: MerkleProofStep| s.sibling.val())
}

/// The direction flags of a sequence of proof steps.
pub open spec fn step_directions(steps: Seq<MerkleProofStep>) -> Seq<bool> {
    steps.map_values(|s: MerkleProofStep| s.is_right)
}

/// A Merkle inclusion proof for one leaf position.
#[derive(Debug, PartialEq, Eq)]
pub struct MerkleProof {
    /// The zero-based position of the leaf.
    pub leaf_index: usize,
    /// The steps from the leaf level up to the root.
    pub steps: Vec<MerkleProofStep>,
    /// The root against which the proof was generated.
    pub expected_root: Fr,
}

impl MerkleProof {
    /// The root reached from `leaf` along this proof's path.
    pub open spec fn spec_compute_root(&self, leaf: nat) -> nat {
        path_root(leaf, step_siblings(self.steps@), step_directions(self.steps@))
    }

    /// Computes the root from `leaf` along this proof's authentication path.
    pub fn compute_root(&self, leaf: &Fr) -> (r: Fr)
        ensures
            r.val() == self.spec_compute_root(leaf.val()),
    {
        let mut current: Fr = *leaf;
        let mut i: usize = 0;
        while i < self.steps.len()
            invariant
                i <= self.steps@.len(),
                current.val() == path_root(
                    leaf.val(),
                    step_siblings(self.steps@.take(i as int)),
                    step_directions(self.steps@.take(i as int)),
                ),
            decreases self.steps@.len() - i,
        {
            let step = self.steps[i];
            let ghost prev = self.steps@.take(i as int);
            if step.is_right {
                current = poseidon_hash_2(current, step.sibling);
            } else {
                current = poseidon_hash_2(step.sibling, current);
            }
            i = i + 1;
            proof {
                let now = self.steps@.take(i as int);
                assert(step_siblings(now).drop_last() =~= step_siblings(prev));
                assert(step_directions(now).drop_last() =~= step_directions(prev));
            }
        }
        assert(self.steps@.take(i as int) =~= self.steps@);
        current
    }

    /// Whether `leaf` reaches the committed root along this proof's path.
    pub fn verify(&self, leaf: &Fr) -> (b: bool)
        ensures
            b <==> self.spec_compute_root(leaf.val()) == self.expected_root.val(),
    {
        let computed = self.compute_root(leaf);
        computed.equals(&self.expected_root)
    }
}

impl Clone for MerkleProof {
    fn clone(&self) -> (r: Self)
        ensures
            r.leaf_index == self.leaf_index,
            r.steps@ == self.steps@,
            r.expected_root == self.expected_root,
    {
        let mut steps: Vec<MerkleProofStep> = Vec::new();
        let mut i: usize = 0;
        while i < self.steps.len()
            invariant
                i <= self.steps@.len(),
                steps@ == self.steps@.take(i as int),
            decreases self.steps@.len() - i,
        {
            steps.push(self.steps[i]);
            i = i + 1;
            assert(steps@ =~= self.steps@.take(i as int));
        }
        assert(self.steps@.take(i as int) =~= self.steps@);
        MerkleProof { leaf_index: self.leaf_index, steps, expected_root: self.expected_root }
    }
}

/// An append-only Merkle tree of fixed depth over field elements.
#[derive(Debug)]
pub struct MerkleTree {
    depth: usize,
    leaves: Vec<Fr>,
    zero_hashes: Vec<Fr>,
}

impl MerkleTree {
    /// Depth within `1..=32`, one empty-subtree hash per height, and at most
    /// `2^depth` leaves.
    #[verifier::type_invariant]
    pub closed spec fn wf(self) -> bool {
        &&& 1 <= self.depth <= 32
        &&& self.zero_hashes@.len() == self.depth + 1
        &&& forall|d: int| 0 <= d <= self.depth ==> (#[trigger] self.zero_hashes@[d]).val() == zero_hash(d as nat)
        &&& self.leaves@.len() <= pow2(self.depth as nat)
    }

    /// The depth of the tree.
    pub closed spec fn spec_depth(self) -> nat {
        self.depth as nat
    }

    /// The committed leaf values, in insertion order.
    pub closed spec fn leaf_values(self) -> Seq<nat> {
        fr_vals(self.leaves@)
    }

    /// The current root.
    pub open spec fn spec_current_root(self) -> nat {
        spec_root(self.leaf_values(), self.spec_depth())
    }

    /// The number of leaves a tree of depth `d` holds.
    pub open spec fn capacity(d: nat) -> nat {
        pow2(d)
    }

    /// Creates an empty tree of the given depth (supporting `2^depth` leaves).
    pub fn new(depth: usize) -> (t: MerkleTree)
        requires
            1 <= depth <= 32,
        ensures
            t.spec_depth() == depth,
            t.leaf_values() == Seq::<nat>::empty(),
    {
        let mut zero_hashes: Vec<Fr> = Vec::new();
        let mut current_zero = Fr::zero();
        zero_hashes.push(current_zero);
        let mut d: usize = 0;
        while d < depth
            invariant
                d <= depth,
                zero_hashes@.len() == d + 1,
                current_zero.val() == zero_hash(d as nat),
                forall|k: int| 0 <= k <= d ==> (#[trigger] zero_hashes@[k]).val() == zero_hash(k as nat),
            decreases depth - d,
        {
            current_zero = poseidon_hash_2(current_zero, current_zero);
            zero_hashes.push(current_zero);
            d = d + 1;
        }
        proof {
            lemma_pow2_pos(depth as nat);
        }
        let t = MerkleTree { depth, leaves: Vec::new(), zero_hashes };
        assert(t.leaf_values() =~= Seq::<nat>::empty());
        t
    }

    /// The depth of the tree.
    pub fn depth(&self) -> (d: usize)
        ensures
            d == self.spec_depth(),
            1 <= d <= 32,
    {
        proof {
            use_type_invariant(self);
        }
        self.depth
    }

    /// The committed leaves, in insertion order.
    pub fn leaves(&self) -> (l: &Vec<Fr>)
        ensures
            fr_vals(l@) == self.leaf_values(),
    {
        &self.leaves
    }

    /// The hashes of empty subtrees, one per height from the leaves up to
    /// the root.
    pub fn zero_hashes(&self) -> (z: &Vec<Fr>)
        ensures
            z@.len() == self.spec_depth() + 1,
            forall|k: int| 0 <= k < z@.len() ==> (#[trigger] z@[k]).val() == zero_hash(k as nat),
    {
        proof {
            use_type_invariant(self);
        }
        &self.zero_hashes
    }

    /// The number of committed leaves.
    pub fn len(&self) -> (n: usize)
        ensures
            n == self.leaf_values().len(),
            n <= MerkleTree::capacity(self.spec_depth()),
    {
        proof {
            use_type_invariant(self);
        }
        self.leaves.len()
    }

    /// Appends a leaf and returns its index and the new root; fails when the
    /// tree already holds `2^depth` leaves.
    pub fn insert(&mut self, leaf: Fr) -> (r: Result<(usize, Fr), CoreError>)
        ensures
            r is Ok <==> old(self).leaf_values().len() < MerkleTree::capacity(old(self).spec_depth()),
            final(self).spec_depth() == old(self).spec_depth(),
            r is Ok ==> final(self).leaf_values() == old(self).leaf_values().push(leaf.val()),
            r is Err ==> final(self).leaf_values() == old(self).leaf_values(),
            r matches Ok((idx, root)) ==> idx == old(self).leaf_values().len() && root.val()
                == final(self).spec_current_root(),
            r matches Err(e) ==> e is MerkleError && e->MerkleError_0@
                == "Merkle tree capacity exceeded (max "@ + decimal(MerkleTree::capacity(old(self).spec_depth()))
                + " leaves)"@,
    {
        proof {
            use_type_invariant(&*self);
            lemma_u64_pow2_no_overflow(self.depth as nat);
            lemma_u64_shl_is_mul(1, self.depth as u64);
        }
        let max_leaves: u64 = 1u64 << (self.depth as u64);
        if self.leaves.len() as u64 >= max_leaves {
            let mut msg = String::from_str("Merkle tree capacity exceeded (max ");
            msg.append(decimal_string(max_leaves).as_str());
            msg.append(" leaves)");
            return Err(CoreError::MerkleError(msg));
        }
        let index = self.leaves.len();
        let ghost old_leaves = self.leaves@;
        let mut leaves: Vec<Fr> = Vec::new();
        std::mem::swap(&mut leaves, &mut self.leaves);
        leaves.push(leaf);
        self.leaves = leaves;
        assert(fr_vals(self.leaves@) =~= fr_vals(old_leaves).push(leaf.val()));
        let root = self.root();
        Ok((index, root))
    }

    /// The parents of `cur`, padding an odd last node with `z`.
    fn next_level_exec(cur: &Vec<Fr>, z: Fr) -> (next: Vec<Fr>)
        ensures
            fr_vals(next@) == next_level(fr_vals(cur@), z.val()),
    {
        let n = cur.len();
        let m = n / 2 + n % 2;
        let mut next: Vec<Fr> = Vec::new();
        let mut k: usize = 0;
        while k < m
            invariant
                n == cur@.len(),
                m == n / 2 + n % 2,
                k <= m,
                next@.len() == k,
                forall|j: int| 0 <= j < k ==> (#[trigger] next@[j]).val() == next_level(fr_vals(cur@), z.val())[j],
            decreases m - k,
        {
            let left = cur[2 * k];
            let right = if 2 * k + 1 < n { cur[2 * k + 1] } else { z };
            next.push(poseidon_hash_2(left, right));
            k = k + 1;
        }
        assert(fr_vals(next@) =~= next_level(fr_vals(cur@), z.val()));
        next
    }

    /// The current root: the empty-subtree hash of full height when there
    /// are no leaves, otherwise the single node at height `depth`.
    pub fn root(&self) -> (r: Fr)
        ensures
            r.val() == self.spec_current_root(),
    {
        proof {
            use_type_invariant(self);
        }
        if self.leaves.len() == 0 {
            return self.zero_hashes[self.depth];
        }
        let mut current_level = MerkleTree::next_level_exec(&self.leaves, self.zero_hashes[0]);
        let mut d: usize = 1;
        proof {
            lemma_level_nonempty(self.leaf_values(), 1);
            assert(level(self.leaf_values(), 1) == next_level(level(self.leaf_values(), 0), zero_hash(0)));
        }
        while d < self.depth
            invariant
                1 <= d <= self.depth,
                self.zero_hashes@.len() == self.depth + 1,
                forall|k: int| 0 <= k <= self.depth ==> (#[trigger] self.zero_hashes@[k]).val() == zero_hash(k as nat),
                fr_vals(current_level@) == level(self.leaf_values(), d as nat),
                self.leaf_values().len() > 0,
            decreases self.depth - d,
        {
            current_level = MerkleTree::next_level_exec(&current_level, self.zero_hashes[d]);
            d = d + 1;
        }
        proof {
            lemma_level_nonempty(self.leaf_values(), self.depth as nat);
        }
        current_level[0]
    }

    /// Generates the inclusion proof of the leaf at `leaf_index`; fails when
    /// the index is not below the number of leaves.
    pub fn generate_proof(&self, leaf_index: usize) -> (r: Result<MerkleProof, CoreError>)
        ensures
            r is Ok <==> leaf_index < self.leaf_values().len(),
            r matches Ok(p) ==> {
                &&& p.leaf_index == leaf_index
                &&& step_siblings(p.steps@) == spec_siblings(self.leaf_values(), leaf_index as nat, self.spec_depth())
                &&& step_directions(p.steps@) == spec_directions(leaf_index as nat, self.spec_depth())
                &&& p.expected_root.val() == self.spec_current_root()
                &&& p.spec_compute_root(self.leaf_values()[leaf_index as int]) == p.expected_root.val()
            },
            r matches Err(e) ==> e is MerkleError && e->MerkleError_0@ == "Leaf index "@ + decimal(leaf_index as nat)
                + " out of bounds (tree size: "@ + decimal(self.leaf_values().len()) + ")"@,
    {
        proof {
            use_type_invariant(self);
        }
        if leaf_index >= self.leaves.len() {
            let mut msg = String::from_str("Leaf index ");
            msg.append(decimal_string(leaf_index as u64).as_str());
            msg.append(" out of bounds (tree size: ");
            msg.append(decimal_string(self.leaves.len() as u64).as_str());
            msg.append(")");
            return Err(CoreError::MerkleError(msg));
        }
        let ghost lv = self.leaf_values();
        let mut steps: Vec<MerkleProofStep> = Vec::new();
        let mut idx: usize = leaf_index;
        let mut current_level: Vec<Fr> = Vec::new();
        let mut j: usize = 0;
        while j < self.leaves.len()
            invariant
                j <= self.leaves@.len(),
                current_level@ == self.leaves@.take(j as int),
            decreases self.leaves@.len() - j,
        {
            current_level.push(self.leaves[j]);
            j = j + 1;
            assert(current_level@ =~= self.leaves@.take(j as int));
        }
        assert(self.leaves@.take(j as int) =~= self.leaves@);
        let mut d: usize = 0;
        while d < self.depth
            invariant
                d <= self.depth,
                self.zero_hashes@.len() == self.depth + 1,
                forall|k: int| 0 <= k <= self.depth ==> (#[trigger] self.zero_hashes@[k]).val() == zero_hash(k as nat),
                lv == self.leaf_values(),
                leaf_index < lv.len(),
                fr_vals(current_level@) == level(lv, d as nat),
                idx == path_index(leaf_index as nat, d as nat),
                idx < current_level@.len(),
                steps@.len() == d,
                step_siblings(steps@) == spec_siblings(lv, leaf_index as nat, d as nat),
                step_directions(steps@) == spec_directions(leaf_index as nat, d as nat),
            decreases self.depth - d,
        {
            let is_right_child = idx % 2 == 1;
            let sibling_hash = if is_right_child {
                current_level[idx - 1]
            } else if idx + 1 < current_level.len() {
                current_level[idx + 1]
            } else {
                self.zero_hashes[d]
            };
            let ghost prev = steps@;
            proof {
                let cl = fr_vals(current_level@);
                if is_right_child {
                    assert(cl[idx - 1] == current_level@[idx - 1].val());
                } else if idx + 1 < current_level.len() {
                    assert(cl[idx + 1] == current_level@[idx + 1].val());
                }
                assert(sibling_hash.val() == spec_sibling(lv, leaf_index as nat, d as nat));
                assert(!is_right_child == spec_is_right(leaf_index as nat, d as nat));
            }
            steps.push(MerkleProofStep { sibling: sibling_hash, is_right: !is_right_child });
            proof {
                let st = MerkleProofStep { sibling: sibling_hash, is_right: !is_right_child };
                assert(steps@ == prev.push(st));
                assert(step_siblings(steps@) =~= step_siblings(prev).push(sibling_hash.val()));
                assert(step_directions(steps@) =~= step_directions(prev).push(!is_right_child));
                assert(spec_siblings(lv, leaf_index as nat, (d + 1) as nat) =~= spec_siblings(lv, leaf_index as nat, d as nat).push(spec_sibling(lv, leaf_index as nat, d as nat)));
                assert(spec_directions(leaf_index as nat, (d + 1) as nat) =~= spec_directions(leaf_index as nat, d as nat).push(spec_is_right(leaf_index as nat, d as nat)));
                assert(step_siblings(steps@) =~= spec_siblings(lv, leaf_index as nat, (d + 1) as nat));
                assert(step_directions(steps@) =~= spec_directions(leaf_index as nat, (d + 1) as nat));
            }
            current_level = MerkleTree::next_level_exec(&current_level, self.zero_hashes[d]);
            idx = idx / 2;
            d = d + 1;
            proof {
                assert(level(lv, d as nat) == next_level(level(lv, (d - 1) as nat), zero_hash((d - 1) as nat)));
            }
        }
        let root = self.root();
        let proof = MerkleProof { leaf_index, steps, expected_root: root };
        proof {
            lemma_inclusion_proof_complete(lv, self.depth as nat, leaf_index as nat);
        }
        Ok(proof)
    }
}

impl Clone for MerkleTree {
    fn clone(&self) -> (c: Self)
        ensures
            c.spec_depth() == self.spec_depth(),
            c.leaf_values() == self.leaf_values(),
    {
        proof {
            use_type_invariant(self);
        }
        let mut leaves: Vec<Fr> = Vec::new();
        let mut i: usize = 0;
        while i < self.leaves.len()
            invariant
                i <= self.leaves@.len(),
                leaves@ == self.leaves@.take(i as int),
            decreases self.leaves@.len() - i,
        {
            leaves.push(self.leaves[i]);
            i = i + 1;
            assert(leaves@ =~= self.leaves@.take(i as int));
        }
        let mut zero_hashes: Vec<Fr> = Vec::new();
        let mut j: usize = 0;
        while j < self.zero_hashes.len()
            invariant
                j <= self.zero_hashes@.len(),
                zero_hashes@ == self.zero_hashes@.take(j as int),
            decreases self.zero_hashes@.len() - j,
        {
            zero_hashes.push(self.zero_hashes[j]);
            j = j + 1;
            assert(zero_hashes@ =~= self.zero_hashes@.take(j as int));
        }
        assert(leaves@ =~= self.leaves@);
        assert(zero_hashes@ =~= self.zero_hashes@);
        MerkleTree { depth: self.depth, leaves, zero_hashes }
    }
}

/// Every level above a nonempty set of leaves is nonempty.
proof fn lemma_level_nonempty(leaves: Seq<nat>, d: nat)
    requires
        leaves.len() > 0,
    ensures
        level(leaves, d).len() > 0,
    decreases d,
{
    if d > 0 {
        lemma_level_nonempty(leaves, (d - 1) as nat);
    }
}

/// With at most `2^depth` leaves, height `d` holds at most `2^(depth - d)` nodes.
proof fn lemma_level_len_bound(leaves: Seq<nat>, depth: nat, d: nat)
    requires
        leaves.len() <= pow2(depth),
        d <= depth,
    ensures
        level(leaves, d).len() <= pow2((depth - d) as nat),
    decreases d,
{
    if d > 0 {
        lemma_level_len_bound(leaves, depth, (d - 1) as nat);
        let k = (depth - d) as nat;
        vstd::arithmetic::power2::lemma_pow2_adds(k, 1);
        lemma2_to64();
        assert(pow2((depth - (d - 1)) as nat) == 2 * pow2(k));
    }
}

/// The path computed from leaf `i` passes through its ancestor at every height.
proof fn lemma_path_reaches_level(leaves: Seq<nat>, i: nat, d: nat)
    requires
        i < leaves.len(),
    ensures
        path_index(i, d) < level(leaves, d).len(),
        path_root(leaves[i as int], spec_siblings(leaves, i, d), spec_directions(i, d)) == level(leaves, d)[path_index(i, d) as int],
    decreases d,
{
    if d > 0 {
        let e = (d - 1) as nat;
        lemma_path_reaches_level(leaves, i, e);
        assert(spec_siblings(leaves, i, d).drop_last() =~= spec_siblings(leaves, i, e));
        assert(spec_directions(i, d).drop_last() =~= spec_directions(i, e));
        let idx = path_index(i, e);
        let lv = level(leaves, e);
        let k = idx / 2;
        assert(level(leaves, d) == next_level(lv, zero_hash(e)));
        if idx % 2 == 0 {
            assert(2 * k == idx);
        } else {
            assert(2 * k + 1 == idx);
        }
    }
}

/// Inclusion proofs are complete: the authentication path of any committed
/// leaf leads from that leaf to the root of the tree.
pub proof fn lemma_inclusion_proof_complete(leaves: Seq<nat>, depth: nat, i: nat)
    requires
        i < leaves.len(),
        leaves.len() <= pow2(depth),
    ensures
        path_root(leaves[i as int], spec_siblings(leaves, i, depth), spec_directions(i, depth)) == spec_root(leaves, depth),
{
    lemma_path_reaches_level(leaves, i, depth);
    lemma_level_len_bound(leaves, depth, depth);
    assert(pow2(0) == 1) by {
        lemma2_to64();
    }
}

/// A proof produced for a committed leaf verifies that leaf against the
/// tree's root.
pub proof fn lemma_generated_proof_verifies(tree: MerkleTree, p: MerkleProof, i: nat)
    requires
        tree.wf(),
        i < tree.leaf_values().len(),
        step_siblings(p.steps@) == spec_siblings(tree.leaf_values(), i, tree.spec_depth()),
        step_directions(p.steps@) == spec_directions(i, tree.spec_depth()),
        p.expected_root.val() == tree.spec_current_root(),
    ensures
        p.spec_compute_root(tree.leaf_values()[i as int]) == p.expected_root.val(),
{
    lemma_inclusion_proof_complete(tree.leaf_values(), tree.spec_depth(), i);
}

/// `n` zero leaves.
pub open spec fn zero_leaves(n: nat) -> Seq<nat> {
    Seq::new(n, |i: int| 0nat)
}

/// Appending the empty-subtree hash of a level to that level appends the
/// empty-subtree hash of the next level to its parents, or leaves them
/// unchanged when it completes an odd last pair.
proof fn lemma_next_level_padded(a: Seq<nat>, z: nat)
    ensures
        next_level(a.push(z), z) == next_level(a, z) || next_level(a.push(z), z) == next_level(a, z).push(
            spec_hash_2(z, z),
        ),
{
    let b = a.push(z);
    if a.len() % 2 == 0 {
        assert(next_level(b, z) =~= next_level(a, z).push(spec_hash_2(z, z)));
    } else {
        assert(next_level(b, z) =~= next_level(a, z));
    }
}

/// The levels above leaves followed by one more zero leaf are the levels
/// above the leaves, each with at most the empty-subtree hash of its
/// height appended.
proof fn lemma_level_padded(leaves: Seq<nat>, d: nat)
    ensures
        level(leaves.push(0), d) == level(leaves, d) || level(leaves.push(0), d) == level(leaves, d).push(
            zero_hash(d),
        ),
    decreases d,
{
    if d > 0 {
        let e = (d - 1) as nat;
        lemma_level_padded(leaves, e);
        let z = zero_hash(e);
        let a = level(leaves, e);
        if level(leaves.push(0), e) == a.push(z) {
            lemma_next_level_padded(a, z);
        }
    }
}

/// There are no nodes above no leaves.
proof fn lemma_level_empty(d: nat)
    ensures
        level(Seq::<nat>::empty(), d) == Seq::<nat>::empty(),
    decreases d,
{
    if d > 0 {
        lemma_level_empty((d - 1) as nat);
        assert(level(Seq::<nat>::empty(), d) =~= Seq::<nat>::empty());
    }
}

/// A zero leaf stands for an empty position: appending one does not
/// change the root.
pub proof fn lemma_root_ignores_zero_leaf(leaves: Seq<nat>, depth: nat)
    ensures
        spec_root(leaves.push(0), depth) == spec_root(leaves, depth),
{
    lemma_level_padded(leaves, depth);
    if leaves.len() > 0 {
        lemma_level_nonempty(leaves, depth);
    } else {
        assert(leaves =~= Seq::<nat>::empty());
        lemma_level_empty(depth);
        lemma_level_nonempty(leaves.push(0), depth);
        assert(level(leaves.push(0), depth) =~= seq![zero_hash(depth)]);
    }
}

/// The root of a tree over some leaves is the root of the tree whose
/// remaining positions hold zero leaves; in particular, with
/// `k = 2^depth - leaves.len()`, it is the root of the full binary tree of
/// that depth, every missing leaf being 0 and every odd last node paired
/// with the root of an empty subtree of its height.
pub proof fn lemma_root_of_zero_padded_leaves(leaves: Seq<nat>, depth: nat, k: nat)
    ensures
        spec_root(leaves + zero_leaves(k), depth) == spec_root(leaves, depth),
    decreases k,
{
    if k == 0 {
        assert(leaves + zero_leaves(0) =~= leaves);
    } else {
        let k1 = (k - 1) as nat;
        lemma_root_of_zero_padded_leaves(leaves, depth, k1);
        assert(leaves + zero_leaves(k) =~= (leaves + zero_leaves(k1)).push(0));
        lemma_root_ignores_zero_leaf(leaves + zero_leaves(k1), depth);
    }
}

/// The root of an empty subtree of height `d` is the root of a tree of
/// that height over `2^d` zero leaves.
pub proof fn lemma_empty_subtree_root(d: nat)
    ensures
        spec_root(zero_leaves(pow2(d)), d) == zero_hash(d),
{
    lemma_root_of_zero_padded_leaves(Seq::<nat>::empty(), d, pow2(d));
    assert(Seq::<nat>::empty() + zero_leaves(pow2(d)) =~= zero_leaves(pow2(d)));
}

/// Two trees of the same depth whose leaves differ only by trailing zero
/// leaves have the same root.
pub proof fn lemma_tree_root_ignores_trailing_zeros(t1: MerkleTree, t2: MerkleTree, k: nat)
    requires
        t1.spec_depth() == t2.spec_depth(),
        t2.leaf_values() == t1.leaf_values() + zero_leaves(k),
    ensures
        t1.spec_current_root() == t2.spec_current_root(),
{
    lemma_root_of_zero_padded_leaves(t1.leaf_values(), t1.spec_depth(), k);
}

} // verus!
