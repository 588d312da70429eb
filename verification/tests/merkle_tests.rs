use zktrace::error::CoreError;
use zktrace::field::{u64_to_fr, Fr};
use zktrace::merkle::{MerkleProof, MerkleProofStep, MerkleTree};
use zktrace::poseidon::poseidon_hash_2;

#[test]
fn test_empty_tree_root() {
    let tree = MerkleTree::new(4);
    let root = tree.root();
    assert_ne!(root, u64_to_fr(0u64));
}

#[test]
fn test_insert_and_verify_single_leaf() {
    let mut tree = MerkleTree::new(4);
    let leaf = u64_to_fr(1337u64);
    let (idx, root) = tree.insert(leaf).expect("Insertion should succeed");

    assert_eq!(idx, 0);
    assert_eq!(root, tree.root());

    let proof = tree.generate_proof(0).expect("Proof generation should succeed");
    assert!(proof.verify(&leaf));

    let fake_leaf = u64_to_fr(9999u64);
    assert!(!proof.verify(&fake_leaf));
}

#[test]
fn test_multiple_leaves_inclusion_proofs() {
    let mut tree = MerkleTree::new(5);
    let mut inserted_leaves = Vec::new();

    for i in 0..10 {
        let leaf = poseidon_hash_2(u64_to_fr(i as u64), u64_to_fr(100 + i as u64));
        tree.insert(leaf).expect("Insertion must succeed");
        inserted_leaves.push(leaf);
    }

    let root = tree.root();
    for (i, leaf) in inserted_leaves.iter().enumerate() {
        let proof = tree.generate_proof(i).expect("Proof must generate");
        assert_eq!(proof.expected_root, root);
        assert!(proof.verify(leaf), "Inclusion proof must verify for leaf {}", i);
    }
}

#[test]
fn empty_root_is_zero_hash_chain() {
    let tree = MerkleTree::new(2);
    let z0 = u64_to_fr(0);
    let z1 = poseidon_hash_2(z0, z0);
    let z2 = poseidon_hash_2(z1, z1);
    assert_eq!(tree.root(), z2);
}

#[test]
fn root_of_three_leaves_pads_with_zero_hashes() {
    let mut tree = MerkleTree::new(2);
    let a = u64_to_fr(1);
    let b = u64_to_fr(2);
    let c = u64_to_fr(3);
    tree.insert(a).unwrap();
    tree.insert(b).unwrap();
    tree.insert(c).unwrap();
    let z0 = u64_to_fr(0);
    let expected = poseidon_hash_2(poseidon_hash_2(a, b), poseidon_hash_2(c, z0));
    assert_eq!(tree.root(), expected);
    assert_eq!(tree.len(), 3);
    assert_eq!(tree.depth(), 2);
    assert_eq!(tree.leaves(), &vec![a, b, c]);
}

#[test]
fn proof_steps_name_siblings_and_directions() {
    let mut tree = MerkleTree::new(2);
    let a = u64_to_fr(1);
    let b = u64_to_fr(2);
    let c = u64_to_fr(3);
    tree.insert(a).unwrap();
    tree.insert(b).unwrap();
    tree.insert(c).unwrap();
    let z0 = u64_to_fr(0);
    let p = tree.generate_proof(2).unwrap();
    assert_eq!(p.leaf_index, 2);
    assert_eq!(
        p.steps,
        vec![
            MerkleProofStep { sibling: z0, is_right: true },
            MerkleProofStep { sibling: poseidon_hash_2(a, b), is_right: false },
        ]
    );
    assert_eq!(p.compute_root(&c), tree.root());
}

#[test]
fn insert_fails_when_tree_is_full() {
    let mut tree = MerkleTree::new(1);
    tree.insert(u64_to_fr(1)).unwrap();
    tree.insert(u64_to_fr(2)).unwrap();
    let root_before = tree.root();
    match tree.insert(u64_to_fr(3)) {
        Err(CoreError::MerkleError(msg)) => assert_eq!(msg, "Merkle tree capacity exceeded (max 2 leaves)"),
        other => panic!("unexpected {:?}", other),
    }
    assert_eq!(tree.len(), 2);
    assert_eq!(tree.root(), root_before);
}

#[test]
fn generate_proof_rejects_index_past_leaves() {
    let mut tree = MerkleTree::new(3);
    tree.insert(u64_to_fr(7)).unwrap();
    match tree.generate_proof(1) {
        Err(CoreError::MerkleError(msg)) => assert_eq!(msg, "Leaf index 1 out of bounds (tree size: 1)"),
        other => panic!("unexpected {:?}", other),
    }
}

#[test]
fn tampered_proof_does_not_verify() {
    let mut tree = MerkleTree::new(3);
    for i in 0..4u64 {
        tree.insert(u64_to_fr(i + 10)).unwrap();
    }
    let p = tree.generate_proof(1).unwrap();
    let mut flipped = p.clone();
    flipped.steps[0].is_right = !flipped.steps[0].is_right;
    assert!(p.verify(&u64_to_fr(11)));
    assert!(!flipped.verify(&u64_to_fr(11)));
    let other_root = MerkleProof { leaf_index: 1, steps: p.steps.clone(), expected_root: u64_to_fr(5) };
    assert!(!other_root.verify(&u64_to_fr(11)));
}

#[test]
fn cloned_tree_keeps_leaves_and_root() {
    let mut tree = MerkleTree::new(3);
    tree.insert(u64_to_fr(4)).unwrap();
    let copy = tree.clone();
    assert_eq!(copy.root(), tree.root());
    assert_eq!(copy.leaves(), tree.leaves());
    let _unused: Fr = copy.root();
}
