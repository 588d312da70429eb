//! The append-only cryptographic ledger: a Poseidon Merkle tree over the
//! leaves of logged execution events, with their storage.

use vstd::prelude::*;
use vstd::arithmetic::power2::pow2;
use crate::bundle::AuditBundle;
use crate::error::LedgerError;
use crate::execution::ExecutionEvent;
use crate::field::{Fr, lemma_fr_val_injective};
use crate::merkle::{MerkleProof, MerkleTree, spec_root, spec_siblings, spec_directions, step_siblings, step_directions};
use crate::receipt::{AuditReceipt, same_inclusion};
use crate::receipt_verifier::{inclusion_ok, receipt_leaf};
use crate::store::{LedgerStorage, MemoryStore};
use crate::text::decimal;

verus! {

/// The ledger leaves of a run of events.
pub open spec fn event_leaves(events: Seq<ExecutionEvent>) -> Seq<nat> {
    events.map_values(|e: ExecutionEvent| e.spec_leaf())
}

/// The receipts held for a run of events, in event order, skipping the
/// events that have none.
pub open spec fn receipts_for(events: Seq<ExecutionEvent>, receipts: Map<u128, AuditReceipt>) -> Seq<AuditReceipt>
    decreases events.len(),
{
    if events.len() == 0 {
        Seq::empty()
    } else {
        let rest = receipts_for(events.drop_last(), receipts);
        let id = events.last().event_id;
        if receipts.contains_key(id) {
            rest.push(receipts[id])
        } else {
            rest
        }
    }
}

/// The positions within `events` of the events that have a receipt, in
/// the order of `receipts_for`.
pub open spec fn receipt_positions(events: Seq<ExecutionEvent>, receipts: Map<u128, AuditReceipt>) -> Seq<int>
    decreases events.len(),
{
    if events.len() == 0 {
        Seq::empty()
    } else {
        let rest = receipt_positions(events.drop_last(), receipts);
        if receipts.contains_key(events.last().event_id) {
            rest.push(events.len() - 1)
        } else {
            rest
        }
    }
}

/// A receipt as exported: the stored receipt with its inclusion proof
/// refreshed to the path of leaf `i` against the export's root `root`.
pub open spec fn refreshed(out: AuditReceipt, stored: AuditReceipt, leaves: Seq<nat>, i: nat, depth: nat, root: Fr) -> bool {
    &&& out.receipt_id == stored.receipt_id
    &&& out.event_id == stored.event_id
    &&& out.public_inputs == stored.public_inputs
    &&& out.proof == stored.proof
    &&& out.timestamp == stored.timestamp
    &&& out.ledger_root == root
    &&& out.merkle_inclusion matches Some(p) && proves_leaf(p, leaves, i, depth) && p.expected_root == root
        && p.spec_compute_root(leaves[i as int]) == root.val()
}

/// The ids of the events among `events` that have a receipt at the same
/// position of a receipt list of length `n_receipts`.
pub open spec fn receipted_ids(events: Seq<ExecutionEvent>, n_receipts: nat) -> Set<u128> {
    Set::new(|id: u128| exists|k: int| 0 <= k < events.len() && k < n_receipts && (#[trigger] events[k]).event_id == id)
}

/// `p` is the inclusion proof of leaf `i` of a tree of the given depth over `leaves`.
pub open spec fn proves_leaf(p: MerkleProof, leaves: Seq<nat>, i: nat, depth: nat) -> bool {
    &&& p.leaf_index == i
    &&& step_siblings(p.steps@) == spec_siblings(leaves, i, depth)
    &&& step_directions(p.steps@) == spec_directions(i, depth)
    &&& p.expected_root.val() == spec_root(leaves, depth)
}

/// The receipt stored for an event: the given receipt stamped with the
/// event's inclusion proof and the new ledger root.
pub open spec fn stamped(stored: AuditReceipt, given: AuditReceipt, p: MerkleProof, root: Fr) -> bool {
    &&& stored.receipt_id == given.receipt_id
    &&& stored.event_id == given.event_id
    &&& stored.public_inputs == given.public_inputs
    &&& stored.proof == given.proof
    &&& same_inclusion(stored.merkle_inclusion, Some(p))
    &&& stored.ledger_root == root
    &&& stored.timestamp == given.timestamp
}

/// An append-only ledger of tool executions with a rolling Merkle root.
pub struct CryptographicLedger<S: LedgerStorage> {
    tree: MerkleTree,
    storage: S,
    tree_depth: usize,
}

impl CryptographicLedger<MemoryStore> {
    /// Opens an empty in-memory ledger with a tree of the given depth.
    pub fn open_in_memory(tree_depth: usize) -> (l: CryptographicLedger<MemoryStore>)
        requires
            1 <= tree_depth <= 32,
        ensures
            l.tree_spec_depth() == tree_depth,
            l.configured_depth() == tree_depth,
            l.tree_leaves() == Seq::<nat>::empty(),
            l.store().stored_events() == Seq::<ExecutionEvent>::empty(),
            l.store().stored_receipts() == Map::<u128, AuditReceipt>::empty(),
            l.in_sync(),
    {
        let tree = MerkleTree::new(tree_depth);
        let storage = MemoryStore::new();
        let l = CryptographicLedger { tree, storage, tree_depth };
        assert(event_leaves(l.store().stored_events()) =~= Seq::<nat>::empty());
        l
    }
}

impl<S: LedgerStorage> CryptographicLedger<S> {
    /// The leaves committed in the tree.
    pub closed spec fn tree_leaves(&self) -> Seq<nat> {
        self.tree.leaf_values()
    }

    /// The depth of the tree.
    pub closed spec fn tree_spec_depth(&self) -> nat {
        self.tree.spec_depth()
    }

    /// The storage engine.
    pub closed spec fn store(&self) -> S {
        self.storage
    }

    /// The depth the ledger was opened with.
    pub closed spec fn configured_depth(&self) -> nat {
        self.tree_depth as nat
    }

    /// The current ledger root.
    pub open spec fn spec_root(&self) -> nat {
        spec_root(self.tree_leaves(), self.tree_spec_depth())
    }

    /// The tree holds exactly the leaves of the stored events, in order.
    pub open spec fn in_sync(&self) -> bool {
        self.tree_leaves() == event_leaves(self.store().stored_events())
    }

    /// `b` is the bundle of the events at `start..end`, with their receipts
    /// refreshed to the current root, their inclusion proofs and that root.
    pub open spec fn exported(&self, b: AuditBundle, start: nat, end: nat) -> bool {
        let stored = self.store().stored_events();
        let run = stored.subrange(start as int, end as int);
        &&& b.version == 1
        &&& b.start_index == start
        &&& b.leaf_count == end - start
        &&& b.ledger_root.val() == self.spec_root()
        &&& b.events@.len() == end - start
        &&& forall|k: int| 0 <= k < end - start ==> (#[trigger] b.events@[k]).same_content(stored[start + k])
        &&& b.receipts@.len() == receipts_for(run, self.store().stored_receipts()).len()
        &&& forall|k: int|
            0 <= k < b.receipts@.len() ==> refreshed(
                #[trigger] b.receipts@[k],
                receipts_for(run, self.store().stored_receipts())[k],
                self.tree_leaves(),
                (start + receipt_positions(run, self.store().stored_receipts())[k]) as nat,
                self.tree_spec_depth(),
                b.ledger_root,
            )
        &&& b.inclusion_proofs@.len() == end - start
        &&& forall|k: int|
            0 <= k < end - start ==> proves_leaf(
                #[trigger] b.inclusion_proofs@[k],
                self.tree_leaves(),
                (start + k) as nat,
                self.tree_spec_depth(),
            )
    }

    /// Opens a ledger over a storage engine: the tree it saved, or an empty
    /// tree of the given depth when it saved none.
    pub fn open_with_storage(storage: S, tree_depth: usize) -> (r: Result<Self, LedgerError>)
        requires
            1 <= tree_depth <= 32,
        ensures
            S::infallible() ==> r is Ok,
            r matches Ok(l) ==> {
                &&& l.store() == storage
                &&& l.configured_depth() == tree_depth
                &&& match storage.stored_tree() {
                    Some((d, lv)) => l.tree_spec_depth() == d && l.tree_leaves() == lv,
                    None => l.tree_spec_depth() == tree_depth && l.tree_leaves() == Seq::<nat>::empty(),
                }
            },
    {
        let loaded = match storage.load_tree() {
            Ok(t) => t,
            Err(e) => return Err(e),
        };
        let tree = match loaded {
            Some(t) => t,
            None => MerkleTree::new(tree_depth),
        };
        Ok(CryptographicLedger { tree, storage, tree_depth })
    }

    /// Appends an event (and optionally its receipt) to the ledger: inserts
    /// its leaf, stores the event and the tree, and returns the leaf index,
    /// the new root and the leaf's inclusion proof. A given receipt is
    /// stored stamped with that proof and root.
    pub fn append_execution(&mut self, event: &ExecutionEvent, receipt: Option<AuditReceipt>) -> (r: Result<
        (usize, Fr, MerkleProof),
        LedgerError,
    >)
        ensures
            final(self).tree_spec_depth() == old(self).tree_spec_depth(),
            final(self).configured_depth() == old(self).configured_depth(),
            old(self).tree_leaves().len() >= pow2(old(self).tree_spec_depth()) ==> {
                &&& r matches Err(e) && e is MerkleError && e->MerkleError_0@ == "Failed to insert leaf: "@
                    + "Merkle tree error: "@ + "Merkle tree capacity exceeded (max "@ + decimal(
                    pow2(old(self).tree_spec_depth()),
                ) + " leaves)"@
                &&& final(self).tree_leaves() == old(self).tree_leaves()
                &&& final(self).store() == old(self).store()
            },
            old(self).tree_leaves().len() < pow2(old(self).tree_spec_depth()) ==> final(self).tree_leaves()
                == old(self).tree_leaves().push(event.spec_leaf()),
            S::infallible() && old(self).tree_leaves().len() < pow2(old(self).tree_spec_depth())
                && old(self).tree_leaves().len() <= old(self).store().stored_events().len() ==> r is Ok,
            r matches Ok((i, root, p)) ==> {
                let old_events = old(self).store().stored_events();
                let new_events = final(self).store().stored_events();
                &&& i == old(self).tree_leaves().len()
                &&& root.val() == final(self).spec_root()
                &&& p.expected_root == root
                &&& proves_leaf(p, final(self).tree_leaves(), i as nat, final(self).tree_spec_depth())
                &&& p.spec_compute_root(event.spec_leaf()) == root.val()
                &&& i <= old_events.len()
                &&& new_events.len() == if i == old_events.len() { old_events.len() + 1 } else { old_events.len() }
                &&& new_events[i as int].same_content(*event)
                &&& forall|j: int| 0 <= j < old_events.len() && j != i ==> new_events[j] == old_events[j]
                &&& final(self).store().event_index() == old(self).store().event_index().insert(event.event_id, i as nat)
                &&& final(self).store().stored_tree() == Some((final(self).tree_spec_depth(), final(self).tree_leaves()))
                &&& match receipt {
                    Some(rc) => {
                        &&& final(self).store().stored_receipts().dom() == old(self).store().stored_receipts().dom().insert(event.event_id)
                        &&& stamped(final(self).store().stored_receipts()[event.event_id], rc, p, root)
                        &&& forall|k: u128| k != event.event_id && old(self).store().stored_receipts().contains_key(k)
                            ==> final(self).store().stored_receipts()[k] == old(self).store().stored_receipts()[k]
                    },
                    None => final(self).store().stored_receipts() == old(self).store().stored_receipts(),
                }
                &&& old(self).in_sync() ==> final(self).in_sync()
            },
    {
        proof {
            use_type_invariant(&self.tree);
        }
        let leaf = event.compute_ledger_leaf();
        let (leaf_index, root) = match self.tree.insert(leaf) {
            Ok(pair) => pair,
            Err(e) => {
                let mut msg = String::from_str("Failed to insert leaf: ");
                msg.append(e.message().as_str());
                return Err(LedgerError::MerkleError(msg));
            },
        };
        match self.storage.save_event(leaf_index, event) {
            Ok(()) => {},
            Err(e) => return Err(e),
        }
        match self.storage.save_tree(&self.tree) {
            Ok(()) => {},
            Err(e) => return Err(e),
        }
        let inclusion_proof = match self.tree.generate_proof(leaf_index) {
            Ok(p) => p,
            Err(e) => {
                let mut msg = String::from_str("Failed to generate inclusion proof: ");
                msg.append(e.message().as_str());
                return Err(LedgerError::MerkleError(msg));
            },
        };
        match receipt {
            Some(rc) => {
                let mut stamped_receipt = rc;
                stamped_receipt.merkle_inclusion = Some(inclusion_proof.clone());
                stamped_receipt.ledger_root = root;
                match self.storage.save_receipt(&event.event_id, &stamped_receipt) {
                    Ok(()) => {},
                    Err(e) => return Err(e),
                }
            },
            None => {},
        }
        proof {
            lemma_fr_val_injective(inclusion_proof.expected_root, root);
            let new_events = self.storage.stored_events();
            if old(self).in_sync() {
                assert(event_leaves(new_events) =~= old(self).tree_leaves().push(event.spec_leaf()));
            }
        }
        Ok((leaf_index, root, inclusion_proof))
    }

    /// The current Merkle root of the ledger.
    pub fn get_root(&self) -> (r: Fr)
        ensures
            r.val() == self.spec_root(),
    {
        self.tree.root()
    }

    /// The inclusion proof of a committed leaf; fails for an index past the
    /// committed leaves.
    pub fn get_inclusion_proof(&self, leaf_index: usize) -> (r: Result<MerkleProof, LedgerError>)
        ensures
            r is Ok <==> leaf_index < self.tree_leaves().len(),
            r matches Ok(p) ==> proves_leaf(p, self.tree_leaves(), leaf_index as nat, self.tree_spec_depth())
                && p.spec_compute_root(self.tree_leaves()[leaf_index as int]) == p.expected_root.val(),
            r matches Err(e) ==> e is MerkleError,
    {
        match self.tree.generate_proof(leaf_index) {
            Ok(p) => Ok(p),
            Err(e) => {
                let mut msg = String::from_str("Failed to generate proof: ");
                msg.append(e.message().as_str());
                Err(LedgerError::MerkleError(msg))
            },
        }
    }

    /// Looks up a stored event by its id.
    pub fn get_event(&self, event_id: &u128) -> (r: Result<Option<ExecutionEvent>, LedgerError>)
        ensures
            S::infallible() ==> r is Ok,
            r matches Ok(o) ==> (o is Some <==> (self.store().event_index().contains_key(*event_id)
                && self.store().event_index()[*event_id] < self.store().stored_events().len())),
            r matches Ok(Some(e)) ==> e.same_content(
                self.store().stored_events()[self.store().event_index()[*event_id] as int],
            ),
    {
        self.storage.get_event(event_id)
    }

    /// Looks up a stored receipt by event id.
    pub fn get_receipt(&self, event_id: &u128) -> (r: Result<Option<AuditReceipt>, LedgerError>)
        ensures
            S::infallible() ==> r is Ok,
            r matches Ok(o) ==> (o is Some <==> self.store().stored_receipts().contains_key(*event_id)),
            r matches Ok(Some(rc)) ==> rc.same_content(self.store().stored_receipts()[*event_id]),
    {
        self.storage.get_receipt(event_id)
    }

    /// The number of stored events.
    pub fn count(&self) -> (n: usize)
        ensures
            n == self.store().stored_events().len(),
    {
        self.storage.event_count()
    }

    /// The depth the ledger was opened with.
    pub fn tree_depth(&self) -> (d: usize)
        ensures
            d == self.configured_depth(),
    {
        self.tree_depth
    }

    /// Exports the events at `start_idx..min(start_idx + count, total)` as a
    /// bundle, with their inclusion proofs and the current root; each of
    /// their receipts goes out with its inclusion proof and ledger root
    /// refreshed to that root. Fails when an event of the range has no
    /// committed leaf.
    pub fn export_bundle(&self, start_idx: usize, count: usize) -> (r: Result<AuditBundle, LedgerError>)
        requires
            start_idx + count <= usize::MAX,
            start_idx <= self.store().stored_events().len(),
        ensures
            ({
                let total = self.store().stored_events().len();
                let end = if start_idx + count < total { (start_idx + count) as nat } else { total };
                &&& S::infallible() && (end == start_idx || end <= self.tree_leaves().len()) ==> r is Ok
                &&& r is Ok && start_idx < end ==> end <= self.tree_leaves().len()
                &&& r matches Ok(b) ==> self.exported(b, start_idx as nat, end)
            }),
    {
        let total = self.storage.event_count();
        let end_idx = if start_idx + count < total { start_idx + count } else { total };
        let ghost stored = self.store().stored_events();
        let ghost receipts_map = self.store().stored_receipts();
        let ghost leaves = self.tree_leaves();
        let ghost depth = self.tree_spec_depth();
        let root = self.get_root();
        let mut events: Vec<ExecutionEvent> = Vec::new();
        let mut receipts: Vec<AuditReceipt> = Vec::new();
        let mut proofs: Vec<MerkleProof> = Vec::new();
        let mut idx: usize = start_idx;
        while idx < end_idx
            invariant
                start_idx <= idx <= end_idx <= total,
                total == stored.len(),
                end_idx == if start_idx + count < total { (start_idx + count) as usize } else { total },
                stored == self.store().stored_events(),
                receipts_map == self.store().stored_receipts(),
                leaves == self.tree_leaves(),
                depth == self.tree_spec_depth(),
                root.val() == self.spec_root(),
                events@.len() == idx - start_idx,
                proofs@.len() == idx - start_idx,
                forall|k: int| 0 <= k < idx - start_idx ==> (#[trigger] events@[k]).same_content(stored[start_idx + k]),
                forall|k: int|
                    0 <= k < idx - start_idx ==> proves_leaf(#[trigger] proofs@[k], leaves, (start_idx + k) as nat, depth),
                receipts@.len() == receipts_for(stored.subrange(start_idx as int, idx as int), receipts_map).len(),
                forall|k: int|
                    0 <= k < receipts@.len() ==> refreshed(
                        #[trigger] receipts@[k],
                        receipts_for(stored.subrange(start_idx as int, idx as int), receipts_map)[k],
                        leaves,
                        (start_idx + receipt_positions(stored.subrange(start_idx as int, idx as int), receipts_map)[k]) as nat,
                        depth,
                        root,
                    ),
                receipt_positions(stored.subrange(start_idx as int, idx as int), receipts_map).len() == receipts@.len(),
                idx > start_idx ==> idx <= self.tree_leaves().len(),
            decreases end_idx - idx,
        {
            let found = match self.storage.get_event_by_index(idx) {
                Ok(o) => o,
                Err(e) => return Err(e),
            };
            match found {
                Some(event) => {
                    let ghost before = receipts@;
                    let rc = match self.storage.get_receipt(&event.event_id) {
                        Ok(o) => o,
                        Err(e) => return Err(e),
                    };
                    let proof = match self.get_inclusion_proof(idx) {
                        Ok(p) => p,
                        Err(e) => return Err(e),
                    };
                    proof {
                        lemma_fr_val_injective(proof.expected_root, root);
                    }
                    match rc {
                        Some(receipt) => {
                            let mut out = receipt;
                            out.merkle_inclusion = Some(proof.clone());
                            out.ledger_root = root;
                            receipts.push(out);
                        },
                        None => {},
                    }
                    proofs.push(proof);
                    events.push(event);
                    proof {
                        let run = stored.subrange(start_idx as int, idx + 1);
                        let prev = stored.subrange(start_idx as int, idx as int);
                        assert(run.drop_last() =~= prev);
                        assert(run.last() == stored[idx as int]);
                        assert(run.len() - 1 == idx - start_idx);
                        let want = receipts_for(run, receipts_map);
                        let pos = receipt_positions(run, receipts_map);
                        assert forall|k: int| 0 <= k < receipts@.len() implies refreshed(
                            #[trigger] receipts@[k],
                            want[k],
                            leaves,
                            (start_idx + pos[k]) as nat,
                            depth,
                            root,
                        ) by {
                            if k < before.len() {
                                assert(receipts@[k] == before[k]);
                            }
                        }
                    }
                },
                None => {
                    assert(false);
                },
            }
            idx = idx + 1;
        }
        Ok(AuditBundle::new(start_idx, root, events, receipts, proofs))
    }

    /// Appends every event of a bundle, each with the receipt at the same
    /// position of the bundle's receipt list, and returns how many were
    /// imported. Stops at the first failing append.
    pub fn import_bundle(&mut self, bundle: &AuditBundle) -> (r: Result<usize, LedgerError>)
        ensures
            final(self).tree_spec_depth() == old(self).tree_spec_depth(),
            final(self).configured_depth() == old(self).configured_depth(),
            S::infallible() && old(self).in_sync() && old(self).tree_leaves().len() + bundle.events@.len()
                <= pow2(old(self).tree_spec_depth()) ==> r is Ok,
            r matches Ok(n) ==> n == bundle.events@.len() && final(self).tree_leaves() == old(self).tree_leaves()
                + event_leaves(bundle.events@),
            r is Ok && old(self).in_sync() ==> final(self).in_sync(),
            r is Ok ==> final(self).store().stored_receipts().dom() == old(self).store().stored_receipts().dom()
                + receipted_ids(bundle.events@, bundle.receipts@.len()),
            r is Ok && old(self).in_sync() ==> {
                let before = old(self).store().stored_events();
                let after = final(self).store().stored_events();
                &&& after.len() == before.len() + bundle.events@.len()
                &&& forall|j: int| 0 <= j < before.len() ==> after[j] == before[j]
                &&& forall|k: int| 0 <= k < bundle.events@.len() ==> (#[trigger] after[before.len() + k]).same_content(
                    bundle.events@[k],
                )
            },
    {
        let mut imported: usize = 0;
        let mut i: usize = 0;
        while i < bundle.events.len()
            invariant
                i <= bundle.events@.len(),
                imported == i,
                self.tree_spec_depth() == old(self).tree_spec_depth(),
                self.configured_depth() == old(self).configured_depth(),
                self.tree_leaves() == old(self).tree_leaves() + event_leaves(bundle.events@.take(i as int)),
                old(self).in_sync() ==> self.in_sync(),
                self.store().stored_receipts().dom() == old(self).store().stored_receipts().dom() + receipted_ids(
                    bundle.events@.take(i as int),
                    bundle.receipts@.len(),
                ),
                old(self).in_sync() ==> {
                    let before = old(self).store().stored_events();
                    let now = self.store().stored_events();
                    &&& now.len() == before.len() + i
                    &&& forall|j: int| 0 <= j < before.len() ==> now[j] == before[j]
                    &&& forall|k: int| 0 <= k < i ==> (#[trigger] now[before.len() + k]).same_content(bundle.events@[k])
                },
                S::infallible() && old(self).in_sync() && old(self).tree_leaves().len() + bundle.events@.len()
                    <= pow2(old(self).tree_spec_depth()) ==> self.tree_leaves().len() + (bundle.events@.len() - i)
                    <= pow2(self.tree_spec_depth()),
            decreases bundle.events@.len() - i,
        {
            let receipt = if i < bundle.receipts.len() {
                Some(bundle.receipts[i].clone())
            } else {
                None
            };
            let ghost events_before = self.store().stored_events();
            let ghost dom_before = self.store().stored_receipts().dom();
            proof {
                if old(self).in_sync() {
                    assert(events_before.len() == self.tree_leaves().len());
                }
            }
            match self.append_execution(&bundle.events[i], receipt) {
                Ok(_) => {},
                Err(e) => return Err(e),
            }
            proof {
                let ids_before = receipted_ids(bundle.events@.take(i as int), bundle.receipts@.len());
                let ids_after = receipted_ids(bundle.events@.take(i + 1), bundle.receipts@.len());
                assert forall|id: u128| ids_before.contains(id) implies ids_after.contains(id) by {
                    let k = choose|k: int| 0 <= k < i && k < bundle.receipts@.len() && (#[trigger] bundle.events@.take(i as int)[k]).event_id == id;
                    assert(bundle.events@.take(i + 1)[k] == bundle.events@.take(i as int)[k]);
                }
                if i < bundle.receipts@.len() {
                    assert(bundle.events@.take(i + 1)[i as int] == bundle.events@[i as int]);
                    assert(ids_after =~= ids_before.insert(bundle.events@[i as int].event_id)) by {
                        assert forall|id: u128| ids_after.contains(id) implies ids_before.insert(bundle.events@[i as int].event_id).contains(id) by {
                            let k = choose|k: int| 0 <= k < i + 1 && k < bundle.receipts@.len() && (#[trigger] bundle.events@.take(i + 1)[k]).event_id == id;
                            if k < i {
                                assert(bundle.events@.take(i as int)[k] == bundle.events@.take(i + 1)[k]);
                            }
                        }
                    }
                    assert(self.store().stored_receipts().dom() =~= dom_before.insert(bundle.events@[i as int].event_id));
                } else {
                    assert(ids_after =~= ids_before) by {
                        assert forall|id: u128| ids_after.contains(id) implies ids_before.contains(id) by {
                            let k = choose|k: int| 0 <= k < i + 1 && k < bundle.receipts@.len() && (#[trigger] bundle.events@.take(i + 1)[k]).event_id == id;
                            assert(bundle.events@.take(i as int)[k] == bundle.events@.take(i + 1)[k]);
                        }
                    }
                }
                assert(self.store().stored_receipts().dom() =~= old(self).store().stored_receipts().dom() + ids_after);
                if old(self).in_sync() {
                    let before = old(self).store().stored_events();
                    let now = self.store().stored_events();
                    assert forall|k: int| 0 <= k < i + 1 implies (#[trigger] now[before.len() + k]).same_content(
                        bundle.events@[k],
                    ) by {
                        if k < i {
                            assert(now[before.len() + k] == events_before[before.len() + k]);
                        }
                    }
                }
                assert(event_leaves(bundle.events@.take(i + 1)) =~= event_leaves(bundle.events@.take(i as int)).push(
                    bundle.events@[i as int].spec_leaf(),
                ));
            }
            imported = imported + 1;
            i = i + 1;
        }
        assert(bundle.events@.take(i as int) =~= bundle.events@);
        Ok(imported)
    }
}

/// An event stored at a position that the id index records for it is
/// found again by its id: what `append_execution` leaves behind is what
/// `get_event` gives back.
pub proof fn lemma_appended_event_found<S: LedgerStorage>(ledger: CryptographicLedger<S>, event: ExecutionEvent, i: nat)
    requires
        i < ledger.store().stored_events().len(),
        ledger.store().stored_events()[i as int].same_content(event),
        ledger.store().event_index().contains_key(event.event_id),
        ledger.store().event_index()[event.event_id] == i,
    ensures
        ledger.store().event_index()[event.event_id] < ledger.store().stored_events().len(),
        ledger.store().stored_events()[ledger.store().event_index()[event.event_id] as int].same_content(event),
        ledger.in_sync() ==> ledger.tree_leaves()[i as int] == event.spec_leaf(),
{
}

/// Exporting every event of a ledger whose tree mirrors its stored events,
/// and importing that bundle into an empty ledger of the same depth,
/// reproduces the tree and its root.
pub proof fn lemma_export_import_reproduces_root<S: LedgerStorage, T: LedgerStorage>(
    src: CryptographicLedger<S>,
    bundle: AuditBundle,
    dst_before: CryptographicLedger<T>,
    dst_after: CryptographicLedger<T>,
)
    requires
        src.in_sync(),
        src.exported(bundle, 0, src.store().stored_events().len()),
        dst_before.tree_leaves() == Seq::<nat>::empty(),
        dst_before.tree_spec_depth() == src.tree_spec_depth(),
        dst_after.tree_spec_depth() == dst_before.tree_spec_depth(),
        dst_after.tree_leaves() == dst_before.tree_leaves() + event_leaves(bundle.events@),
    ensures
        dst_after.tree_leaves() == src.tree_leaves(),
        dst_after.spec_root() == src.spec_root(),
{
    let stored = src.store().stored_events();
    assert(event_leaves(bundle.events@) =~= event_leaves(stored));
    assert(dst_after.tree_leaves() =~= src.tree_leaves());
}

/// The receipt positions of a run of events lie within the run.
pub proof fn lemma_receipt_positions_in_run(events: Seq<ExecutionEvent>, receipts: Map<u128, AuditReceipt>)
    ensures
        receipt_positions(events, receipts).len() == receipts_for(events, receipts).len(),
        forall|k: int|
            0 <= k < receipt_positions(events, receipts).len() ==> 0 <= #[trigger] receipt_positions(events, receipts)[k]
                < events.len(),
    decreases events.len(),
{
    if events.len() > 0 {
        lemma_receipt_positions_in_run(events.drop_last(), receipts);
    }
}

/// A receipt of a bundle exported from a ledger whose tree mirrors its
/// stored events passes the ledger inclusion check against the bundle's
/// root whenever its public inputs commit to the ledger leaf of its event.
pub proof fn lemma_exported_receipt_passes_inclusion<S: LedgerStorage>(
    ledger: CryptographicLedger<S>,
    b: AuditBundle,
    start: nat,
    end: nat,
    k: int,
)
    requires
        ledger.in_sync(),
        start <= end <= ledger.store().stored_events().len(),
        ledger.exported(b, start, end),
        0 <= k < b.receipts@.len(),
        receipt_leaf(b.receipts@[k]) == b.events@[receipt_positions(
            ledger.store().stored_events().subrange(start as int, end as int),
            ledger.store().stored_receipts(),
        )[k]].spec_leaf(),
    ensures
        inclusion_ok(b.receipts@[k], Some(b.ledger_root)),
{
    let stored = ledger.store().stored_events();
    let run = stored.subrange(start as int, end as int);
    let map = ledger.store().stored_receipts();
    lemma_receipt_positions_in_run(run, map);
    let pos = receipt_positions(run, map)[k];
    assert(0 <= pos < end - start);
    assert(b.events@[pos].same_content(stored[start + pos]));
    assert(ledger.tree_leaves()[start + pos] == stored[start + pos].spec_leaf());
}

} // verus!
