//! Portable audit bundles: a range of ledger events with their receipts
//! and inclusion proofs against one ledger root.

use vstd::prelude::*;
use crate::execution::ExecutionEvent;
use crate::field::Fr;
use crate::ids::{random_uuid, now_unix_seconds, uuid_v4_bits};
use crate::merkle::MerkleProof;
use crate::receipt::AuditReceipt;

verus! {

/// A self-contained, portable audit bundle.
#[derive(Clone, Debug)]
pub struct AuditBundle {
    /// Bundle format version.
    pub version: u32,
    /// Unique bundle UUID, as its 128-bit integer.
    pub bundle_id: u128,
    /// UTC creation time in seconds.
    pub created_at: i64,
    /// Leaf index of the first event in the ledger.
    pub start_index: usize,
    /// Number of events in the bundle.
    pub leaf_count: usize,
    /// The ledger root covering every leaf up to this bundle.
    pub ledger_root: Fr,
    /// The execution events.
    pub events: Vec<ExecutionEvent>,
    /// The audit receipts of those events that have one.
    pub receipts: Vec<AuditReceipt>,
    /// An inclusion proof against `ledger_root` for each event.
    pub inclusion_proofs: Vec<MerkleProof>,
}

impl AuditBundle {
    /// The fields of a version-1 bundle assembled from its parts.
    pub open spec fn assembled_from(
        self,
        start_index: usize,
        ledger_root: Fr,
        events: Vec<ExecutionEvent>,
        receipts: Vec<AuditReceipt>,
        inclusion_proofs: Vec<MerkleProof>,
    ) -> bool {
        &&& self.version == 1
        &&& self.start_index == start_index
        &&& self.leaf_count == events.len()
        &&& self.ledger_root == ledger_root
        &&& self.events == events
        &&& self.receipts == receipts
        &&& self.inclusion_proofs == inclusion_proofs
    }

    /// Packages a bundle under a fresh random id, stamped with the current time.
    pub fn new(
        start_index: usize,
        ledger_root: Fr,
        events: Vec<ExecutionEvent>,
        receipts: Vec<AuditReceipt>,
        inclusion_proofs: Vec<MerkleProof>,
    ) -> (b: AuditBundle)
        ensures
            b.assembled_from(start_index, ledger_root, events, receipts, inclusion_proofs),
            uuid_v4_bits(b.bundle_id),
            b.created_at >= 0,
    {
        let created_at = now_unix_seconds();
        let bundle_id = random_uuid();
        Self::new_at(start_index, ledger_root, events, receipts, inclusion_proofs, bundle_id, created_at)
    }

    /// Packages a bundle under the given id and creation time.
    pub fn new_at(
        start_index: usize,
        ledger_root: Fr,
        events: Vec<ExecutionEvent>,
        receipts: Vec<AuditReceipt>,
        inclusion_proofs: Vec<MerkleProof>,
        bundle_id: u128,
        created_at: i64,
    ) -> (b: AuditBundle)
        ensures
            b.assembled_from(start_index, ledger_root, events, receipts, inclusion_proofs),
            b.bundle_id == bundle_id,
            b.created_at == created_at,
    {
        let count = events.len();
        AuditBundle {
            version: 1,
            bundle_id,
            created_at,
            start_index,
            leaf_count: count,
            ledger_root,
            events,
            receipts,
            inclusion_proofs,
        }
    }
}

} // verus!
