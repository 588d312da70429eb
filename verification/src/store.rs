//! Storage engines behind the append-only ledger.

use vstd::prelude::*;
use std::collections::HashMap;
use crate::error::LedgerError;
use crate::execution::ExecutionEvent;
use crate::merkle::MerkleTree;
use crate::receipt::AuditReceipt;

verus! {

broadcast use vstd::std_specs::hash::group_hash_axioms;

/// A storage engine for the ledger: the saved tree, the events by leaf
/// index, an index from event ids to positions, and receipts by event id.
/// An engine that does not define this model (one implemented outside
/// verified code) keeps the defaults, under which no operation is promised
/// to succeed.
pub trait LedgerStorage: Sized {
    /// The stored events, by leaf index.
    closed spec fn stored_events(&self) -> Seq<ExecutionEvent> {
        Seq::empty()
    }

    /// The position recorded for each event id.
    closed spec fn event_index(&self) -> Map<u128, nat> {
        Map::empty()
    }

    /// The stored receipts, by event id.
    closed spec fn stored_receipts(&self) -> Map<u128, AuditReceipt> {
        Map::empty()
    }

    /// The saved tree, as its depth and its leaves.
    closed spec fn stored_tree(&self) -> Option<(nat, Seq<nat>)> {
        None
    }

    /// Whether every operation of the engine succeeds (no I/O can fail).
    closed spec fn infallible() -> bool {
        false
    }

    /// Persists the active Merkle tree.
    fn save_tree(&mut self, tree: &MerkleTree) -> (r: Result<(), LedgerError>)
        ensures
            Self::infallible() ==> r is Ok,
            r is Ok ==> final(self).stored_tree() == Some((tree.spec_depth(), tree.leaf_values())),
            r is Ok ==> final(self).stored_events() == old(self).stored_events(),
            r is Ok ==> final(self).event_index() == old(self).event_index(),
            r is Ok ==> final(self).stored_receipts() == old(self).stored_receipts(),
    ;

    /// Loads the saved tree, if any.
    fn load_tree(&self) -> (r: Result<Option<MerkleTree>, LedgerError>)
        ensures
            Self::infallible() ==> r is Ok,
            r matches Ok(o) ==> (o is Some <==> self.stored_tree() is Some),
            r matches Ok(Some(t)) ==> self.stored_tree() == Some((t.spec_depth(), t.leaf_values())),
    ;

    /// Stores an event at a leaf index: appended at the end, or replacing
    /// the event held there; an index past the end is refused.
    fn save_event(&mut self, index: usize, event: &ExecutionEvent) -> (r: Result<(), LedgerError>)
        ensures
            index > old(self).stored_events().len() ==> r is Err,
            Self::infallible() && index <= old(self).stored_events().len() ==> r is Ok,
            r is Ok ==> final(self).stored_events().len() == if index == old(self).stored_events().len() {
                old(self).stored_events().len() + 1nat
            } else {
                old(self).stored_events().len()
            },
            r is Ok ==> final(self).stored_events()[index as int].same_content(*event),
            r is Ok ==> forall|j: int|
                0 <= j < old(self).stored_events().len() && j != index ==> final(self).stored_events()[j]
                    == old(self).stored_events()[j],
            r is Ok ==> final(self).event_index() == old(self).event_index().insert(event.event_id, index as nat),
            r is Ok ==> final(self).stored_receipts() == old(self).stored_receipts(),
            r is Ok ==> final(self).stored_tree() == old(self).stored_tree(),
    ;

    /// Looks an event up by its id, through the id index.
    fn get_event(&self, event_id: &u128) -> (r: Result<Option<ExecutionEvent>, LedgerError>)
        ensures
            Self::infallible() ==> r is Ok,
            r matches Ok(o) ==> (o is Some <==> (self.event_index().contains_key(*event_id)
                && self.event_index()[*event_id] < self.stored_events().len())),
            r matches Ok(Some(e)) ==> e.same_content(self.stored_events()[self.event_index()[*event_id] as int]),
    ;

    /// Looks an event up by its leaf index.
    fn get_event_by_index(&self, index: usize) -> (r: Result<Option<ExecutionEvent>, LedgerError>)
        ensures
            Self::infallible() ==> r is Ok,
            r matches Ok(o) ==> (o is Some <==> index < self.stored_events().len()),
            r matches Ok(Some(e)) ==> e.same_content(self.stored_events()[index as int]),
    ;

    /// Stores a receipt under an event id, replacing any earlier one.
    fn save_receipt(&mut self, event_id: &u128, receipt: &AuditReceipt) -> (r: Result<(), LedgerError>)
        ensures
            Self::infallible() ==> r is Ok,
            r is Ok ==> final(self).stored_receipts().dom() == old(self).stored_receipts().dom().insert(*event_id),
            r is Ok ==> final(self).stored_receipts()[*event_id].same_content(*receipt),
            r is Ok ==> forall|k: u128|
                k != *event_id && old(self).stored_receipts().contains_key(k) ==> final(self).stored_receipts()[k]
                    == old(self).stored_receipts()[k],
            r is Ok ==> final(self).stored_events() == old(self).stored_events(),
            r is Ok ==> final(self).event_index() == old(self).event_index(),
            r is Ok ==> final(self).stored_tree() == old(self).stored_tree(),
    ;

    /// Looks a receipt up by event id.
    fn get_receipt(&self, event_id: &u128) -> (r: Result<Option<AuditReceipt>, LedgerError>)
        ensures
            Self::infallible() ==> r is Ok,
            r matches Ok(o) ==> (o is Some <==> self.stored_receipts().contains_key(*event_id)),
            r matches Ok(Some(rc)) ==> rc.same_content(self.stored_receipts()[*event_id]),
    ;

    /// The number of stored events.
    fn event_count(&self) -> (n: usize)
        ensures
            n == self.stored_events().len(),
    ;
}

/// In-memory storage engine for tests and short sessions.
pub struct MemoryStore {
    tree: Option<MerkleTree>,
    events: Vec<ExecutionEvent>,
    event_lookup: HashMap<u128, usize>,
    receipts: HashMap<u128, AuditReceipt>,
}

impl MemoryStore {
    /// An empty store.
    pub fn new() -> (s: MemoryStore)
        ensures
            s.stored_events() == Seq::<ExecutionEvent>::empty(),
            s.event_index() == Map::<u128, nat>::empty(),
            s.stored_receipts() == Map::<u128, AuditReceipt>::empty(),
            s.stored_tree() is None,
    {
        let s = MemoryStore {
            tree: None,
            events: Vec::new(),
            event_lookup: HashMap::new(),
            receipts: HashMap::new(),
        };
        assert(s.event_lookup@.map_values(|v: usize| v as nat) =~= Map::<u128, nat>::empty());
        s
    }

    /// The stored events, in leaf order.
    pub fn events(&self) -> (r: &Vec<ExecutionEvent>)
        ensures
            r@ == self.stored_events(),
    {
        &self.events
    }
}

impl Default for MemoryStore {
    fn default() -> (s: Self)
        ensures
            s.stored_events() == Seq::<ExecutionEvent>::empty(),
            s.event_index() == Map::<u128, nat>::empty(),
            s.stored_receipts() == Map::<u128, AuditReceipt>::empty(),
            s.stored_tree() is None,
    {
        MemoryStore::new()
    }
}

impl Clone for MemoryStore {
    fn clone(&self) -> (c: Self)
        ensures
            c.stored_events().len() == self.stored_events().len(),
            forall|i: int|
                0 <= i < self.stored_events().len() ==> (#[trigger] c.stored_events()[i]).same_content(
                    self.stored_events()[i],
                ),
            c.event_index() == self.event_index(),
            c.stored_receipts() == self.stored_receipts(),
            c.stored_tree() == self.stored_tree(),
    {
        let mut events: Vec<ExecutionEvent> = Vec::new();
        let mut i: usize = 0;
        while i < self.events.len()
            invariant
                i <= self.events@.len(),
                events@.len() == i,
                forall|j: int| 0 <= j < i ==> (#[trigger] events@[j]).same_content(self.events@[j]),
            decreases self.events@.len() - i,
        {
            events.push(self.events[i].clone());
            i = i + 1;
        }
        let tree = match &self.tree {
            Some(t) => Some(t.clone()),
            None => None,
        };
        MemoryStore { tree, events, event_lookup: self.event_lookup.clone(), receipts: self.receipts.clone() }
    }
}

impl LedgerStorage for MemoryStore {
    closed spec fn stored_events(&self) -> Seq<ExecutionEvent> {
        self.events@
    }

    closed spec fn event_index(&self) -> Map<u128, nat> {
        self.event_lookup@.map_values(|v: usize| v as nat)
    }

    closed spec fn stored_receipts(&self) -> Map<u128, AuditReceipt> {
        self.receipts@
    }

    closed spec fn stored_tree(&self) -> Option<(nat, Seq<nat>)> {
        match self.tree {
            Some(t) => Some((t.spec_depth(), t.leaf_values())),
            None => None,
        }
    }

    open spec fn infallible() -> bool {
        true
    }

    fn save_tree(&mut self, tree: &MerkleTree) -> (r: Result<(), LedgerError>) {
        self.tree = Some(tree.clone());
        Ok(())
    }

    fn load_tree(&self) -> (r: Result<Option<MerkleTree>, LedgerError>) {
        match &self.tree {
            Some(t) => Ok(Some(t.clone())),
            None => Ok(None),
        }
    }

    fn save_event(&mut self, index: usize, event: &ExecutionEvent) -> (r: Result<(), LedgerError>) {
        if index == self.events.len() {
            self.events.push(event.clone());
        } else if index < self.events.len() {
            self.events.set(index, event.clone());
        } else {
            return Err(LedgerError::StorageError(String::from_str("Non-sequential event index")));
        }
        self.event_lookup.insert(event.event_id, index);
        assert(self.event_lookup@.map_values(|v: usize| v as nat) =~= old(self).event_lookup@.map_values(
            |v: usize| v as nat,
        ).insert(event.event_id, index as nat));
        Ok(())
    }

    fn get_event(&self, event_id: &u128) -> (r: Result<Option<ExecutionEvent>, LedgerError>) {
        match self.event_lookup.get(event_id) {
            Some(idx) => {
                let i: usize = *idx;
                if i < self.events.len() {
                    Ok(Some(self.events[i].clone()))
                } else {
                    Ok(None)
                }
            },
            None => Ok(None),
        }
    }

    fn get_event_by_index(&self, index: usize) -> (r: Result<Option<ExecutionEvent>, LedgerError>) {
        if index < self.events.len() {
            Ok(Some(self.events[index].clone()))
        } else {
            Ok(None)
        }
    }

    fn save_receipt(&mut self, event_id: &u128, receipt: &AuditReceipt) -> (r: Result<(), LedgerError>) {
        self.receipts.insert(*event_id, receipt.clone());
        Ok(())
    }

    fn get_receipt(&self, event_id: &u128) -> (r: Result<Option<AuditReceipt>, LedgerError>) {
        match self.receipts.get(event_id) {
            Some(rc) => Ok(Some(rc.clone())),
            None => Ok(None),
        }
    }

    fn event_count(&self) -> (n: usize) {
        self.events.len()
    }
}

} // verus!
