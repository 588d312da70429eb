use zktrace::error::LedgerError;
use zktrace::execution::{AgentIdentity, ExecutionEvent, ExecutionStatus};
use zktrace::field::{u64_to_fr, Fr};
use zktrace::json::JsonValue;
use zktrace::ledger::CryptographicLedger;
use zktrace::merkle::MerkleTree;
use zktrace::receipt::{AuditReceipt, ProofBytes, PublicInputs};
use zktrace::store::{LedgerStorage, MemoryStore};

fn event(agent: &str, session: u64, tool: &str) -> ExecutionEvent {
    ExecutionEvent::new(
        AgentIdentity::new(agent, "org"),
        u64_to_fr(session),
        tool,
        b"args",
        JsonValue::Object(vec![]),
        ExecutionStatus::Success,
    )
}

fn receipt_for(event_id: u128) -> AuditReceipt {
    AuditReceipt {
        receipt_id: 77,
        event_id,
        public_inputs: PublicInputs {
            policy_root_hash: u64_to_fr(1),
            execution_digest: u64_to_fr(2),
            agent_pubkey_hash: u64_to_fr(3),
            session_id: u64_to_fr(4),
            timestamp_window: u64_to_fr(5),
        },
        proof: ProofBytes::from_bytes(&[1, 2, 3]),
        merkle_inclusion: None,
        ledger_root: Fr::zero(),
        timestamp: 1,
    }
}

#[test]
fn test_cryptographic_ledger_lifecycle() {
    let mut ledger = CryptographicLedger::open_in_memory(4);

    let agent = AgentIdentity::new("agent-1", "org-test");
    let event = ExecutionEvent::new(
        agent,
        u64_to_fr(100u64),
        "tool_sql",
        b"SELECT 1;",
        JsonValue::Object(vec![]),
        ExecutionStatus::Success,
    );

    let (idx, root, proof) = ledger.append_execution(&event, None).expect("Append event failed");

    assert_eq!(idx, 0);
    assert_eq!(root, ledger.get_root());
    assert!(proof.verify(&event.compute_ledger_leaf()));
    assert_eq!(ledger.count(), 1);

    let bundle = ledger.export_bundle(0, 10).expect("Export bundle failed");
    assert_eq!(bundle.leaf_count, 1);
    assert_eq!(bundle.ledger_root, root);
}

#[test]
fn test_bundle_export_and_import() {
    let mut ledger1 = CryptographicLedger::open_in_memory(4);

    for i in 0..5 {
        let agent = AgentIdentity::new(&format!("agent-{}", i), "org");
        let event = ExecutionEvent::new(
            agent,
            u64_to_fr(i as u64),
            &format!("tool_{}", i),
            b"args",
            JsonValue::Object(vec![]),
            ExecutionStatus::Success,
        );
        ledger1.append_execution(&event, None).unwrap();
    }

    let bundle = ledger1.export_bundle(0, 5).expect("Export failed");
    assert_eq!(bundle.leaf_count, 5);

    let mut ledger2 = CryptographicLedger::open_in_memory(4);
    let imported_count = ledger2.import_bundle(&bundle).expect("Import failed");
    assert_eq!(imported_count, 5);
    assert_eq!(ledger1.get_root(), ledger2.get_root());
}

#[test]
fn ledger_root_is_tree_root_over_event_leaves() {
    let mut ledger = CryptographicLedger::open_in_memory(3);
    let mut tree = MerkleTree::new(3);
    assert_eq!(ledger.get_root(), tree.root());
    for i in 0..3u64 {
        let ev = event("a", i, "t");
        let (idx, root, _) = ledger.append_execution(&ev, None).unwrap();
        tree.insert(ev.compute_ledger_leaf()).unwrap();
        assert_eq!(idx as u64, i);
        assert_eq!(root, tree.root());
    }
    assert_eq!(ledger.tree_depth(), 3);
}

#[test]
fn append_fails_when_ledger_is_full() {
    let mut ledger = CryptographicLedger::open_in_memory(1);
    ledger.append_execution(&event("a", 1, "t"), None).unwrap();
    ledger.append_execution(&event("a", 2, "t"), None).unwrap();
    let root = ledger.get_root();
    match ledger.append_execution(&event("a", 3, "t"), None) {
        Err(LedgerError::MerkleError(msg)) => assert_eq!(
            msg,
            "Failed to insert leaf: Merkle tree error: Merkle tree capacity exceeded (max 2 leaves)"
        ),
        other => panic!("unexpected {:?}", other.map(|t| t.0)),
    }
    assert_eq!(ledger.get_root(), root);
    assert_eq!(ledger.count(), 2);
}

#[test]
fn appended_receipt_is_stamped_with_proof_and_root() {
    let mut ledger = CryptographicLedger::open_in_memory(4);
    let ev = event("a", 1, "t");
    let (_, root, proof) = ledger.append_execution(&ev, Some(receipt_for(ev.event_id))).unwrap();
    let stored = ledger.get_receipt(&ev.event_id).unwrap().expect("receipt stored");
    assert_eq!(stored.ledger_root, root);
    assert_eq!(stored.merkle_inclusion, Some(proof));
    assert_eq!(stored.receipt_id, 77);
    assert!(ledger.get_receipt(&12345).unwrap().is_none());
}

#[test]
fn events_are_found_by_id() {
    let mut ledger = CryptographicLedger::open_in_memory(4);
    let e1 = event("a", 1, "first");
    let e2 = event("b", 2, "second");
    ledger.append_execution(&e1, None).unwrap();
    ledger.append_execution(&e2, None).unwrap();
    assert_eq!(ledger.get_event(&e2.event_id).unwrap().unwrap().tool_name, "second");
    assert_eq!(ledger.get_event(&e1.event_id).unwrap().unwrap().tool_name, "first");
    assert!(ledger.get_event(&0).unwrap().is_none());
    let proof = ledger.get_inclusion_proof(1).unwrap();
    assert!(proof.verify(&e2.compute_ledger_leaf()));
    assert!(matches!(ledger.get_inclusion_proof(2), Err(LedgerError::MerkleError(_))));
}

#[test]
fn export_of_a_middle_range_with_receipts() {
    let mut ledger = CryptographicLedger::open_in_memory(4);
    let evs: Vec<ExecutionEvent> = (0..4u64).map(|i| event("a", i, "t")).collect();
    for (i, ev) in evs.iter().enumerate() {
        let rc = if i % 2 == 1 { Some(receipt_for(ev.event_id)) } else { None };
        ledger.append_execution(ev, rc).unwrap();
    }
    let bundle = ledger.export_bundle(1, 2).unwrap();
    assert_eq!(bundle.version, 1);
    assert_eq!(bundle.start_index, 1);
    assert_eq!(bundle.leaf_count, 2);
    assert_eq!(bundle.events.len(), 2);
    assert_eq!(bundle.events[0].event_id, evs[1].event_id);
    assert_eq!(bundle.events[1].event_id, evs[2].event_id);
    assert_eq!(bundle.receipts.len(), 1);
    assert_eq!(bundle.receipts[0].event_id, evs[1].event_id);
    assert_eq!(bundle.receipts[0].ledger_root, ledger.get_root());
    let refreshed = bundle.receipts[0].merkle_inclusion.as_ref().unwrap();
    assert_eq!(refreshed.leaf_index, 1);
    assert_eq!(refreshed.expected_root, ledger.get_root());
    assert!(refreshed.verify(&evs[1].compute_ledger_leaf()));
    for (k, p) in bundle.inclusion_proofs.iter().enumerate() {
        assert_eq!(p.leaf_index, 1 + k);
        assert!(p.verify(&evs[1 + k].compute_ledger_leaf()));
        assert_eq!(p.expected_root, ledger.get_root());
    }
    let tail = ledger.export_bundle(3, 100).unwrap();
    assert_eq!(tail.leaf_count, 1);
    let none = ledger.export_bundle(4, 3).unwrap();
    assert_eq!(none.leaf_count, 0);
}

#[test]
fn import_fails_past_capacity_after_partial_append() {
    let mut src = CryptographicLedger::open_in_memory(2);
    for i in 0..3u64 {
        src.append_execution(&event("a", i, "t"), None).unwrap();
    }
    let bundle = src.export_bundle(0, 3).unwrap();
    let mut dst = CryptographicLedger::open_in_memory(1);
    assert!(matches!(dst.import_bundle(&bundle), Err(LedgerError::MerkleError(_))));
    assert_eq!(dst.count(), 2);
}

#[test]
fn memory_store_refuses_non_sequential_index() {
    let mut store = MemoryStore::new();
    let ev = event("a", 1, "t");
    match store.save_event(1, &ev) {
        Err(LedgerError::StorageError(msg)) => assert_eq!(msg, "Non-sequential event index"),
        other => panic!("unexpected {:?}", other),
    }
    store.save_event(0, &ev).unwrap();
    assert_eq!(store.event_count(), 1);
    let ev2 = event("b", 2, "u");
    store.save_event(0, &ev2).unwrap();
    assert_eq!(store.event_count(), 1);
    assert_eq!(store.get_event_by_index(0).unwrap().unwrap().tool_name, "u");
    assert!(store.get_event_by_index(1).unwrap().is_none());
    assert!(store.load_tree().unwrap().is_none());
    let t = MerkleTree::new(2);
    store.save_tree(&t).unwrap();
    assert_eq!(store.load_tree().unwrap().unwrap().root(), t.root());
}

#[test]
fn ledger_reopened_over_storage_keeps_its_tree() {
    let mut store = MemoryStore::new();
    let mut t = MerkleTree::new(3);
    t.insert(u64_to_fr(8)).unwrap();
    store.save_tree(&t).unwrap();
    let reopened = CryptographicLedger::open_with_storage(store, 5).unwrap();
    assert_eq!(reopened.get_root(), t.root());
    assert_eq!(reopened.tree_depth(), 5);
    let fresh = CryptographicLedger::open_with_storage(MemoryStore::new(), 2).unwrap();
    assert_eq!(fresh.get_root(), MerkleTree::new(2).root());
}

#[test]
fn memory_store_default_and_clone() {
    let mut store = MemoryStore::default();
    assert_eq!(store.event_count(), 0);
    let ev = event("a", 1, "t");
    store.save_event(0, &ev).unwrap();
    store.save_receipt(&ev.event_id, &receipt_for(ev.event_id)).unwrap();
    let copy = store.clone();
    assert_eq!(copy.event_count(), 1);
    assert_eq!(copy.get_event(&ev.event_id).unwrap().unwrap().event_id, ev.event_id);
    assert_eq!(copy.get_receipt(&ev.event_id).unwrap().unwrap().receipt_id, 77);
    assert_eq!(copy.events().len(), 1);
}

#[test]
fn import_stores_receipts_by_position() {
    let mut src = CryptographicLedger::open_in_memory(3);
    let evs: Vec<ExecutionEvent> = (0..3u64).map(|i| event("a", i, "t")).collect();
    for ev in &evs {
        src.append_execution(ev, Some(receipt_for(ev.event_id))).unwrap();
    }
    let mut bundle = src.export_bundle(0, 3).unwrap();
    assert_eq!(bundle.receipts.len(), 3);
    bundle.receipts.truncate(2);
    let mut dst = CryptographicLedger::open_in_memory(3);
    assert_eq!(dst.import_bundle(&bundle).unwrap(), 3);
    assert!(dst.get_receipt(&evs[0].event_id).unwrap().is_some());
    assert!(dst.get_receipt(&evs[1].event_id).unwrap().is_some());
    assert!(dst.get_receipt(&evs[2].event_id).unwrap().is_none());
    let stamped = dst.get_receipt(&evs[1].event_id).unwrap().unwrap();
    assert_eq!(stamped.merkle_inclusion.unwrap().leaf_index, 1);
    assert_eq!(dst.get_root(), src.get_root());
}
