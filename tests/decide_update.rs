use hotshot_query_service::decide::{needs_genesis_dispersal, UpdateDataSource, UpdateError};
use hotshot_query_service::genesis::{genesis_payload, store_genesis_vid};
use hotshot_query_service::query_data::{InconsistentLeaf, LeafQueryData, UpdateAvailabilityData, Write};
use hotshot_query_service::reconstruct::chronological_certificates;
use hotshot_query_service::types::{
    Anomaly, Decide, Event, Header, Leaf, LeafInfo, Qc, VidDisperse, VidError, VidShare,
};
use hotshot_query_service::versioned::{
    MemStore, RecordKind, Transaction, VersionedDataSource,
};

fn leaf(view: u64, payload: Option<Vec<u8>>) -> Leaf {
    Leaf {
        view_number: view,
        commit: 100 + view,
        parent_commit: 99 + view,
        header: Header { block_number: view, payload_commitment: 1000 + view },
        justify_qc: Qc { view_number: view.saturating_sub(1), leaf_commit: 99 + view },
        payload,
    }
}

fn info(view: u64, payload: Option<Vec<u8>>) -> LeafInfo {
    LeafInfo {
        leaf: leaf(view, payload),
        vid_share: Some(VidShare { common: vec![view as u8, 1], share: vec![view as u8, 2] }),
    }
}

/// A decide notification for `infos`, given oldest first.
fn decide(infos: Vec<LeafInfo>) -> Decide {
    let newest = infos.last().unwrap().leaf.view_number;
    let mut chain = infos;
    chain.reverse();
    Decide { qc: Qc { view_number: newest, leaf_commit: 100 + newest }, leaf_chain: chain }
}

#[test]
fn reconstruct_pairs_in_view_order() {
    let d = decide(vec![info(1, Some(vec![1])), info(2, Some(vec![2])), info(3, Some(vec![3]))]);
    let certs = chronological_certificates(&d);
    assert_eq!(certs.len(), 3);
    assert_eq!(certs[0], Qc { view_number: 1, leaf_commit: 101 });
    assert_eq!(certs[1], Qc { view_number: 2, leaf_commit: 102 });
    assert_eq!(certs[2], Qc { view_number: 3, leaf_commit: 103 });
    assert!(certs[0].view_number < certs[1].view_number);
    assert!(certs[1].view_number < certs[2].view_number);
}

#[test]
fn reconstruct_single_leaf_uses_notification_certificate() {
    let d = decide(vec![info(7, None)]);
    let certs = chronological_certificates(&d);
    assert_eq!(certs, vec![Qc { view_number: 7, leaf_commit: 107 }]);
}

#[test]
fn leaf_query_data_pairs_and_strips_payload() {
    let l = leaf(4, Some(vec![9, 9]));
    let qc = Qc { view_number: 4, leaf_commit: 104 };
    let r = LeafQueryData::new(l.clone(), qc).unwrap();
    assert_eq!(r.qc, qc);
    assert_eq!(r.leaf.payload, None);
    assert_eq!(r.leaf.commit, 104);
    assert_eq!(r.height(), 4);
}

#[test]
fn leaf_query_data_rejects_wrong_commit() {
    let r = LeafQueryData::new(leaf(4, None), Qc { view_number: 4, leaf_commit: 555 });
    assert_eq!(r.unwrap_err(), InconsistentLeaf { leaf: 104, qc_leaf: 555 });
}

#[test]
fn leaf_query_data_rejects_wrong_view() {
    let r = LeafQueryData::new(leaf(4, None), Qc { view_number: 5, leaf_commit: 104 });
    assert_eq!(r.unwrap_err(), InconsistentLeaf { leaf: 104, qc_leaf: 104 });
}

#[test]
fn tampered_certificate_fails_inconsistent() {
    let mut d = decide(vec![info(1, Some(vec![1])), info(2, Some(vec![2]))]);
    d.qc = Qc { view_number: 2, leaf_commit: 999 };
    let mut store = MemStore::new();
    let mut txn = store.write();
    match txn.update(Event::Decide(d), None) {
        Err(UpdateError::Inconsistent(e)) => {
            assert_eq!(e, InconsistentLeaf { leaf: 102, qc_leaf: 999 });
        }
        other => panic!("expected an inconsistent leaf, got {:?}", other),
    }
    assert!(txn.get(&store, RecordKind::Leaf, 2).is_none());
    txn.revert(&mut store);
    assert_eq!(store.committed_len(), 0);
}

#[test]
fn genesis_payload_is_empty() {
    assert!(genesis_payload().is_empty());
    assert_eq!(genesis_payload(), genesis_payload());
}

fn genesis_header() -> Header {
    Header { block_number: 0, payload_commitment: 77 }
}

fn dispersal(commit: u64) -> VidDisperse {
    VidDisperse { commit, common: vec![5, 5], shares: vec![vec![1], vec![2], vec![3]] }
}

#[test]
fn genesis_synthesis_same_input_same_record() {
    let store = MemStore::new();
    let mut a = store.write();
    let mut b = store.write();
    assert_eq!(store_genesis_vid(&mut a, genesis_header(), Some(Ok(dispersal(77)))).unwrap(), None);
    assert_eq!(store_genesis_vid(&mut b, genesis_header(), Some(Ok(dispersal(77)))).unwrap(), None);
    let ra = a.get(&store, RecordKind::Vid, 0).unwrap();
    let rb = b.get(&store, RecordKind::Vid, 0).unwrap();
    assert_eq!(ra, rb);
}

#[test]
fn genesis_match_stores_first_share() {
    let store = MemStore::new();
    let mut t = store.write();
    let r = store_genesis_vid(&mut t, genesis_header(), Some(Ok(dispersal(77))));
    assert_eq!(r.unwrap(), None);
    match t.get(&store, RecordKind::Vid, 0) {
        Some(Write::Vid(common, share)) => {
            assert_eq!(common.header, genesis_header());
            assert_eq!(common.common, vec![5, 5]);
            assert_eq!(share, &Some(vec![1]));
        }
        other => panic!("expected a dispersal record, got {:?}", other),
    }
}

#[test]
fn genesis_mismatch_stores_nothing() {
    let store = MemStore::new();
    let mut t = store.write();
    let r = store_genesis_vid(&mut t, genesis_header(), Some(Ok(dispersal(78))));
    assert_eq!(r.unwrap(), Some(Anomaly::GenesisCommitMismatch { computed: 78, header: 77 }));
    assert!(t.get(&store, RecordKind::Vid, 0).is_none());
}

#[test]
fn genesis_disperse_failure_is_reported() {
    let store = MemStore::new();
    let mut t = store.write();
    let err = VidError { message: String::from("no parameters") };
    let r = store_genesis_vid(&mut t, genesis_header(), Some(Err(err)));
    assert_eq!(r.unwrap(), Some(Anomaly::GenesisDisperseFailed { block_number: 0 }));
    assert!(t.get(&store, RecordKind::Vid, 0).is_none());
}

#[test]
fn genesis_without_dispersal_is_reported() {
    let store = MemStore::new();
    let mut t = store.write();
    let r = store_genesis_vid(&mut t, genesis_header(), None);
    assert_eq!(r.unwrap(), Some(Anomaly::GenesisDispersalUnavailable { block_number: 0 }));
}

#[test]
fn committed_write_visible_only_to_later_reads() {
    let mut store = MemStore::new();
    let early = store.read();
    let mut w = store.write();
    let rec = LeafQueryData::new(leaf(3, None), Qc { view_number: 3, leaf_commit: 103 }).unwrap();
    w.insert_leaf(rec.clone()).unwrap();
    assert!(store.get(&early, RecordKind::Leaf, 3).is_none());
    w.commit(&mut store).unwrap();
    let late = store.read();
    assert!(store.get(&early, RecordKind::Leaf, 3).is_none());
    assert_eq!(store.get(&late, RecordKind::Leaf, 3), Some(&Write::Leaf(rec)));
}

#[test]
fn reverted_write_leaves_store_unchanged() {
    let mut store = MemStore::new();
    let mut first = store.write();
    let rec = LeafQueryData::new(leaf(1, None), Qc { view_number: 1, leaf_commit: 101 }).unwrap();
    first.insert_leaf(rec.clone()).unwrap();
    first.commit(&mut store).unwrap();
    assert_eq!(store.committed_len(), 1);

    let mut w = store.write();
    let other = LeafQueryData::new(leaf(2, None), Qc { view_number: 2, leaf_commit: 102 }).unwrap();
    w.insert_leaf(other).unwrap();
    w.revert(&mut store);
    assert_eq!(store.committed_len(), 1);
    let r = store.read();
    assert_eq!(store.get(&r, RecordKind::Leaf, 1), Some(&Write::Leaf(rec)));
    assert!(store.get(&r, RecordKind::Leaf, 2).is_none());
}

#[test]
fn batch_with_missing_middle_payload() {
    let d = decide(vec![info(1, Some(vec![11])), info(2, None), info(3, Some(vec![33]))]);
    let mut store = MemStore::new();
    let mut txn = store.write();
    let anomalies = txn.update(Event::Decide(d), None).unwrap();
    assert_eq!(anomalies, vec![Anomaly::MissingBlock { block_number: 2 }]);
    txn.commit(&mut store).unwrap();
    let r = store.read();
    for h in 1..4u64 {
        match store.get(&r, RecordKind::Leaf, h) {
            Some(Write::Leaf(l)) => {
                assert_eq!(l.leaf.view_number, h);
                assert_eq!(l.qc, Qc { view_number: h, leaf_commit: 100 + h });
            }
            other => panic!("expected a leaf at {}, got {:?}", h, other),
        }
        assert!(store.get(&r, RecordKind::Vid, h).is_some());
    }
    match store.get(&r, RecordKind::Block, 1) {
        Some(Write::Block(b)) => assert_eq!(b.payload, vec![11]),
        other => panic!("expected block 1, got {:?}", other),
    }
    match store.get(&r, RecordKind::Block, 3) {
        Some(Write::Block(b)) => assert_eq!(b.payload, vec![33]),
        other => panic!("expected block 3, got {:?}", other),
    }
    assert!(store.get(&r, RecordKind::Block, 2).is_none());
}

#[test]
fn batch_with_inconsistent_first_leaf_commits_nothing() {
    let mut d = decide(vec![info(1, Some(vec![1])), info(2, Some(vec![2])), info(3, Some(vec![3]))]);
    // The oldest leaf is justified by the certificate its child carries.
    d.leaf_chain[1].leaf.justify_qc = Qc { view_number: 1, leaf_commit: 555 };
    let mut store = MemStore::new();
    let mut txn = store.write();
    match txn.update(Event::Decide(d), None) {
        Err(UpdateError::Inconsistent(e)) => {
            assert_eq!(e, InconsistentLeaf { leaf: 101, qc_leaf: 555 });
        }
        other => panic!("expected an inconsistent leaf, got {:?}", other),
    }
    assert!(txn.get(&store, RecordKind::Leaf, 1).is_none());
    txn.revert(&mut store);
    assert_eq!(store.committed_len(), 0);
}

#[test]
fn inserted_record_read_back_in_same_transaction() {
    let store = MemStore::new();
    let mut txn = store.write();
    let rec = LeafQueryData::new(leaf(5, Some(vec![1, 2])), Qc { view_number: 5, leaf_commit: 105 })
        .unwrap();
    txn.insert_leaf(rec.clone()).unwrap();
    assert_eq!(txn.get(&store, RecordKind::Leaf, 5), Some(&Write::Leaf(rec)));
    assert_eq!(store.committed_len(), 0);
}

#[test]
fn non_decide_events_change_nothing() {
    let store = MemStore::new();
    let mut txn = store.write();
    let r = txn.update(Event::ViewFinished { view_number: 4 }, None).unwrap();
    assert!(r.is_empty());
    let r = txn.update(Event::Error { message: String::from("timeout") }, None).unwrap();
    assert!(r.is_empty());
    assert!(txn.get(&store, RecordKind::Leaf, 4).is_none());
}

#[test]
fn missing_dispersal_for_ordinary_leaf_is_reported() {
    let mut i = info(6, Some(vec![6]));
    i.vid_share = None;
    let d = decide(vec![i]);
    let store = MemStore::new();
    let mut txn = store.write();
    let r = txn.update(Event::Decide(d), None).unwrap();
    assert_eq!(r, vec![Anomaly::MissingVid { block_number: 6 }]);
    assert!(txn.get(&store, RecordKind::Vid, 6).is_none());
    assert!(txn.get(&store, RecordKind::Leaf, 6).is_some());
    assert!(txn.get(&store, RecordKind::Block, 6).is_some());
}

fn genesis_decide() -> Decide {
    let mut g = leaf(0, Some(Vec::new()));
    g.header.payload_commitment = 77;
    let g = LeafInfo { leaf: g, vid_share: None };
    decide(vec![g, info(1, Some(vec![1]))])
}

#[test]
fn genesis_leaf_in_update_gets_synthesized_dispersal() {
    let event = Event::Decide(genesis_decide());
    assert!(needs_genesis_dispersal(&event));
    let store = MemStore::new();
    let mut txn = store.write();
    let r = txn.update(event, Some(Ok(dispersal(77)))).unwrap();
    assert!(r.is_empty());
    match txn.get(&store, RecordKind::Vid, 0) {
        Some(Write::Vid(common, share)) => {
            assert_eq!(common.common, vec![5, 5]);
            assert_eq!(share, &Some(vec![1]));
        }
        other => panic!("expected the genesis dispersal, got {:?}", other),
    }
}

#[test]
fn genesis_leaf_in_update_with_mismatch_is_reported() {
    let store = MemStore::new();
    let mut txn = store.write();
    let r = txn.update(Event::Decide(genesis_decide()), Some(Ok(dispersal(70)))).unwrap();
    assert_eq!(r, vec![Anomaly::GenesisCommitMismatch { computed: 70, header: 77 }]);
    assert!(txn.get(&store, RecordKind::Vid, 0).is_none());
    assert!(txn.get(&store, RecordKind::Leaf, 0).is_some());
}

#[test]
fn ordinary_decide_needs_no_genesis_dispersal() {
    let d = decide(vec![info(1, None), info(2, None)]);
    assert!(!needs_genesis_dispersal(&Event::Decide(d)));
    assert!(!needs_genesis_dispersal(&Event::ViewTimeout { view_number: 0 }));
}

#[test]
fn empty_chain_succeeds_with_nothing_written() {
    let d = Decide { qc: Qc { view_number: 3, leaf_commit: 103 }, leaf_chain: Vec::new() };
    let store = MemStore::new();
    let mut txn = store.write();
    let r = txn.update(Event::Decide(d), None).unwrap();
    assert!(r.is_empty());
    assert!(txn.get(&store, RecordKind::Leaf, 3).is_none());
}

#[test]
fn genesis_match_through_store_reads_back() {
    let mut store = MemStore::new();
    let mut t = store.write();
    store_genesis_vid(&mut t, genesis_header(), Some(Ok(dispersal(77)))).unwrap();
    t.commit(&mut store).unwrap();
    let r = store.read();
    match store.get(&r, RecordKind::Vid, 0) {
        Some(Write::Vid(common, share)) => {
            assert_eq!(common.common, vec![5, 5]);
            assert_eq!(share, &Some(vec![1]));
        }
        other => panic!("expected the genesis dispersal, got {:?}", other),
    }
}
