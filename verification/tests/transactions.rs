use fluxdb::transaction_manager::TransactionManager;

#[test]
fn test_begin_transaction() {
    let mut tm = TransactionManager::new();
    let txn = tm.begin();

    assert_eq!(txn.snapshot.active.len(), 1);
    assert_eq!(txn.snapshot.active[0], txn.txn_id);
    assert!(tm.is_active(txn.txn_id));
    assert!(!tm.is_committed(txn.txn_id));
    assert!(!tm.is_aborted(txn.txn_id));
}

#[test]
fn test_commit_transaction() {
    let mut tm = TransactionManager::new();
    let txn = tm.begin();

    tm.commit(txn.txn_id);

    assert!(!tm.is_active(txn.txn_id));
    assert!(tm.is_committed(txn.txn_id));
    assert!(!tm.is_aborted(txn.txn_id));
}

#[test]
fn test_abort_transaction() {
    let mut tm = TransactionManager::new();
    let txn = tm.begin();

    tm.abort(txn.txn_id);

    assert!(!tm.is_active(txn.txn_id));
    assert!(!tm.is_committed(txn.txn_id));
    assert!(tm.is_aborted(txn.txn_id));
}

#[test]
fn test_snapshot_empty_active() {
    let tm = TransactionManager::new();
    let snap = tm.get_snapshot();

    // When empty, xmin should equal xmax
    assert_eq!(snap.xmin, snap.xmax);
    assert!(snap.active.is_empty());
}

#[test]
fn test_snapshot_with_multiple_active() {
    let mut tm = TransactionManager::new();
    let txn1 = tm.begin();
    let txn2 = tm.begin();

    let snap = tm.get_snapshot();

    assert_eq!(snap.xmin, txn1.txn_id); // txn1 is the oldest active
    assert!(snap.xmax > txn2.txn_id);
    assert!(snap.active.contains(&txn1.txn_id));
    assert!(snap.active.contains(&txn2.txn_id));
    assert_eq!(snap.active.len(), 2);
}

#[test]
fn test_snapshot_with_commits_in_middle() {
    let mut tm = TransactionManager::new();
    let txn1 = tm.begin();
    let txn2 = tm.begin();
    let txn3 = tm.begin();

    // Commit txn2 in the middle
    tm.commit(txn2.txn_id);

    let snap = tm.get_snapshot();

    assert_eq!(snap.xmin, txn1.txn_id); // txn1 is still oldest
    assert!(!snap.active.contains(&txn2.txn_id)); // txn2 committed
    assert!(snap.active.contains(&txn1.txn_id));
    assert!(snap.active.contains(&txn3.txn_id));
    assert_eq!(snap.active.len(), 2);
}

#[test]
fn ids_are_handed_out_in_order_from_one() {
    let mut tm = TransactionManager::new();
    assert_eq!(tm.begin().txn_id, 1);
    assert_eq!(tm.begin().txn_id, 2);
    tm.commit(2);
    tm.abort(1);
    assert_eq!(tm.begin().txn_id, 3);
}

#[test]
fn transaction_zero_counts_as_committed() {
    let mut tm = TransactionManager::new();
    assert!(tm.is_committed(0));
    assert!(!tm.is_aborted(0));
    assert!(!tm.is_active(0));
    tm.abort(0);
    assert!(tm.is_committed(0));
}

#[test]
fn unknown_transaction_has_no_status() {
    let tm = TransactionManager::new();
    assert!(!tm.is_committed(5));
    assert!(!tm.is_aborted(5));
    assert!(!tm.is_active(5));
}

#[test]
fn later_verdict_replaces_earlier() {
    let mut tm = TransactionManager::new();
    let txn = tm.begin();
    tm.abort(txn.txn_id);
    tm.commit(txn.txn_id);
    assert!(tm.is_committed(txn.txn_id));
    assert!(!tm.is_aborted(txn.txn_id));
}

#[test]
fn begin_snapshot_counts_itself_and_older() {
    let mut tm = TransactionManager::new();
    let first = tm.begin();
    let second = tm.begin();
    assert_eq!(second.snapshot.xmin, first.txn_id);
    assert_eq!(second.snapshot.xmax, second.txn_id + 1);
    let mut active = second.snapshot.active;
    active.sort();
    assert_eq!(active, vec![first.txn_id, second.txn_id]);
}

#[test]
fn snapshot_bounds_hold() {
    let mut tm = TransactionManager::new();
    for _ in 0..5 {
        tm.begin();
    }
    tm.commit(1);
    tm.abort(4);
    let snap = tm.get_snapshot();
    assert_eq!((snap.xmin, snap.xmax), (2, 6));
    assert!(snap.active.iter().all(|t| snap.xmin <= *t && *t < snap.xmax));
    assert_eq!(snap.active.len(), 3);
}

#[test]
fn horizon_is_oldest_active_or_next() {
    let mut tm = TransactionManager::new();
    assert_eq!(tm.global_xmin(), 1);
    tm.begin();
    tm.begin();
    assert_eq!(tm.global_xmin(), 1);
    tm.commit(1);
    assert_eq!(tm.global_xmin(), 2);
    tm.abort(2);
    assert_eq!(tm.global_xmin(), 3);
}

#[test]
fn settling_one_leaves_the_others() {
    let mut tm = TransactionManager::new();
    for _ in 0..3 {
        tm.begin();
    }
    tm.commit(2);
    assert!(tm.is_active(1) && tm.is_active(3));
    tm.abort(3);
    assert!(tm.is_committed(2));
    assert!(tm.is_active(1));
}
