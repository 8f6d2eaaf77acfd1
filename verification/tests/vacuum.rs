use fluxdb::page::leaf::{LeafPageAccessor, LeafPageBuilder, LeafPageMutator};
use fluxdb::page::PageBuffer;
use fluxdb::transaction_manager::TransactionManager;
use fluxdb::vacuum::{compact_leaf_page, is_dead, VersionStamp};

type K = &'static [u8];
type V = &'static [u8];

fn page_of(pairs: &[(&[u8], &[u8])]) -> PageBuffer {
    let mut buf = PageBuffer::new();
    let mut b = LeafPageBuilder::<K, V>::new(1, buf.memory_mut());
    for (k, v) in pairs {
        b.push(k, v);
    }
    b.finish();
    buf
}

fn stamp(xmin: u64, xmax: u64) -> VersionStamp {
    VersionStamp { xmin, xmax }
}

/// Transactions 1 and 2 committed, 3 aborted, 4 active, 5 aborted.
fn history() -> TransactionManager {
    let mut tm = TransactionManager::new();
    for _ in 0..5 {
        tm.begin();
    }
    tm.commit(1);
    tm.commit(2);
    tm.abort(3);
    tm.abort(5);
    tm
}

#[test]
fn undeleted_version_is_live() {
    let tm = history();
    assert!(!is_dead(1, 0, &tm));
    assert!(!is_dead(4, 0, &tm));
    assert!(!is_dead(0, 0, &tm));
}

#[test]
fn version_with_uncommitted_deleter_is_live() {
    let tm = history();
    assert!(!is_dead(1, 4, &tm));
    assert!(!is_dead(1, 3, &tm));
    assert!(!is_dead(1, 99, &tm));
}

#[test]
fn version_with_old_committed_deleter_is_dead() {
    let tm = history();
    assert!(is_dead(1, 2, &tm));
    assert!(is_dead(4, 2, &tm));
    assert!(is_dead(99, 2, &tm));
}

#[test]
fn version_of_aborted_creator_is_dead() {
    let tm = history();
    assert!(is_dead(3, 0, &tm));
    assert!(is_dead(5, 0, &tm));
    assert!(is_dead(3, 2, &tm));
    assert!(is_dead(5, 4, &tm));
}

#[test]
fn recently_deleted_version_is_kept() {
    let mut tm = TransactionManager::new();
    for _ in 0..3 {
        tm.begin();
    }
    tm.commit(3);
    tm.commit(2);
    // 1 is active: what 2 and 3 deleted is still seen by it
    assert_eq!(tm.global_xmin(), 1);
    assert!(!is_dead(0, 2, &tm));
    assert!(!is_dead(0, 3, &tm));
    tm.commit(1);
    assert_eq!(tm.global_xmin(), 4);
    assert!(is_dead(0, 2, &tm));
    assert!(is_dead(0, 3, &tm));
}

#[test]
fn compaction_drops_dead_versions_only() {
    let tm = history();
    let mut buf = page_of(&[(b"a", b"A"), (b"b", b"B"), (b"c", b"C"), (b"d", b"D")]);
    {
        let mut m = LeafPageMutator::<K, V>::new(buf.memory_mut());
        m.set_lsn(50);
        m.set_prev_page(Some(8));
        m.set_next_page(Some(9));
    }
    let mut stamps = vec![stamp(1, 0), stamp(1, 2), stamp(2, 4), stamp(3, 2)];
    let dead = compact_leaf_page::<K, V>(buf.memory_mut(), 1, &mut stamps, &tm);
    assert_eq!(dead, 2);
    assert_eq!(stamps, vec![stamp(1, 0), stamp(2, 4)]);
    let acc = LeafPageAccessor::<K, V>::new(buf.memory());
    assert_eq!(acc.num_pairs(), 2);
    assert_eq!(acc.entry(0), (b"a".as_ref(), b"A".as_ref()));
    assert_eq!(acc.entry(1), (b"c".as_ref(), b"C".as_ref()));
    assert_eq!(acc.page_id(), 1);
    assert_eq!(acc.lsn(), 50);
    assert_eq!(acc.prev_page(), Some(8));
    assert_eq!(acc.next_page(), Some(9));
    assert_eq!(acc.free_end(), 4096 - 2 * 12);
}

#[test]
fn compaction_without_dead_versions_changes_nothing() {
    let tm = history();
    let mut buf = page_of(&[(b"a", b"A"), (b"b", b"B")]);
    LeafPageMutator::<K, V>::new(buf.memory_mut()).overwrite_value(0, &b"longer".as_ref()).unwrap();
    let before = buf.memory().to_vec();
    let mut stamps = vec![stamp(1, 0), stamp(2, 0)];
    assert_eq!(compact_leaf_page::<K, V>(buf.memory_mut(), 7, &mut stamps, &tm), 0);
    assert_eq!(buf.memory(), &before[..]);
    assert_eq!(stamps.len(), 2);
}

#[test]
fn compaction_twice_finds_nothing_more() {
    let tm = history();
    let mut buf = page_of(&[(b"a", b"A"), (b"b", b"B"), (b"c", b"C")]);
    let mut stamps = vec![stamp(1, 2), stamp(1, 0), stamp(2, 1)];
    assert_eq!(compact_leaf_page::<K, V>(buf.memory_mut(), 1, &mut stamps, &tm), 2);
    assert_eq!(compact_leaf_page::<K, V>(buf.memory_mut(), 1, &mut stamps, &tm), 0);
    let acc = LeafPageAccessor::<K, V>::new(buf.memory());
    assert_eq!(acc.num_pairs(), 1);
    assert_eq!(acc.find_key(&b"b".as_ref()), Some(0));
}

#[test]
fn compaction_can_empty_a_page() {
    let tm = history();
    let mut buf = page_of(&[(b"a", b"A")]);
    let mut stamps = vec![stamp(1, 2)];
    assert_eq!(compact_leaf_page::<K, V>(buf.memory_mut(), 33, &mut stamps, &tm), 1);
    let acc = LeafPageAccessor::<K, V>::new(buf.memory());
    assert_eq!(acc.num_pairs(), 0);
    assert_eq!(acc.page_id(), 33);
    assert_eq!(acc.free_end(), 4096);
    assert!(stamps.is_empty());
}

#[test]
fn vacuum_removes_aborted_xmin() {
    let tm = history();
    let mut buf = page_of(&[(b"a", b"A"), (b"b", b"B")]);
    let mut stamps = vec![stamp(3, 0), stamp(1, 0)];
    assert_eq!(compact_leaf_page::<K, V>(buf.memory_mut(), 1, &mut stamps, &tm), 1);
    let acc = LeafPageAccessor::<K, V>::new(buf.memory());
    assert_eq!(acc.num_pairs(), 1);
    assert_eq!(acc.get_key(0), b"b".as_ref());
    assert_eq!(stamps, vec![stamp(1, 0)]);
}

#[test]
fn vacuum_removes_committed_xmax_below_horizon() {
    let tm = history();
    let mut buf = page_of(&[(b"a", b"A"), (b"b", b"B")]);
    let mut stamps = vec![stamp(1, 0), stamp(1, 2)];
    assert_eq!(compact_leaf_page::<K, V>(buf.memory_mut(), 1, &mut stamps, &tm), 1);
    assert_eq!(LeafPageAccessor::<K, V>::new(buf.memory()).find_key(&b"b".as_ref()), None);
}

#[test]
fn vacuum_keeps_version_visible_to_active_snapshot() {
    let mut tm = TransactionManager::new();
    let reader = tm.begin();
    let deleter = tm.begin();
    tm.commit(deleter.txn_id);
    let mut buf = page_of(&[(b"a", b"A")]);
    let before = buf.memory().to_vec();
    let mut stamps = vec![stamp(0, deleter.txn_id)];
    assert_eq!(compact_leaf_page::<K, V>(buf.memory_mut(), 1, &mut stamps, &tm), 0);
    assert_eq!(buf.memory(), &before[..]);
    tm.commit(reader.txn_id);
    assert_eq!(compact_leaf_page::<K, V>(buf.memory_mut(), 1, &mut stamps, &tm), 1);
}

#[test]
fn vacuum_idempotent() {
    let tm = history();
    let mut buf = page_of(&[(b"a", b"A"), (b"b", b"B"), (b"c", b"C")]);
    let mut stamps = vec![stamp(5, 0), stamp(1, 0), stamp(1, 2)];
    assert_eq!(compact_leaf_page::<K, V>(buf.memory_mut(), 1, &mut stamps, &tm), 2);
    assert_eq!(compact_leaf_page::<K, V>(buf.memory_mut(), 1, &mut stamps, &tm), 0);
    assert_eq!(stamps, vec![stamp(1, 0)]);
}

#[test]
fn vacuum_no_tombstones_noop() {
    let tm = history();
    let mut buf = page_of(&[(b"a", b"A"), (b"b", b"B")]);
    let before = buf.memory().to_vec();
    let mut stamps = vec![stamp(1, 0), stamp(2, 0)];
    assert_eq!(compact_leaf_page::<K, V>(buf.memory_mut(), 9, &mut stamps, &tm), 0);
    assert_eq!(buf.memory(), &before[..]);
}
