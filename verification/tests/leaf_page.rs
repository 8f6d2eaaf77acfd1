use fluxdb::page::leaf_edit::{rec_key_offset, rec_total_size, rec_val_offset, slot_offset};
use fluxdb::page::leaf::{LeafPageAccessor, LeafPageBuilder, LeafPageMutator};
use fluxdb::page::{PageBuffer, PageError, PAGE_SIZE};
type K = &'static [u8];
type V = &'static [u8];

/// Build a leaf page from a slice of `(&[u8], &[u8])` pairs using the
/// builder (entries must be in ascending order).
fn build_page(page_id: u64, pairs: &[(&[u8], &[u8])]) -> PageBuffer {
    let mut buf = PageBuffer::new();
    let mut b = LeafPageBuilder::<K, V>::new(page_id, buf.memory_mut());
    for (k, v) in pairs {
        b.push(k, v);
    }
    b.finish();
    buf
}

// ── Builder / accessor round-trip ─────────────────────────────────────────

#[test]
fn build_and_read_entries() {
    let pairs: &[(&[u8], &[u8])] = &[
        (b"apple",  b"AAA"),
        (b"banana", b"BBB"),
        (b"cherry", b"CCC"),
    ];
    let buf = build_page(42, pairs);
    let acc = LeafPageAccessor::<K, V>::new(buf.memory());

    assert_eq!(acc.page_id(), 42);
    assert_eq!(acc.num_pairs(), 3);
    assert_eq!(acc.get_key(0), b"apple".as_ref());
    assert_eq!(acc.get_value(0), b"AAA".as_ref());
    assert_eq!(acc.get_key(2), b"cherry".as_ref());
    assert_eq!(acc.get_value(2), b"CCC".as_ref());
}

#[test]
fn entry_returns_key_and_value_tuple() {
    let buf = build_page(1, &[(b"k1", b"v1"), (b"k2", b"v2")]);
    let acc = LeafPageAccessor::<K, V>::new(buf.memory());
    assert_eq!(acc.entry(1), (b"k2".as_ref(), b"v2".as_ref()));
}

// ── Linked-list pointers ──────────────────────────────────────────────────

#[test]
fn prev_next_page_none_when_zero() {
    let buf = build_page(1, &[]);
    let acc = LeafPageAccessor::<K, V>::new(buf.memory());
    assert_eq!(acc.prev_page(), None);
    assert_eq!(acc.next_page(), None);
}

#[test]
fn set_prev_next_round_trip() {
    let mut buf = build_page(1, &[]);
    {
        let mut m = LeafPageMutator::<K, V>::new(buf.memory_mut());
        m.set_prev_page(Some(10));
        m.set_next_page(Some(20));
    }
    let acc = LeafPageAccessor::<K, V>::new(buf.memory());
    assert_eq!(acc.prev_page(), Some(10));
    assert_eq!(acc.next_page(), Some(20));
}

#[test]
fn set_prev_next_to_none() {
    let mut buf = build_page(1, &[]);
    {
        let mut m = LeafPageMutator::<K, V>::new(buf.memory_mut());
        m.set_prev_page(Some(5));
        m.set_prev_page(None);
    }
    assert_eq!(LeafPageAccessor::<K, V>::new(buf.memory()).prev_page(), None);
}

// ── LSN ───────────────────────────────────────────────────────────────────

#[test]
fn lsn_round_trip() {
    let mut buf = build_page(1, &[]);
    LeafPageMutator::<K, V>::new(buf.memory_mut()).set_lsn(12345);
    assert_eq!(LeafPageAccessor::<K, V>::new(buf.memory()).lsn(), 12345);
}

// ── Binary search (position / find_key) ──────────────────────────────────

#[test]
fn position_finds_exact_match() {
    let buf = build_page(1, &[(b"a", b"1"), (b"b", b"2"), (b"c", b"3")]);
    let acc = LeafPageAccessor::<K, V>::new(buf.memory());
    assert_eq!(acc.position(&b"b".as_ref()), (1, true));
}

#[test]
fn position_returns_insertion_point_when_absent() {
    let buf = build_page(1, &[(b"a", b"1"), (b"c", b"3")]);
    let acc = LeafPageAccessor::<K, V>::new(buf.memory());
    // "b" is between index 0 and 1 → insertion point is 1
    assert_eq!(acc.position(&b"b".as_ref()), (1, false));
}

#[test]
fn find_key_some_and_none() {
    let buf = build_page(1, &[(b"x", b"X"), (b"y", b"Y")]);
    let acc = LeafPageAccessor::<K, V>::new(buf.memory());
    assert_eq!(acc.find_key(&b"x".as_ref()), Some(0));
    assert_eq!(acc.find_key(&b"z".as_ref()), None);
}

// ── Insert ────────────────────────────────────────────────────────────────

#[test]
fn insert_maintains_sorted_order() {
    let mut buf = build_page(1, &[(b"a", b"A"), (b"c", b"C")]);
    {
        let mut m = LeafPageMutator::<K, V>::new(buf.memory_mut());
        let pos = m.as_accessor().position(&b"b".as_ref()).0;
        m.insert(pos, &b"b".as_ref(), &b"B".as_ref()).unwrap();
    }
    let acc = LeafPageAccessor::<K, V>::new(buf.memory());
    assert_eq!(acc.num_pairs(), 3);
    assert_eq!(acc.get_key(1), b"b".as_ref());
    assert_eq!(acc.get_value(1), b"B".as_ref());
    // surrounding entries must still be correct
    assert_eq!(acc.get_key(0), b"a".as_ref());
    assert_eq!(acc.get_key(2), b"c".as_ref());
}

#[test]
fn insert_at_beginning() {
    let mut buf = build_page(1, &[(b"b", b"B"), (b"c", b"C")]);
    LeafPageMutator::<K, V>::new(buf.memory_mut())
        .insert(0, &b"a".as_ref(), &b"A".as_ref())
        .unwrap();
    let acc = LeafPageAccessor::<K, V>::new(buf.memory());
    assert_eq!(acc.get_key(0), b"a".as_ref());
    assert_eq!(acc.num_pairs(), 3);
}

#[test]
fn insert_at_end() {
    let mut buf = build_page(1, &[(b"a", b"A"), (b"b", b"B")]);
    LeafPageMutator::<K, V>::new(buf.memory_mut())
        .insert(2, &b"c".as_ref(), &b"C".as_ref())
        .unwrap();
    let acc = LeafPageAccessor::<K, V>::new(buf.memory());
    assert_eq!(acc.get_key(2), b"c".as_ref());
    assert_eq!(acc.num_pairs(), 3);
}

#[test]
fn insert_returns_err_when_no_space() {
    // Fill the page until it cannot hold a 200-byte key + 200-byte value.
    let mut buf = PageBuffer::new();
    LeafPageBuilder::<K, V>::new(1, buf.memory_mut()).finish();
    let big_key = vec![0u8; 100];
    let big_val = vec![0u8; 100];
    loop {
        let mut m = LeafPageMutator::<K, V>::new(buf.memory_mut());
        if m.as_accessor().can_fit_direct(big_key.len(), big_val.len()) {
            let n = m.as_accessor().num_pairs() as usize;
            m.insert(n, &big_key.as_slice(), &big_val.as_slice()).unwrap();
        } else {
            let result = m.insert(0, &big_key.as_slice(), &big_val.as_slice());
            assert!(matches!(result, Err(PageError::InsufficientSpace { .. })));
            break;
        }
    }
}

// ── Remove ────────────────────────────────────────────────────────────────

#[test]
fn remove_middle_entry() {
    let mut buf = build_page(1, &[(b"a", b"A"), (b"b", b"B"), (b"c", b"C")]);
    LeafPageMutator::<K, V>::new(buf.memory_mut()).remove(1);
    let acc = LeafPageAccessor::<K, V>::new(buf.memory());
    assert_eq!(acc.num_pairs(), 2);
    assert_eq!(acc.get_key(0), b"a".as_ref());
    assert_eq!(acc.get_key(1), b"c".as_ref());
}

#[test]
fn remove_first_entry() {
    let mut buf = build_page(1, &[(b"a", b"A"), (b"b", b"B")]);
    LeafPageMutator::<K, V>::new(buf.memory_mut()).remove(0);
    let acc = LeafPageAccessor::<K, V>::new(buf.memory());
    assert_eq!(acc.num_pairs(), 1);
    assert_eq!(acc.get_key(0), b"b".as_ref());
}

#[test]
fn remove_last_entry() {
    let mut buf = build_page(1, &[(b"a", b"A"), (b"b", b"B")]);
    LeafPageMutator::<K, V>::new(buf.memory_mut()).remove(1);
    let acc = LeafPageAccessor::<K, V>::new(buf.memory());
    assert_eq!(acc.num_pairs(), 1);
    assert_eq!(acc.get_key(0), b"a".as_ref());
}

// ── Overwrite value ───────────────────────────────────────────────────────

#[test]
fn overwrite_same_size_fast_path() {
    let mut buf = build_page(1, &[(b"key", b"old")]);
    LeafPageMutator::<K, V>::new(buf.memory_mut())
        .overwrite_value(0, &b"new".as_ref())
        .unwrap();
    assert_eq!(
        LeafPageAccessor::<K, V>::new(buf.memory()).get_value(0),
        b"new".as_ref()
    );
}

#[test]
fn overwrite_different_size_allocates_new_record() {
    let mut buf = build_page(1, &[(b"key", b"v")]);
    let free_before = LeafPageAccessor::<K, V>::new(buf.memory()).free_space();
    LeafPageMutator::<K, V>::new(buf.memory_mut())
        .overwrite_value(0, &b"value_longer".as_ref())
        .unwrap();
    let acc = LeafPageAccessor::<K, V>::new(buf.memory());
    assert_eq!(acc.get_value(0), b"value_longer".as_ref());
    // free_end moved so free space decreased
    assert!(acc.free_space() < free_before);
}

#[test]
fn overwrite_same_size_does_not_change_free_space() {
    let mut buf = build_page(1, &[(b"k", b"abc")]);
    let free_before = LeafPageAccessor::<K, V>::new(buf.memory()).free_space();
    LeafPageMutator::<K, V>::new(buf.memory_mut())
        .overwrite_value(0, &b"xyz".as_ref())
        .unwrap();
    assert_eq!(
        LeafPageAccessor::<K, V>::new(buf.memory()).free_space(),
        free_before
    );
}

// ── Compact ───────────────────────────────────────────────────────────────

#[test]
fn compact_reclaims_space_after_overwrite() {
    let mut buf = build_page(1, &[(b"key", b"short")]);
    // Overwrite with a longer value → old record becomes dead space.
    LeafPageMutator::<K, V>::new(buf.memory_mut())
        .overwrite_value(0, &b"much_longer_value".as_ref())
        .unwrap();
    let free_before_compact = LeafPageAccessor::<K, V>::new(buf.memory()).free_space();
    LeafPageMutator::<K, V>::new(buf.memory_mut()).compact();
    let free_after_compact = LeafPageAccessor::<K, V>::new(buf.memory()).free_space();
    // Compacting must recover some space.
    assert!(free_after_compact > free_before_compact);
    // Data integrity: key and value must still be correct.
    let acc = LeafPageAccessor::<K, V>::new(buf.memory());
    assert_eq!(acc.get_key(0), b"key".as_ref());
    assert_eq!(acc.get_value(0), b"much_longer_value".as_ref());
}

#[test]
fn compact_after_remove_reclaims_space() {
    let mut buf = build_page(1, &[
        (b"a", b"AAAA"),
        (b"b", b"BBBB"),
        (b"c", b"CCCC"),
    ]);
    // Remove the middle entry — its record bytes become dead space.
    LeafPageMutator::<K, V>::new(buf.memory_mut()).remove(1);
    let free_before = LeafPageAccessor::<K, V>::new(buf.memory()).free_space();
    LeafPageMutator::<K, V>::new(buf.memory_mut()).compact();
    let free_after = LeafPageAccessor::<K, V>::new(buf.memory()).free_space();
    assert!(free_after > free_before);
    let acc = LeafPageAccessor::<K, V>::new(buf.memory());
    assert_eq!(acc.num_pairs(), 2);
    assert_eq!(acc.get_key(0), b"a".as_ref());
    assert_eq!(acc.get_key(1), b"c".as_ref());
}

#[test]
fn compact_empty_page_is_safe() {
    let mut buf = build_page(1, &[]);
    LeafPageMutator::<K, V>::new(buf.memory_mut()).compact();
    let acc = LeafPageAccessor::<K, V>::new(buf.memory());
    assert_eq!(acc.num_pairs(), 0);
    assert_eq!(acc.free_end(), PAGE_SIZE);
}

#[test]
fn compact_idempotent_when_no_dead_space() {
    let mut buf = build_page(1, &[(b"k", b"v")]);
    let free_before = LeafPageAccessor::<K, V>::new(buf.memory()).free_space();
    LeafPageMutator::<K, V>::new(buf.memory_mut()).compact();
    assert_eq!(LeafPageAccessor::<K, V>::new(buf.memory()).free_space(), free_before);
}

// ── Free-space accounting ─────────────────────────────────────────────────

#[test]
fn can_fit_direct_true_on_empty_page() {
    let buf = build_page(1, &[]);
    let acc = LeafPageAccessor::<K, V>::new(buf.memory());
    assert!(acc.can_fit_direct(10, 10));
}

#[test]
fn can_fit_after_compact_true_after_removes() {
    let big_key = vec![0u8; 100];
    let big_val = vec![0u8; 100];
    let mut buf = PageBuffer::new();
    LeafPageBuilder::<K, V>::new(1, buf.memory_mut()).finish();

    // Fill the page.
    loop {
        let mut m = LeafPageMutator::<K, V>::new(buf.memory_mut());
        if m.as_accessor().can_fit_direct(big_key.len(), big_val.len()) {
            let n = m.as_accessor().num_pairs() as usize;
            m.insert(n, &big_key.as_slice(), &big_val.as_slice()).unwrap();
        } else {
            break;
        }
    }
    // Remove all but one entry to create dead space.
    let n = LeafPageAccessor::<K, V>::new(buf.memory()).num_pairs();
    for _ in 1..n {
        LeafPageMutator::<K, V>::new(buf.memory_mut()).remove(1);
    }
    // Direct fit won't work (dead space, no contiguous gap), but after
    // compact it should.
    let acc = LeafPageAccessor::<K, V>::new(buf.memory());
    assert!(acc.can_fit_after_compact(big_key.len(), big_val.len()));
}

// ── Header, layout and edge cases ─────────────────────────────────────────────

#[test]
fn builder_writes_the_documented_leaf_layout() {
    let mut buf = build_page(0x0102_0304, &[(b"abc", b"de")]);
    {
        let mut m = LeafPageMutator::<K, V>::new(buf.memory_mut());
        m.set_lsn(7);
        m.set_prev_page(Some(8));
        m.set_next_page(Some(9));
    }
    let bytes = buf.memory();
    assert_eq!(bytes.len(), PAGE_SIZE);
    assert_eq!(&bytes[0..8], &[1, 0, 1, 0, 44, 0, 0xf2, 0x0f]);
    assert_eq!(&bytes[8..16], &[4, 3, 2, 1, 0, 0, 0, 0]);
    assert_eq!(&bytes[16..24], &[7, 0, 0, 0, 0, 0, 0, 0]);
    assert_eq!(&bytes[24..32], &[8, 0, 0, 0, 0, 0, 0, 0]);
    assert_eq!(&bytes[32..40], &[9, 0, 0, 0, 0, 0, 0, 0]);
    // slot 0: offset 4082, size 14
    assert_eq!(&bytes[40..44], &[0xf2, 0x0f, 14, 0]);
    // key length 3, value length 2, flags and padding, key padded to 4, value
    assert_eq!(
        &bytes[4082..4096],
        &[3, 0, 2, 0, 0, 0, 0, 0, b'a', b'b', b'c', 0, b'd', b'e']
    );
}

#[test]
fn leaf_space_is_counted_exactly() {
    let buf = build_page(1, &[(b"abc", b"de")]);
    let acc = LeafPageAccessor::<K, V>::new(buf.memory());
    assert_eq!(acc.free_start(), 44);
    assert_eq!(acc.free_end(), 4082);
    assert_eq!(acc.free_space(), 4038);
    // a record of 4034 bytes and its slot just fit
    assert!(acc.can_fit_direct(26, 4000));
    assert!(!acc.can_fit_direct(26, 4001));
    assert!(acc.can_fit_after_compact(26, 4000));
    assert!(!acc.can_fit_after_compact(26, 4001));
}

#[test]
fn leaf_insert_reports_needed_and_available() {
    let mut buf = build_page(1, &[]);
    let big = vec![7u8; 4096];
    let before = buf.memory().to_vec();
    let res = LeafPageMutator::<K, V>::new(buf.memory_mut()).insert(0, &b"k".as_ref(), &big.as_slice());
    assert_eq!(
        res,
        Err(PageError::InsufficientSpace { needed: 4 + 8 + 2 + 4096, available: 4096 - 40 })
    );
    assert_eq!(buf.memory(), &before[..]);
}

#[test]
fn leaf_overwrite_refuses_what_does_not_fit() {
    let mut buf = build_page(1, &[(b"k", b"v")]);
    let big = vec![7u8; 5000];
    let before = buf.memory().to_vec();
    let res = LeafPageMutator::<K, V>::new(buf.memory_mut()).overwrite_value(0, &big.as_slice());
    assert_eq!(
        res,
        Err(PageError::InsufficientSpace { needed: 8 + 2 + 5000, available: 4096 - 12 - 44 })
    );
    assert_eq!(buf.memory(), &before[..]);
}

#[test]
fn leaf_holds_empty_keys_and_values() {
    let buf = build_page(1, &[(b"", b""), (b"a", b"")]);
    let acc = LeafPageAccessor::<K, V>::new(buf.memory());
    assert_eq!(acc.entry(0), (b"".as_ref(), b"".as_ref()));
    assert_eq!(acc.entry(1), (b"a".as_ref(), b"".as_ref()));
    assert_eq!(acc.position(&b"".as_ref()), (0, true));
}

#[test]
fn leaf_link_to_page_zero_reads_as_none() {
    let mut buf = build_page(1, &[]);
    LeafPageMutator::<K, V>::new(buf.memory_mut()).set_next_page(Some(0));
    assert_eq!(LeafPageAccessor::<K, V>::new(buf.memory()).next_page(), None);
}

#[test]
fn leaf_header_writes_leave_the_rest() {
    let mut buf = build_page(77, &[(b"a", b"A"), (b"b", b"B")]);
    {
        let mut m = LeafPageMutator::<K, V>::new(buf.memory_mut());
        m.set_prev_page(Some(5));
        m.set_next_page(Some(6));
        m.set_lsn(u64::MAX);
    }
    let acc = LeafPageAccessor::<K, V>::new(buf.memory());
    assert_eq!(acc.page_id(), 77);
    assert_eq!(acc.prev_page(), Some(5));
    assert_eq!(acc.next_page(), Some(6));
    assert_eq!(acc.lsn(), u64::MAX);
    assert_eq!(acc.entry(0), (b"a".as_ref(), b"A".as_ref()));
    assert_eq!(acc.entry(1), (b"b".as_ref(), b"B".as_ref()));
}

#[test]
fn leaf_insert_then_remove_brings_entries_back() {
    let mut buf = build_page(1, &[(b"a", b"A"), (b"c", b"C")]);
    LeafPageMutator::<K, V>::new(buf.memory_mut())
        .insert(1, &b"b".as_ref(), &b"B".as_ref())
        .unwrap();
    LeafPageMutator::<K, V>::new(buf.memory_mut()).remove(1);
    let acc = LeafPageAccessor::<K, V>::new(buf.memory());
    assert_eq!(acc.num_pairs(), 2);
    assert_eq!(acc.entry(0), (b"a".as_ref(), b"A".as_ref()));
    assert_eq!(acc.entry(1), (b"c".as_ref(), b"C".as_ref()));
}

#[test]
fn leaf_lookup_follows_insert_overwrite_and_remove() {
    let mut buf = build_page(1, &[]);
    for i in 0u8..40 {
        let n = (u32::from(i) * 7 % 40) as u8;
        let key = vec![b'k', n];
        let value = vec![n; (n % 5) as usize];
        let mut m = LeafPageMutator::<K, V>::new(buf.memory_mut());
        let (pos, found) = m.as_accessor().position(&key.as_slice());
        assert!(!found);
        m.insert(pos, &key.as_slice(), &value.as_slice()).unwrap();
    }
    for n in 0u8..40 {
        let key = vec![b'k', n];
        let acc = LeafPageAccessor::<K, V>::new(buf.memory());
        assert_eq!(acc.find_key(&key.as_slice()), Some(n as usize));
        assert_eq!(acc.get_value(n as usize), &vec![n; (n % 5) as usize][..]);
    }
    LeafPageMutator::<K, V>::new(buf.memory_mut()).overwrite_value(3, &b"three".as_ref()).unwrap();
    LeafPageMutator::<K, V>::new(buf.memory_mut()).remove(0);
    let acc = LeafPageAccessor::<K, V>::new(buf.memory());
    assert_eq!(acc.find_key(&[b'k', 0].as_ref()), None);
    assert_eq!(acc.find_key(&[b'k', 3].as_ref()), Some(2));
    assert_eq!(acc.get_value(2), b"three".as_ref());
    assert_eq!(acc.find_key(&[b'k', 4].as_ref()), Some(3));
    assert_eq!(acc.get_value(3), &[4u8; 4][..]);
}

#[test]
fn compaction_turns_room_into_a_gap() {
    let mut buf = build_page(1, &[(b"a", b"AAAA"), (b"b", b"BBBB"), (b"c", b"CCCC")]);
    LeafPageMutator::<K, V>::new(buf.memory_mut()).remove(0);
    LeafPageMutator::<K, V>::new(buf.memory_mut())
        .overwrite_value(1, &b"C".as_ref())
        .unwrap();
    let before = LeafPageAccessor::<K, V>::new(buf.memory());
    let roomy: Vec<bool> = (3900..4096).map(|n| before.can_fit_after_compact(2, n)).collect();
    LeafPageMutator::<K, V>::new(buf.memory_mut()).compact();
    let after = LeafPageAccessor::<K, V>::new(buf.memory());
    let direct: Vec<bool> = (3900..4096).map(|n| after.can_fit_direct(2, n)).collect();
    assert_eq!(roomy, direct);
    assert!(roomy.contains(&true) && roomy.contains(&false));
    assert_eq!(after.free_end(), 4096 - 14 - 12);
    assert_eq!(after.entry(0), (b"b".as_ref(), b"BBBB".as_ref()));
    assert_eq!(after.entry(1), (b"c".as_ref(), b"C".as_ref()));
}

#[test]
fn remove_zeroes_the_vacated_slot() {
    let mut buf = build_page(1, &[(b"a", b"A"), (b"b", b"B")]);
    LeafPageMutator::<K, V>::new(buf.memory_mut()).remove(0);
    assert_eq!(&buf.memory()[44..48], &[0, 0, 0, 0]);
    assert_eq!(LeafPageAccessor::<K, V>::new(buf.memory()).free_start(), 44);
}

#[test]
fn second_compaction_changes_no_byte() {
    let mut buf = build_page(4, &[(b"a", b"111"), (b"b", b"22"), (b"c", b"3"), (b"d", b"4444")]);
    LeafPageMutator::<K, V>::new(buf.memory_mut()).set_lsn(77);
    LeafPageMutator::<K, V>::new(buf.memory_mut()).set_next_page(Some(5));
    LeafPageMutator::<K, V>::new(buf.memory_mut())
        .overwrite_value(2, &b"grown".as_ref())
        .unwrap();
    LeafPageMutator::<K, V>::new(buf.memory_mut()).remove(1);
    LeafPageMutator::<K, V>::new(buf.memory_mut()).compact();
    let once: Vec<u8> = buf.memory().to_vec();
    LeafPageMutator::<K, V>::new(buf.memory_mut()).compact();
    assert_eq!(buf.memory().to_vec(), once);
    let acc = LeafPageAccessor::<K, V>::new(buf.memory());
    assert_eq!((acc.page_id(), acc.lsn(), acc.next_page()), (4, 77, Some(5)));
    assert_eq!(acc.entry(1), (b"c".as_ref(), b"grown".as_ref()));
}

#[test]
fn packed_page_is_left_alone() {
    let mut buf = build_page(4, &[(b"a", b"111"), (b"b", b"22")]);
    let before: Vec<u8> = buf.memory().to_vec();
    LeafPageMutator::<K, V>::new(buf.memory_mut()).compact();
    assert_eq!(buf.memory().to_vec(), before);
}

#[test]
fn records_take_an_even_number_of_bytes() {
    for key_len in 1..6usize {
        for val_len in 0..6usize {
            let key = vec![7u8; key_len];
            let val = vec![9u8; val_len];
            let buf = build_page(1, &[(&key, &val)]);
            let acc = LeafPageAccessor::<K, V>::new(buf.memory());
            let size = PAGE_SIZE - acc.free_end();
            assert_eq!(size % 2, 0);
            let bare = 8 + key_len + val_len;
            assert!(bare <= size && size <= bare + 2);
        }
    }
}

#[test]
fn header_fields_need_only_their_own_bytes() {
    let mut short = [0u8; 24];
    short[8] = 6;
    short[16] = 3;
    let acc = LeafPageAccessor::<K, V>::new(&short);
    assert_eq!((acc.page_id(), acc.lsn()), (6, 3));
    LeafPageMutator::<K, V>::new(&mut short).set_lsn(9);
    assert_eq!(short[16], 9);
}

#[test]
fn parts_of_a_record_do_not_overlap() {
    assert_eq!(rec_total_size(3, 5), 18);
    assert_eq!(rec_total_size(0, 0), 8);
    assert_eq!((slot_offset(0) + 4, slot_offset(0) + 8), (slot_offset(1), slot_offset(2)));
    for key_len in 0..7usize {
        for val_len in 0..7usize {
            let size = rec_total_size(key_len, val_len);
            assert!(rec_key_offset(100) + key_len <= rec_val_offset(100, key_len));
            assert_eq!(rec_val_offset(100, key_len) % 2, 0);
            assert!(rec_val_offset(100, key_len) + val_len <= 100 + size);
        }
    }
}
