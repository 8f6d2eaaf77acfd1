use fluxdb::page::internal_edit::{
    int_child_offset, int_key_data_base, int_key_end_offset, int_key_end_section,
};
use fluxdb::page::internal::{InternalPageAccessor, InternalPageBuilder, InternalPageMutator};
use fluxdb::page::{ChildSide, PageBuffer, PageError, PAGE_SIZE};

/// Bytes before the children.
const HEADER: usize = 32;
/// Build an internal page from a slice of (key_bytes, right_child) pairs
/// with an explicit leftmost child.
fn build_page(
    page_id:     u64,
    first_child: u64,
    entries:     &[(&[u8], u64)],
) -> PageBuffer {
    let mut buf = PageBuffer::new();
    let mut builder = InternalPageBuilder::<&[u8]>::new(page_id, buf.memory_mut());
    builder.push_first_child(first_child);
    for (key, child) in entries {
        builder.push_key_and_right_child(key, *child);
    }
    builder.finish();
    buf
}

#[test]
fn build_and_read_keys_and_children() {
    let buf = build_page(
        1,
        10,
        &[(&[5], 20), (&[10], 30), (&[15], 40)],
    );
    let acc = InternalPageAccessor::<&[u8]>::new(buf.memory());

    assert_eq!(acc.page_id(), 1);
    assert_eq!(acc.num_keys(), 3);
    assert_eq!(acc.child_page_at(0), 10);
    assert_eq!(acc.child_page_at(1), 20);
    assert_eq!(acc.child_page_at(2), 30);
    assert_eq!(acc.child_page_at(3), 40);
    assert_eq!(acc.key_at(0), &[5u8][..]);
    assert_eq!(acc.key_at(1), &[10u8][..]);
    assert_eq!(acc.key_at(2), &[15u8][..]);
}

#[test]
fn lsn_and_parent_round_trip() {
    let buf = build_page(7, 1, &[(&[42], 2)]);
    let mut buf = buf;
    let mut mutator = InternalPageMutator::<&[u8]>::new(buf.memory_mut());
    mutator.set_lsn(99);
    mutator.set_parent_page_id(Some(55));

    let acc = InternalPageAccessor::<&[u8]>::new(buf.memory());
    assert_eq!(acc.lsn(), 99);
    assert_eq!(acc.parent_page_id(), Some(55));
}

#[test]
fn parent_page_id_none_when_zero() {
    let buf = build_page(1, 10, &[]);
    let acc = InternalPageAccessor::<&[u8]>::new(buf.memory());
    assert_eq!(acc.parent_page_id(), None);
}

#[test]
fn find_child_binary_search() {
    // keys: [10, 20, 30]  children: [1, 2, 3, 4]
    let buf = build_page(
        1,
        1,
        &[(&[10], 2), (&[20], 3), (&[30], 4)],
    );
    let acc = InternalPageAccessor::<&[u8]>::new(buf.memory());

    // Anything < 10 → child 0
    let (idx, pid) = acc.find_child(&(&[5][..]));
    assert_eq!(idx, 0);
    assert_eq!(pid, 1);

    // Exactly 10 → child 1 (key[mid] == search: low = mid+1)
    let (idx, pid) = acc.find_child(&(&[10][..]));
    assert_eq!(idx, 1);
    assert_eq!(pid, 2);

    // Between 10 and 20 → child 1
    let (idx, pid) = acc.find_child(&(&[15][..]));
    assert_eq!(idx, 1);
    assert_eq!(pid, 2);

    // Exactly 30 → child 3
    let (idx, pid) = acc.find_child(&(&[30][..]));
    assert_eq!(idx, 3);
    assert_eq!(pid, 4);

    // Greater than all keys → child 3
    let (idx, pid) = acc.find_child(&(&[99][..]));
    assert_eq!(idx, 3);
    assert_eq!(pid, 4);
}

#[test]
fn insert_key_and_right_child() {
    let mut buf = build_page(1, 10, &[(&[10], 20), (&[30], 40)]);
    {
        let mut m = InternalPageMutator::<&[u8]>::new(buf.memory_mut());
        m.insert_key_and_right_child(1, &(&[20][..]), 30).unwrap();
    }
    let acc = InternalPageAccessor::<&[u8]>::new(buf.memory());
    assert_eq!(acc.num_keys(), 3);
    assert_eq!(acc.key_at(0), &[10u8][..]);
    assert_eq!(acc.key_at(1), &[20u8][..]);
    assert_eq!(acc.key_at(2), &[30u8][..]);
    assert_eq!(acc.child_page_at(2), 30);
    assert_eq!(acc.child_page_at(3), 40);
}

#[test]
fn insert_returns_err_when_full() {
    // Build a page, then fill it via repeated mutator inserts until a
    // further insert fails with InsufficientSpace.
    let mut buf = PageBuffer::new();
    {
        let mut b = InternalPageBuilder::<&[u8]>::new(1, buf.memory_mut());
        b.push_first_child(1);
        b.finish();
    }
    let big_key = vec![0u8; 200];
    let mut child_id = 2u64;
    loop {
        let mut m = InternalPageMutator::<&[u8]>::new(buf.memory_mut());
        if m.as_accessor().can_fit(big_key.len()) {
            let n = m.as_accessor().num_keys() as usize;
            m.insert_key_and_right_child(n, &big_key.as_slice(), child_id).unwrap();
            child_id += 1;
        } else {
            let result = m.insert_key_and_right_child(0, &big_key.as_slice(), 999);
            assert!(matches!(result, Err(PageError::InsufficientSpace { .. })));
            break;
        }
    }
}

#[test]
fn remove_key_keep_left_child() {
    // keys: [10, 20]  children: [1, 2, 3]
    // Remove key[0]=10, keep child[0]=1 (drop child[1]=2)
    let mut buf = build_page(1, 1, &[(&[10], 2), (&[20], 3)]);
    InternalPageMutator::<&[u8]>::new(buf.memory_mut())
        .remove_key_at(0, ChildSide::Left);

    let acc = InternalPageAccessor::<&[u8]>::new(buf.memory());
    assert_eq!(acc.num_keys(), 1);
    assert_eq!(acc.key_at(0), &[20u8][..]);
    assert_eq!(acc.child_page_at(0), 1);
    assert_eq!(acc.child_page_at(1), 3);
}

#[test]
fn remove_key_keep_right_child() {
    // keys: [10, 20]  children: [1, 2, 3]
    // Remove key[0]=10, keep child[1]=2 (drop child[0]=1)
    let mut buf = build_page(1, 1, &[(&[10], 2), (&[20], 3)]);
    InternalPageMutator::<&[u8]>::new(buf.memory_mut())
        .remove_key_at(0, ChildSide::Right);

    let acc = InternalPageAccessor::<&[u8]>::new(buf.memory());
    assert_eq!(acc.num_keys(), 1);
    assert_eq!(acc.key_at(0), &[20u8][..]);
    assert_eq!(acc.child_page_at(0), 2);
    assert_eq!(acc.child_page_at(1), 3);
}

#[test]
fn set_child_at_updates_pointer() {
    let mut buf = build_page(1, 100, &[(&[5], 200)]);
    InternalPageMutator::<&[u8]>::new(buf.memory_mut()).set_child_at(1, 999);
    let acc = InternalPageAccessor::<&[u8]>::new(buf.memory());
    assert_eq!(acc.child_page_at(1), 999);
}

#[test]
fn free_bytes_decreases_after_insert() {
    let mut buf = build_page(1, 1, &[]);
    let free_before = InternalPageAccessor::<&[u8]>::new(buf.memory()).free_bytes();
    InternalPageMutator::<&[u8]>::new(buf.memory_mut())
        .insert_key_and_right_child(0, &(&[42u8][..]), 2)
        .unwrap();
    let free_after = InternalPageAccessor::<&[u8]>::new(buf.memory()).free_bytes();
    // 8 (child ptr) + 4 (key_end entry) + 1 (key byte)
    assert_eq!(free_before - free_after, 8 + 4 + 1);
}

#[test]
fn builder_writes_the_documented_internal_layout() {
    let buf = build_page(9, 0x0a, &[(b"ab", 0x0b), (b"c", 0x0c)]);
    let bytes = buf.memory();
    assert_eq!(bytes[0], 2);
    assert_eq!(&bytes[8..16], &[9, 0, 0, 0, 0, 0, 0, 0]);
    let acc = InternalPageAccessor::<&[u8]>::new(bytes);
    assert_eq!(acc.num_keys(), 2);
    let used = PAGE_SIZE - acc.free_bytes();
    // header, three children, two key ends, three key bytes
    assert_eq!(used, HEADER + 3 * 8 + 2 * 4 + 3);
    assert_eq!(bytes[HEADER], 0x0a);
    assert_eq!(bytes[HEADER + 8], 0x0b);
    assert_eq!(bytes[HEADER + 16], 0x0c);
    assert_eq!(&bytes[HEADER + 24..HEADER + 32], &[2, 0, 0, 0, 3, 0, 0, 0]);
    assert_eq!(&bytes[HEADER + 32..HEADER + 35], b"abc");
}

#[test]
fn internal_insert_reports_needed_and_available() {
    let mut buf = build_page(1, 1, &[]);
    let big = vec![7u8; PAGE_SIZE];
    let before = buf.memory().to_vec();
    let res = InternalPageMutator::<&[u8]>::new(buf.memory_mut())
        .insert_key_and_right_child(0, &big.as_slice(), 2);
    assert_eq!(
        res,
        Err(PageError::InsufficientSpace {
            needed: 12 + PAGE_SIZE,
            available: PAGE_SIZE - HEADER - 8,
        })
    );
    assert_eq!(buf.memory(), &before[..]);
}

#[test]
fn internal_can_fit_is_exact() {
    let buf = build_page(1, 1, &[]);
    let acc = InternalPageAccessor::<&[u8]>::new(buf.memory());
    let free = acc.free_bytes();
    assert_eq!(free, PAGE_SIZE - HEADER - 8);
    assert!(acc.can_fit(free - 12));
    assert!(!acc.can_fit(free - 11));
}

#[test]
fn internal_page_without_children_has_a_zero_child() {
    let mut buf = PageBuffer::new();
    InternalPageBuilder::<&[u8]>::new(3, buf.memory_mut()).finish();
    let acc = InternalPageAccessor::<&[u8]>::new(buf.memory());
    assert_eq!(acc.num_keys(), 0);
    assert_eq!(acc.child_page_at(0), 0);
    assert_eq!(acc.find_child(&(&[1][..])), (0, 0));
}

#[test]
fn split_routes_only_the_split_child() {
    let mut buf = build_page(1, 1, &[(&[10], 2), (&[20], 3), (&[30], 4)]);
    let before: Vec<u64> = (0u8..50)
        .map(|q| InternalPageAccessor::<&[u8]>::new(buf.memory()).find_child(&(&[q][..])).1)
        .collect();
    InternalPageMutator::<&[u8]>::new(buf.memory_mut())
        .insert_key_and_right_child(1, &(&[15][..]), 99)
        .unwrap();
    for q in 0u8..50 {
        let (_, child) =
            InternalPageAccessor::<&[u8]>::new(buf.memory()).find_child(&(&[q][..]));
        if (15..20).contains(&q) {
            assert_eq!(child, 99);
        } else {
            assert_eq!(child, before[q as usize]);
        }
    }
}

#[test]
fn merge_undoes_split() {
    let mut buf = build_page(1, 1, &[(&[10], 2), (&[20], 3)]);
    InternalPageMutator::<&[u8]>::new(buf.memory_mut())
        .insert_key_and_right_child(1, &(&[15][..]), 99)
        .unwrap();
    InternalPageMutator::<&[u8]>::new(buf.memory_mut()).remove_key_at(1, ChildSide::Left);
    let acc = InternalPageAccessor::<&[u8]>::new(buf.memory());
    assert_eq!(acc.num_keys(), 2);
    assert_eq!(acc.key_at(0), &[10u8][..]);
    assert_eq!(acc.key_at(1), &[20u8][..]);
    assert_eq!(acc.child_page_at(0), 1);
    assert_eq!(acc.child_page_at(1), 2);
    assert_eq!(acc.child_page_at(2), 3);
}

#[test]
fn edits_keep_id_lsn_and_parent() {
    let mut buf = build_page(6, 1, &[(&[10], 2)]);
    {
        let mut m = InternalPageMutator::<&[u8]>::new(buf.memory_mut());
        m.set_lsn(3);
        m.set_parent_page_id(Some(4));
        m.insert_key_and_right_child(1, &(&[20, 21][..]), 5).unwrap();
        m.remove_key_at(0, ChildSide::Right);
    }
    let acc = InternalPageAccessor::<&[u8]>::new(buf.memory());
    assert_eq!((acc.page_id(), acc.lsn(), acc.parent_page_id()), (6, 3, Some(4)));
    assert_eq!(acc.key_at(0), &[20u8, 21][..]);
    assert_eq!((acc.child_page_at(0), acc.child_page_at(1)), (2, 5));
}

#[test]
fn longer_keys_follow_their_prefixes() {
    let buf = build_page(1, 1, &[(b"a", 2), (b"ab", 3), (b"b", 4)]);
    let acc = InternalPageAccessor::<&[u8]>::new(buf.memory());
    assert_eq!(acc.find_child(&(&b""[..])), (0, 1));
    assert_eq!(acc.find_child(&(&b"a"[..])), (1, 2));
    assert_eq!(acc.find_child(&(&b"aa"[..])), (1, 2));
    assert_eq!(acc.find_child(&(&b"abc"[..])), (2, 3));
    assert_eq!(acc.find_child(&(&b"b"[..])), (3, 4));
}

#[test]
fn merge_routes_to_the_kept_child() {
    for (keep, kept) in [(ChildSide::Left, 2u64), (ChildSide::Right, 3u64)] {
        let mut buf = build_page(1, 1, &[(&[10], 2), (&[20], 3), (&[30], 4)]);
        InternalPageMutator::<&[u8]>::new(buf.memory_mut()).remove_key_at(1, keep);
        let acc = InternalPageAccessor::<&[u8]>::new(buf.memory());
        for q in 0u8..50 {
            let expected = if q < 10 {
                1
            } else if q < 30 {
                kept
            } else {
                4
            };
            assert_eq!(acc.find_child(&(&[q][..])).1, expected);
        }
    }
}

#[test]
fn internal_sections_abut() {
    for n in 0..5usize {
        let keys: Vec<[u8; 1]> = (0..n).map(|i| [i as u8]).collect();
        let entries: Vec<(&[u8], u64)> = keys.iter().map(|k| (&k[..], 50 + k[0] as u64)).collect();
        let buf = build_page(1, 40, &entries);
        // each key starts after 40 + 12 n bytes and is one byte long
        let base = 40 + 12 * n;
        for i in 0..n {
            assert_eq!(buf.memory()[base + i], i as u8);
        }
        let acc = InternalPageAccessor::<&[u8]>::new(buf.memory());
        assert_eq!(acc.free_bytes(), PAGE_SIZE - base - n);
    }
}

#[test]
fn internal_offsets_meet() {
    for n in 0..300usize {
        assert_eq!(int_key_data_base(n), 40 + 12 * n);
        assert_eq!(int_child_offset(n + 1), int_key_end_section(n));
        assert_eq!(int_key_end_offset(n, n), int_key_data_base(n));
    }
}
