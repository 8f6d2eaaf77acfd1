//! What holds between the operations on a leaf page.

use crate::key::Key;
use crate::page;
use crate::page::leaf;
use crate::page::leaf_layout as layout;
use crate::page::leaf_layout::{
    Entry, LEAF_HEADER_SIZE, OFF_LEAF_NEXT, OFF_LEAF_PREV, REC_HEADER_SIZE, SLOT_SIZE,
};
use crate::page::leaf_space as space;
use crate::page::{PageId, OFF_LSN, OFF_PAGE_ID, PAGE_SIZE};
use std::cmp::Ordering;
use vstd::prelude::*;

verus! {

// ── A page as a map from keys to values ──────────────────────────────────────
/// Some entry has the key encoded as `query`.
pub open spec fn has_key<K: Key>(entries: Seq<Entry>, query: Seq<u8>) -> bool {
    exists|i: int| leaf::is_position::<K>(entries, query, i, true)
}

/// The value bytes under the key encoded as `query`, if any.
pub open spec fn lookup<K: Key>(entries: Seq<Entry>, query: Seq<u8>) -> Option<Seq<u8>> {
    if has_key::<K>(entries, query) {
        Some(entries[choose|i: int| leaf::is_position::<K>(entries, query, i, true)].1)
    } else {
        None
    }
}

/// Keys `a` and `b` are the same to the order of `K`.
pub open spec fn same_key<K: Key>(a: Seq<u8>, b: Seq<u8>) -> bool {
    K::order(a, b) == Ordering::Equal
}

/// A key is in one slot at most.
pub proof fn law_key_in_one_slot<K: Key>(entries: Seq<Entry>, query: Seq<u8>, i: int, j: int)
    requires
        leaf::keys_ascend::<K>(entries),
        leaf::is_position::<K>(entries, query, i, true),
        leaf::is_position::<K>(entries, query, j, true),
    ensures
        i == j,
{
    if i < j {
        lemma_two_slots::<K>(entries, query, i, j);
    } else if j < i {
        lemma_two_slots::<K>(entries, query, j, i);
    }
}

proof fn lemma_two_slots<K: Key>(entries: Seq<Entry>, query: Seq<u8>, i: int, j: int)
    requires
        leaf::keys_ascend::<K>(entries),
        0 <= i < j < entries.len(),
        K::order(entries[i].0, query) == Ordering::Equal,
    ensures
        K::order(entries[j].0, query) != Ordering::Equal,
{
    assert(K::order(entries[i].0, entries[j].0) == Ordering::Less);
    lemma_same_key::<K>(entries[i].0, query, entries[j].0);
    K::order_reverses(entries[j].0, query);
}

/// Where the key is found is where its value is read.
proof fn lemma_lookup_at<K: Key>(entries: Seq<Entry>, query: Seq<u8>, i: int)
    requires
        leaf::keys_ascend::<K>(entries),
        leaf::is_position::<K>(entries, query, i, true),
    ensures
        lookup::<K>(entries, query) == Some(entries[i].1),
{
    let c = choose|c: int| leaf::is_position::<K>(entries, query, c, true);
    law_key_in_one_slot::<K>(entries, query, i, c);
}

/// What compares equal to the same key compares the same with every other.
proof fn lemma_same_key<K: Key>(a: Seq<u8>, b: Seq<u8>, c: Seq<u8>)
    requires
        same_key::<K>(a, b),
    ensures
        K::order(a, c) == K::order(b, c),
        K::order(c, a) == K::order(c, b),
{
    K::order_reverses(a, b);
    K::order_reverses(a, c);
    K::order_reverses(b, c);
    if K::order(a, c) != Ordering::Greater {
        K::order_transitive(b, a, c);
        if K::order(b, c) != Ordering::Greater {
            K::order_transitive(a, b, c);
        }
        if K::order(a, c) == Ordering::Equal {
            K::order_transitive(c, a, b);
        }
        if K::order(b, c) == Ordering::Equal {
            K::order_transitive(c, b, a);
        }
    } else {
        if K::order(b, c) != Ordering::Greater {
            K::order_transitive(a, b, c);
        }
    }
}

/// Inserting an absent key where the search says keeps the keys in order.
pub proof fn law_insert_keeps_order<K: Key>(
    entries: Seq<Entry>,
    pos: int,
    key: Seq<u8>,
    value: Seq<u8>,
)
    requires
        leaf::keys_ascend::<K>(entries),
        leaf::is_position::<K>(entries, key, pos, false),
    ensures
        leaf::keys_ascend::<K>(entries.insert(pos, (key, value))),
{
    let more = entries.insert(pos, (key, value));
    assert forall|i: int, j: int| 0 <= i < j < more.len() implies #[trigger] K::order(
        more[i].0,
        more[j].0,
    ) == Ordering::Less by {
        let oi = if i < pos { i } else { i - 1 };
        let oj = if j < pos { j } else { j - 1 };
        if i == pos {
            assert(more[j] == entries[oj]);
            assert(K::order(entries[oj].0, key) == Ordering::Greater);
            K::order_reverses(entries[oj].0, key);
        } else if j == pos {
            assert(more[i] == entries[oi]);
            assert(K::order(entries[oi].0, key) == Ordering::Less);
        } else {
            assert(more[i] == entries[oi] && more[j] == entries[oj]);
            assert(K::order(entries[oi].0, entries[oj].0) == Ordering::Less);
        }
    }
}

/// An inserted value is read back under its key.
pub proof fn law_insert_then_lookup<K: Key>(
    entries: Seq<Entry>,
    pos: int,
    key: Seq<u8>,
    value: Seq<u8>,
)
    requires
        leaf::keys_ascend::<K>(entries),
        leaf::is_position::<K>(entries, key, pos, false),
    ensures
        lookup::<K>(entries.insert(pos, (key, value)), key) == Some(value),
{
    let more = entries.insert(pos, (key, value));
    law_insert_keeps_order::<K>(entries, pos, key, value);
    lemma_self_equal::<K>(key);
    assert(more[pos] == (key, value));
    assert(leaf::is_position::<K>(more, key, pos, true));
    lemma_lookup_at::<K>(more, key, pos);
}

proof fn lemma_self_equal<K: Key>(key: Seq<u8>)
    ensures
        same_key::<K>(key, key),
{
    K::order_reverses(key, key);
}

/// An insertion changes what is read under no other key.
pub proof fn law_insert_spares_others<K: Key>(
    entries: Seq<Entry>,
    pos: int,
    key: Seq<u8>,
    value: Seq<u8>,
    other: Seq<u8>,
)
    requires
        leaf::keys_ascend::<K>(entries),
        leaf::is_position::<K>(entries, key, pos, false),
        !same_key::<K>(key, other),
    ensures
        lookup::<K>(entries.insert(pos, (key, value)), other) == lookup::<K>(entries, other),
{
    let more = entries.insert(pos, (key, value));
    law_insert_keeps_order::<K>(entries, pos, key, value);
    if has_key::<K>(entries, other) {
        let i = choose|i: int| leaf::is_position::<K>(entries, other, i, true);
        let n = if i < pos { i } else { i + 1 };
        assert(more[n] == entries[i]);
        assert(leaf::is_position::<K>(more, other, n, true));
        lemma_lookup_at::<K>(more, other, n);
        lemma_lookup_at::<K>(entries, other, i);
    } else if has_key::<K>(more, other) {
        let n = choose|n: int| leaf::is_position::<K>(more, other, n, true);
        let i = if n < pos { n } else { n - 1 };
        assert(n != pos);
        assert(more[n] == entries[i]);
        assert(leaf::is_position::<K>(entries, other, i, true));
    }
}

/// Removing the entry of a key keeps the order, and the key is not found any more.
pub proof fn law_remove_then_lookup<K: Key>(entries: Seq<Entry>, pos: int, key: Seq<u8>)
    requires
        leaf::keys_ascend::<K>(entries),
        leaf::is_position::<K>(entries, key, pos, true),
    ensures
        leaf::keys_ascend::<K>(entries.remove(pos)),
        lookup::<K>(entries.remove(pos), key) is None,
{
    let less = entries.remove(pos);
    lemma_remove_keeps_order::<K>(entries, pos);
    if has_key::<K>(less, key) {
        let n = choose|n: int| leaf::is_position::<K>(less, key, n, true);
        let i = if n < pos { n } else { n + 1 };
        assert(less[n] == entries[i]);
        assert(leaf::is_position::<K>(entries, key, i, true));
        law_key_in_one_slot::<K>(entries, key, i, pos);
    }
}

proof fn lemma_remove_keeps_order<K: Key>(entries: Seq<Entry>, pos: int)
    requires
        leaf::keys_ascend::<K>(entries),
        0 <= pos < entries.len(),
    ensures
        leaf::keys_ascend::<K>(entries.remove(pos)),
{
    let less = entries.remove(pos);
    assert forall|i: int, j: int| 0 <= i < j < less.len() implies #[trigger] K::order(
        less[i].0,
        less[j].0,
    ) == Ordering::Less by {
        let oi = if i < pos { i } else { i + 1 };
        let oj = if j < pos { j } else { j + 1 };
        assert(less[i] == entries[oi] && less[j] == entries[oj]);
        assert(K::order(entries[oi].0, entries[oj].0) == Ordering::Less);
    }
}

/// A removal changes what is read under no other key.
pub proof fn law_remove_spares_others<K: Key>(
    entries: Seq<Entry>,
    pos: int,
    key: Seq<u8>,
    other: Seq<u8>,
)
    requires
        leaf::keys_ascend::<K>(entries),
        leaf::is_position::<K>(entries, key, pos, true),
        !same_key::<K>(key, other),
    ensures
        lookup::<K>(entries.remove(pos), other) == lookup::<K>(entries, other),
{
    let less = entries.remove(pos);
    lemma_remove_keeps_order::<K>(entries, pos);
    if has_key::<K>(entries, other) {
        let i = choose|i: int| leaf::is_position::<K>(entries, other, i, true);
        if i == pos {
            lemma_same_key::<K>(entries[pos].0, key, other);
        }
        let n = if i < pos { i } else { i - 1 };
        assert(less[n] == entries[i]);
        assert(leaf::is_position::<K>(less, other, n, true));
        lemma_lookup_at::<K>(less, other, n);
        lemma_lookup_at::<K>(entries, other, i);
    } else if has_key::<K>(less, other) {
        let n = choose|n: int| leaf::is_position::<K>(less, other, n, true);
        let i = if n < pos { n } else { n + 1 };
        assert(less[n] == entries[i]);
        assert(leaf::is_position::<K>(entries, other, i, true));
    }
}

/// Overwriting a value keeps the order, and the new value is read under its key.
pub proof fn law_overwrite_then_lookup<K: Key>(
    entries: Seq<Entry>,
    pos: int,
    key: Seq<u8>,
    value: Seq<u8>,
)
    requires
        leaf::keys_ascend::<K>(entries),
        leaf::is_position::<K>(entries, key, pos, true),
    ensures
        leaf::keys_ascend::<K>(entries.update(pos, (entries[pos].0, value))),
        lookup::<K>(entries.update(pos, (entries[pos].0, value)), key) == Some(value),
{
    let changed = entries.update(pos, (entries[pos].0, value));
    assert forall|i: int| 0 <= i < entries.len() implies (#[trigger] changed[i]).0
        == entries[i].0 by {}
    assert forall|i: int, j: int| 0 <= i < j < changed.len() implies #[trigger] K::order(
        changed[i].0,
        changed[j].0,
    ) == Ordering::Less by {
        assert(K::order(entries[i].0, entries[j].0) == Ordering::Less);
    }
    assert(leaf::is_position::<K>(changed, key, pos, true));
    lemma_lookup_at::<K>(changed, key, pos);
}

/// Overwriting a value changes what is read under no other key.
pub proof fn law_overwrite_spares_others<K: Key>(
    entries: Seq<Entry>,
    pos: int,
    key: Seq<u8>,
    value: Seq<u8>,
    other: Seq<u8>,
)
    requires
        leaf::keys_ascend::<K>(entries),
        leaf::is_position::<K>(entries, key, pos, true),
        !same_key::<K>(key, other),
    ensures
        lookup::<K>(entries.update(pos, (entries[pos].0, value)), other) == lookup::<K>(
            entries,
            other,
        ),
{
    let changed = entries.update(pos, (entries[pos].0, value));
    law_overwrite_then_lookup::<K>(entries, pos, key, value);
    if has_key::<K>(entries, other) {
        let i = choose|i: int| leaf::is_position::<K>(entries, other, i, true);
        if i == pos {
            lemma_same_key::<K>(entries[pos].0, key, other);
        }
        assert(leaf::is_position::<K>(changed, other, i, true));
        lemma_lookup_at::<K>(changed, other, i);
        lemma_lookup_at::<K>(entries, other, i);
    } else if has_key::<K>(changed, other) {
        let i = choose|i: int| leaf::is_position::<K>(changed, other, i, true);
        assert(leaf::is_position::<K>(entries, other, i, true));
    }
}

/// Removing what was just inserted brings the entries back.
pub proof fn law_insert_then_remove(entries: Seq<Entry>, pos: int, e: Entry)
    requires
        0 <= pos <= entries.len(),
    ensures
        entries.insert(pos, e).remove(pos) == entries,
{
    assert(entries.insert(pos, e).remove(pos) =~= entries);
}

// ── Room ─────────────────────────────────────────────────────────────────────
/// A record is as large as its header, its key and its value need, and at most two bytes of padding
/// more. Its size is even, its value begins at an even distance from its start, and key and value lie
/// within it without overlap.
pub proof fn law_record_parts(base: int, key_len: int, val_len: int)
    requires
        0 <= key_len,
        0 <= val_len,
    ensures
        ({
            let size = layout::record_size(key_len, val_len);
            let key_at = base + REC_HEADER_SIZE;
            let val_at = base + REC_HEADER_SIZE + layout::even_up(key_len);
            &&& size % 2 == 0
            &&& REC_HEADER_SIZE + key_len + val_len <= size <= REC_HEADER_SIZE + key_len + val_len + 2
            &&& key_at + key_len <= val_at
            &&& (val_at - base) % 2 == 0
            &&& base % 2 == 0 ==> val_at % 2 == 0
            &&& val_at + val_len <= base + size
        }),
{
}

/// What fits a page as it is also fits it after compaction.
pub proof fn law_direct_fit_is_fit(s: Seq<u8>, key_len: int, val_len: int)
    requires
        layout::leaf_wf(s),
        layout::fits_gap(s, key_len, val_len),
    ensures
        layout::fits_room(s, key_len, val_len),
{
    lemma_gap_within_room(s);
}

proof fn lemma_gap_within_room(s: Seq<u8>)
    requires
        layout::leaf_wf(s),
    ensures
        0 <= layout::gap(s) <= layout::room(s),
{
    space::lemma_live_bytes_fit(s);
}

/// Compaction makes the free bytes contiguous: a pair fits a compacted page directly exactly when
/// it was said to fit after compaction.
pub proof fn law_compact_reclaims(s: Seq<u8>, t: Seq<u8>, key_len: int, val_len: int)
    requires
        layout::leaf_wf(s),
        layout::compacts(s, t),
    ensures
        layout::fits_gap(t, key_len, val_len) <==> layout::fits_room(s, key_len, val_len),
        layout::gap(s) <= layout::gap(t),
{
    lemma_gap_within_room(s);
    lemma_compacted(s, t);
}

/// Compaction leaves a packed page, and compacting once more changes no byte.
pub proof fn law_compact_idempotent(s: Seq<u8>, t: Seq<u8>, u: Seq<u8>)
    requires
        layout::leaf_wf(s),
        layout::compacts(s, t),
        layout::compacts(t, u),
    ensures
        layout::is_packed(t),
        u == t,
{
}

/// Compaction keeps the directory's size, the page's id, its lsn and its links.
pub proof fn law_compact_keeps_header(s: Seq<u8>, t: Seq<u8>)
    requires
        layout::leaf_wf(s),
        layout::compacts(s, t),
    ensures
        layout::free_start(t) == layout::free_start(s),
        layout::leaf_page_id(t) == layout::leaf_page_id(s),
        layout::leaf_lsn(t) == layout::leaf_lsn(s),
        layout::leaf_prev(t) == layout::leaf_prev(s),
        layout::leaf_next(t) == layout::leaf_next(s),
{
    assert(layout::leaf_entries(s).len() == layout::slot_count(s));
    assert(layout::leaf_entries(t).len() == layout::slot_count(t));
    law_edits_keep_header(s, t);
}

proof fn lemma_compacted(s: Seq<u8>, t: Seq<u8>)
    requires
        layout::leaf_wf(s),
        layout::leaf_wf(t),
        layout::leaf_entries(t) == layout::leaf_entries(s),
        layout::free_end(t) == PAGE_SIZE - layout::live_bytes(s),
    ensures
        layout::gap(t) == layout::room(s),
        layout::gap(t) == layout::room(t),
{
    assert(layout::leaf_entries(s).len() == layout::slot_count(s));
    assert(layout::leaf_entries(t).len() == layout::slot_count(t));
    space::lemma_live_is_entries(s, layout::slot_count(s));
    space::lemma_live_is_entries(t, layout::slot_count(t));
}

/// Removing an entry frees its slot at once and its record by compaction.
pub proof fn law_remove_frees(s: Seq<u8>, t: Seq<u8>, pos: int)
    requires
        layout::leaf_wf(s),
        layout::leaf_wf(t),
        0 <= pos < layout::leaf_entries(s).len(),
        layout::leaf_entries(t) == layout::leaf_entries(s).remove(pos),
        layout::free_end(t) == layout::free_end(s),
    ensures
        layout::gap(t) == layout::gap(s) + SLOT_SIZE,
        layout::room(t) == layout::room(s) + SLOT_SIZE + layout::slot_size(s, pos),
{
    let es = layout::leaf_entries(s);
    let et = layout::leaf_entries(t);
    let n = layout::slot_count(s);
    assert(et.len() == es.len() - 1);
    assert(layout::slot_count(t) == n - 1);
    space::lemma_live_is_entries(s, n);
    space::lemma_live_is_entries(t, n - 1);
    lemma_entry_bytes_remove(es, pos, n);
    assert(layout::slot_ok(s, pos));
    let r = layout::record(s, pos);
    assert(r.len() == layout::slot_size(s, pos));
    assert(layout::record_key(r).len() == page::le16(r, 0));
    assert(layout::record_value(r).len() == page::le16(r, 2));
}

proof fn lemma_entry_bytes_remove(entries: Seq<Entry>, pos: int, n: int)
    requires
        0 <= pos < n <= entries.len(),
    ensures
        space::entry_bytes(entries.remove(pos), n - 1) == space::entry_bytes(entries, n)
            - layout::record_size(entries[pos].0.len() as int, entries[pos].1.len() as int),
    decreases n,
{
    if n - 1 == pos {
        space::lemma_entry_bytes_prefix(entries.remove(pos), entries, pos);
    } else {
        lemma_entry_bytes_remove(entries, pos, n - 1);
    }
}

// ── Header ───────────────────────────────────────────────────────────────────
/// A link is read back as it was set. Page 0 cannot be linked to: it reads as no page.
pub proof fn law_link_round_trip(page_id: Option<PageId>)
    requires
        page_id != Some(0u64),
    ensures
        page::link(page::link_value(page_id)) == page_id,
{
}

/// Changes to the entries keep the page's id, its lsn and its links.
pub proof fn law_edits_keep_header(s: Seq<u8>, t: Seq<u8>)
    requires
        s.len() >= LEAF_HEADER_SIZE,
        layout::same_identity(s, t),
    ensures
        layout::leaf_page_id(t) == layout::leaf_page_id(s),
        layout::leaf_lsn(t) == layout::leaf_lsn(s),
        layout::leaf_prev(t) == layout::leaf_prev(s),
        layout::leaf_next(t) == layout::leaf_next(s),
{
}

/// The header fields are independent: writing one of id, lsn and the links leaves the others.
pub proof fn law_header_fields_apart(s: Seq<u8>, t: Seq<u8>, off: int)
    requires
        s.len() >= LEAF_HEADER_SIZE,
        off == OFF_PAGE_ID || off == OFF_LSN || off == OFF_LEAF_PREV || off == OFF_LEAF_NEXT,
        page::same_except(s, t, off, off + 8),
    ensures
        off != OFF_PAGE_ID ==> layout::leaf_page_id(t) == layout::leaf_page_id(s),
        off != OFF_LSN ==> layout::leaf_lsn(t) == layout::leaf_lsn(s),
        off != OFF_LEAF_PREV ==> layout::leaf_prev(t) == layout::leaf_prev(s),
        off != OFF_LEAF_NEXT ==> layout::leaf_next(t) == layout::leaf_next(s),
        layout::slot_count(t) == layout::slot_count(s),
        layout::gap(t) == layout::gap(s),
{
}

} // verus!
