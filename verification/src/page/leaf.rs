//! Leaf (data) pages: a read-only accessor, a mutator for every structural change, and a builder
//! for fresh pages. The byte layout is in `leaf_layout`.

use crate::key::{Key, Value};
use crate::page;
use crate::page::leaf_compact::compact_page;
use crate::page::leaf_edit::{
    insert_entry, overwrite_entry, rec_key_offset, rec_total_size, rec_val_offset, remove_entry,
    slot_offset,
};
use crate::page::leaf_layout as layout;
use crate::page::leaf_layout::{
    Entry, LEAF_HEADER_SIZE, OFF_LEAF_FREE_END, OFF_LEAF_FREE_START, OFF_LEAF_NEXT, OFF_LEAF_PREV,
    OFF_LEAF_SLOT_COUNT, REC_OFF_FLAGS, REC_OFF_KEY_LEN, REC_OFF_VAL_LEN, SLOT_SIZE,
};
use crate::page::{
    read_u16, read_u64, write_u16, write_u64, write_u8, zero_fill, Lsn, PageError, PageId, LEAF,
    OFF_LSN, OFF_PAGE_ID, OFF_PAGE_TYPE, PAGE_SIZE,
};
use std::cmp::Ordering;
use std::marker::PhantomData;
use vstd::prelude::*;

verus! {

// ── LeafPageAccessor ─────────────────────────────────────────────────────────
/// Read-only typed view over a raw leaf page buffer.
///
/// The lifetime `'a` is tied to the underlying page data, not to `&self`, so `get_key` and
/// `get_value` can return zero-copy borrows that outlive the accessor itself.
pub struct LeafPageAccessor<'a, K: Key, V: Value> {
    pub data: &'a [u8],
    pub _key: PhantomData<K>,
    pub _val: PhantomData<V>,
}

/// Keys of `entries` strictly ascend in the order of `K`.
pub open spec fn keys_ascend<K: Key>(entries: Seq<Entry>) -> bool {
    forall|i: int, j: int|
        0 <= i < j < entries.len() ==> #[trigger] K::order(entries[i].0, entries[j].0)
            == Ordering::Less
}

/// No key of `entries` is greater than a later one; equal keys may follow each other.
pub open spec fn keys_sorted<K: Key>(entries: Seq<Entry>) -> bool {
    forall|i: int, j: int|
        0 <= i < j < entries.len() ==> #[trigger] K::order(entries[i].0, entries[j].0)
            != Ordering::Greater
}

/// The key encoded as `query` could stand at `index`: the key before it is smaller and the key there is
/// greater.
pub open spec fn is_border<K: Key>(entries: Seq<Entry>, query: Seq<u8>, index: int) -> bool {
    &&& 0 <= index <= entries.len()
    &&& index > 0 ==> K::order(entries[index - 1].0, query) == Ordering::Less
    &&& index < entries.len() ==> K::order(entries[index].0, query) == Ordering::Greater
}

/// The key of `a` comes before the key of `b`.
pub open spec fn key_below<K: Key>(a: Entry, b: Entry) -> bool {
    K::order(a.0, b.0) == Ordering::Less
}

/// In a sequence whose keys ascend, an earlier entry has the smaller key.
pub proof fn lemma_keys_below<K: Key>(entries: Seq<Entry>, i: int, j: int)
    requires
        keys_ascend::<K>(entries),
        0 <= i < j < entries.len(),
    ensures
        key_below::<K>(entries[i], entries[j]),
{
}

/// An entry whose key is above all others can be added at the end.
pub proof fn lemma_push_keeps_order<K: Key>(entries: Seq<Entry>, e: Entry)
    requires
        keys_ascend::<K>(entries),
        forall|i: int| 0 <= i < entries.len() ==> key_below::<K>(#[trigger] entries[i], e),
    ensures
        keys_ascend::<K>(entries.push(e)),
{
    assert forall|i: int, j: int| 0 <= i < j < entries.push(e).len() implies #[trigger] K::order(
        entries.push(e)[i].0,
        entries.push(e)[j].0,
    ) == Ordering::Less by {
        assert(entries.push(e)[i] == entries[i]);
        if j < entries.len() {
            assert(entries.push(e)[j] == entries[j]);
        }
    }
}

/// `(index, found)` is what a search of `entries` for the key encoded as `query` owes: a slot that
/// holds the key, or the place where it belongs.
pub open spec fn is_position<K: Key>(
    entries: Seq<Entry>,
    query: Seq<u8>,
    index: int,
    found: bool,
) -> bool {
    if found {
        &&& 0 <= index < entries.len()
        &&& K::order(entries[index].0, query) == Ordering::Equal
    } else {
        &&& 0 <= index <= entries.len()
        &&& forall|i: int|
            0 <= i < index ==> #[trigger] K::order(entries[i].0, query) == Ordering::Less
        &&& forall|i: int|
            index <= i < entries.len() ==> #[trigger] K::order(entries[i].0, query)
                == Ordering::Greater
    }
}

/// No entry has the key encoded as `query`.
pub open spec fn is_absent<K: Key>(entries: Seq<Entry>, query: Seq<u8>) -> bool {
    forall|i: int|
        0 <= i < entries.len() ==> #[trigger] K::order(entries[i].0, query) != Ordering::Equal
}

impl<'a, K: Key, V: Value> LeafPageAccessor<'a, K, V> {
    /// Wraps a raw page buffer, which must carry the leaf page-type byte.
    pub fn new(data: &'a [u8]) -> (acc: Self)
        requires
            data@.len() > 0,
            data@[0] == LEAF,
        ensures
            acc.data@ == data@,
    {
        Self { data, _key: PhantomData, _val: PhantomData }
    }

    // ── Page-level metadata ──────────────────────────────────────────────────
    pub fn page_id(&self) -> (id: PageId)
        requires
            self.data@.len() >= OFF_PAGE_ID + 8,
        ensures
            id == layout::leaf_page_id(self.data@),
    {
        read_u64(self.data, OFF_PAGE_ID)
    }

    pub fn lsn(&self) -> (lsn: Lsn)
        requires
            self.data@.len() >= OFF_LSN + 8,
        ensures
            lsn == layout::leaf_lsn(self.data@),
    {
        read_u64(self.data, OFF_LSN)
    }

    pub fn num_pairs(&self) -> (n: u16)
        requires
            self.data@.len() >= OFF_LEAF_SLOT_COUNT + 2,
        ensures
            n == layout::slot_count(self.data@),
    {
        read_u16(self.data, OFF_LEAF_SLOT_COUNT)
    }

    /// Previous leaf in the doubly-linked leaf chain, or `None` if this is the leftmost leaf.
    pub fn prev_page(&self) -> (prev: Option<PageId>)
        requires
            self.data@.len() >= OFF_LEAF_PREV + 8,
        ensures
            prev == layout::leaf_prev(self.data@),
    {
        let v: u64 = read_u64(self.data, OFF_LEAF_PREV);
        if v == 0 {
            None
        } else {
            Some(v)
        }
    }

    /// Next leaf in the chain, or `None` if this is the rightmost leaf.
    pub fn next_page(&self) -> (next: Option<PageId>)
        requires
            self.data@.len() >= OFF_LEAF_NEXT + 8,
        ensures
            next == layout::leaf_next(self.data@),
    {
        let v: u64 = read_u64(self.data, OFF_LEAF_NEXT);
        if v == 0 {
            None
        } else {
            Some(v)
        }
    }

    // ── Free-space accounting ────────────────────────────────────────────────
    /// Byte offset of the first byte past the slot directory.
    pub fn free_start(&self) -> (off: usize)
        requires
            self.data@.len() >= OFF_LEAF_FREE_START + 2,
        ensures
            off == layout::free_start(self.data@),
    {
        read_u16(self.data, OFF_LEAF_FREE_START) as usize
    }

    /// Byte offset of the lowest live record (top of the record area).
    pub fn free_end(&self) -> (off: usize)
        requires
            self.data@.len() >= OFF_LEAF_FREE_END + 2,
        ensures
            off == layout::free_end(self.data@),
    {
        read_u16(self.data, OFF_LEAF_FREE_END) as usize
    }

    /// Contiguous free bytes between the slot directory and the record area.
    pub fn free_space(&self) -> (free: usize)
        requires
            self.data@.len() >= OFF_LEAF_FREE_END + 2,
            layout::free_start(self.data@) <= layout::free_end(self.data@),
        ensures
            free == layout::gap(self.data@),
    {
        self.free_end() - self.free_start()
    }

    /// `true` if `(key_len, val_len)` fits in the current contiguous free gap without needing a
    /// `compact()`.
    pub fn can_fit_direct(&self, key_len: usize, val_len: usize) -> (fits: bool)
        requires
            self.data@.len() >= OFF_LEAF_FREE_END + 2,
            layout::free_start(self.data@) <= layout::free_end(self.data@),
            layout::lengths_fit(key_len as int, val_len as int),
        ensures
            fits == layout::fits_gap(self.data@, key_len as int, val_len as int),
    {
        self.free_space() >= SLOT_SIZE + rec_total_size(key_len, val_len)
    }

    /// `true` if the pair fits after compacting all dead record fragments.
    ///
    /// This is O(n) because it sums live record sizes. Only call it when `can_fit_direct` returns
    /// `false`.
    pub fn can_fit_after_compact(&self, key_len: usize, val_len: usize) -> (fits: bool)
        requires
            self.data@.len() >= OFF_LEAF_SLOT_COUNT + 2,
            layout::slot_count(self.data@) > 0 ==> layout::slot_at(layout::slot_count(self.data@))
                <= self.data@.len(),
            layout::lengths_fit(key_len as int, val_len as int),
        ensures
            fits == layout::fits_room(self.data@, key_len as int, val_len as int),
    {
        let n: usize = self.num_pairs() as usize;
        let mut live: usize = 0;
        let mut i: usize = 0;
        while i < n
            invariant
                i <= n,
                n == layout::slot_count(self.data@) <= 0xffff,
                n > 0 ==> layout::slot_at(n as int) <= self.data@.len(),
                live == layout::live_bytes_of(self.data@, i as int),
                live <= i * 0xffff,
            decreases n - i,
        {
            let size: usize = self.slot_rec_size(i);
            assert(i * 0xffff + 0xffff == (i + 1) * 0xffff) by (nonlinear_arith);
            assert((i + 1) * 0xffff <= 0xffff * 0xffff) by (nonlinear_arith)
                requires
                    i + 1 <= 0xffff,
            ;
            live = live + size;
            i = i + 1;
        }
        let needed: usize = SLOT_SIZE + rec_total_size(key_len, val_len);
        let available: usize = PAGE_SIZE.saturating_sub(LEAF_HEADER_SIZE).saturating_sub(
            n * SLOT_SIZE,
        ).saturating_sub(live);
        available >= needed
    }

    // ── Binary search ────────────────────────────────────────────────────────
    /// Binary-search the sorted slot directory for `query`.
    ///
    /// Returns `(index, true)` on exact match. Returns `(index, false)` when absent; `index` is
    /// the correct insertion point (first slot whose key is greater than `query`).
    pub fn position<'q>(&self, query: &K::SelfType<'q>) -> (r: (usize, bool))
        requires
            layout::leaf_wf(self.data@),
        ensures
            r.0 <= layout::leaf_entries(self.data@).len(),
            r.1 ==> is_position::<K>(layout::leaf_entries(self.data@), K::encoding(*query), r.0 + 0, true),
            keys_ascend::<K>(layout::leaf_entries(self.data@)) ==> is_position::<K>(
                layout::leaf_entries(self.data@),
                K::encoding(*query),
                r.0 + 0,
                r.1,
            ),
            keys_sorted::<K>(layout::leaf_entries(self.data@)) ==> is_position::<K>(
                layout::leaf_entries(self.data@),
                K::encoding(*query),
                r.0 + 0,
                r.1,
            ),
            !r.1 ==> is_border::<K>(
                layout::leaf_entries(self.data@),
                K::encoding(*query),
                r.0 + 0,
            ),
    {
        let ghost entries = layout::leaf_entries(self.data@);
        let ghost q = K::encoding(*query);
        let mut lo: usize = 0;
        let mut hi: usize = self.pair_count();
        let query_bytes: Vec<u8> = K::as_bytes(query);
        while lo < hi
            invariant
                layout::leaf_wf(self.data@),
                entries == layout::leaf_entries(self.data@),
                q == query_bytes@,
                q == K::encoding(*query),
                lo <= hi <= entries.len(),
                lo > 0 ==> K::order(entries[lo - 1].0, q) == Ordering::Less,
                hi < entries.len() ==> K::order(entries[hi + 0].0, q) == Ordering::Greater,
                keys_sorted::<K>(entries) ==> (forall|i: int|
                    0 <= i < lo ==> #[trigger] K::order(entries[i].0, q) == Ordering::Less),
                keys_sorted::<K>(entries) ==> (forall|i: int|
                    hi <= i < entries.len() ==> #[trigger] K::order(entries[i].0, q)
                        == Ordering::Greater),
            decreases hi - lo,
        {
            let mid: usize = lo + (hi - lo) / 2;
            match K::compare(self.key_bytes_at(mid), query_bytes.as_slice()) {
                Ordering::Less => {
                    proof {
                        if keys_sorted::<K>(entries) {
                            assert forall|i: int| 0 <= i < mid + 1 implies #[trigger] K::order(
                                entries[i].0,
                                q,
                            ) == Ordering::Less by {
                                lemma_below::<K>(entries, q, i, mid + 0);
                            }
                        }
                    }
                    lo = mid + 1;
                },
                Ordering::Greater => {
                    proof {
                        if keys_sorted::<K>(entries) {
                            assert forall|i: int| mid <= i < entries.len() implies #[trigger] K::order(
                                entries[i].0,
                                q,
                            ) == Ordering::Greater by {
                                lemma_above::<K>(entries, q, i, mid + 0);
                            }
                        }
                    }
                    hi = mid;
                },
                Ordering::Equal => {
                    return (mid, true);
                },
            }
        }
        assert(keys_ascend::<K>(entries) ==> keys_sorted::<K>(entries));
        (lo, false)
    }

    /// Returns the slot index of `query`, or `None` if absent.
    pub fn find_key<'q>(&self, query: &K::SelfType<'q>) -> (r: Option<usize>)
        requires
            layout::leaf_wf(self.data@),
        ensures
            match r {
                Some(i) => is_position::<K>(
                    layout::leaf_entries(self.data@),
                    K::encoding(*query),
                    i + 0,
                    true,
                ),
                None => keys_ascend::<K>(layout::leaf_entries(self.data@)) || keys_sorted::<K>(
                    layout::leaf_entries(self.data@),
                ) ==> is_absent::<K>(layout::leaf_entries(self.data@), K::encoding(*query)),
            },
    {
        let (idx, found) = self.position(query);
        assert(keys_ascend::<K>(layout::leaf_entries(self.data@)) ==> keys_sorted::<K>(
            layout::leaf_entries(self.data@),
        ));
        if found {
            Some(idx)
        } else {
            None
        }
    }

    // ── Record data access ───────────────────────────────────────────────────
    /// Deserialised key at slot `i`. Lifetime is `'a` (zero-copy borrow).
    pub fn get_key(&self, i: usize) -> (key: K::SelfType<'a>)
        requires
            layout::leaf_wf(self.data@),
            i < layout::leaf_entries(self.data@).len(),
            K::decodable(layout::leaf_entries(self.data@)[i as int].0),
        ensures
            K::encoding(key) == layout::leaf_entries(self.data@)[i as int].0,
    {
        K::from_bytes(self.key_bytes_at(i))
    }

    /// Deserialised value at slot `i`. Lifetime is `'a` (zero-copy borrow).
    pub fn get_value(&self, i: usize) -> (value: V::SelfType<'a>)
        requires
            layout::leaf_wf(self.data@),
            i < layout::leaf_entries(self.data@).len(),
            V::decodable(layout::leaf_entries(self.data@)[i as int].1),
        ensures
            V::encoding(value) == layout::leaf_entries(self.data@)[i as int].1,
    {
        V::from_bytes(self.value_bytes_at(i))
    }

    /// Both key and value at slot `i` as a tuple.
    pub fn entry(&self, i: usize) -> (pair: (K::SelfType<'a>, V::SelfType<'a>))
        requires
            layout::leaf_wf(self.data@),
            i < layout::leaf_entries(self.data@).len(),
            K::decodable(layout::leaf_entries(self.data@)[i as int].0),
            V::decodable(layout::leaf_entries(self.data@)[i as int].1),
        ensures
            K::encoding(pair.0) == layout::leaf_entries(self.data@)[i as int].0,
            V::encoding(pair.1) == layout::leaf_entries(self.data@)[i as int].1,
    {
        (self.get_key(i), self.get_value(i))
    }

    // ── Private helpers ──────────────────────────────────────────────────────
    fn pair_count(&self) -> (n: usize)
        requires
            self.data@.len() >= OFF_LEAF_SLOT_COUNT + 2,
        ensures
            n == layout::slot_count(self.data@),
            n == layout::leaf_entries(self.data@).len(),
    {
        self.num_pairs() as usize
    }

    fn slot_rec_base(&self, i: usize) -> (base: usize)
        requires
            layout::slot_at(i as int) + 2 <= self.data@.len(),
        ensures
            base == layout::slot_base(self.data@, i as int),
    {
        assert(self.data@.len() == self.data.len());
        read_u16(self.data, slot_offset(i)) as usize
    }

    fn slot_rec_size(&self, i: usize) -> (size: usize)
        requires
            layout::slot_at(i as int) + 4 <= self.data@.len(),
        ensures
            size == layout::slot_size(self.data@, i as int),
    {
        assert(self.data@.len() == self.data.len());
        read_u16(self.data, slot_offset(i) + 2) as usize
    }

    /// Raw key bytes at slot `i`.
    pub(crate) fn key_bytes_at(&self, i: usize) -> (bytes: &'a [u8])
        requires
            layout::leaf_wf(self.data@),
            i < layout::leaf_entries(self.data@).len(),
        ensures
            bytes@ == layout::leaf_entries(self.data@)[i as int].0,
    {
        let data: &'a [u8] = self.data;
        let ghost r = layout::record(data@, i as int);
        assert(layout::slot_ok(data@, i as int));
        let rec_base: usize = self.slot_rec_base(i);
        assert(r[0] == data@[rec_base + 0] && r[1] == data@[rec_base + 1]);
        let key_len: usize = read_u16(data, rec_base + REC_OFF_KEY_LEN) as usize;
        let key_off: usize = rec_key_offset(rec_base);
        assert(data@.subrange(key_off as int, key_off + key_len) =~= layout::record_key(r));
        &data[key_off..key_off + key_len]
    }

    /// Raw value bytes at slot `i`.
    pub(crate) fn value_bytes_at(&self, i: usize) -> (bytes: &'a [u8])
        requires
            layout::leaf_wf(self.data@),
            i < layout::leaf_entries(self.data@).len(),
        ensures
            bytes@ == layout::leaf_entries(self.data@)[i as int].1,
    {
        let data: &'a [u8] = self.data;
        let ghost r = layout::record(data@, i as int);
        assert(layout::slot_ok(data@, i as int));
        let rec_base: usize = self.slot_rec_base(i);
        assert(r[0] == data@[rec_base + 0] && r[1] == data@[rec_base + 1]);
        assert(r[2] == data@[rec_base + 2] && r[3] == data@[rec_base + 3]);
        let key_len: usize = read_u16(data, rec_base + REC_OFF_KEY_LEN) as usize;
        let val_len: usize = read_u16(data, rec_base + REC_OFF_VAL_LEN) as usize;
        let val_off: usize = rec_val_offset(rec_base, key_len);
        assert(data@.subrange(val_off as int, val_off + val_len) =~= layout::record_value(r));
        &data[val_off..val_off + val_len]
    }
}

/// Where keys are sorted and slot `mid` is below the query, so is every slot up to `mid`.
proof fn lemma_below<K: Key>(entries: Seq<Entry>, q: Seq<u8>, i: int, mid: int)
    requires
        keys_sorted::<K>(entries),
        0 <= i <= mid < entries.len(),
        K::order(entries[mid].0, q) == Ordering::Less,
    ensures
        K::order(entries[i].0, q) == Ordering::Less,
{
    if i < mid {
        assert(K::order(entries[i].0, entries[mid].0) != Ordering::Greater);
        K::order_transitive(entries[i].0, entries[mid].0, q);
    }
}

/// Where keys are sorted and slot `mid` is above the query, so is every slot from `mid` on.
proof fn lemma_above<K: Key>(entries: Seq<Entry>, q: Seq<u8>, i: int, mid: int)
    requires
        keys_sorted::<K>(entries),
        0 <= mid <= i < entries.len(),
        K::order(entries[mid].0, q) == Ordering::Greater,
    ensures
        K::order(entries[i].0, q) == Ordering::Greater,
{
    if mid < i {
        assert(K::order(entries[mid].0, entries[i].0) != Ordering::Greater);
        K::order_reverses(entries[mid].0, q);
        K::order_transitive(q, entries[mid].0, entries[i].0);
        K::order_reverses(q, entries[i].0);
    }
}

// ── LeafPageMutator ──────────────────────────────────────────────────────────
/// Mutable typed view over a raw leaf page. All structural mutations go here.
///
/// What `data` holds when the mutator is gone is what the page then holds; each method keeps
/// that bond and says how `data` changes.
pub struct LeafPageMutator<'a, K: Key, V: Value> {
    pub data: &'a mut [u8],
    pub _key: PhantomData<K>,
    pub _val: PhantomData<V>,
}

impl<'a, K: Key, V: Value> LeafPageMutator<'a, K, V> {
    /// Wraps a raw page buffer, which must carry the leaf page-type byte.
    pub fn new(data: &'a mut [u8]) -> (m: Self)
        requires
            old(data)@.len() > 0,
            old(data)@[0] == LEAF,
        ensures
            m.data@ == old(data)@,
            final(m.data)@ == final(data)@,
    {
        Self { data, _key: PhantomData, _val: PhantomData }
    }

    // ── Header setters ───────────────────────────────────────────────────────
    pub fn set_lsn(&mut self, lsn: Lsn)
        requires
            old(self).data@.len() >= OFF_LSN + 8,
        ensures
            final(final(self).data)@ == final(old(self).data)@,
            page::same_except(old(self).data@, final(self).data@, OFF_LSN as int, OFF_LSN + 8),
            layout::leaf_lsn(final(self).data@) == lsn,
            layout::leaf_wf(old(self).data@) ==> layout::leaf_wf(final(self).data@),
            layout::leaf_wf(old(self).data@) ==> layout::leaf_entries(final(self).data@)
                == layout::leaf_entries(old(self).data@),
    {
        let ghost s = self.data@;
        write_u64(self.data, OFF_LSN, lsn);
        proof {
            if layout::leaf_wf(s) {
                layout::lemma_identity_write(s, self.data@, OFF_LSN as int, OFF_LSN + 8);
            }
        }
    }

    pub fn set_prev_page(&mut self, prev: Option<PageId>)
        requires
            old(self).data@.len() >= OFF_LEAF_PREV + 8,
        ensures
            final(final(self).data)@ == final(old(self).data)@,
            page::same_except(
                old(self).data@,
                final(self).data@,
                OFF_LEAF_PREV as int,
                OFF_LEAF_PREV + 8,
            ),
            page::le64(final(self).data@, OFF_LEAF_PREV as int) == page::link_value(prev),
            layout::leaf_wf(old(self).data@) ==> layout::leaf_wf(final(self).data@),
            layout::leaf_wf(old(self).data@) ==> layout::leaf_entries(final(self).data@)
                == layout::leaf_entries(old(self).data@),
    {
        let ghost s = self.data@;
        write_u64(self.data, OFF_LEAF_PREV, prev.unwrap_or(0));
        proof {
            if layout::leaf_wf(s) {
                layout::lemma_identity_write(s, self.data@, OFF_LEAF_PREV as int, OFF_LEAF_PREV + 8);
            }
        }
    }

    pub fn set_next_page(&mut self, next: Option<PageId>)
        requires
            old(self).data@.len() >= OFF_LEAF_NEXT + 8,
        ensures
            final(final(self).data)@ == final(old(self).data)@,
            page::same_except(
                old(self).data@,
                final(self).data@,
                OFF_LEAF_NEXT as int,
                OFF_LEAF_NEXT + 8,
            ),
            page::le64(final(self).data@, OFF_LEAF_NEXT as int) == page::link_value(next),
            layout::leaf_wf(old(self).data@) ==> layout::leaf_wf(final(self).data@),
            layout::leaf_wf(old(self).data@) ==> layout::leaf_entries(final(self).data@)
                == layout::leaf_entries(old(self).data@),
    {
        let ghost s = self.data@;
        write_u64(self.data, OFF_LEAF_NEXT, next.unwrap_or(0));
        proof {
            if layout::leaf_wf(s) {
                layout::lemma_identity_write(s, self.data@, OFF_LEAF_NEXT as int, OFF_LEAF_NEXT + 8);
            }
        }
    }

    /// Borrow as a read-only accessor without releasing the mutable borrow.
    pub fn as_accessor(&self) -> (acc: LeafPageAccessor<'_, K, V>)
        requires
            self.data@.len() > 0,
            self.data@[0] == LEAF,
        ensures
            acc.data@ == old(self.data)@,
    {
        LeafPageAccessor::new(self.data)
    }

    // ── Insert ───────────────────────────────────────────────────────────────
    /// Insert a new `(key, value)` pair at slot position `pos`, shifting all existing slots at
    /// `[pos..]` one position to the right.
    ///
    /// `pos` must be the insertion point returned by `position()` for keys to stay sorted; the
    /// caller is responsible for that.
    ///
    /// Returns `Err(InsufficientSpace)` when the contiguous free gap is too small; the caller
    /// should `compact()` and retry if `can_fit_after_compact` returns `true`.
    pub fn insert<'k, 'v>(
        &mut self,
        pos: usize,
        key: &K::SelfType<'k>,
        value: &V::SelfType<'v>,
    ) -> (res: Result<(), PageError>)
        requires
            layout::leaf_wf(old(self).data@),
            pos <= layout::leaf_entries(old(self).data@).len(),
            layout::lengths_fit(
                K::encoding(*key).len() as int,
                V::encoding(*value).len() as int,
            ),
        ensures
            final(final(self).data)@ == final(old(self).data)@,
            ({
                let s = old(self).data@;
                let t = final(self).data@;
                let key_len = K::encoding(*key).len() as int;
                let val_len = V::encoding(*value).len() as int;
                let size = layout::record_size(key_len, val_len);
                match res {
                    Ok(_) => {
                        &&& layout::fits_gap(s, key_len, val_len)
                        &&& layout::leaf_wf(t)
                        &&& layout::leaf_entries(t) == layout::leaf_entries(s).insert(
                            pos as int,
                            (K::encoding(*key), V::encoding(*value)),
                        )
                        &&& layout::same_identity(s, t)
                        &&& layout::free_end(t) == layout::free_end(s) - size
                        &&& layout::record(t, pos as int)[REC_OFF_FLAGS as int] == 0
                        &&& forall|k: int|
                            layout::free_end(s) <= k < s.len() ==> #[trigger] t[k] == s[k]
                    },
                    Err(e) => {
                        &&& !layout::fits_gap(s, key_len, val_len)
                        &&& t == s
                        &&& e == (PageError::InsufficientSpace {
                            needed: (SLOT_SIZE + size) as usize,
                            available: layout::gap(s) as usize,
                        })
                    },
                }
            }),
    {
        let key_bytes: Vec<u8> = K::as_bytes(key);
        let val_bytes: Vec<u8> = V::as_bytes(value);
        insert_entry(self.data, pos, key_bytes.as_slice(), val_bytes.as_slice())
    }

    // ── Overwrite value ──────────────────────────────────────────────────────
    /// Replace the value stored at slot `pos`.
    ///
    /// **Same size**: bytes are written directly into the existing record. No slot entry or
    /// free-space pointer is touched.
    ///
    /// **Different size**: a fresh record is allocated in the free gap; the slot is updated to
    /// point at it; the old record becomes dead space reclaimed by `compact()`.
    ///
    /// Returns `Err(InsufficientSpace)` when the free gap is too small.
    pub fn overwrite_value<'v>(&mut self, pos: usize, new_value: &V::SelfType<'v>) -> (res: Result<
        (),
        PageError,
    >)
        requires
            layout::leaf_wf(old(self).data@),
            pos < layout::leaf_entries(old(self).data@).len(),
            layout::lengths_fit(
                layout::leaf_entries(old(self).data@)[pos as int].0.len() as int,
                V::encoding(*new_value).len() as int,
            ),
        ensures
            final(final(self).data)@ == final(old(self).data)@,
            ({
                let s = old(self).data@;
                let t = final(self).data@;
                let e = layout::leaf_entries(s)[pos as int];
                let val = V::encoding(*new_value);
                let size = layout::record_size(e.0.len() as int, val.len() as int);
                let gap = layout::gap(s);
                match res {
                    Ok(_) => {
                        &&& layout::leaf_wf(t)
                        &&& layout::leaf_entries(t) == layout::leaf_entries(s).update(
                            pos as int,
                            (e.0, val),
                        )
                        &&& layout::same_identity(s, t)
                        &&& if val.len() == e.1.len() {
                            page::same_except(
                                s,
                                t,
                                layout::value_at(s, pos as int),
                                layout::value_at(s, pos as int) + val.len(),
                            )
                        } else {
                            &&& gap >= size
                            &&& layout::free_end(t) == layout::free_end(s) - size
                            &&& layout::record(t, pos as int)[REC_OFF_FLAGS as int] == 0
                            &&& forall|k: int|
                                layout::free_end(s) <= k < s.len() ==> #[trigger] t[k] == s[k]
                        }
                    },
                    Err(err) => {
                        &&& val.len() != e.1.len()
                        &&& gap < size
                        &&& t == s
                        &&& err == (PageError::InsufficientSpace {
                            needed: size as usize,
                            available: gap as usize,
                        })
                    },
                }
            }),
    {
        let val_bytes: Vec<u8> = V::as_bytes(new_value);
        overwrite_entry(self.data, pos, val_bytes.as_slice())
    }

    // ── Remove ───────────────────────────────────────────────────────────────
    /// Remove the entry at slot `pos`.
    ///
    /// The slot directory is immediately compacted: slots `[pos+1..n]` are shifted left and the
    /// slot that is left over is zeroed. The record bytes in the data area are **not** erased;
    /// they become dead space. Call `compact()` to reclaim them.
    pub fn remove(&mut self, pos: usize)
        requires
            layout::leaf_wf(old(self).data@),
            pos < layout::leaf_entries(old(self).data@).len(),
        ensures
            final(final(self).data)@ == final(old(self).data)@,
            layout::leaf_wf(final(self).data@),
            layout::leaf_entries(final(self).data@) == layout::leaf_entries(
                old(self).data@,
            ).remove(pos as int),
            layout::same_identity(old(self).data@, final(self).data@),
            layout::free_end(final(self).data@) == layout::free_end(old(self).data@),
            forall|k: int|
                layout::free_start(final(self).data@) <= k < layout::free_start(old(self).data@)
                    ==> #[trigger] final(self).data@[k] == 0,
            forall|k: int|
                layout::free_start(old(self).data@) <= k < old(self).data@.len()
                    ==> #[trigger] final(self).data@[k] == old(self).data@[k],
    {
        remove_entry(self.data, pos);
    }

    // ── Compact ──────────────────────────────────────────────────────────────
    /// Reclaim dead record space left by overwrites and removals.
    ///
    /// All live records are repacked from `PAGE_SIZE` downward with no gaps, and the
    /// corresponding slot offsets are updated.
    pub fn compact(&mut self)
        requires
            layout::leaf_wf(old(self).data@),
        ensures
            final(final(self).data)@ == final(old(self).data)@,
            layout::compacts(old(self).data@, final(self).data@),
    {
        compact_page(self.data);
    }
}

// ── LeafPageBuilder ──────────────────────────────────────────────────────────
/// Write-once constructor for a fresh leaf page. The caller pushes entries in ascending key
/// order; each push appends a slot and writes a record, with no search and no shift.
pub struct LeafPageBuilder<'a, K: Key, V: Value> {
    pub data: &'a mut [u8],
    /// The next record goes just below this offset.
    pub write_end: usize,
    pub _key: PhantomData<K>,
    pub _val: PhantomData<V>,
}

impl<'a, K: Key, V: Value> LeafPageBuilder<'a, K, V> {
    /// The page under construction is well formed at every step.
    pub open spec fn wf(&self) -> bool {
        &&& layout::leaf_wf(self.data@)
        &&& self.write_end == layout::free_end(self.data@)
    }

    /// Zero the buffer, stamp the page type and page id, initialise the free pointers.
    pub fn new(page_id: PageId, data: &'a mut [u8]) -> (b: Self)
        requires
            old(data)@.len() >= OFF_PAGE_ID + 8,
        ensures
            final(b.data)@ == final(data)@,
            b.data@.len() == old(data)@.len(),
            b.data@.len() >= PAGE_SIZE ==> b.wf(),
            b.write_end == PAGE_SIZE,
            layout::leaf_entries(b.data@) == Seq::<Entry>::empty(),
            b.data@[0] == LEAF,
            layout::free_start(b.data@) == LEAF_HEADER_SIZE,
            layout::free_end(b.data@) == PAGE_SIZE,
            layout::leaf_page_id(b.data@) == page_id,
            b.data@[1] == 0,
            forall|i: int| OFF_LSN <= i < b.data@.len() ==> #[trigger] b.data@[i] == 0,
    {
        let len: usize = data.len();
        zero_fill(data, 0, len);
        write_u8(data, OFF_PAGE_TYPE, LEAF);
        write_u64(data, OFF_PAGE_ID, page_id);
        write_u16(data, OFF_LEAF_FREE_START, LEAF_HEADER_SIZE as u16);
        write_u16(data, OFF_LEAF_FREE_END, PAGE_SIZE as u16);
        assert(layout::slot_count(data@) == 0);
        assert(layout::leaf_entries(data@) =~= Seq::<Entry>::empty());
        Self { data, write_end: PAGE_SIZE, _key: PhantomData, _val: PhantomData }
    }

    pub fn set_prev_page(&mut self, prev: Option<PageId>)
        requires
            old(self).data@.len() >= OFF_LEAF_PREV + 8,
        ensures
            final(final(self).data)@ == final(old(self).data)@,
            page::same_except(
                old(self).data@,
                final(self).data@,
                OFF_LEAF_PREV as int,
                OFF_LEAF_PREV + 8,
            ),
            page::le64(final(self).data@, OFF_LEAF_PREV as int) == page::link_value(prev),
            final(self).write_end == old(self).write_end,
            old(self).wf() ==> final(self).wf(),
            old(self).wf() ==> layout::leaf_entries(final(self).data@) == layout::leaf_entries(
                old(self).data@,
            ),
    {
        let ghost s = self.data@;
        write_u64(self.data, OFF_LEAF_PREV, prev.unwrap_or(0));
        proof {
            if layout::leaf_wf(s) {
                layout::lemma_identity_write(s, self.data@, OFF_LEAF_PREV as int, OFF_LEAF_PREV + 8);
            }
        }
    }

    pub fn set_next_page(&mut self, next: Option<PageId>)
        requires
            old(self).data@.len() >= OFF_LEAF_NEXT + 8,
        ensures
            final(final(self).data)@ == final(old(self).data)@,
            page::same_except(
                old(self).data@,
                final(self).data@,
                OFF_LEAF_NEXT as int,
                OFF_LEAF_NEXT + 8,
            ),
            page::le64(final(self).data@, OFF_LEAF_NEXT as int) == page::link_value(next),
            final(self).write_end == old(self).write_end,
            old(self).wf() ==> final(self).wf(),
            old(self).wf() ==> layout::leaf_entries(final(self).data@) == layout::leaf_entries(
                old(self).data@,
            ),
    {
        let ghost s = self.data@;
        write_u64(self.data, OFF_LEAF_NEXT, next.unwrap_or(0));
        proof {
            if layout::leaf_wf(s) {
                layout::lemma_identity_write(s, self.data@, OFF_LEAF_NEXT as int, OFF_LEAF_NEXT + 8);
            }
        }
    }

    /// Append a key-value pair. Keys must be pushed in strictly ascending order for the page to
    /// be searchable, and the page must have room for the record.
    pub fn push<'k, 'v>(&mut self, key: &K::SelfType<'k>, value: &V::SelfType<'v>)
        requires
            old(self).wf(),
            layout::fits_gap(
                old(self).data@,
                K::encoding(*key).len() as int,
                V::encoding(*value).len() as int,
            ),
        ensures
            final(final(self).data)@ == final(old(self).data)@,
            final(self).wf(),
            layout::leaf_entries(final(self).data@) == layout::leaf_entries(old(self).data@).push(
                (K::encoding(*key), V::encoding(*value)),
            ),
            layout::same_identity(old(self).data@, final(self).data@),
            layout::record(
                final(self).data@,
                layout::slot_count(old(self).data@),
            )[REC_OFF_FLAGS as int] == 0,
            layout::free_end(final(self).data@) == layout::free_end(old(self).data@)
                - layout::record_size(
                K::encoding(*key).len() as int,
                V::encoding(*value).len() as int,
            ),
    {
        let key_bytes: Vec<u8> = K::as_bytes(key);
        let val_bytes: Vec<u8> = V::as_bytes(value);
        self.push_bytes(key_bytes.as_slice(), val_bytes.as_slice());
    }

    /// Append a pair that is already in bytes.
    pub(crate) fn push_bytes(&mut self, key: &[u8], val: &[u8])
        requires
            old(self).wf(),
            layout::fits_gap(old(self).data@, key@.len() as int, val@.len() as int),
        ensures
            final(final(self).data)@ == final(old(self).data)@,
            final(self).wf(),
            layout::leaf_entries(final(self).data@) == layout::leaf_entries(old(self).data@).push(
                (key@, val@),
            ),
            layout::same_identity(old(self).data@, final(self).data@),
            layout::record(
                final(self).data@,
                layout::slot_count(old(self).data@),
            )[REC_OFF_FLAGS as int] == 0,
            layout::free_end(final(self).data@) == layout::free_end(old(self).data@)
                - layout::record_size(key@.len() as int, val@.len() as int),
    {
        let ghost s = self.data@;
        let n: usize = read_u16(self.data, OFF_LEAF_SLOT_COUNT) as usize;
        let rec_size: usize = rec_total_size(key.len(), val.len());
        let res = insert_entry(self.data, n, key, val);
        assert(res is Ok);
        self.write_end = self.write_end - rec_size;
        assert(layout::leaf_entries(s).insert(n as int, (key@, val@)) =~= layout::leaf_entries(
            s,
        ).push((key@, val@)));
    }

    /// Seal the page. Returns a [`LeafPageMutator`] for any remaining header writes (lsn,
    /// prev/next pointers) before the page is handed to the buffer pool.
    pub fn finish(self) -> (m: LeafPageMutator<'a, K, V>)
        requires
            self.data@.len() > 0,
            self.data@[0] == LEAF,
        ensures
            m.data@ == old(self.data)@,
            final(m.data)@ == final(self.data)@,
    {
        LeafPageMutator::new(self.data)
    }
}

} // verus!
