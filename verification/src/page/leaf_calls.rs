//! What each operation on a leaf page gives, in the bytes that its slots and records take.

use crate::key::{Key, Value};
use crate::key_laws::ByteKey;
use crate::page;
use crate::page::leaf;
use crate::page::leaf::{LeafPageAccessor, LeafPageBuilder, LeafPageMutator};
use crate::page::leaf_edit::{rec_key_offset, rec_total_size, rec_val_offset, slot_offset};
use crate::page::leaf_layout as layout;
use crate::page::leaf_layout::Entry;
use crate::page::{Lsn, PageError, PageId};
use std::cmp::Ordering;
use vstd::prelude::*;

verus! {

// ── The layout ───────────────────────────────────────────────────────────────
/// Where the fields of a leaf page's header lie.
pub proof fn law_header(s: Seq<u8>)
    ensures
        layout::slot_count(s) == page::le16(s, 2),
        layout::free_start(s) == page::le16(s, 4),
        layout::free_end(s) == page::le16(s, 6),
        layout::leaf_page_id(s) == page::le64(s, 8),
        layout::leaf_lsn(s) == page::le64(s, 16),
        layout::leaf_prev(s) is None <==> page::le64(s, 24) == 0,
        layout::leaf_prev(s) matches Some(p) ==> p == page::le64(s, 24),
        layout::leaf_next(s) is None <==> page::le64(s, 32) == 0,
        layout::leaf_next(s) matches Some(p) ==> p == page::le64(s, 32),
{
}

/// Slot `i` is the four bytes at `40 + 4 * i`: where its record begins, and how long it is.
pub proof fn law_slots(s: Seq<u8>, i: int)
    ensures
        layout::slot_at(i) == 40 + 4 * i,
        layout::slot_base(s, i) == page::le16(s, 40 + 4 * i),
        layout::slot_size(s, i) == page::le16(s, 42 + 4 * i),
{
}

/// Entry `i` of a page: its record holds the two lengths, the key from its ninth byte on, and the value
/// from the next even place behind the key.
pub proof fn law_entries(s: Seq<u8>, i: int, k: int)
    requires
        layout::leaf_wf(s),
        0 <= i < page::le16(s, 2),
    ensures
        ({
            let base = page::le16(s, 40 + 4 * i);
            let key_len = page::le16(s, base);
            let val_len = page::le16(s, base + 2);
            let val_at = base + 8 + key_len + key_len % 2;
            let e = layout::leaf_entries(s)[i];
            &&& layout::leaf_entries(s).len() == page::le16(s, 2)
            &&& e.0.len() == key_len
            &&& e.1.len() == val_len
            &&& 0 <= k < key_len ==> e.0[k] == s[base + 8 + k]
            &&& 0 <= k < val_len ==> e.1[k] == s[val_at + k]
            &&& page::le16(s, 6) <= base
            &&& val_at + val_len <= base + page::le16(s, 42 + 4 * i) <= 4096
        }),
{
    assert(layout::slot_ok(s, i));
    let r = layout::record(s, i);
    let base = layout::slot_base(s, i);
    assert(r[0] == s[base] && r[1] == s[base + 1] && r[2] == s[base + 2] && r[3] == s[base + 3]);
}

/// A record takes 8 bytes, its key and its value, each rounded up to an even number of bytes.
pub proof fn law_record_size(key_len: int, val_len: int)
    requires
        0 <= key_len,
        0 <= val_len,
    ensures
        layout::record_size(key_len, val_len) == 8 + (key_len + key_len % 2) + (val_len + val_len % 2),
        layout::even_up(key_len) == key_len + key_len % 2,
{
}

/// A pair of these lengths can be measured wherever the sum stays in range.
pub proof fn law_lengths_fit(key_len: int, val_len: int)
    ensures
        key_len + val_len + 16 <= usize::MAX ==> layout::lengths_fit(key_len, val_len),
{
}

/// The bytes of the live records are the sizes in the slots, summed.
pub proof fn law_live_bytes(s: Seq<u8>, n: int)
    requires
        0 <= n,
    ensures
        layout::live_bytes_of(s, 0) == 0,
        layout::live_bytes_of(s, n + 1) == layout::live_bytes_of(s, n) + page::le16(s, 42 + 4 * n),
        layout::live_bytes(s) == layout::live_bytes_of(s, page::le16(s, 2)),
{
}

/// The gap lies between the two free pointers; the room is what header, slots and live records leave of
/// 4096 bytes. A pair fits either exactly when it has space for a slot and a record.
pub proof fn law_room(s: Seq<u8>, key_len: int, val_len: int)
    requires
        0 <= key_len,
        0 <= val_len,
    ensures
        layout::gap(s) == page::le16(s, 6) - page::le16(s, 4),
        layout::room(s) == 4056 - 4 * page::le16(s, 2) - layout::live_bytes(s),
        layout::fits_gap(s, key_len, val_len) <==> layout::gap(s) >= 12 + key_len + key_len % 2 + val_len
            + val_len % 2,
        layout::fits_room(s, key_len, val_len) <==> layout::room(s) >= 12 + key_len + key_len % 2
            + val_len + val_len % 2,
{
}

/// Every page of at least 4096 bytes that begins with the byte 1, whose slots end where its free bytes
/// begin, and whose records lie apart from each other between the free bytes and byte 4096, each as long
/// as its two lengths say, is a leaf page, however many slots it has.
pub proof fn law_sound_page(s: Seq<u8>)
    requires
        s.len() >= 4096,
        s[0] == 1,
        page::le16(s, 4) == 40 + 4 * page::le16(s, 2),
        page::le16(s, 4) <= page::le16(s, 6) <= 4096,
        forall|i: int|
            0 <= i < page::le16(s, 2) ==> {
                let base = #[trigger] layout::slot_base(s, i);
                let size = layout::slot_size(s, i);
                let key_len = page::le16(s, base);
                let val_len = page::le16(s, base + 2);
                &&& page::le16(s, 6) <= base
                &&& base + size <= 4096
                &&& 8 <= size
                &&& size == 8 + (key_len + key_len % 2) + (val_len + val_len % 2)
            },
        forall|i: int, j: int|
            0 <= i < j < page::le16(s, 2) ==> #[trigger] layout::slot_base(s, i)
                + layout::slot_size(s, i) <= #[trigger] layout::slot_base(s, j) || layout::slot_base(
                s,
                j,
            ) + layout::slot_size(s, j) <= layout::slot_base(s, i),
    ensures
        layout::leaf_wf(s),
{
    assert forall|i: int| 0 <= i < layout::slot_count(s) implies #[trigger] layout::slot_ok(s, i) by {
        let base = layout::slot_base(s, i);
        let r = layout::record(s, i);
        assert(r[0] == s[base] && r[1] == s[base + 1] && r[2] == s[base + 2] && r[3] == s[base + 3]);
    }
    assert forall|i: int, j: int|
        0 <= i < j < layout::slot_count(s) implies #[trigger] layout::records_apart(s, i, j) by {
        assert(layout::slot_base(s, i) + layout::slot_size(s, i) <= layout::slot_base(s, j)
            || layout::slot_base(s, j) + layout::slot_size(s, j) <= layout::slot_base(s, i));
    }
}

/// And what a leaf page promises: its type byte, slots that end where its free bytes begin, and records
/// apart from each other behind the free bytes, each as long as its two lengths say.
pub proof fn law_sound_page_means(s: Seq<u8>, i: int, j: int)
    requires
        layout::leaf_wf(s),
    ensures
        s.len() >= 4096,
        s[0] == 1,
        page::le16(s, 4) == 40 + 4 * page::le16(s, 2),
        page::le16(s, 4) <= page::le16(s, 6) <= 4096,
        0 <= i < page::le16(s, 2) ==> {
            let base = page::le16(s, 40 + 4 * i);
            let size = page::le16(s, 42 + 4 * i);
            let key_len = page::le16(s, base);
            let val_len = page::le16(s, base + 2);
            &&& page::le16(s, 6) <= base
            &&& base + size <= 4096
            &&& size == 8 + (key_len + key_len % 2) + (val_len + val_len % 2)
        },
        0 <= i < j < page::le16(s, 2) ==> {
            let (a, b) = (page::le16(s, 40 + 4 * i), page::le16(s, 40 + 4 * j));
            a + page::le16(s, 42 + 4 * i) <= b || b + page::le16(s, 42 + 4 * j) <= a
        },
{
    if 0 <= i < page::le16(s, 2) {
        assert(layout::slot_ok(s, i));
        let base = layout::slot_base(s, i);
        let r = layout::record(s, i);
        assert(r[0] == s[base] && r[1] == s[base + 1] && r[2] == s[base + 2] && r[3] == s[base + 3]);
    }
    if 0 <= i < j < page::le16(s, 2) {
        assert(layout::records_apart(s, i, j));
    }
}

/// Edits that keep a page's identity keep its type, its flags, and every header byte from its id on.
pub proof fn law_identity(s: Seq<u8>, t: Seq<u8>, i: int)
    requires
        layout::same_identity(s, t),
    ensures
        t.len() == s.len(),
        0 <= i < 2 || 8 <= i < 40 ==> t[i] == s[i],
{
}

/// Entries are in key order exactly when each key comes before every later one.
pub proof fn law_keys_ascend<K: Key>(entries: Seq<Entry>)
    ensures
        leaf::keys_ascend::<K>(entries) <==> forall|i: int, j: int|
            0 <= i < j < entries.len() ==> #[trigger] K::order(entries[i].0, entries[j].0)
                == Ordering::Less,
{
}

/// Entries are sorted exactly when no key is greater than a later one; entries that ascend are.
pub proof fn law_keys_sorted<K: Key>(entries: Seq<Entry>)
    ensures
        leaf::keys_sorted::<K>(entries) <==> forall|i: int, j: int|
            0 <= i < j < entries.len() ==> #[trigger] K::order(entries[i].0, entries[j].0)
                != Ordering::Greater,
        leaf::keys_ascend::<K>(entries) ==> leaf::keys_sorted::<K>(entries),
{
}

// ── Reading ──────────────────────────────────────────────────────────────────
/// A page is read, and written, where it lies.
pub proof fn law_wraps<K: Key, V: Value>(
    data: &[u8],
    acc: LeafPageAccessor<'_, K, V>,
    out: &mut [u8],
    m: LeafPageMutator<'_, K, V>,
    n: &LeafPageMutator<'_, K, V>,
    of_n: LeafPageAccessor<'_, K, V>,
)
    requires
        call_ensures(LeafPageAccessor::<'_, K, V>::new, (data,), acc),
        call_ensures(LeafPageMutator::<'_, K, V>::new, (out,), m),
        call_ensures(LeafPageMutator::<'_, K, V>::as_accessor, (n,), of_n),
    ensures
        acc.data@ == data@,
        old(m.data)@ == old(out)@,
        final(m.data)@ == final(out)@,
        of_n.data@ == old(n.data)@,
{
}

/// The header is read from its bytes.
pub proof fn law_read_header(
    acc: &LeafPageAccessor<'_, ByteKey, ByteKey>,
    id: PageId,
    lsn: Lsn,
    n: u16,
    prev: Option<PageId>,
    next: Option<PageId>,
)
    requires
        call_ensures(LeafPageAccessor::page_id, (acc,), id),
        call_ensures(LeafPageAccessor::lsn, (acc,), lsn),
        call_ensures(LeafPageAccessor::num_pairs, (acc,), n),
        call_ensures(LeafPageAccessor::prev_page, (acc,), prev),
        call_ensures(LeafPageAccessor::next_page, (acc,), next),
    ensures
        id == page::le64(acc.data@, 8),
        lsn == page::le64(acc.data@, 16),
        n == page::le16(acc.data@, 2),
        prev is None <==> page::le64(acc.data@, 24) == 0,
        prev matches Some(p) ==> p == page::le64(acc.data@, 24),
        next is None <==> page::le64(acc.data@, 32) == 0,
        next matches Some(p) ==> p == page::le64(acc.data@, 32),
{
}

/// The free space is what lies between the two free pointers.
pub proof fn law_read_free(
    acc: &LeafPageAccessor<'_, ByteKey, ByteKey>,
    start: usize,
    end: usize,
    free: usize,
)
    requires
        call_ensures(LeafPageAccessor::free_start, (acc,), start),
        call_ensures(LeafPageAccessor::free_end, (acc,), end),
        call_ensures(LeafPageAccessor::free_space, (acc,), free),
    ensures
        start == page::le16(acc.data@, 4),
        end == page::le16(acc.data@, 6),
        free == end - start,
{
}

/// A pair fits as things are exactly when the gap takes a slot of 4 bytes and the record; it fits after
/// compaction exactly when everything but the header, the slots and the live records does.
pub proof fn law_can_fit(
    acc: &LeafPageAccessor<'_, ByteKey, ByteKey>,
    key_len: usize,
    val_len: usize,
    direct: bool,
    after: bool,
)
    requires
        call_ensures(LeafPageAccessor::can_fit_direct, (acc, key_len, val_len), direct),
        call_ensures(LeafPageAccessor::can_fit_after_compact, (acc, key_len, val_len), after),
    ensures
        ({
            let s = acc.data@;
            let wanted = 12 + key_len + key_len % 2 + val_len + val_len % 2;
            &&& direct <==> page::le16(s, 6) - page::le16(s, 4) >= wanted
            &&& after <==> 4056 - 4 * page::le16(s, 2) - layout::live_bytes(s) >= wanted
        }),
{
}

/// Key and value are read from the bytes of the slot's record.
pub proof fn law_read_entry(
    acc: &LeafPageAccessor<'static, ByteKey, ByteKey>,
    i: usize,
    key: &'static [u8],
    value: &'static [u8],
    pair: (&'static [u8], &'static [u8]),
    k: int,
)
    requires
        layout::leaf_wf(acc.data@),
        i < page::le16(acc.data@, 2),
        call_ensures(LeafPageAccessor::<'static, ByteKey, ByteKey>::get_key, (acc, i), key),
        call_ensures(LeafPageAccessor::<'static, ByteKey, ByteKey>::get_value, (acc, i), value),
        call_ensures(LeafPageAccessor::<'static, ByteKey, ByteKey>::entry, (acc, i), pair),
    ensures
        ({
            let s = acc.data@;
            let base = page::le16(s, 40 + 4 * i);
            let val_at = base + 8 + page::le16(s, base) + page::le16(s, base) % 2;
            &&& key@.len() == page::le16(s, base)
            &&& value@.len() == page::le16(s, base + 2)
            &&& 0 <= k < key@.len() ==> key@[k] == s[base + 8 + k]
            &&& 0 <= k < value@.len() ==> value@[k] == s[val_at + k]
            &&& pair.0@ == key@
            &&& pair.1@ == value@
        }),
{
    law_entries(acc.data@, i as int, k);
}

/// On a page whose keys ascend, a key that is there is found in its slot, and a key that is not there is
/// given the place behind all smaller keys and before all greater ones.
pub proof fn law_position<K: Key, V: Value>(
    acc: &LeafPageAccessor<'_, K, V>,
    query: &K::SelfType<'_>,
    r: (usize, bool),
    i: int,
)
    requires
        call_ensures(LeafPageAccessor::<'_, K, V>::position, (acc, query), r),
        leaf::keys_ascend::<K>(layout::leaf_entries(acc.data@)),
        0 <= i < layout::leaf_entries(acc.data@).len(),
    ensures
        ({
            let entries = layout::leaf_entries(acc.data@);
            let o = K::order(entries[i].0, K::encoding(*query));
            &&& r.0 <= entries.len()
            &&& r.1 ==> r.0 < entries.len() && K::order(entries[r.0 + 0].0, K::encoding(*query))
                == Ordering::Equal
            &&& o == Ordering::Equal ==> r.1 && r.0 == i
            &&& i < r.0 ==> o == Ordering::Less
            &&& r.0 < i ==> o == Ordering::Greater
            &&& !r.1 && r.0 == i ==> o == Ordering::Greater
        }),
{
    lemma_position(acc, query, r, i);
}

/// A search gives a slot that the page has, or the place behind its last slot; on an empty page it finds
/// nothing, at place 0.
pub proof fn law_position_bounds<K: Key, V: Value>(
    acc: &LeafPageAccessor<'_, K, V>,
    query: &K::SelfType<'_>,
    r: (usize, bool),
    found: Option<usize>,
)
    requires
        call_ensures(LeafPageAccessor::<'_, K, V>::position, (acc, query), r),
        call_ensures(LeafPageAccessor::<'_, K, V>::find_key, (acc, query), found),
    ensures
        r.0 <= layout::leaf_entries(acc.data@).len(),
        r.1 ==> r.0 < layout::leaf_entries(acc.data@).len(),
        found matches Some(at) ==> at < layout::leaf_entries(acc.data@).len() && K::order(
            layout::leaf_entries(acc.data@)[at + 0].0,
            K::encoding(*query),
        ) == Ordering::Equal,
{
}

proof fn lemma_position<K: Key, V: Value>(
    acc: &LeafPageAccessor<'_, K, V>,
    query: &K::SelfType<'_>,
    r: (usize, bool),
    i: int,
)
    requires
        call_ensures(LeafPageAccessor::<'_, K, V>::position, (acc, query), r),
        leaf::keys_ascend::<K>(layout::leaf_entries(acc.data@)),
        0 <= i < layout::leaf_entries(acc.data@).len(),
    ensures
        ({
            let entries = layout::leaf_entries(acc.data@);
            let o = K::order(entries[i].0, K::encoding(*query));
            &&& o == Ordering::Equal ==> r.1 && r.0 == i
            &&& i < r.0 ==> o == Ordering::Less
            &&& r.0 < i ==> o == Ordering::Greater
            &&& !r.1 && r.0 == i ==> o == Ordering::Greater
        }),
{
    let entries = layout::leaf_entries(acc.data@);
    let q = K::encoding(*query);
    let at = r.0 + 0;
    if r.1 && i < at {
        assert(K::order(entries[i].0, entries[at].0) == Ordering::Less);
        K::order_transitive(entries[i].0, entries[at].0, q);
    }
    if r.1 && at < i {
        assert(K::order(entries[at].0, entries[i].0) == Ordering::Less);
        K::order_reverses(entries[at].0, q);
        K::order_transitive(q, entries[at].0, entries[i].0);
        K::order_reverses(q, entries[i].0);
    }
}

/// Also where equal keys follow each other, a key is found exactly when some slot holds it, and a key that
/// is not there is given the place behind all smaller keys and before all greater ones.
pub proof fn law_position_sorted<K: Key, V: Value>(
    acc: &LeafPageAccessor<'_, K, V>,
    query: &K::SelfType<'_>,
    r: (usize, bool),
    found: Option<usize>,
    i: int,
)
    requires
        call_ensures(LeafPageAccessor::<'_, K, V>::position, (acc, query), r),
        call_ensures(LeafPageAccessor::<'_, K, V>::find_key, (acc, query), found),
        leaf::keys_sorted::<K>(layout::leaf_entries(acc.data@)),
        0 <= i < layout::leaf_entries(acc.data@).len(),
    ensures
        ({
            let o = K::order(layout::leaf_entries(acc.data@)[i].0, K::encoding(*query));
            &&& o == Ordering::Equal ==> r.1 && found is Some
            &&& !r.1 && i < r.0 ==> o == Ordering::Less
            &&& !r.1 && r.0 <= i ==> o == Ordering::Greater
        }),
{
}

/// On any page, in order or not: what is found is the key, and where nothing is found the key before the
/// place is smaller and the key at the place is greater.
pub proof fn law_position_anywhere<K: Key, V: Value>(
    acc: &LeafPageAccessor<'_, K, V>,
    query: &K::SelfType<'_>,
    r: (usize, bool),
)
    requires
        call_ensures(LeafPageAccessor::<'_, K, V>::position, (acc, query), r),
    ensures
        ({
            let entries = layout::leaf_entries(acc.data@);
            let q = K::encoding(*query);
            &&& r.1 ==> K::order(entries[r.0 + 0].0, q) == Ordering::Equal
            &&& !r.1 && r.0 > 0 ==> K::order(entries[r.0 - 1].0, q) == Ordering::Less
            &&& !r.1 && r.0 < entries.len() ==> K::order(entries[r.0 + 0].0, q) == Ordering::Greater
        }),
{
}

/// On a page whose keys ascend, a key is found exactly when some slot holds it, and then in that slot.
pub proof fn law_find_key<K: Key, V: Value>(
    acc: &LeafPageAccessor<'_, K, V>,
    query: &K::SelfType<'_>,
    r: Option<usize>,
    i: int,
)
    requires
        call_ensures(LeafPageAccessor::<'_, K, V>::find_key, (acc, query), r),
        leaf::keys_ascend::<K>(layout::leaf_entries(acc.data@)),
        0 <= i < layout::leaf_entries(acc.data@).len(),
    ensures
        ({
            let entries = layout::leaf_entries(acc.data@);
            let same = K::order(entries[i].0, K::encoding(*query)) == Ordering::Equal;
            &&& r matches Some(at) ==> (same <==> at == i)
            &&& r is None ==> !same
        }),
{
    let entries = layout::leaf_entries(acc.data@);
    let q = K::encoding(*query);
    if let Some(at) = r {
        K::order_reverses(entries[at + 0].0, q);
        if i != at && K::order(entries[i].0, q) == Ordering::Equal {
            K::order_reverses(entries[i].0, q);
            K::order_transitive(entries[i].0, q, entries[at + 0].0);
            K::order_transitive(entries[at + 0].0, q, entries[i].0);
            if i < at {
                assert(K::order(entries[i].0, entries[at + 0].0) == Ordering::Less);
                K::order_reverses(entries[i].0, entries[at + 0].0);
            } else {
                assert(K::order(entries[at + 0].0, entries[i].0) == Ordering::Less);
                K::order_reverses(entries[at + 0].0, entries[i].0);
            }
        }
    }
}

/// What a search owes, entry by entry.
pub proof fn law_is_position<K: Key>(
    entries: Seq<Entry>,
    query: Seq<u8>,
    index: int,
    found: bool,
    i: int,
)
    requires
        leaf::is_position::<K>(entries, query, index, found),
        0 <= i < entries.len(),
    ensures
        found ==> 0 <= index < entries.len() && K::order(entries[index].0, query) == Ordering::Equal,
        !found ==> 0 <= index <= entries.len(),
        !found && i < index ==> K::order(entries[i].0, query) == Ordering::Less,
        !found && index <= i ==> K::order(entries[i].0, query) == Ordering::Greater,
{
}

// ── Changing ─────────────────────────────────────────────────────────────────
/// A pair is refused only for want of a contiguous gap for its slot and its record; what is refused
/// leaves every byte, and is told what it needs and what there is.
pub proof fn law_insert_refused_for_room<K: Key, V: Value>(
    m: &mut LeafPageMutator<'_, K, V>,
    pos: usize,
    key: &K::SelfType<'_>,
    value: &V::SelfType<'_>,
    res: Result<(), PageError>,
)
    requires
        layout::leaf_wf(old(m).data@),
        K::encoding(*key).len() + V::encoding(*value).len() + 16 <= usize::MAX,
        call_ensures(LeafPageMutator::<'_, K, V>::insert, (m, pos, key, value), res),
    ensures
        ({
            let s = old(m).data@;
            let k = K::encoding(*key).len() as int;
            let v = V::encoding(*value).len() as int;
            let wanted = 12 + k + k % 2 + v + v % 2;
            let free = page::le16(s, 6) - page::le16(s, 4);
            &&& res is Ok <==> free >= wanted
            &&& res matches Err(PageError::InsufficientSpace { needed, available }) ==> {
                &&& needed == wanted
                &&& available == free
                &&& final(m).data@ == s
            }
        }),
{
}

/// A pair that went in stands in its slot; what stood from there on moved up by one slot, what stood
/// before stayed, and the record took its bytes from the end of the gap.
#[verifier::rlimit(30)]
pub proof fn law_insert_places<K: Key, V: Value>(
    m: &mut LeafPageMutator<'_, K, V>,
    pos: usize,
    key: &K::SelfType<'_>,
    value: &V::SelfType<'_>,
    i: int,
)
    requires
        layout::leaf_wf(old(m).data@),
        pos <= layout::leaf_entries(old(m).data@).len(),
        call_ensures(
            LeafPageMutator::<'_, K, V>::insert,
            (m, pos, key, value),
            Ok::<(), PageError>(()),
        ),
    ensures
        ({
            let (s, t) = (old(m).data@, final(m).data@);
            let (es, et) = (layout::leaf_entries(s), layout::leaf_entries(t));
            let k = K::encoding(*key).len() as int;
            let v = V::encoding(*value).len() as int;
            &&& layout::leaf_wf(t)
            &&& et.len() == es.len() + 1
            &&& page::le16(t, 2) == page::le16(s, 2) + 1
            &&& et[pos as int] == (K::encoding(*key), V::encoding(*value))
            &&& 0 <= i < pos ==> et[i] == es[i]
            &&& pos <= i < es.len() ==> et[i + 1] == es[i]
            &&& page::le16(t, 4) == page::le16(s, 4) + 4
            &&& page::le16(t, 6) == page::le16(s, 6) - (8 + k + k % 2 + v + v % 2)
            &&& t.len() == s.len()
            &&& (0 <= i < 2 || 8 <= i < 40 || page::le16(s, 6) <= i < s.len()) ==> t[i] == s[i]
        }),
{
    let (s, t) = (old(m).data@, final(m).data@);
    assert(layout::leaf_entries(s).len() == layout::slot_count(s));
    assert(layout::leaf_entries(t).len() == layout::slot_count(t));
}

/// A record that was put in carries no flags.
pub proof fn law_insert_flags<K: Key, V: Value>(
    m: &mut LeafPageMutator<'_, K, V>,
    pos: usize,
    key: &K::SelfType<'_>,
    value: &V::SelfType<'_>,
)
    requires
        layout::leaf_wf(old(m).data@),
        pos <= layout::leaf_entries(old(m).data@).len(),
        call_ensures(
            LeafPageMutator::<'_, K, V>::insert,
            (m, pos, key, value),
            Ok::<(), PageError>(()),
        ),
    ensures
        final(m).data@[page::le16(final(m).data@, 40 + 4 * pos) + 4] == 0,
{
    let t = final(m).data@;
    assert(layout::leaf_entries(t).len() == layout::slot_count(t));
    assert(layout::slot_ok(t, pos as int));
    lemma_flags_at(t, pos as int);
}

proof fn lemma_flags_at(t: Seq<u8>, i: int)
    requires
        layout::slot_ok(t, i),
        t.len() >= 4096,
        0 <= layout::free_end(t),
    ensures
        layout::record(t, i)[4] == t[page::le16(t, 40 + 4 * i) + 4],
{
}

/// A key that was absent is found where it was inserted, with its value, and every other key keeps its
/// value: inserting at the place that the search gave.
pub proof fn law_insert_then_find<K: Key, V: Value>(
    before: &LeafPageAccessor<'_, K, V>,
    m: &mut LeafPageMutator<'_, K, V>,
    after: &LeafPageAccessor<'_, K, V>,
    pos: usize,
    key: &K::SelfType<'_>,
    value: &V::SelfType<'_>,
    found: Option<usize>,
)
    requires
        layout::leaf_wf(before.data@),
        leaf::keys_ascend::<K>(layout::leaf_entries(before.data@)),
        call_ensures(LeafPageAccessor::<'_, K, V>::position, (before, key), (pos, false)),
        old(m).data@ == before.data@,
        call_ensures(
            LeafPageMutator::<'_, K, V>::insert,
            (m, pos, key, value),
            Ok::<(), PageError>(()),
        ),
        after.data@ == final(m).data@,
        call_ensures(LeafPageAccessor::<'_, K, V>::find_key, (after, key), found),
    ensures
        leaf::keys_ascend::<K>(layout::leaf_entries(after.data@)),
        found == Some(pos),
        layout::leaf_entries(after.data@)[pos + 0].1 == V::encoding(*value),
{
    let es = layout::leaf_entries(before.data@);
    let et = layout::leaf_entries(after.data@);
    let q = K::encoding(*key);
    page::leaf_laws::law_insert_keeps_order::<K>(es, pos + 0, q, V::encoding(*value));
    K::order_reverses(q, q);
    assert(et[pos + 0].0 == q);
    law_find_key(after, key, found, pos + 0);
}

/// A new value is refused only if it is of another length than the old and the gap is too small for a
/// new record; what is refused leaves every byte.
pub proof fn law_overwrite_refused_for_room<K: Key, V: Value>(
    m: &mut LeafPageMutator<'_, K, V>,
    pos: usize,
    value: &V::SelfType<'_>,
    res: Result<(), PageError>,
)
    requires
        layout::leaf_wf(old(m).data@),
        pos < layout::leaf_entries(old(m).data@).len(),
        layout::leaf_entries(old(m).data@)[pos as int].0.len() + V::encoding(*value).len() + 16
            <= usize::MAX,
        call_ensures(LeafPageMutator::<'_, K, V>::overwrite_value, (m, pos, value), res),
    ensures
        ({
            let s = old(m).data@;
            let e = layout::leaf_entries(s)[pos as int];
            let k = e.0.len() as int;
            let v = V::encoding(*value).len() as int;
            let wanted = 8 + k + k % 2 + v + v % 2;
            let free = page::le16(s, 6) - page::le16(s, 4);
            &&& res is Ok <==> v == e.1.len() || free >= wanted
            &&& res matches Err(PageError::InsufficientSpace { needed, available }) ==> {
                &&& needed == wanted
                &&& available == free
                &&& final(m).data@ == s
            }
        }),
{
}

/// A new value stands under the old key in the old slot, and every other slot keeps its entry.
#[verifier::rlimit(30)]
pub proof fn law_overwrite_places<K: Key, V: Value>(
    m: &mut LeafPageMutator<'_, K, V>,
    pos: usize,
    value: &V::SelfType<'_>,
    i: int,
)
    requires
        layout::leaf_wf(old(m).data@),
        pos < layout::leaf_entries(old(m).data@).len(),
        call_ensures(
            LeafPageMutator::<'_, K, V>::overwrite_value,
            (m, pos, value),
            Ok::<(), PageError>(()),
        ),
    ensures
        ({
            let (s, t) = (old(m).data@, final(m).data@);
            let (es, et) = (layout::leaf_entries(s), layout::leaf_entries(t));
            &&& layout::leaf_wf(t)
            &&& et.len() == es.len()
            &&& et[pos as int] == (es[pos as int].0, V::encoding(*value))
            &&& 0 <= i < es.len() && i != pos ==> et[i] == es[i]
            &&& t.len() == s.len()
            &&& (0 <= i < 2 || 8 <= i < 40) ==> t[i] == s[i]
        }),
{
}

/// A value of the same length is written in place, and no other byte changes. One of another length gets
/// a record of its own at the end of the gap, and no byte behind the gap changes.
#[verifier::rlimit(30)]
pub proof fn law_overwrite_bytes<K: Key, V: Value>(
    m: &mut LeafPageMutator<'_, K, V>,
    pos: usize,
    value: &V::SelfType<'_>,
    i: int,
)
    requires
        layout::leaf_wf(old(m).data@),
        pos < layout::leaf_entries(old(m).data@).len(),
        0 <= i < old(m).data@.len(),
        call_ensures(
            LeafPageMutator::<'_, K, V>::overwrite_value,
            (m, pos, value),
            Ok::<(), PageError>(()),
        ),
    ensures
        ({
            let (s, t) = (old(m).data@, final(m).data@);
            let base = page::le16(s, 40 + 4 * pos);
            let k = page::le16(s, base);
            let v = V::encoding(*value).len() as int;
            let val_at = base + 8 + k + k % 2;
            if v == page::le16(s, base + 2) {
                i < val_at || val_at + v <= i ==> t[i] == s[i]
            } else {
                &&& page::le16(t, 6) == page::le16(s, 6) - (8 + k + k % 2 + v + v % 2)
                &&& page::le16(s, 6) <= i ==> t[i] == s[i]
            }
        }),
{
    let s = old(m).data@;
    law_entries(s, pos as int, 0);
    lemma_value_at(s, pos as int);
}

proof fn lemma_value_at(s: Seq<u8>, i: int)
    requires
        layout::leaf_wf(s),
        0 <= i < layout::slot_count(s),
    ensures
        ({
            let base = page::le16(s, 40 + 4 * i);
            layout::value_at(s, i) == base + 8 + page::le16(s, base) + page::le16(s, base) % 2
        }),
{
    assert(layout::slot_ok(s, i));
    let base = layout::slot_base(s, i);
    let r = layout::record(s, i);
    assert(r[0] == s[base] && r[1] == s[base + 1]);
}

/// A removed entry is gone; what stood behind it moves down by one slot, what stood before it stays, and
/// no record moves.
pub proof fn law_remove_places<K: Key, V: Value>(
    m: &mut LeafPageMutator<'_, K, V>,
    pos: usize,
    i: int,
)
    requires
        layout::leaf_wf(old(m).data@),
        pos < layout::leaf_entries(old(m).data@).len(),
        call_ensures(LeafPageMutator::<'_, K, V>::remove, (m, pos), ()),
    ensures
        ({
            let (s, t) = (old(m).data@, final(m).data@);
            let (es, et) = (layout::leaf_entries(s), layout::leaf_entries(t));
            &&& layout::leaf_wf(t)
            &&& et.len() == es.len() - 1
            &&& 0 <= i < pos ==> et[i] == es[i]
            &&& pos < i < es.len() ==> et[i - 1] == es[i]
            &&& page::le16(t, 2) == page::le16(s, 2) - 1
            &&& page::le16(t, 4) == page::le16(s, 4) - 4
            &&& page::le16(t, 6) == page::le16(s, 6)
            &&& t.len() == s.len()
            &&& (0 <= i < 2 || 8 <= i < 40 || page::le16(s, 4) <= i < s.len()) ==> t[i] == s[i]
            &&& page::le16(s, 4) - 4 <= i < page::le16(s, 4) ==> t[i] == 0
        }),
{
    let (s, t) = (old(m).data@, final(m).data@);
    assert(layout::leaf_entries(s).len() == layout::slot_count(s));
    assert(layout::leaf_entries(t).len() == layout::slot_count(t));
}

/// Removing what was just inserted brings the entries back.
pub proof fn law_insert_then_remove<K: Key, V: Value>(
    first: &mut LeafPageMutator<'_, K, V>,
    second: &mut LeafPageMutator<'_, K, V>,
    pos: usize,
    key: &K::SelfType<'_>,
    value: &V::SelfType<'_>,
)
    requires
        layout::leaf_wf(old(first).data@),
        pos <= layout::leaf_entries(old(first).data@).len(),
        call_ensures(
            LeafPageMutator::<'_, K, V>::insert,
            (first, pos, key, value),
            Ok::<(), PageError>(()),
        ),
        old(second).data@ == final(first).data@,
        call_ensures(LeafPageMutator::<'_, K, V>::remove, (second, pos), ()),
    ensures
        layout::leaf_entries(final(second).data@) == layout::leaf_entries(old(first).data@),
{
    assert(layout::leaf_entries(final(second).data@) =~= layout::leaf_entries(old(first).data@));
}

/// Compaction keeps every entry in its slot and every header byte but the free pointer, and leaves no
/// dead bytes: all that is free is in the gap. A page without dead bytes it leaves as it is.
pub proof fn law_compact<K: Key, V: Value>(m: &mut LeafPageMutator<'_, K, V>, i: int)
    requires
        layout::leaf_wf(old(m).data@),
        call_ensures(LeafPageMutator::<'_, K, V>::compact, (m,), ()),
    ensures
        ({
            let (s, t) = (old(m).data@, final(m).data@);
            let (es, et) = (layout::leaf_entries(s), layout::leaf_entries(t));
            &&& layout::leaf_wf(t)
            &&& et.len() == es.len()
            &&& 0 <= i < es.len() ==> et[i] == es[i]
            &&& page::le16(t, 2) == page::le16(s, 2)
            &&& page::le16(t, 4) == page::le16(s, 4)
            &&& page::le16(t, 6) == 4096 - layout::live_bytes(s)
            &&& layout::live_bytes(t) == layout::live_bytes(s)
            &&& t.len() == s.len()
            &&& (0 <= i < 2 || 8 <= i < 40) ==> t[i] == s[i]
            &&& page::le16(s, 6) == 4096 - layout::live_bytes(s) ==> t == s
        }),
{
    let (s, t) = (old(m).data@, final(m).data@);
    assert(layout::leaf_entries(s).len() == layout::slot_count(s));
    assert(layout::leaf_entries(t).len() == layout::slot_count(t));
}

/// Compaction moves every record whole, flags and padding included, and keeps the order in which the
/// records lie in the page.
pub proof fn law_compact_records<K: Key, V: Value>(
    m: &mut LeafPageMutator<'_, K, V>,
    i: int,
    j: int,
    k: int,
)
    requires
        layout::leaf_wf(old(m).data@),
        call_ensures(LeafPageMutator::<'_, K, V>::compact, (m,), ()),
        0 <= i < page::le16(old(m).data@, 2),
        0 <= j < page::le16(old(m).data@, 2),
    ensures
        ({
            let (s, t) = (old(m).data@, final(m).data@);
            let (si, ti) = (page::le16(s, 40 + 4 * i), page::le16(t, 40 + 4 * i));
            let (sj, tj) = (page::le16(s, 40 + 4 * j), page::le16(t, 40 + 4 * j));
            let size = page::le16(s, 42 + 4 * i);
            &&& page::le16(t, 42 + 4 * i) == size
            &&& 0 <= k < size ==> t[ti + k] == s[si + k]
            &&& si < sj ==> ti < tj
        }),
{
    let (s, t) = (old(m).data@, final(m).data@);
    assert(layout::leaf_entries(s).len() == layout::slot_count(s));
    assert(layout::leaf_entries(t).len() == layout::slot_count(t));
    assert(layout::slot_ok(s, i));
    assert(layout::slot_ok(t, i));
    let (r, q) = (layout::record(s, i), layout::record(t, i));
    assert(r == q);
    assert(r.len() == layout::slot_size(s, i) && q.len() == layout::slot_size(t, i));
    if 0 <= k < r.len() {
        assert(r[k] == s[layout::slot_base(s, i) + k]);
        assert(q[k] == t[layout::slot_base(t, i) + k]);
    }
    assert(layout::slot_base(s, i) < layout::slot_base(s, j) ==> layout::slot_base(t, i)
        < layout::slot_base(t, j));
}

/// What `can_fit_after_compact` promises, a compaction and an insertion keep.
pub proof fn law_compact_then_insert<K: Key, V: Value>(
    acc: &LeafPageAccessor<'_, K, V>,
    first: &mut LeafPageMutator<'_, K, V>,
    second: &mut LeafPageMutator<'_, K, V>,
    pos: usize,
    key: &K::SelfType<'_>,
    value: &V::SelfType<'_>,
    key_len: usize,
    val_len: usize,
    fits: bool,
    res: Result<(), PageError>,
)
    requires
        layout::leaf_wf(acc.data@),
        key_len == K::encoding(*key).len(),
        val_len == V::encoding(*value).len(),
        key_len + val_len + 16 <= usize::MAX,
        call_ensures(
            LeafPageAccessor::<'_, K, V>::can_fit_after_compact,
            (acc, key_len, val_len),
            fits,
        ),
        old(first).data@ == acc.data@,
        call_ensures(LeafPageMutator::<'_, K, V>::compact, (first,), ()),
        old(second).data@ == final(first).data@,
        call_ensures(LeafPageMutator::<'_, K, V>::insert, (second, pos, key, value), res),
    ensures
        fits <==> res is Ok,
{
    law_compact(first, 0);
}

/// Setting a header field writes its 8 bytes and no other byte.
pub proof fn law_set_fields<K: Key, V: Value>(
    a: &mut LeafPageMutator<'_, K, V>,
    b: &mut LeafPageMutator<'_, K, V>,
    c: &mut LeafPageMutator<'_, K, V>,
    lsn: Lsn,
    link: Option<PageId>,
    i: int,
)
    requires
        call_ensures(LeafPageMutator::<'_, K, V>::set_lsn, (a, lsn), ()),
        call_ensures(LeafPageMutator::<'_, K, V>::set_prev_page, (b, link), ()),
        call_ensures(LeafPageMutator::<'_, K, V>::set_next_page, (c, link), ()),
        0 <= i,
    ensures
        page::le64(final(a).data@, 16) == lsn,
        i < old(a).data@.len() && (i < 16 || 24 <= i) ==> final(a).data@[i] == old(a).data@[i],
        link matches Some(p) ==> page::le64(final(b).data@, 24) == p,
        link is None ==> page::le64(final(b).data@, 24) == 0,
        i < old(b).data@.len() && (i < 24 || 32 <= i) ==> final(b).data@[i] == old(b).data@[i],
        link matches Some(p) ==> page::le64(final(c).data@, 32) == p,
        link is None ==> page::le64(final(c).data@, 32) == 0,
        i < old(c).data@.len() && (i < 32 || 40 <= i) ==> final(c).data@[i] == old(c).data@[i],
{
}

/// A fresh page is empty: its slots end at byte 40, its records begin at byte 4096, and all but the type,
/// the id and the free pointers is zero.
pub proof fn law_build_new<K: Key, V: Value>(
    b: LeafPageBuilder<'_, K, V>,
    page_id: PageId,
    data: &mut [u8],
    i: int,
)
    requires
        old(data)@.len() >= 4096,
        call_ensures(LeafPageBuilder::<'_, K, V>::new, (page_id, data), b),
    ensures
        b.wf(),
        old(b.data)@.len() == old(data)@.len(),
        old(b.data)@[0] == 1,
        old(b.data)@[1] == 0,
        page::le16(old(b.data)@, 2) == 0,
        page::le16(old(b.data)@, 4) == 40,
        page::le16(old(b.data)@, 6) == 4096,
        page::le64(old(b.data)@, 8) == page_id,
        16 <= i < old(b.data)@.len() ==> old(b.data)@[i] == 0,
{
    assert(layout::leaf_entries(old(b.data)@).len() == layout::slot_count(old(b.data)@));
}

/// A page under construction is a leaf page, and its next record goes just below its free pointer.
pub proof fn law_build_under_way<K: Key, V: Value>(b: LeafPageBuilder<'_, K, V>)
    ensures
        b.wf() <==> layout::leaf_wf(old(b.data)@) && b.write_end == page::le16(old(b.data)@, 6),
{
}

/// A pushed pair stands behind those that were there, which stay as they were.
pub proof fn law_build_push<K: Key, V: Value>(
    b: &mut LeafPageBuilder<'_, K, V>,
    key: &K::SelfType<'_>,
    value: &V::SelfType<'_>,
    i: int,
)
    requires
        old(b).wf(),
        call_ensures(LeafPageBuilder::<'_, K, V>::push, (b, key, value), ()),
    ensures
        ({
            let (s, t) = (old(b).data@, final(b).data@);
            let (es, et) = (layout::leaf_entries(s), layout::leaf_entries(t));
            let k = K::encoding(*key).len() as int;
            let v = V::encoding(*value).len() as int;
            &&& final(b).wf()
            &&& et.len() == es.len() + 1
            &&& et[es.len() as int] == (K::encoding(*key), V::encoding(*value))
            &&& 0 <= i < es.len() ==> et[i] == es[i]
            &&& page::le16(t, 6) == page::le16(s, 6) - (8 + k + k % 2 + v + v % 2)
            &&& t.len() == s.len()
            &&& (0 <= i < 2 || 8 <= i < 40) ==> t[i] == s[i]
        }),
{
}

/// The links of a page under construction are set in their 8 bytes each, and a finished page is what was
/// built.
pub proof fn law_build_links_and_finish<K: Key, V: Value>(
    a: &mut LeafPageBuilder<'_, K, V>,
    b: &mut LeafPageBuilder<'_, K, V>,
    link: Option<PageId>,
    c: LeafPageBuilder<'_, K, V>,
    m: LeafPageMutator<'_, K, V>,
    i: int,
)
    requires
        call_ensures(LeafPageBuilder::<'_, K, V>::set_prev_page, (a, link), ()),
        call_ensures(LeafPageBuilder::<'_, K, V>::set_next_page, (b, link), ()),
        call_ensures(LeafPageBuilder::<'_, K, V>::finish, (c,), m),
        0 <= i,
    ensures
        link matches Some(p) ==> page::le64(final(a).data@, 24) == p && page::le64(final(b).data@, 32)
            == p,
        link is None ==> page::le64(final(a).data@, 24) == 0 && page::le64(final(b).data@, 32) == 0,
        i < old(a).data@.len() && (i < 24 || 32 <= i) ==> final(a).data@[i] == old(a).data@[i],
        i < old(b).data@.len() && (i < 32 || 40 <= i) ==> final(b).data@[i] == old(b).data@[i],
        old(m.data)@ == old(c.data)@,
{
}

/// Where the slots and the parts of a record lie, and how long a record is.
pub proof fn law_offsets(
    i: usize,
    base: usize,
    key_len: usize,
    val_len: usize,
    a: usize,
    b: usize,
    c: usize,
    d: usize,
)
    requires
        call_ensures(slot_offset, (i,), a),
        call_ensures(rec_key_offset, (base,), b),
        call_ensures(rec_val_offset, (base, key_len), c),
        call_ensures(rec_total_size, (key_len, val_len), d),
    ensures
        a == 40 + 4 * i,
        b == base + 8,
        c == base + 8 + key_len + key_len % 2,
        d == 8 + (key_len + key_len % 2) + (val_len + val_len % 2),
        b + key_len <= c,
        c + val_len <= base + d,
{
}

/// A header field can be read and set wherever its bytes are there; a page can be built in any buffer
/// that has room for its id, and a pair be pushed while it fits.
pub proof fn law_header_calls_accepted<K: Key, V: Value>(
    acc: &LeafPageAccessor<'_, K, V>,
    m: &mut LeafPageMutator<'_, K, V>,
    b: &mut LeafPageBuilder<'_, K, V>,
    data: &mut [u8],
    key: &K::SelfType<'_>,
    value: &V::SelfType<'_>,
    id: PageId,
    link: Option<PageId>,
)
    ensures
        acc.data@.len() >= 16 ==> call_requires(LeafPageAccessor::<'_, K, V>::page_id, (acc,)),
        acc.data@.len() >= 24 ==> call_requires(LeafPageAccessor::<'_, K, V>::lsn, (acc,)),
        acc.data@.len() >= 4 ==> call_requires(LeafPageAccessor::<'_, K, V>::num_pairs, (acc,)),
        acc.data@.len() >= 32 ==> call_requires(LeafPageAccessor::<'_, K, V>::prev_page, (acc,)),
        acc.data@.len() >= 40 ==> call_requires(LeafPageAccessor::<'_, K, V>::next_page, (acc,)),
        old(m).data@.len() >= 24 ==> call_requires(LeafPageMutator::<'_, K, V>::set_lsn, (m, id)),
        old(m).data@.len() >= 32 ==> call_requires(
            LeafPageMutator::<'_, K, V>::set_prev_page,
            (m, link),
        ),
        old(m).data@.len() >= 40 ==> call_requires(
            LeafPageMutator::<'_, K, V>::set_next_page,
            (m, link),
        ),
        old(data)@.len() >= 16 ==> call_requires(LeafPageBuilder::<'_, K, V>::new, (id, data)),
        ({
            let k = K::encoding(*key).len() as int;
            let v = V::encoding(*value).len() as int;
            old(b).wf() && page::le16(old(b).data@, 6) - page::le16(old(b).data@, 4) >= 12 + k + k % 2 + v
                + v % 2 ==> call_requires(LeafPageBuilder::<'_, K, V>::push, (b, key, value))
        }),
{
}

/// Any sound page can be searched, read in every slot, changed at every slot that it has, and compacted.
pub proof fn law_calls_accepted<K: Key, V: Value>(
    m: &mut LeafPageMutator<'_, K, V>,
    acc: &LeafPageAccessor<'_, K, V>,
    pos: usize,
    key: &K::SelfType<'_>,
    value: &V::SelfType<'_>,
)
    requires
        layout::leaf_wf(old(m).data@),
        layout::leaf_wf(acc.data@),
        K::encoding(*key).len() + V::encoding(*value).len() + 16 <= usize::MAX,
    ensures
        pos <= layout::leaf_entries(old(m).data@).len() ==> call_requires(
            LeafPageMutator::<'_, K, V>::insert,
            (m, pos, key, value),
        ),
        pos < layout::leaf_entries(old(m).data@).len() && layout::leaf_entries(
            old(m).data@,
        )[pos + 0].0.len() + V::encoding(*value).len() + 16 <= usize::MAX ==> call_requires(
            LeafPageMutator::<'_, K, V>::overwrite_value,
            (m, pos, value),
        ),
        pos < layout::leaf_entries(old(m).data@).len() ==> call_requires(
            LeafPageMutator::<'_, K, V>::remove,
            (m, pos),
        ),
        call_requires(LeafPageMutator::<'_, K, V>::compact, (m,)),
        call_requires(LeafPageAccessor::<'_, K, V>::position, (acc, key)),
        call_requires(LeafPageAccessor::<'_, K, V>::find_key, (acc, key)),
{
}

} // verus!
