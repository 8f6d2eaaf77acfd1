//! The byte layout of a leaf page, as mathematics: where slots and records lie, when a page is
//! well formed, and which entries it holds.
//!
//! ```text
//! FIXED HEADER, 40 bytes
//!   0  u8   page_type          8  u64  page_id
//!   1  u8   flags             16  u64  lsn
//!   2  u16  slot_count        24  u64  prev_page
//!   4  u16  free_start        32  u64  next_page
//!   6  u16  free_end
//! SLOT DIRECTORY, grows up:  slot[i] = (offset: u16, rec_size: u16) at 40 + i*4
//! free space, free_end - free_start bytes
//! RECORD AREA, grows down:   k_len u16 | v_len u16 | flags u8 | 3 pad | key | pad to 2 | value | pad to 2
//! ```

use crate::page;
use crate::page::{PageId, LEAF, OFF_LSN, OFF_PAGE_ID, PAGE_SIZE};
use vstd::prelude::*;

verus! {

pub const OFF_LEAF_SLOT_COUNT: usize = 2;

pub const OFF_LEAF_FREE_START: usize = 4;

pub const OFF_LEAF_FREE_END: usize = 6;

pub const OFF_LEAF_PREV: usize = 24;

pub const OFF_LEAF_NEXT: usize = 32;

pub const LEAF_HEADER_SIZE: usize = 40;

/// u16 offset and u16 record size.
pub const SLOT_SIZE: usize = 4;

pub const REC_OFF_KEY_LEN: usize = 0;

pub const REC_OFF_VAL_LEN: usize = 2;

pub const REC_OFF_FLAGS: usize = 4;

/// Padded to 8 bytes for cache alignment.
pub const REC_HEADER_SIZE: usize = 8;

/// An entry as the page holds it: key bytes and value bytes.
pub type Entry = (Seq<u8>, Seq<u8>);

/// `n` rounded up to the next even number.
pub open spec fn even_up(n: int) -> int {
    n + n % 2
}

/// The bytes a record takes in the record area.
pub open spec fn record_size(key_len: int, val_len: int) -> int {
    even_up(REC_HEADER_SIZE + even_up(key_len) + val_len)
}

/// Size arithmetic on a key and a value of these lengths stays within `usize`.
pub open spec fn lengths_fit(key_len: int, val_len: int) -> bool {
    key_len + val_len + 16 <= usize::MAX
}

// ── Header fields ────────────────────────────────────────────────────────────
pub open spec fn slot_count(s: Seq<u8>) -> int {
    page::le16(s, OFF_LEAF_SLOT_COUNT as int)
}

pub open spec fn free_start(s: Seq<u8>) -> int {
    page::le16(s, OFF_LEAF_FREE_START as int)
}

pub open spec fn free_end(s: Seq<u8>) -> int {
    page::le16(s, OFF_LEAF_FREE_END as int)
}

pub open spec fn leaf_page_id(s: Seq<u8>) -> int {
    page::le64(s, OFF_PAGE_ID as int)
}

pub open spec fn leaf_lsn(s: Seq<u8>) -> int {
    page::le64(s, OFF_LSN as int)
}

pub open spec fn leaf_prev(s: Seq<u8>) -> Option<PageId> {
    page::link(page::le64(s, OFF_LEAF_PREV as int))
}

pub open spec fn leaf_next(s: Seq<u8>) -> Option<PageId> {
    page::link(page::le64(s, OFF_LEAF_NEXT as int))
}

/// The header fields that say which page this is and where it hangs in the tree: type, flags,
/// id, lsn and both links.
pub open spec fn same_identity(s: Seq<u8>, t: Seq<u8>) -> bool {
    &&& t.len() == s.len()
    &&& t[0] == s[0]
    &&& t[1] == s[1]
    &&& forall|i: int| OFF_PAGE_ID <= i < LEAF_HEADER_SIZE ==> #[trigger] t[i] == s[i]
}

// ── Slots and records ────────────────────────────────────────────────────────
/// Where slot `i` lies.
pub open spec fn slot_at(i: int) -> int {
    LEAF_HEADER_SIZE + i * SLOT_SIZE
}

/// Where the record of slot `i` begins.
pub open spec fn slot_base(s: Seq<u8>, i: int) -> int {
    page::le16(s, slot_at(i))
}

/// The size of the record of slot `i`.
pub open spec fn slot_size(s: Seq<u8>, i: int) -> int {
    page::le16(s, slot_at(i) + 2)
}

/// The bytes of the record of slot `i`.
pub open spec fn record(s: Seq<u8>, i: int) -> Seq<u8> {
    s.subrange(slot_base(s, i), slot_base(s, i) + slot_size(s, i))
}

/// A record's size agrees with the lengths in its header.
pub open spec fn record_ok(r: Seq<u8>) -> bool {
    &&& REC_HEADER_SIZE <= r.len()
    &&& r.len() == record_size(page::le16(r, 0), page::le16(r, 2))
}

pub open spec fn record_key(r: Seq<u8>) -> Seq<u8> {
    r.subrange(REC_HEADER_SIZE as int, REC_HEADER_SIZE + page::le16(r, 0))
}

pub open spec fn record_value(r: Seq<u8>) -> Seq<u8> {
    let at = REC_HEADER_SIZE + even_up(page::le16(r, 0));
    r.subrange(at, at + page::le16(r, 2))
}

pub open spec fn record_entry(r: Seq<u8>) -> Entry {
    (record_key(r), record_value(r))
}

/// Where the value of slot `i` begins.
pub open spec fn value_at(s: Seq<u8>, i: int) -> int {
    slot_base(s, i) + REC_HEADER_SIZE + even_up(page::le16(record(s, i), 0))
}

/// The records of slots `i` and `j` share no byte.
pub open spec fn records_apart(s: Seq<u8>, i: int, j: int) -> bool {
    ||| slot_base(s, i) + slot_size(s, i) <= slot_base(s, j)
    ||| slot_base(s, j) + slot_size(s, j) <= slot_base(s, i)
}

/// The record of slot `i` lies in the record area and is sound.
pub open spec fn slot_ok(s: Seq<u8>, i: int) -> bool {
    &&& free_end(s) <= slot_base(s, i)
    &&& slot_base(s, i) + slot_size(s, i) <= PAGE_SIZE
    &&& record_ok(record(s, i))
}

/// A well-formed leaf page: a dense slot directory that ends where free space begins, and
/// pairwise disjoint, sound records above free space.
pub open spec fn leaf_wf(s: Seq<u8>) -> bool {
    &&& s.len() >= PAGE_SIZE
    &&& s[0] == LEAF
    &&& free_start(s) == slot_at(slot_count(s))
    &&& free_start(s) <= free_end(s) <= PAGE_SIZE
    &&& forall|i: int| 0 <= i < slot_count(s) ==> #[trigger] slot_ok(s, i)
    &&& forall|i: int, j: int|
        0 <= i < j < slot_count(s) ==> #[trigger] records_apart(s, i, j)
}

/// What a leaf page holds, in slot order.
pub open spec fn leaf_entries(s: Seq<u8>) -> Seq<Entry> {
    Seq::new(slot_count(s) as nat, |i: int| record_entry(record(s, i)))
}

/// The bytes that the records of the first `n` slots take.
pub open spec fn live_bytes_of(s: Seq<u8>, n: int) -> int
    decreases n,
{
    if n <= 0 {
        0
    } else {
        live_bytes_of(s, n - 1) + slot_size(s, n - 1)
    }
}

/// The bytes that all records take.
pub open spec fn live_bytes(s: Seq<u8>) -> int {
    live_bytes_of(s, slot_count(s))
}

/// The contiguous free bytes of a page.
pub open spec fn gap(s: Seq<u8>) -> int {
    free_end(s) - free_start(s)
}

/// The free bytes of a page, dead records included.
pub open spec fn room(s: Seq<u8>) -> int {
    PAGE_SIZE - slot_at(slot_count(s)) - live_bytes(s)
}

/// A pair of these lengths fits the free gap, slot included.
pub open spec fn fits_gap(s: Seq<u8>, key_len: int, val_len: int) -> bool {
    gap(s) >= SLOT_SIZE + record_size(key_len, val_len)
}

/// A pair of these lengths fits the page once its dead records are reclaimed.
pub open spec fn fits_room(s: Seq<u8>, key_len: int, val_len: int) -> bool {
    room(s) >= SLOT_SIZE + record_size(key_len, val_len)
}

/// The records of a page leave no gap between them.
pub open spec fn is_packed(s: Seq<u8>) -> bool {
    free_end(s) == PAGE_SIZE - live_bytes(s)
}

/// `t` is page `s` compacted: the same entries in the same slots, every record moved whole and in the
/// order in which they lay, with no gap between them. A page that was packed is left as it is.
pub open spec fn compacts(s: Seq<u8>, t: Seq<u8>) -> bool {
    &&& leaf_wf(t)
    &&& leaf_entries(t) == leaf_entries(s)
    &&& same_identity(s, t)
    &&& free_end(t) == PAGE_SIZE - live_bytes(s)
    &&& live_bytes(t) == live_bytes(s)
    &&& forall|i: int| 0 <= i < slot_count(s) ==> #[trigger] record(t, i) == record(s, i)
    &&& forall|i: int, j: int|
        0 <= i < slot_count(s) && 0 <= j < slot_count(s) && #[trigger] slot_base(s, i)
            < #[trigger] slot_base(s, j) ==> slot_base(t, i) < slot_base(t, j)
    &&& is_packed(s) ==> t == s
}

// ── Lemmas ───────────────────────────────────────────────────────────────────
/// A record that was not written over, and whose slot still points at it, is unchanged.
pub proof fn lemma_record_kept(s: Seq<u8>, i: int, t: Seq<u8>, j: int)
    requires
        slot_base(t, j) == slot_base(s, i),
        slot_size(t, j) == slot_size(s, i),
        0 <= slot_base(s, i),
        slot_base(s, i) + slot_size(s, i) <= s.len(),
        t.len() == s.len(),
        forall|k: int|
            slot_base(s, i) <= k < slot_base(s, i) + slot_size(s, i) ==> #[trigger] t[k] == s[k],
    ensures
        record(t, j) == record(s, i),
{
    assert(record(t, j) =~= record(s, i));
}

/// A fresh record just below free space, with a slot for it at `pos`, adds an entry there.
pub proof fn lemma_after_insert(s: Seq<u8>, t: Seq<u8>, pos: int, e: Entry)
    requires
        leaf_wf(s),
        t.len() == s.len(),
        t[0] == s[0],
        0 <= pos <= slot_count(s),
        slot_count(t) == slot_count(s) + 1,
        free_start(t) == free_start(s) + SLOT_SIZE,
        free_start(t) <= free_end(t),
        free_end(t) + slot_size(t, pos) == free_end(s),
        slot_base(t, pos) == free_end(t),
        forall|i: int|
            0 <= i < pos ==> #[trigger] slot_base(t, i) == slot_base(s, i) && slot_size(t, i)
                == slot_size(s, i),
        forall|i: int|
            pos < i < slot_count(t) ==> #[trigger] slot_base(t, i) == slot_base(s, i - 1)
                && slot_size(t, i) == slot_size(s, i - 1),
        forall|k: int| free_end(s) <= k < PAGE_SIZE ==> #[trigger] t[k] == s[k],
        record_ok(record(t, pos)),
        record_entry(record(t, pos)) == e,
    ensures
        leaf_wf(t),
        leaf_entries(t) == leaf_entries(s).insert(pos, e),
{
    let n = slot_count(s);
    assert forall|i: int| 0 <= i < slot_count(t) implies #[trigger] slot_ok(t, i) && (i != pos ==> {
        let o = if i < pos { i } else { i - 1 };
        record(t, i) == record(s, o) && slot_base(t, i) == slot_base(s, o) && slot_size(t, i)
            == slot_size(s, o) && free_end(s) <= slot_base(s, o)
    }) by {
        if i != pos {
            let o = if i < pos { i } else { i - 1 };
            assert(slot_ok(s, o));
            assert(slot_base(t, i) == slot_base(s, o));
            lemma_record_kept(s, o, t, i);
        }
    }
    assert forall|i: int, j: int| 0 <= i < j < slot_count(t) implies #[trigger] records_apart(
        t,
        i,
        j,
    ) by {
        assert(slot_ok(t, i) && slot_ok(t, j));
        if i != pos && j != pos {
            let oi = if i < pos { i } else { i - 1 };
            let oj = if j < pos { j } else { j - 1 };
            assert(records_apart(s, oi, oj));
        }
    }
    assert forall|i: int| 0 <= i < slot_count(t) implies leaf_entries(t)[i] == leaf_entries(
        s,
    ).insert(pos, e)[i] by {
        assert(slot_ok(t, i));
    }
    assert(leaf_entries(t) =~= leaf_entries(s).insert(pos, e));
}

/// A new record for slot `pos`, either in the place of the old one or just below free space,
/// replaces that entry and no other.
pub proof fn lemma_after_replace(s: Seq<u8>, t: Seq<u8>, pos: int, e: Entry)
    requires
        leaf_wf(s),
        t.len() == s.len(),
        t[0] == s[0],
        0 <= pos < slot_count(s),
        slot_count(t) == slot_count(s),
        free_start(t) == free_start(s),
        free_start(t) <= free_end(t),
        ({
            ||| slot_base(t, pos) == slot_base(s, pos) && slot_size(t, pos) == slot_size(s, pos)
                && free_end(t) == free_end(s)
            ||| slot_base(t, pos) == free_end(t) && free_end(t) + slot_size(t, pos) == free_end(s)
        }),
        forall|i: int|
            0 <= i < slot_count(s) && i != pos ==> #[trigger] slot_base(t, i) == slot_base(s, i)
                && slot_size(t, i) == slot_size(s, i),
        forall|k: int|
            free_end(s) <= k < PAGE_SIZE && !(slot_base(s, pos) <= k < slot_base(s, pos)
                + slot_size(s, pos)) ==> #[trigger] t[k] == s[k],
        record_ok(record(t, pos)),
        record_entry(record(t, pos)) == e,
    ensures
        leaf_wf(t),
        leaf_entries(t) == leaf_entries(s).update(pos, e),
{
    assert(slot_ok(s, pos));
    assert forall|i: int| 0 <= i < slot_count(t) implies #[trigger] slot_ok(t, i) && (i != pos ==> {
        record(t, i) == record(s, i) && slot_base(t, i) == slot_base(s, i) && slot_size(t, i)
            == slot_size(s, i) && free_end(s) <= slot_base(s, i)
    }) by {
        if i != pos {
            assert(slot_ok(s, i));
            assert(slot_base(t, i) == slot_base(s, i));
            if i < pos {
                assert(records_apart(s, i, pos));
            } else {
                assert(records_apart(s, pos, i));
            }
            lemma_record_kept(s, i, t, i);
        }
    }
    assert forall|i: int, j: int| 0 <= i < j < slot_count(t) implies #[trigger] records_apart(
        t,
        i,
        j,
    ) by {
        assert(slot_ok(t, i) && slot_ok(t, j));
        assert(records_apart(s, i, j));
    }
    assert forall|i: int| 0 <= i < slot_count(t) implies leaf_entries(t)[i] == leaf_entries(
        s,
    ).update(pos, e)[i] by {
        assert(slot_ok(t, i));
    }
    assert(leaf_entries(t) =~= leaf_entries(s).update(pos, e));
}

/// Closing the gap that slot `pos` leaves in the directory removes that entry and no other.
pub proof fn lemma_after_remove(s: Seq<u8>, t: Seq<u8>, pos: int)
    requires
        leaf_wf(s),
        t.len() == s.len(),
        t[0] == s[0],
        0 <= pos < slot_count(s),
        slot_count(t) == slot_count(s) - 1,
        free_start(t) == free_start(s) - SLOT_SIZE,
        free_end(t) == free_end(s),
        forall|i: int|
            0 <= i < pos ==> #[trigger] slot_base(t, i) == slot_base(s, i) && slot_size(t, i)
                == slot_size(s, i),
        forall|i: int|
            pos <= i < slot_count(t) ==> #[trigger] slot_base(t, i) == slot_base(s, i + 1)
                && slot_size(t, i) == slot_size(s, i + 1),
        forall|k: int| free_end(s) <= k < PAGE_SIZE ==> #[trigger] t[k] == s[k],
    ensures
        leaf_wf(t),
        leaf_entries(t) == leaf_entries(s).remove(pos),
{
    assert forall|i: int| 0 <= i < slot_count(t) implies #[trigger] slot_ok(t, i) && {
        let o = if i < pos { i } else { i + 1 };
        record(t, i) == record(s, o) && slot_base(t, i) == slot_base(s, o) && slot_size(t, i)
            == slot_size(s, o)
    } by {
        let o = if i < pos { i } else { i + 1 };
        assert(slot_ok(s, o));
        assert(slot_base(t, i) == slot_base(s, o));
        lemma_record_kept(s, o, t, i);
    }
    assert forall|i: int, j: int| 0 <= i < j < slot_count(t) implies #[trigger] records_apart(
        t,
        i,
        j,
    ) by {
        assert(slot_ok(t, i) && slot_ok(t, j));
        let oi = if i < pos { i } else { i + 1 };
        let oj = if j < pos { j } else { j + 1 };
        assert(records_apart(s, oi, oj));
    }
    assert forall|i: int| 0 <= i < slot_count(t) implies leaf_entries(t)[i] == leaf_entries(
        s,
    ).remove(pos)[i] by {
        assert(slot_ok(t, i));
    }
    assert(leaf_entries(t) =~= leaf_entries(s).remove(pos));
}

/// Records that were moved whole, without overlap and above free space, leave the entries as
/// they were.
pub proof fn lemma_after_moves(s: Seq<u8>, t: Seq<u8>)
    requires
        leaf_wf(s),
        t.len() == s.len(),
        t[0] == s[0],
        slot_count(t) == slot_count(s),
        free_start(t) == free_start(s),
        free_start(t) <= free_end(t) <= PAGE_SIZE,
        forall|i: int|
            0 <= i < slot_count(s) ==> free_end(t) <= #[trigger] slot_base(t, i) && slot_base(t, i)
                + slot_size(t, i) <= PAGE_SIZE && record(t, i) == record(s, i),
        forall|i: int, j: int|
            0 <= i < j < slot_count(s) ==> #[trigger] records_apart(t, i, j),
    ensures
        leaf_wf(t),
        leaf_entries(t) == leaf_entries(s),
{
    assert forall|i: int| 0 <= i < slot_count(t) implies #[trigger] slot_ok(t, i) by {
        assert(slot_ok(s, i));
        assert(free_end(t) <= slot_base(t, i));
    }
    assert forall|i: int| 0 <= i < slot_count(t) implies leaf_entries(t)[i] == leaf_entries(s)[i] by {
        assert(free_end(t) <= slot_base(t, i));
    }
    assert(leaf_entries(t) =~= leaf_entries(s));
}

/// Equal slot sizes sum up to equal totals.
pub proof fn lemma_live_bytes_same(s: Seq<u8>, t: Seq<u8>, n: int)
    requires
        forall|i: int| 0 <= i < n ==> #[trigger] slot_size(t, i) == slot_size(s, i),
    ensures
        live_bytes_of(t, n) == live_bytes_of(s, n),
    decreases n,
{
    if n > 0 {
        lemma_live_bytes_same(s, t, n - 1);
        assert(slot_size(t, n - 1) == slot_size(s, n - 1));
    }
}

/// Changing id, lsn or links leaves the directory, the records and the entries alone.
pub proof fn lemma_identity_write(s: Seq<u8>, t: Seq<u8>, lo: int, hi: int)
    requires
        s.len() >= LEAF_HEADER_SIZE,
        OFF_PAGE_ID <= lo <= hi <= LEAF_HEADER_SIZE,
        page::same_except(s, t, lo, hi),
    ensures
        leaf_wf(s) ==> leaf_wf(t),
        leaf_wf(s) ==> leaf_entries(t) == leaf_entries(s),
        slot_count(t) == slot_count(s),
        free_start(t) == free_start(s),
        free_end(t) == free_end(s),
{
    if leaf_wf(s) {
        assert forall|i: int| 0 <= i < slot_count(s) implies free_end(t) <= #[trigger] slot_base(
            t,
            i,
        ) && slot_base(t, i) + slot_size(t, i) <= PAGE_SIZE && record(t, i) == record(s, i)
            && slot_base(t, i) == slot_base(s, i) && slot_size(t, i) == slot_size(s, i) by {
            assert(slot_ok(s, i));
            lemma_record_kept(s, i, t, i);
        }
        assert forall|i: int, j: int| 0 <= i < j < slot_count(s) implies #[trigger] records_apart(
            t,
            i,
            j,
        ) by {
            assert(records_apart(s, i, j));
            assert(free_end(t) <= slot_base(t, i) && free_end(t) <= slot_base(t, j));
        }
        lemma_after_moves(s, t);
    }
}

} // verus!
