//! The byte layout of an internal page, as mathematics.
//!
//! ```text
//! FIXED HEADER, 32 bytes
//!   0  u8   page_type          8  u64  page_id
//!   1  u8   flags             16  u64  lsn
//!   2  u16  num_keys          24  u64  parent_page_id
//!   4  u32  padding
//! SECTION A, child page ids:   child[i]   at 32 + i*8,              (num_keys + 1) entries
//! SECTION B, key end offsets:  key_end[i] at 32 + (num_keys+1)*8 + i*4, num_keys entries
//! SECTION C, key data:         key[i] spans [key_end[i-1], key_end[i]) from the section's start,
//!                              with key_end[-1] == 0
//! ```

use crate::page;
use crate::page::{PageId, INTERNAL, OFF_LSN, OFF_PAGE_ID, PAGE_SIZE};
use vstd::prelude::*;

verus! {

pub const OFF_INT_NUM_KEYS: usize = 2;

pub const OFF_INT_PARENT: usize = 24;

pub const INT_HEADER_SIZE: usize = 32;

// ── Header fields ────────────────────────────────────────────────────────────
pub open spec fn key_count(s: Seq<u8>) -> int {
    page::le16(s, OFF_INT_NUM_KEYS as int)
}

pub open spec fn int_page_id(s: Seq<u8>) -> int {
    page::le64(s, OFF_PAGE_ID as int)
}

pub open spec fn int_lsn(s: Seq<u8>) -> int {
    page::le64(s, OFF_LSN as int)
}

pub open spec fn int_parent(s: Seq<u8>) -> Option<PageId> {
    page::link(page::le64(s, OFF_INT_PARENT as int))
}

/// The header fields other than the key count: type, flags, padding, id, lsn and parent.
pub open spec fn same_identity(s: Seq<u8>, t: Seq<u8>) -> bool {
    &&& t.len() == s.len()
    &&& forall|i: int|
        0 <= i < INT_HEADER_SIZE && !(OFF_INT_NUM_KEYS <= i < OFF_INT_NUM_KEYS + 2)
            ==> #[trigger] t[i] == s[i]
}

// ── Sections ─────────────────────────────────────────────────────────────────
/// Where `child[i]` lies.
pub open spec fn child_at(i: int) -> int {
    INT_HEADER_SIZE + i * 8
}

/// Where section B begins on a page with `n` keys.
pub open spec fn ends_at(n: int) -> int {
    child_at(n + 1)
}

/// Where `key_end[i]` lies on a page with `n` keys.
pub open spec fn end_at(n: int, i: int) -> int {
    ends_at(n) + i * 4
}

/// Where section C begins on a page with `n` keys.
pub open spec fn keys_at(n: int) -> int {
    end_at(n, n)
}

/// `key_end[i]`, with `key_end[-1] == 0`.
pub open spec fn key_end(s: Seq<u8>, i: int) -> int {
    if i < 0 {
        0
    } else {
        page::le32(s, end_at(key_count(s), i))
    }
}

pub open spec fn child(s: Seq<u8>, i: int) -> PageId {
    page::le64(s, child_at(i)) as PageId
}

pub open spec fn key(s: Seq<u8>, i: int) -> Seq<u8> {
    let base = keys_at(key_count(s));
    s.subrange(base + key_end(s, i - 1), base + key_end(s, i))
}

/// The bytes in use: header and all three sections.
pub open spec fn used(s: Seq<u8>) -> int {
    keys_at(key_count(s)) + key_end(s, key_count(s) - 1)
}

/// A well-formed internal page: its key ends never step back, and its sections lie within the
/// page.
pub open spec fn int_wf(s: Seq<u8>) -> bool {
    &&& s.len() >= PAGE_SIZE
    &&& s[0] == INTERNAL
    &&& used(s) <= PAGE_SIZE
    &&& forall|i: int, j: int|
        -1 <= i <= j < key_count(s) ==> #[trigger] key_end(s, i) <= #[trigger] key_end(s, j)
}

/// The children of an internal page, one more than it has keys.
pub open spec fn children(s: Seq<u8>) -> Seq<PageId> {
    Seq::new((key_count(s) + 1) as nat, |i: int| child(s, i))
}

/// The separator keys of an internal page, in bytes.
pub open spec fn keys(s: Seq<u8>) -> Seq<Seq<u8>> {
    Seq::new(key_count(s) as nat, |i: int| key(s, i))
}

/// The bytes of the first `k` keys, summed.
pub open spec fn key_bytes(keys: Seq<Seq<u8>>, k: int) -> int
    decreases k,
{
    if k <= 0 {
        0
    } else {
        key_bytes(keys, k - 1) + keys[k - 1].len()
    }
}

/// The bytes that a page with these keys uses.
pub open spec fn needed(keys: Seq<Seq<u8>>) -> int {
    keys_at(keys.len() as int) + key_bytes(keys, keys.len() as int)
}

/// One more key of this length, and its child, fit the page: 8 bytes for the child id, 4 for the
/// key end and the key itself.
pub open spec fn fits(s: Seq<u8>, key_len: int) -> bool {
    PAGE_SIZE - used(s) >= 8 + 4 + key_len
}

// ── Lemmas ───────────────────────────────────────────────────────────────────
pub proof fn lemma_key_bytes_monotone(keys: Seq<Seq<u8>>, i: int, j: int)
    requires
        0 <= i <= j,
    ensures
        0 <= key_bytes(keys, i) <= key_bytes(keys, j),
    decreases j,
{
    if i < j {
        lemma_key_bytes_monotone(keys, i, j - 1);
    } else if 0 < i {
        lemma_key_bytes_monotone(keys, i - 1, j - 1);
    }
}

pub proof fn lemma_key_bytes_prefix(a: Seq<Seq<u8>>, b: Seq<Seq<u8>>, k: int)
    requires
        forall|p: int| 0 <= p < k ==> a[p] == b[p],
    ensures
        key_bytes(a, k) == key_bytes(b, k),
    decreases k,
{
    if k > 0 {
        lemma_key_bytes_prefix(a, b, k - 1);
    }
}

pub proof fn lemma_key_bytes_insert(keys: Seq<Seq<u8>>, at: int, key: Seq<u8>, k: int)
    requires
        0 <= at <= k <= keys.len(),
    ensures
        key_bytes(keys.insert(at, key), k + 1) == key_bytes(keys, k) + key.len(),
    decreases k,
{
    if k == at {
        lemma_key_bytes_prefix(keys.insert(at, key), keys, at);
    } else {
        lemma_key_bytes_insert(keys, at, key, k - 1);
    }
}

pub proof fn lemma_key_bytes_remove(keys: Seq<Seq<u8>>, at: int, k: int)
    requires
        0 <= at < k <= keys.len(),
    ensures
        key_bytes(keys.remove(at), k - 1) == key_bytes(keys, k) - keys[at].len(),
    decreases k,
{
    if k == at + 1 {
        lemma_key_bytes_prefix(keys.remove(at), keys, at);
    } else {
        lemma_key_bytes_remove(keys, at, k - 1);
    }
}

/// On a well-formed page the key ends are the running totals of the key lengths.
pub proof fn lemma_key_ends(s: Seq<u8>, k: int)
    requires
        int_wf(s),
        0 <= k <= key_count(s),
    ensures
        key_bytes(keys(s), k) == key_end(s, k - 1),
    decreases k,
{
    if k > 0 {
        lemma_key_ends(s, k - 1);
        assert(key_end(s, k - 2) <= key_end(s, k - 1));
        assert(key_end(s, k - 1) <= key_end(s, key_count(s) - 1));
        assert(keys(s)[k - 1].len() == key_end(s, k - 1) - key_end(s, k - 2)) by {
            assert(key_end(s, -1) <= key_end(s, k - 2));
        }
    }
}

/// The bytes in use follow from the keys.
pub proof fn lemma_used(s: Seq<u8>)
    requires
        int_wf(s),
    ensures
        used(s) == needed(keys(s)),
{
    lemma_key_ends(s, key_count(s));
}

/// Sections that were written for `kids` and `ks` make a well-formed page that holds them.
pub proof fn lemma_sections(t: Seq<u8>, kids: Seq<PageId>, ks: Seq<Seq<u8>>)
    requires
        t.len() >= PAGE_SIZE,
        t[0] == INTERNAL,
        key_count(t) == ks.len(),
        kids.len() == ks.len() + 1,
        needed(ks) <= PAGE_SIZE,
        forall|i: int| 0 <= i < kids.len() ==> #[trigger] page::le64(t, child_at(i)) == kids[i],
        forall|i: int|
            0 <= i < ks.len() ==> #[trigger] page::le32(t, end_at(ks.len() as int, i)) == key_bytes(
                ks,
                i + 1,
            ),
        forall|i: int|
            0 <= i < ks.len() ==> t.subrange(
                keys_at(ks.len() as int) + key_bytes(ks, i),
                keys_at(ks.len() as int) + key_bytes(ks, i + 1),
            ) == #[trigger] ks[i],
    ensures
        int_wf(t),
        children(t) == kids,
        keys(t) == ks,
{
    let n = ks.len() as int;
    assert forall|i: int| -1 <= i < n implies #[trigger] key_end(t, i) == key_bytes(ks, i + 1) by {
        if i >= 0 {
            assert(page::le32(t, end_at(n, i)) == key_bytes(ks, i + 1));
        }
    }
    assert forall|i: int, j: int| -1 <= i <= j < key_count(t) implies #[trigger] key_end(t, i)
        <= #[trigger] key_end(t, j) by {
        lemma_key_bytes_monotone(ks, i + 1, j + 1);
    }
    assert forall|i: int| 0 <= i < n implies #[trigger] keys(t)[i] == ks[i] by {
        assert(key_end(t, i) == key_bytes(ks, i + 1));
        assert(key_end(t, i - 1) == key_bytes(ks, i));
        assert(t.subrange(keys_at(n) + key_bytes(ks, i), keys_at(n) + key_bytes(ks, i + 1))
            == ks[i]);
    }
    assert(key_end(t, n - 1) == key_bytes(ks, n));
    assert(keys(t) =~= ks);
    assert forall|i: int| 0 <= i < kids.len() implies #[trigger] children(t)[i] == kids[i] by {
        assert(page::le64(t, child_at(i)) == kids[i]);
    }
    assert(children(t) =~= kids);
}

/// Pages that agree on the key count and on everything from the header's end on hold the same
/// children and keys.
pub proof fn lemma_same_sections(s: Seq<u8>, t: Seq<u8>)
    requires
        int_wf(s),
        t.len() == s.len(),
        t[0] == s[0],
        key_count(t) == key_count(s),
        forall|i: int| INT_HEADER_SIZE <= i < s.len() ==> #[trigger] t[i] == s[i],
    ensures
        int_wf(t),
        children(t) == children(s),
        keys(t) == keys(s),
{
    let n = key_count(s);
    lemma_used(s);
    assert forall|i: int| 0 <= i < n + 1 implies #[trigger] page::le64(t, child_at(i)) == children(
        s,
    )[i] by {}
    assert forall|i: int| 0 <= i < n implies #[trigger] page::le32(t, end_at(n, i)) == key_bytes(
        keys(s),
        i + 1,
    ) by {
        lemma_key_ends(s, i + 1);
        assert(page::le32(t, end_at(n, i)) == key_end(s, i));
    }
    assert forall|i: int| 0 <= i < n implies t.subrange(
        keys_at(n) + key_bytes(keys(s), i),
        keys_at(n) + key_bytes(keys(s), i + 1),
    ) == #[trigger] keys(s)[i] by {
        lemma_key_ends(s, i);
        lemma_key_ends(s, i + 1);
        assert(key_end(s, -1) <= key_end(s, i - 1) <= key_end(s, i) <= key_end(s, n - 1));
        assert(t.subrange(
            keys_at(n) + key_bytes(keys(s), i),
            keys_at(n) + key_bytes(keys(s), i + 1),
        ) =~= keys(s)[i]);
    }
    lemma_sections(t, children(s), keys(s));
}

/// Writing over one child id changes that child and nothing else.
pub proof fn lemma_child_written(s: Seq<u8>, t: Seq<u8>, i: int, id: PageId)
    requires
        int_wf(s),
        0 <= i < key_count(s) + 1,
        page::same_except(s, t, child_at(i), child_at(i) + 8),
        page::le64(t, child_at(i)) == id,
    ensures
        int_wf(t),
        children(t) == children(s).update(i, id),
        keys(t) == keys(s),
{
    let n = key_count(s);
    assert(key_end(s, -1) <= key_end(s, n - 1));
    lemma_used(s);
    assert forall|j: int| 0 <= j < n + 1 implies #[trigger] page::le64(t, child_at(j)) == children(
        s,
    ).update(i, id)[j] by {
        if j != i {
            assert(page::le64(t, child_at(j)) == page::le64(s, child_at(j)));
        }
    }
    assert forall|j: int| 0 <= j < n implies #[trigger] page::le32(t, end_at(n, j)) == key_bytes(
        keys(s),
        j + 1,
    ) by {
        lemma_key_ends(s, j + 1);
        assert(page::le32(t, end_at(n, j)) == key_end(s, j));
    }
    assert forall|j: int| 0 <= j < n implies t.subrange(
        keys_at(n) + key_bytes(keys(s), j),
        keys_at(n) + key_bytes(keys(s), j + 1),
    ) == #[trigger] keys(s)[j] by {
        lemma_key_ends(s, j);
        lemma_key_ends(s, j + 1);
        assert(key_end(s, -1) <= key_end(s, j - 1) <= key_end(s, j) <= key_end(s, n - 1));
        assert(t.subrange(
            keys_at(n) + key_bytes(keys(s), j),
            keys_at(n) + key_bytes(keys(s), j + 1),
        ) =~= keys(s)[j]);
    }
    lemma_sections(t, children(s).update(i, id), keys(s));
}

} // verus!
