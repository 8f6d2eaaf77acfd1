//! Removing versions that no transaction needs any more.

use crate::key::{Key, Value};
use crate::page;
use crate::page::leaf::{LeafPageAccessor, LeafPageBuilder};
use crate::page::leaf_layout as layout;
use crate::page::leaf_layout::Entry;
use crate::page::leaf_space as space;
use crate::page::{Lsn, PageId, PAGE_SIZE};
use crate::transaction_manager::TransactionManager;
use vstd::prelude::*;

pub mod calls;
pub mod laws;

verus! {

/// Who made a version, and who deleted it (0 if nobody did).
#[derive(Debug, Clone, Copy, PartialEq, Eq, Structural)]
pub struct VersionStamp {
    pub xmin: u64,
    pub xmax: u64,
}

/// A version is dead if its creator aborted, for then it was never valid, or if its deleter
/// committed before the horizon, for then no snapshot can reach it any more.
pub open spec fn dead_version(xmin: u64, xmax: u64, tm: TransactionManager) -> bool {
    ||| tm.aborted(xmin)
    ||| xmax != 0 && tm.committed(xmax) && tm.before_horizon(xmax)
}

pub fn is_dead(xmin: u64, xmax: u64, tm: &TransactionManager) -> (dead: bool)
    ensures
        dead == dead_version(xmin, xmax, *tm),
{
    if tm.is_aborted(xmin) {
        return true;
    }
    if xmax == 0 || !tm.is_committed(xmax) {
        return false;
    }
    let horizon: u64 = tm.global_xmin();
    assert(xmax < horizon <==> tm.before_horizon(xmax)) by {
        if !tm.active_txns@.is_empty() {
            assert(tm.active_txns@.contains(horizon));
        }
    }
    xmax < horizon
}

/// Which of the versions on a page are dead.
pub open spec fn dead_versions(stamps: Seq<VersionStamp>, tm: TransactionManager) -> Seq<bool> {
    Seq::new(stamps.len(), |i: int| dead_version(stamps[i].xmin, stamps[i].xmax, tm))
}

/// Those of the first `n` items that are not to be dropped, in order.
pub open spec fn kept<A>(items: Seq<A>, dropped: Seq<bool>, n: int) -> Seq<A>
    decreases n,
{
    if n <= 0 {
        seq![]
    } else if dropped[n - 1] {
        kept(items, dropped, n - 1)
    } else {
        kept(items, dropped, n - 1).push(items[n - 1])
    }
}

/// From page image `s` to page image `t`, and from `stamps` to `stamps_left`, the versions marked in
/// `dropped` go, `gone` in number. If any goes, the page is rebuilt without gaps and without flags as
/// page `page_id`, with the links and the lsn that it had; otherwise nothing changes.
pub open spec fn drops_versions(
    s: Seq<u8>,
    t: Seq<u8>,
    page_id: PageId,
    stamps: Seq<VersionStamp>,
    stamps_left: Seq<VersionStamp>,
    dropped: Seq<bool>,
    gone: int,
) -> bool {
    let n = stamps.len() as int;
    let left = kept(layout::leaf_entries(s), dropped, n);
    &&& gone == n - left.len()
    &&& layout::leaf_wf(t)
    &&& layout::leaf_entries(t) == left
    &&& stamps_left == kept(stamps, dropped, n)
    &&& layout::leaf_lsn(t) == layout::leaf_lsn(s)
    &&& layout::leaf_prev(t) == layout::leaf_prev(s)
    &&& layout::leaf_next(t) == layout::leaf_next(s)
    &&& t.len() == s.len()
    &&& gone == 0 ==> t == s
    &&& gone > 0 ==> {
        &&& layout::leaf_page_id(t) == page_id
        &&& t[1] == 0
        &&& layout::free_end(t) == PAGE_SIZE - space::entry_bytes(left, left.len() as int)
    }
}

/// Whatever the items are, as many are kept as marks say, and no more than there were.
pub proof fn lemma_kept_agree<A, B>(a: Seq<A>, b: Seq<B>, dropped: Seq<bool>, n: int)
    requires
        0 <= n,
    ensures
        kept(a, dropped, n).len() == kept(b, dropped, n).len(),
        kept(a, dropped, n).len() <= n,
    decreases n,
{
    if n > 0 {
        lemma_kept_agree(a, b, dropped, n - 1);
    }
}

/// What is kept needs no more room than everything did.
proof fn lemma_kept_fit(entries: Seq<Entry>, dropped: Seq<bool>, n: int)
    requires
        0 <= n <= entries.len(),
    ensures
        space::entry_bytes(kept(entries, dropped, n), kept(entries, dropped, n).len() as int)
            <= space::entry_bytes(entries, n),
    decreases n,
{
    if n > 0 {
        lemma_kept_fit(entries, dropped, n - 1);
        let before = kept(entries, dropped, n - 1);
        if !dropped[n - 1] {
            space::lemma_entry_bytes_prefix(
                before,
                kept(entries, dropped, n),
                before.len() as int,
            );
        }
    }
}

/// If as many are kept as there were, all are kept.
proof fn lemma_all_kept<A>(items: Seq<A>, dropped: Seq<bool>, n: int)
    requires
        0 <= n <= items.len(),
        kept(items, dropped, n).len() == n,
    ensures
        kept(items, dropped, n) == items.take(n),
    decreases n,
{
    if n > 0 {
        lemma_kept_agree(items, items, dropped, n - 1);
        lemma_all_kept(items, dropped, n - 1);
    }
    assert(kept(items, dropped, n) =~= items.take(n));
}

/// Key and value bytes, on their way from one page image to the next.
type Pair = (Vec<u8>, Vec<u8>);

spec fn entries_of(pairs: Seq<Pair>) -> Seq<Entry> {
    Seq::new(pairs.len(), |i: int| (pairs[i].0@, pairs[i].1@))
}

/// Copies out what is kept of a page, with its stamps.
fn collect_kept<K: Key, V: Value>(
    page_data: &[u8],
    stamps: &Vec<VersionStamp>,
    dropped: &Vec<bool>,
) -> (left: (Vec<Pair>, Vec<VersionStamp>))
    requires
        layout::leaf_wf(page_data@),
        stamps@.len() == layout::slot_count(page_data@),
        dropped@.len() == stamps@.len(),
    ensures
        entries_of(left.0@) == kept(
            layout::leaf_entries(page_data@),
            dropped@,
            stamps@.len() as int,
        ),
        left.1@ == kept(stamps@, dropped@, stamps@.len() as int),
{
    let acc = LeafPageAccessor::<K, V>::new(page_data);
    let ghost entries = layout::leaf_entries(page_data@);
    let mut pairs: Vec<Pair> = Vec::new();
    let mut stamps_left: Vec<VersionStamp> = Vec::new();
    let mut i: usize = 0;
    assert(entries_of(pairs@) =~= kept(entries, dropped@, 0));
    while i < stamps.len()
        invariant
            layout::leaf_wf(page_data@),
            acc.data@ == page_data@,
            entries == layout::leaf_entries(page_data@),
            stamps@.len() == layout::slot_count(page_data@),
            dropped@.len() == stamps@.len(),
            i <= stamps@.len(),
            entries_of(pairs@) == kept(entries, dropped@, i as int),
            stamps_left@ == kept(stamps@, dropped@, i as int),
        decreases stamps@.len() - i,
    {
        if !dropped[i] {
            let ghost before = pairs@;
            pairs.push(
                (
                    vstd::slice::slice_to_vec(acc.key_bytes_at(i)),
                    vstd::slice::slice_to_vec(acc.value_bytes_at(i)),
                ),
            );
            stamps_left.push(stamps[i]);
            assert(entries_of(pairs@) =~= entries_of(before).push(entries[i as int]));
        }
        i = i + 1;
    }
    (pairs, stamps_left)
}

/// Builds a fresh page in `page_data` that holds `pairs` and nothing else.
fn rebuild<K: Key, V: Value>(
    page_data: &mut [u8],
    page_id: PageId,
    lsn: Lsn,
    prev: Option<PageId>,
    next: Option<PageId>,
    pairs: &Vec<Pair>,
)
    requires
        old(page_data)@.len() >= PAGE_SIZE,
        layout::slot_at(pairs@.len() as int) + space::entry_bytes(
            entries_of(pairs@),
            pairs@.len() as int,
        ) <= PAGE_SIZE,
    ensures
        final(page_data)@.len() == old(page_data)@.len(),
        layout::leaf_wf(final(page_data)@),
        layout::leaf_entries(final(page_data)@) == entries_of(pairs@),
        layout::free_end(final(page_data)@) == PAGE_SIZE - space::entry_bytes(
            entries_of(pairs@),
            pairs@.len() as int,
        ),
        layout::leaf_page_id(final(page_data)@) == page_id,
        layout::leaf_lsn(final(page_data)@) == lsn,
        page::le64(final(page_data)@, layout::OFF_LEAF_PREV as int) == page::link_value(prev),
        page::le64(final(page_data)@, layout::OFF_LEAF_NEXT as int) == page::link_value(next),
        final(page_data)@[1] == 0,
{
    let ghost entries = entries_of(pairs@);
    let mut builder = LeafPageBuilder::<K, V>::new(page_id, page_data);
    builder.set_next_page(next);
    builder.set_prev_page(prev);
    let ghost header = builder.data@;
    let ghost end = final(builder.data)@;
    let mut i: usize = 0;
    while i < pairs.len()
        invariant
            i <= pairs@.len(),
            entries == entries_of(pairs@),
            layout::slot_at(pairs@.len() as int) + space::entry_bytes(entries, pairs@.len() as int)
                <= PAGE_SIZE,
            builder.wf(),
            layout::leaf_entries(builder.data@) == entries.take(i as int),
            layout::free_end(builder.data@) == PAGE_SIZE - space::entry_bytes(entries, i as int),
            layout::same_identity(header, builder.data@),
            final(builder.data)@ == end,
        decreases pairs@.len() - i,
    {
        proof {
            lemma_entry_bytes_grow(entries, i + 1, pairs@.len() as int);
            assert(layout::leaf_entries(builder.data@).len() == i);
            assert(layout::slot_count(builder.data@) == i);
        }
        builder.push_bytes(pairs[i].0.as_slice(), pairs[i].1.as_slice());
        assert(entries.take(i + 1) =~= entries.take(i as int).push(entries[i as int]));
        i = i + 1;
    }
    assert(entries.take(pairs@.len() as int) =~= entries);
    let mut m = builder.finish();
    m.set_lsn(lsn);
}

proof fn lemma_entry_bytes_grow(entries: Seq<Entry>, a: int, b: int)
    requires
        0 <= a <= b <= entries.len(),
    ensures
        space::entry_bytes(entries, a) <= space::entry_bytes(entries, b),
    decreases b,
{
    if a < b {
        lemma_entry_bytes_grow(entries, a, b - 1);
    }
}

/// Drops the marked versions from a leaf page and says how many there were.
fn drop_versions<K: Key, V: Value>(
    page_data: &mut [u8],
    page_id: PageId,
    stamps: &mut Vec<VersionStamp>,
    dropped: &Vec<bool>,
) -> (gone: usize)
    requires
        layout::leaf_wf(old(page_data)@),
        old(stamps)@.len() == layout::leaf_entries(old(page_data)@).len(),
        dropped@.len() == old(stamps)@.len(),
    ensures
        drops_versions(
            old(page_data)@,
            final(page_data)@,
            page_id,
            old(stamps)@,
            final(stamps)@,
            dropped@,
            gone as int,
        ),
{
    let ghost s = page_data@;
    let ghost all = stamps@;
    let ghost entries = layout::leaf_entries(s);
    let (pairs, stamps_left) = collect_kept::<K, V>(page_data, stamps, dropped);
    proof {
        lemma_kept_agree(entries, all, dropped@, all.len() as int);
        lemma_kept_fit(entries, dropped@, all.len() as int);
    }
    let gone: usize = stamps.len() - stamps_left.len();
    if gone == 0 {
        proof {
            lemma_all_kept(entries, dropped@, all.len() as int);
            lemma_all_kept(all, dropped@, all.len() as int);
            assert(entries.take(all.len() as int) =~= entries);
            assert(all.take(all.len() as int) =~= all);
        }
        return 0;
    }
    let acc = LeafPageAccessor::<K, V>::new(page_data);
    let lsn: Lsn = acc.lsn();
    let prev = acc.prev_page();
    let next = acc.next_page();
    proof {
        space::lemma_live_bytes_fit(s);
        space::lemma_live_is_entries(s, all.len() as int);
        assert(pairs@.len() == entries_of(pairs@).len());
    }
    rebuild::<K, V>(page_data, page_id, lsn, prev, next, &pairs);
    *stamps = stamps_left;
    gone
}

/// Removes the dead versions from a leaf page and says how many there were. `stamps[i]` belongs to
/// slot `i`, before and after. The page is rebuilt without gaps under `page_id`, with the links and
/// the lsn that it had; if nothing is dead, it is left alone.
pub fn compact_leaf_page<K: Key, V: Value>(
    page_data: &mut [u8],
    page_id: PageId,
    stamps: &mut Vec<VersionStamp>,
    tm: &TransactionManager,
) -> (dead: usize)
    requires
        layout::leaf_wf(old(page_data)@),
        old(stamps)@.len() == layout::leaf_entries(old(page_data)@).len(),
    ensures
        drops_versions(
            old(page_data)@,
            final(page_data)@,
            page_id,
            old(stamps)@,
            final(stamps)@,
            dead_versions(old(stamps)@, *tm),
            dead as int,
        ),
{
    let mut dropped: Vec<bool> = Vec::new();
    while dropped.len() < stamps.len()
        invariant
            dropped@.len() <= stamps@.len(),
            dropped@ == dead_versions(stamps@, *tm).take(dropped@.len() as int),
        decreases stamps@.len() - dropped@.len(),
    {
        let stamp = stamps[dropped.len()];
        dropped.push(is_dead(stamp.xmin, stamp.xmax, tm));
        assert(dropped@ =~= dead_versions(stamps@, *tm).take(dropped@.len() as int));
    }
    assert(dropped@ =~= dead_versions(stamps@, *tm));
    drop_versions::<K, V>(page_data, page_id, stamps, &dropped)
}

} // verus!
