//! How much room the records of a leaf page take: exactly what their entries need, and never more
//! than the record area has.

use crate::page;
use crate::page::leaf_layout as layout;
use crate::page::leaf_layout::Entry;
use crate::page::PAGE_SIZE;
use vstd::prelude::*;

verus! {

/// The record bytes that the first `n` of `entries` need.
pub open spec fn entry_bytes(entries: Seq<Entry>, n: int) -> int
    decreases n,
{
    if n <= 0 {
        0
    } else {
        entry_bytes(entries, n - 1) + layout::record_size(
            entries[n - 1].0.len() as int,
            entries[n - 1].1.len() as int,
        )
    }
}

/// A stretch of the page: where it begins and how long it is.
type Stretch = (int, int);

spec fn sum(stretches: Seq<Stretch>) -> int
    decreases stretches.len(),
{
    if stretches.len() == 0 {
        0
    } else {
        sum(stretches.drop_last()) + stretches.last().1
    }
}

/// The stretches are not empty, lie in `[lo, hi)` and do not overlap.
spec fn apart(stretches: Seq<Stretch>, lo: int, hi: int) -> bool {
    &&& forall|i: int|
        0 <= i < stretches.len() ==> {
            &&& lo <= (#[trigger] stretches[i]).0
            &&& stretches[i].1 > 0
            &&& stretches[i].0 + stretches[i].1 <= hi
        }
    &&& forall|i: int, j: int|
        0 <= i < j < stretches.len() ==> {
            ||| (#[trigger] stretches[i]).0 + stretches[i].1 <= (#[trigger] stretches[j]).0
            ||| stretches[j].0 + stretches[j].1 <= stretches[i].0
        }
}

proof fn lemma_sum_remove(stretches: Seq<Stretch>, at: int)
    requires
        0 <= at < stretches.len(),
    ensures
        sum(stretches) == sum(stretches.remove(at)) + stretches[at].1,
    decreases stretches.len(),
{
    if at == stretches.len() - 1 {
        assert(stretches.remove(at) =~= stretches.drop_last());
    } else {
        lemma_sum_remove(stretches.drop_last(), at);
        assert(stretches.remove(at).drop_last() =~= stretches.drop_last().remove(at));
        assert(stretches.remove(at).last() == stretches.last());
    }
}

/// Among the first `n` stretches there is one that begins last.
proof fn lemma_topmost(stretches: Seq<Stretch>, n: int) -> (at: int)
    requires
        0 < n <= stretches.len(),
    ensures
        0 <= at < n,
        forall|i: int| 0 <= i < n ==> (#[trigger] stretches[i]).0 <= stretches[at].0,
    decreases n,
{
    if n == 1 {
        0
    } else {
        let below = lemma_topmost(stretches, n - 1);
        if stretches[n - 1].0 > stretches[below].0 {
            n - 1
        } else {
            below
        }
    }
}

/// Stretches that do not overlap have no more room than what they lie in.
proof fn lemma_apart_fit(stretches: Seq<Stretch>, lo: int, hi: int)
    requires
        apart(stretches, lo, hi),
        lo <= hi,
    ensures
        sum(stretches) <= hi - lo,
    decreases stretches.len(),
{
    if stretches.len() > 0 {
        let at = lemma_topmost(stretches, stretches.len() as int);
        let top = stretches[at];
        let others = stretches.remove(at);
        assert forall|i: int| 0 <= i < others.len() implies {
            &&& lo <= (#[trigger] others[i]).0
            &&& others[i].1 > 0
            &&& others[i].0 + others[i].1 <= top.0
        } by {
            let o = if i < at { i } else { i + 1 };
            assert(others[i] == stretches[o]);
        }
        assert forall|i: int, j: int| 0 <= i < j < others.len() implies {
            ||| (#[trigger] others[i]).0 + others[i].1 <= (#[trigger] others[j]).0
            ||| others[j].0 + others[j].1 <= others[i].0
        } by {
            let oi = if i < at { i } else { i + 1 };
            let oj = if j < at { j } else { j + 1 };
            assert(others[i] == stretches[oi] && others[j] == stretches[oj]);
        }
        lemma_apart_fit(others, lo, top.0);
        lemma_sum_remove(stretches, at);
    }
}

spec fn stretches_of(s: Seq<u8>, n: int) -> Seq<Stretch> {
    Seq::new(n as nat, |i: int| (layout::slot_base(s, i), layout::slot_size(s, i)))
}

proof fn lemma_sum_is_live(s: Seq<u8>, n: int)
    requires
        0 <= n,
    ensures
        sum(stretches_of(s, n)) == layout::live_bytes_of(s, n),
    decreases n,
{
    if n > 0 {
        lemma_sum_is_live(s, n - 1);
        assert(stretches_of(s, n).drop_last() =~= stretches_of(s, n - 1));
    }
}

/// The records of a page fit its record area.
pub proof fn lemma_live_bytes_fit(s: Seq<u8>)
    requires
        layout::leaf_wf(s),
    ensures
        0 <= layout::live_bytes(s) <= PAGE_SIZE - layout::free_end(s),
{
    let n = layout::slot_count(s);
    let all = stretches_of(s, n);
    assert forall|i: int| 0 <= i < all.len() implies {
        &&& layout::free_end(s) <= (#[trigger] all[i]).0
        &&& all[i].1 > 0
        &&& all[i].0 + all[i].1 <= PAGE_SIZE
    } by {
        assert(layout::slot_ok(s, i));
    }
    assert forall|i: int, j: int| 0 <= i < j < all.len() implies {
        ||| (#[trigger] all[i]).0 + all[i].1 <= (#[trigger] all[j]).0
        ||| all[j].0 + all[j].1 <= all[i].0
    } by {
        assert(layout::records_apart(s, i, j));
    }
    lemma_apart_fit(all, layout::free_end(s), PAGE_SIZE as int);
    lemma_sum_is_live(s, n);
    lemma_live_is_entries(s, n);
    lemma_entry_bytes_bound(layout::leaf_entries(s), n);
}

/// A record is exactly as large as its entry needs.
pub proof fn lemma_live_is_entries(s: Seq<u8>, n: int)
    requires
        layout::leaf_wf(s),
        0 <= n <= layout::slot_count(s),
    ensures
        layout::live_bytes_of(s, n) == entry_bytes(layout::leaf_entries(s), n),
    decreases n,
{
    if n > 0 {
        lemma_live_is_entries(s, n - 1);
        assert(layout::slot_ok(s, n - 1));
        let r = layout::record(s, n - 1);
        assert(r.len() == layout::slot_size(s, n - 1));
        assert(layout::record_key(r).len() == page::le16(r, 0));
        assert(layout::record_value(r).len() == page::le16(r, 2));
    }
}

/// Every entry needs a record header at least.
pub proof fn lemma_entry_bytes_bound(entries: Seq<Entry>, n: int)
    requires
        0 <= n <= entries.len(),
    ensures
        entry_bytes(entries, n) >= 8 * n,
    decreases n,
{
    if n > 0 {
        lemma_entry_bytes_bound(entries, n - 1);
    }
}

/// What the first `n` entries need depends on them alone.
pub proof fn lemma_entry_bytes_prefix(a: Seq<Entry>, b: Seq<Entry>, n: int)
    requires
        forall|i: int| 0 <= i < n ==> a[i] == b[i],
    ensures
        entry_bytes(a, n) == entry_bytes(b, n),
    decreases n,
{
    if n > 0 {
        lemma_entry_bytes_prefix(a, b, n - 1);
    }
}

} // verus!
