//! What vacuum finds dead and what it leaves of a page, version by version.

use crate::key::{Key, Value};
use crate::page;
use crate::page::leaf_layout as layout;
use crate::page::leaf_space as space;
use crate::page::PageId;
use crate::transaction_manager::{TransactionManager, TransactionStatus};
use crate::vacuum;
use crate::vacuum::{compact_leaf_page, is_dead, VersionStamp};
use vstd::prelude::*;

verus! {

/// A version is dead exactly when the log calls its creator aborted, or when it has a deleter that the
/// log calls committed and that is older than every active transaction and than the next one.
pub proof fn law_is_dead(xmin: u64, xmax: u64, tm: &TransactionManager, dead: bool)
    requires
        tm.wf(),
        call_ensures(is_dead, (xmin, xmax, tm), dead),
    ensures
        ({
            let creator_aborted = tm.clog@.contains_key(xmin) && tm.clog@[xmin]
                == TransactionStatus::Aborted;
            let deleter_committed = xmax != 0 && tm.clog@.contains_key(xmax) && tm.clog@[xmax]
                == TransactionStatus::Committed;
            let past = xmax < tm.next_txn_id && forall|t: u64| #[trigger]
                tm.active_txns@.contains(t) ==> xmax < t;
            dead <==> creator_aborted || (deleter_committed && past)
        }),
{
    if !tm.active_txns@.is_empty() {
        let o = tm.active_txns@.choose();
        assert(tm.active_txns@.contains(o));
    }
}

/// The spec name for a dead version means the same.
pub proof fn law_dead_version(xmin: u64, xmax: u64, tm: TransactionManager, t: u64)
    ensures
        tm.clog@.contains_key(xmin) && tm.clog@[xmin] == TransactionStatus::Aborted
            ==> vacuum::dead_version(xmin, xmax, tm),
        vacuum::dead_version(xmin, xmax, tm) && !(tm.clog@.contains_key(xmin) && tm.clog@[xmin]
            == TransactionStatus::Aborted) ==> {
            &&& xmax != 0
            &&& tm.clog@.contains_key(xmax)
            &&& tm.clog@[xmax] == TransactionStatus::Committed
            &&& tm.active_txns@.contains(t) ==> xmax < t
            &&& tm.active_txns@.is_empty() ==> xmax < tm.next_txn_id
        },
{
    if tm.active_txns@.contains(t) {
        assert(!tm.active_txns@.is_empty());
    }
}

/// How many of the first `n` are not marked.
pub open spec fn unmarked(marks: Seq<bool>, n: int) -> int
    decreases n,
{
    if n <= 0 {
        0
    } else {
        unmarked(marks, n - 1) + if marks[n - 1] {
            0int
        } else {
            1int
        }
    }
}

/// What is kept are the unmarked items, all of them, each once, in their order: an unmarked item has as
/// many kept items before it as it has unmarked items before it.
pub proof fn law_kept<A>(items: Seq<A>, marks: Seq<bool>, n: int, i: int)
    requires
        0 <= n,
    ensures
        vacuum::kept(items, marks, n).len() == unmarked(marks, n),
        0 <= i < n && !marks[i] ==> {
            &&& 0 <= unmarked(marks, i) < unmarked(marks, n)
            &&& vacuum::kept(items, marks, n)[unmarked(marks, i)] == items[i]
        },
    decreases n,
{
    if n > 0 {
        law_kept(items, marks, n - 1, i);
        if i == n - 1 {
            law_kept(items, marks, i, 0);
        }
    }
}

/// Of a page, compaction leaves exactly the versions that are not dead, in their order, with their
/// stamps, and says how many went. A version that is not dead has as many versions before it as it had
/// live ones. Length, links and lsn stay; if nothing is dead, every byte does.
pub proof fn law_compact_leaf_page<K: Key, V: Value>(
    data: &mut [u8],
    page_id: PageId,
    stamps: &mut Vec<VersionStamp>,
    tm: &TransactionManager,
    dead: usize,
    i: int,
)
    requires
        layout::leaf_wf(old(data)@),
        old(stamps)@.len() == layout::leaf_entries(old(data)@).len(),
        call_ensures(compact_leaf_page::<K, V>, (data, page_id, stamps, tm), dead),
    ensures
        ({
            let (s, t) = (old(data)@, final(data)@);
            let (es, et) = (layout::leaf_entries(s), layout::leaf_entries(t));
            let n = es.len() as int;
            let marks = Seq::new(
                old(stamps)@.len(),
                |k: int| vacuum::dead_version(old(stamps)@[k].xmin, old(stamps)@[k].xmax, *tm),
            );
            &&& layout::leaf_wf(t)
            &&& et.len() == unmarked(marks, n)
            &&& final(stamps)@.len() == et.len()
            &&& dead == n - et.len()
            &&& 0 <= i < n && !marks[i] ==> {
                &&& et[unmarked(marks, i)] == es[i]
                &&& final(stamps)@[unmarked(marks, i)] == old(stamps)@[i]
            }
            &&& t.len() == s.len()
            &&& page::le64(t, 16) == page::le64(s, 16)
            &&& layout::leaf_prev(t) == layout::leaf_prev(s)
            &&& layout::leaf_next(t) == layout::leaf_next(s)
            &&& dead == 0 ==> t == s
            &&& dead > 0 ==> page::le64(t, 8) == page_id && t[1] == 0
        }),
{
    let marks = vacuum::dead_versions(old(stamps)@, *tm);
    assert(marks =~= Seq::new(
        old(stamps)@.len(),
        |k: int| vacuum::dead_version(old(stamps)@[k].xmin, old(stamps)@[k].xmax, *tm),
    ));
    let n = old(stamps)@.len() as int;
    law_kept(layout::leaf_entries(old(data)@), marks, n, i);
    law_kept(old(stamps)@, marks, n, i);
}

/// A page from which something went has no dead bytes left: its records take, from the end of the page
/// down, exactly the bytes that its entries need.
pub proof fn law_compact_packs<K: Key, V: Value>(
    data: &mut [u8],
    page_id: PageId,
    stamps: &mut Vec<VersionStamp>,
    tm: &TransactionManager,
    dead: usize,
)
    requires
        layout::leaf_wf(old(data)@),
        old(stamps)@.len() == layout::leaf_entries(old(data)@).len(),
        call_ensures(compact_leaf_page::<K, V>, (data, page_id, stamps, tm), dead),
        dead > 0,
    ensures
        page::le16(final(data)@, 6) == 4096 - layout::live_bytes(final(data)@),
{
    let t = final(data)@;
    assert(layout::leaf_entries(t).len() == layout::slot_count(t));
    space::lemma_live_is_entries(t, layout::slot_count(t));
}

/// Any sound page with a stamp for each of its entries can be compacted, and any version be judged.
pub proof fn law_calls_accepted<K: Key, V: Value>(
    data: &mut [u8],
    page_id: PageId,
    stamps: &mut Vec<VersionStamp>,
    tm: &TransactionManager,
    xmin: u64,
    xmax: u64,
)
    ensures
        call_requires(is_dead, (xmin, xmax, tm)),
        layout::leaf_wf(old(data)@) && old(stamps)@.len() == layout::leaf_entries(old(data)@).len()
            ==> call_requires(compact_leaf_page::<K, V>, (data, page_id, stamps, tm)),
{
}

} // verus!
