//! What flushing everything comes to.

use crate::buffer_pool::laws;
use crate::buffer_pool::manager;
use crate::buffer_pool::manager::BufferPoolManager;
use crate::buffer_pool::shard::{BufferPoolShard, FrameMetadata};
use crate::buffer_pool::{INVALID_FRAME_ID, NUM_SHARDS};
use vstd::prelude::*;

verus! {

/// The pages of a pool are flushed one after the other, and every write goes well: from `pools[k]` the
/// flush of `pages[k]` leads over `between[k]` to `pools[k + 1]`.
pub open spec fn flushes_all(
    pools: Seq<BufferPoolManager>,
    between: Seq<BufferPoolManager>,
    pages: Seq<u64>,
    owed: Seq<Option<(u64, usize)>>,
) -> bool {
    &&& pools.len() == pages.len() + 1
    &&& between.len() == pages.len()
    &&& owed.len() == pages.len()
    &&& forall|k: int|
        0 <= k < pages.len() ==> pools[k].flushes(
            between[k],
            pools[k + 1],
            #[trigger] pages[k],
            owed[k],
        )
}

/// The frame's page with its users, and changes only if it had some and is not among `pages`.
pub open spec fn without_changes(meta: FrameMetadata, pages: Seq<u64>) -> FrameMetadata {
    FrameMetadata { is_dirty: meta.is_dirty && !pages.contains(meta.page_id), ..meta }
}

/// `after` is `before` but for the changes of `pages`, which are gone.
pub open spec fn rid_of(before: BufferPoolManager, after: BufferPoolManager, pages: Seq<u64>) -> bool {
    &&& after.next_page_id == before.next_page_id
    &&& after.shards@.len() == before.shards@.len()
    &&& forall|i: int| #![trigger after.shards@[i]]
        0 <= i < before.shards@.len() ==> {
            &&& after.shards@[i].metadata@ == before.shards@[i].metadata@.map_values(
                |meta: FrameMetadata| without_changes(meta, pages),
            )
            &&& after.shards@[i].page_table@ == before.shards@[i].page_table@
            &&& after.shards@[i].free_list@ == before.shards@[i].free_list@
            &&& after.shards@[i].replacer@ == before.shards@[i].replacer@
        }
}

/// Once every page on the list of changed pages has been flushed, no page has changes; every page is in
/// the frame it was in, with the users it had, and the clock has not moved.
pub proof fn law_flush_all_leaves_no_changes(
    pools: Seq<BufferPoolManager>,
    between: Seq<BufferPoolManager>,
    owed: Seq<Option<(u64, usize)>>,
)
    requires
        pools.len() > 0,
        pools[0].wf(),
        flushes_all(pools, between, pools[0].changed_pages(NUM_SHARDS as int), owed),
    ensures
        pools.last().changed_pages(NUM_SHARDS as int) == Seq::<u64>::empty(),
        rid_of(pools[0], pools.last(), pools[0].changed_pages(NUM_SHARDS as int)),
{
    let pages = pools[0].changed_pages(NUM_SHARDS as int);
    let n = pages.len() as int;
    lemma_flushed(pools, between, pages, owed, n);
    assert(pages.take(n) =~= pages);
    let last = pools.last();
    assert forall|i: int, f: int|
        0 <= i < NUM_SHARDS && 0 <= f < last.shards@[i].size() implies !(
    #[trigger] last.shards@[i].metadata@[f]).is_dirty by {
        let meta = pools[0].shards@[i].metadata@[f];
        assert(last.shards@[i].metadata@[f] == without_changes(meta, pages));
        if meta.is_dirty {
            lemma_changed_is_listed(pools[0], NUM_SHARDS as int, i, f);
        }
    }
    lemma_nothing_changed(last, NUM_SHARDS as int);
}

/// The state after `k` flushes.
proof fn lemma_flushed(
    pools: Seq<BufferPoolManager>,
    between: Seq<BufferPoolManager>,
    pages: Seq<u64>,
    owed: Seq<Option<(u64, usize)>>,
    k: int,
)
    requires
        pools.len() > 0,
        pools[0].wf(),
        pages == pools[0].changed_pages(NUM_SHARDS as int),
        flushes_all(pools, between, pages, owed),
        0 <= k <= pages.len(),
    ensures
        rid_of(pools[0], pools[k], pages.take(k)),
    decreases k,
{
    if k == 0 {
        assert forall|i: int| 0 <= i < pools[0].shards@.len() implies pools[0].shards@[i].metadata@
            == pools[0].shards@[i].metadata@.map_values(
            |meta: FrameMetadata| without_changes(meta, pages.take(0)),
        ) by {
            assert(pools[0].shards@[i].metadata@ =~= pools[0].shards@[i].metadata@.map_values(
                |meta: FrameMetadata| without_changes(meta, pages.take(0)),
            ));
        }
    } else {
        lemma_flushed(pools, between, pages, owed, k - 1);
        let p = pages[k - 1];
        assert(pools[k - 1].flushes(between[k - 1], pools[k], p, owed[k - 1]));
        assert(pages.contains(p));
        lemma_listed_is_held(pools[0], NUM_SHARDS as int, p);
        lemma_one_flush(pools[0], pools[k - 1], between[k - 1], pools[k], pages.take(k - 1), p, owed[k
            - 1]);
        assert(pages.take(k) =~= pages.take(k - 1).push(p));
    }
}

/// One more flush rids the pool of one more page's changes.
proof fn lemma_one_flush(
    first: BufferPoolManager,
    before: BufferPoolManager,
    between: BufferPoolManager,
    after: BufferPoolManager,
    done: Seq<u64>,
    p: u64,
    owed: Option<(u64, usize)>,
)
    requires
        first.wf(),
        rid_of(first, before, done),
        before.flushes(between, after, p, owed),
        first.shard_for(p).holds(p),
    ensures
        rid_of(first, after, done.push(p)),
{
    let at = manager::shard_of(p);
    assert(first.shards@[at].wf());
    let f = first.shards@[at].frame_of(p);
    assert(first.shards@[at].page_table@.contains_key(p));
    assert(before.shards@[at].page_table@ == first.shards@[at].page_table@);
    assert(before.shards@[at].metadata@[f] == without_changes(
        first.shards@[at].metadata@[f],
        done,
    ));
    assert forall|i: int| #![trigger after.shards@[i]] 0 <= i < first.shards@.len() implies {
        &&& after.shards@[i].metadata@ == first.shards@[i].metadata@.map_values(
            |meta: FrameMetadata| without_changes(meta, done.push(p)),
        )
        &&& after.shards@[i].page_table@ == first.shards@[i].page_table@
        &&& after.shards@[i].free_list@ == first.shards@[i].free_list@
        &&& after.shards@[i].replacer@ == first.shards@[i].replacer@
    } by {
        assert(before.shards@[i].page_table@ == first.shards@[i].page_table@);
        assert(first.shards@[i].wf());
        let meta = first.shards@[i].metadata@;
        assert forall|g: int| 0 <= g < meta.len() implies after.shards@[i].metadata@[g]
            == without_changes(meta[g], done.push(p)) by {
            assert(before.shards@[i].metadata@[g] == without_changes(meta[g], done));
            assert(done.push(p).contains(meta[g].page_id) <==> done.contains(meta[g].page_id)
                || meta[g].page_id == p) by {
                if done.contains(meta[g].page_id) {
                    let j = choose|j: int| 0 <= j < done.len() && done[j] == meta[g].page_id;
                    assert(done.push(p)[j] == meta[g].page_id);
                }
                assert(done.push(p)[done.len() as int] == p);
            }
            if meta[g].page_id == p {
                assert(first.shards@[i].holds(p));
                laws::law_page_in_one_shard(first, i, at, p);
                assert(g == f);
            }
        }
        assert(after.shards@[i].metadata@ =~= meta.map_values(
            |meta: FrameMetadata| without_changes(meta, done.push(p)),
        ));
    }
}

/// A page on a shard's list is in the frame that put it there.
proof fn lemma_shard_listed(shard: BufferPoolShard, n: int, p: u64)
    requires
        shard.wf(),
        0 <= n <= shard.size(),
        shard.changed_pages(n).contains(p),
    ensures
        shard.holds(p),
    decreases n,
{
    if n > 0 && !shard.changed_pages(n - 1).contains(p) {
        let list = shard.changed_pages(n);
        let j = choose|j: int| 0 <= j < list.len() && list[j] == p;
        assert(j == list.len() - 1) by {
            if j < shard.changed_pages(n - 1).len() {
                assert(shard.changed_pages(n - 1)[j] == p);
            }
        }
        assert(shard.metadata@[n - 1].page_id == p);
    } else if n > 0 {
        lemma_shard_listed(shard, n - 1, p);
    }
}

/// A page on the pool's list is in a frame of its shard.
proof fn lemma_listed_is_held(pool: BufferPoolManager, n: int, p: u64)
    requires
        pool.wf(),
        0 <= n <= NUM_SHARDS,
        pool.changed_pages(n).contains(p),
    ensures
        pool.shard_for(p).holds(p),
    decreases n,
{
    if n > 0 {
        let head = pool.changed_pages(n - 1);
        let shard = pool.shards@[n - 1];
        let tail = shard.changed_pages(shard.size());
        assert(shard.wf());
        let j = choose|j: int| 0 <= j < (head + tail).len() && (head + tail)[j] == p;
        if j < head.len() {
            assert(head[j] == p);
            lemma_listed_is_held(pool, n - 1, p);
        } else {
            assert(tail[j - head.len()] == p);
            lemma_shard_listed(shard, shard.size(), p);
            assert(pool.shards@[n - 1].page_table@.contains_key(p));
        }
    }
}

/// The page of a frame with changes is on its shard's list.
proof fn lemma_shard_lists(shard: BufferPoolShard, n: int, f: int)
    requires
        0 <= f < n <= shard.size(),
        shard.metadata@[f].is_dirty,
        shard.metadata@[f].page_id != INVALID_FRAME_ID,
    ensures
        shard.changed_pages(n).contains(shard.metadata@[f].page_id),
    decreases n,
{
    let p = shard.metadata@[f].page_id;
    let list = shard.changed_pages(n);
    let head = shard.changed_pages(n - 1);
    if f == n - 1 {
        assert(list[head.len() as int] == p);
    } else {
        lemma_shard_lists(shard, n - 1, f);
        let j = choose|j: int| 0 <= j < head.len() && head[j] == p;
        assert(list[j] == p);
    }
}

/// The page of a frame with changes is on the pool's list.
proof fn lemma_changed_is_listed(pool: BufferPoolManager, n: int, i: int, f: int)
    requires
        pool.wf(),
        0 <= i < n <= NUM_SHARDS,
        0 <= f < pool.shards@[i].size(),
        pool.shards@[i].metadata@[f].is_dirty,
    ensures
        pool.changed_pages(n).contains(pool.shards@[i].metadata@[f].page_id),
    decreases n,
{
    let p = pool.shards@[i].metadata@[f].page_id;
    let head = pool.changed_pages(n - 1);
    let shard = pool.shards@[n - 1];
    let tail = shard.changed_pages(shard.size());
    assert(pool.shards@[i].wf());
    if i == n - 1 {
        lemma_has_page(shard, f);
        lemma_shard_lists(shard, shard.size(), f);
        let j = choose|j: int| 0 <= j < tail.len() && tail[j] == p;
        assert((head + tail)[head.len() + j] == p);
    } else {
        lemma_changed_is_listed(pool, n - 1, i, f);
        let j = choose|j: int| 0 <= j < head.len() && head[j] == p;
        assert((head + tail)[j] == p);
    }
}

/// A frame with changes has a page.
proof fn lemma_has_page(shard: BufferPoolShard, f: int)
    requires
        shard.wf(),
        0 <= f < shard.size(),
        shard.metadata@[f].is_dirty,
    ensures
        shard.metadata@[f].page_id != INVALID_FRAME_ID,
{
    if shard.metadata@[f].page_id == INVALID_FRAME_ID {
        let free = shard.free_list@;
        assert(shard.size() <= usize::MAX);
        assert(shard.metadata@[f as usize as int].page_id == INVALID_FRAME_ID);
        assert(free.contains(f as usize));
        let k = choose|k: int| 0 <= k < free.len() && free[k] == f as usize;
        assert(shard.metadata@[free[k] as int].is_dirty);
    }
}

/// Without a frame that has changes the list is empty.
proof fn lemma_nothing_changed(pool: BufferPoolManager, n: int)
    requires
        0 <= n <= NUM_SHARDS,
        forall|i: int, f: int|
            0 <= i < NUM_SHARDS && 0 <= f < pool.shards@[i].size()
                ==> !(#[trigger] pool.shards@[i].metadata@[f]).is_dirty,
    ensures
        pool.changed_pages(n) == Seq::<u64>::empty(),
    decreases n,
{
    if n > 0 {
        lemma_nothing_changed(pool, n - 1);
        lemma_shard_unchanged(pool.shards@[n - 1], pool.shards@[n - 1].size());
    }
}

proof fn lemma_shard_unchanged(shard: BufferPoolShard, n: int)
    requires
        0 <= n <= shard.size(),
        forall|f: int| 0 <= f < shard.size() ==> !(#[trigger] shard.metadata@[f]).is_dirty,
    ensures
        shard.changed_pages(n) == Seq::<u64>::empty(),
    decreases n,
{
    if n > 0 {
        lemma_shard_unchanged(shard, n - 1);
    }
}

} // verus!
