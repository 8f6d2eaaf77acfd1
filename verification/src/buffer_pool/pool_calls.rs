//! What each call on the whole pool does: which shard it reaches, and that it reaches no other.

use crate::buffer_pool::manager;
use crate::buffer_pool::manager::{
    allocate_page_id, check_page_id, clear_frame, shard_index, BufferPoolManager,
};
use crate::buffer_pool::shard::{DeleteStep, FrameStep};
use crate::buffer_pool::BufferPoolError;
use vstd::prelude::*;

verus! {

/// Between `a` and `b` only the shard of `page_id` differs, and no page is made.
pub open spec fn reaches_one_shard(
    a: BufferPoolManager,
    b: BufferPoolManager,
    page_id: u64,
) -> bool {
    &&& b.next_page_id == a.next_page_id
    &&& b.shards@.len() == 16
    &&& forall|i: int| 0 <= i < 16 && i != page_id % 16 ==> #[trigger] b.shards@[i] == a.shards@[i]
}

/// A page belongs to the shard whose number is its id modulo 16.
pub proof fn law_shard_of(page_id: u64, pool: BufferPoolManager, index: usize)
    requires
        call_ensures(shard_index, (page_id,), index),
    ensures
        index == page_id % 16,
        manager::shard_of(page_id) == page_id % 16,
        pool.shard_for(page_id) == pool.shards@[(page_id % 16) as int],
{
}

/// A pool is sound when it has 16 sound shards of 64 frames, and each holds only pages that exist and
/// belong to it.
pub proof fn law_sound_pool(pool: BufferPoolManager)
    requires
        pool.shards@.len() == 16,
        forall|i: int|
            0 <= i < 16 ==> (#[trigger] pool.shards@[i]).wf() && pool.shards@[i].metadata@.len()
                == 64,
        forall|i: int, p: u64|
            0 <= i < 16 && #[trigger] pool.shards@[i].page_table@.contains_key(p) ==> p % 16 == i
                && p < pool.next_page_id,
    ensures
        pool.wf(),
{
}

/// And what a sound pool promises: sound shards of 64 frames, each with pages that exist and belong to it.
pub proof fn law_sound_pool_means(pool: BufferPoolManager, i: int, p: u64)
    requires
        pool.wf(),
        0 <= i < 16,
    ensures
        pool.shards@.len() == 16,
        pool.shards@[i].wf(),
        pool.shards@[i].metadata@.len() == 64,
        pool.shards@[i].page_table@.contains_key(p) ==> p % 16 == i && p < pool.next_page_id,
{
}

/// A new pool has 16 shards of 64 vacant frames, and the pages that the file has exist.
pub proof fn law_new_pool(existing: u64, pool: BufferPoolManager, i: int, f: int, p: u64)
    requires
        call_ensures(BufferPoolManager::new, (existing,), pool),
        0 <= i < 16,
        0 <= f < 64,
    ensures
        pool.wf(),
        pool.next_page_id == existing,
        pool.shards@.len() == 16,
        pool.shards@[i].metadata@.len() == 64,
        pool.shards@[i].metadata@[f].page_id == u64::MAX,
        pool.shards@[i].metadata@[f].pin_count == 0,
        !pool.shards@[i].metadata@[f].is_dirty,
        !pool.shards@[i].page_table@.contains_key(p),
        pool.shards@[i].free_list@[63 - f] == f,
{
}

/// A page exists exactly when its id is below the next one; any other is refused by its id.
pub proof fn law_check_page_id(page_id: u64, next: u64, res: Result<(), BufferPoolError>)
    requires
        call_ensures(check_page_id, (page_id, next), res),
    ensures
        res is Ok <==> page_id < next,
        res matches Err(e) ==> e == BufferPoolError::PageNotFound(page_id),
{
}

/// Ids are handed out one after the other.
pub proof fn law_allocate(next: &mut u64, page_id: u64)
    requires
        call_ensures(allocate_page_id, (next,), page_id),
    ensures
        page_id == *old(next),
        *final(next) == page_id + 1,
{
}

/// A cleared frame has the length that it had, and every byte is zero.
pub proof fn law_clear(data: &mut [u8], i: int, n: nat)
    requires
        call_ensures(clear_frame, (data,), ()),
    ensures
        final(data)@.len() == old(data)@.len(),
        0 <= i < old(data)@.len() ==> final(data)@[i] == 0,
        manager::zeroes(n).len() == n,
        0 <= i < n ==> manager::zeroes(n)[i] == 0,
{
}

/// A new page takes the next id, whether or not a frame is found for it, and a frame is sought in its
/// shard; it is in no frame before.
pub proof fn law_new_page(
    pool: &mut BufferPoolManager,
    page_id: u64,
    res: Result<FrameStep, BufferPoolError>,
    i: int,
)
    requires
        call_ensures(BufferPoolManager::new_page, (pool,), (page_id, res)),
        old(pool).wf(),
        0 <= i < 16,
    ensures
        page_id == old(pool).next_page_id,
        final(pool).next_page_id == page_id + 1,
        final(pool).wf(),
        !old(pool).shards@[i].page_table@.contains_key(page_id),
        i != page_id % 16 ==> final(pool).shards@[i] == old(pool).shards@[i],
        old(pool).shards@[(page_id % 16) as int].finds_frame(
            final(pool).shards@[(page_id % 16) as int],
            page_id,
            res,
        ),
{
    if old(pool).shards@[i].page_table@.contains_key(page_id) {
        assert(page_id < old(pool).next_page_id);
    }
}

/// Fetching a page that does not exist is refused and changes nothing; fetching one that exists seeks a
/// frame in its shard. Fetching for writing is no different.
pub proof fn law_fetch(
    a: &mut BufferPoolManager,
    b: &mut BufferPoolManager,
    page_id: u64,
    res_a: Result<FrameStep, BufferPoolError>,
    res_b: Result<FrameStep, BufferPoolError>,
)
    requires
        call_ensures(BufferPoolManager::fetch_page, (a, page_id), res_a),
        call_ensures(BufferPoolManager::fetch_page_mut, (b, page_id), res_b),
        old(a).wf(),
        old(b).wf(),
    ensures
        page_id >= old(a).next_page_id ==> res_a == Err::<FrameStep, _>(
            BufferPoolError::PageNotFound(page_id),
        ) && *final(a) == *old(a),
        page_id < old(a).next_page_id ==> {
            &&& reaches_one_shard(*old(a), *final(a), page_id)
            &&& old(a).shards@[(page_id % 16) as int].finds_frame(
                final(a).shards@[(page_id % 16) as int],
                page_id,
                res_a,
            )
        },
        page_id >= old(b).next_page_id ==> res_b == Err::<FrameStep, _>(
            BufferPoolError::PageNotFound(page_id),
        ) && *final(b) == *old(b),
        page_id < old(b).next_page_id ==> {
            &&& reaches_one_shard(*old(b), *final(b), page_id)
            &&& old(b).shards@[(page_id % 16) as int].finds_frame(
                final(b).shards@[(page_id % 16) as int],
                page_id,
                res_b,
            )
        },
        final(a).wf(),
        final(b).wf(),
{
}

/// Seeking a frame seeks it in the page's shard.
pub proof fn law_frame_for(
    pool: &mut BufferPoolManager,
    page_id: u64,
    res: Result<FrameStep, BufferPoolError>,
)
    requires
        call_ensures(BufferPoolManager::frame_for, (pool, page_id), res),
        old(pool).wf(),
    ensures
        final(pool).wf(),
        reaches_one_shard(*old(pool), *final(pool), page_id),
        old(pool).shards@[(page_id % 16) as int].finds_frame(
            final(pool).shards@[(page_id % 16) as int],
            page_id,
            res,
        ),
{
}

/// Giving a page up, saying that it could not be read, and deleting it reach its shard and no other.
pub proof fn law_give_up(
    a: &mut BufferPoolManager,
    b: &mut BufferPoolManager,
    c: &mut BufferPoolManager,
    page_id: u64,
    dirty: bool,
    res: Result<DeleteStep, BufferPoolError>,
)
    requires
        call_ensures(BufferPoolManager::unpin_page, (a, page_id, dirty), ()),
        call_ensures(BufferPoolManager::end_failed_load, (b, page_id), ()),
        call_ensures(BufferPoolManager::delete_page, (c, page_id), res),
        old(a).wf(),
        old(b).wf(),
        old(c).wf(),
    ensures
        ({
            let i = (page_id % 16) as int;
            &&& reaches_one_shard(*old(a), *final(a), page_id)
            &&& old(a).shards@[i].unpinned(final(a).shards@[i], page_id, dirty)
            &&& reaches_one_shard(*old(b), *final(b), page_id)
            &&& old(b).shards@[i].load_failed(final(b).shards@[i], page_id)
            &&& reaches_one_shard(*old(c), *final(c), page_id)
            &&& old(c).shards@[i].deletes(final(c).shards@[i], page_id, res)
            &&& final(a).wf()
            &&& final(b).wf()
            &&& final(c).wf()
        }),
{
}

/// A flush begins and ends in the page's shard.
pub proof fn law_flush(
    a: &mut BufferPoolManager,
    b: &mut BufferPoolManager,
    page_id: u64,
    owed: Option<(u64, usize)>,
    frame: usize,
    written: bool,
)
    requires
        call_ensures(BufferPoolManager::flush_page, (a, page_id), owed),
        call_ensures(BufferPoolManager::end_flush, (b, page_id, frame, written), ()),
        old(a).wf(),
        old(b).wf(),
    ensures
        ({
            let i = (page_id % 16) as int;
            &&& reaches_one_shard(*old(a), *final(a), page_id)
            &&& old(a).shards@[i].flush_begun(final(a).shards@[i], page_id, owed)
            &&& reaches_one_shard(*old(b), *final(b), page_id)
            &&& old(b).shards@[i].write_ended(
                final(b).shards@[i],
                frame as int,
                old(b).shards@[i].metadata@[frame as int].is_dirty || !written,
            )
            &&& final(a).wf()
            &&& final(b).wf()
        }),
{
}

/// The list of changed pages goes shard by shard, and within a shard through all its frames.
pub proof fn law_flush_all(pool: &BufferPoolManager, pages: Vec<u64>, n: int)
    requires
        call_ensures(BufferPoolManager::flush_all_pages, (pool,), pages),
        0 <= n,
    ensures
        pages@ == pool.changed_pages(16),
        pool.changed_pages(0) == Seq::<u64>::empty(),
        pool.changed_pages(n + 1) == pool.changed_pages(n) + pool.shards@[n].changed_pages(
            pool.shards@[n].metadata@.len() as int,
        ),
{
}

/// The relations between pools say what the calls do: only the shard of the page differs.
pub proof fn law_relations(
    a: BufferPoolManager,
    b: BufferPoolManager,
    page_id: u64,
    res: Result<FrameStep, BufferPoolError>,
)
    requires
        a.shards@.len() == 16,
    ensures
        a.only_shard_of(b, page_id) ==> reaches_one_shard(a, b, page_id),
        a.creates(b, page_id, res) ==> page_id == a.next_page_id && b.next_page_id == page_id + 1,
        a.fetches(b, page_id, res) && page_id >= a.next_page_id ==> b == a && res is Err,
        a.can_pin(page_id) <==> (a.shards@[(page_id % 16) as int].page_table@.contains_key(page_id)
            ==> a.shards@[(page_id % 16) as int].metadata@[a.shards@[(page_id % 16) as int].page_table@[page_id] as int].pin_count
            < u64::MAX),
{
}

/// A sound pool takes every call whose page can be pinned once more.
pub proof fn law_calls_accepted(pool: &mut BufferPoolManager, page_id: u64, dirty: bool)
    requires
        old(pool).wf(),
        old(pool).can_pin(page_id),
    ensures
        call_requires(BufferPoolManager::fetch_page, (pool, page_id)),
        call_requires(BufferPoolManager::fetch_page_mut, (pool, page_id)),
        call_requires(BufferPoolManager::unpin_page, (pool, page_id, dirty)),
        call_requires(BufferPoolManager::flush_page, (pool, page_id)),
        call_requires(BufferPoolManager::delete_page, (pool, page_id)),
        old(pool).next_page_id < u64::MAX ==> call_requires(BufferPoolManager::new_page, (pool,)),
{
}

/// Each complaint of the pool in words.
pub proof fn law_messages(err: &BufferPoolError, text: String)
    requires
        call_ensures(BufferPoolError::message, (err,), text),
    ensures
        err is PinCountError ==> text@ == "Pin count error"@,
        err is NoEvictableFrames ==> text@ == "No evictable frames available"@,
        err matches BufferPoolError::PageNotFound(p) ==> text@ == "Page with ID "@
            + crate::text::decimal(*p as int) + " not found"@,
        err matches BufferPoolError::InternalError(msg) ==> text@ == "Internal error: "@ + msg@,
{
}

} // verus!
