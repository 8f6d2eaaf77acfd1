//! What the pool promises whatever is asked of it.

use crate::buffer_pool::manager;
use crate::buffer_pool::manager::BufferPoolManager;
use crate::buffer_pool::replacer::Clock;
use crate::buffer_pool::shard;
use crate::buffer_pool::shard::{BufferPoolShard, DeleteStep, FrameMetadata, FrameStep};
use crate::buffer_pool::{BufferPoolError, INVALID_FRAME_ID, NUM_SHARDS};
use vstd::prelude::*;

verus! {

// ── The clock ────────────────────────────────────────────────────────────────
/// The clock has one choice: there are never two next victims.
pub proof fn law_one_victim(clock: Clock, f: int, g: int)
    requires
        0 <= clock.hand < clock.size(),
        clock.is_next_victim(f),
        clock.is_next_victim(g),
    ensures
        f == g,
{
    assert(clock.offers(f) && clock.offers(g));
}

/// A frame off the clock, such as a pinned one, is never chosen.
pub proof fn law_pinned_is_no_victim(clock: Clock, f: int, g: int)
    requires
        0 <= f < clock.size(),
        clock.marking(f, false).is_next_victim(g),
    ensures
        g != f,
{
    assert(clock.marking(f, false).offers(g));
}

/// Second chance: a frame that was just used is spared while some frame on the clock was not.
pub proof fn law_second_chance(clock: Clock, used: int, unused: int, chosen: int)
    requires
        clock.ref_bits.len() == clock.size(),
        0 <= used < clock.size(),
        clock.offers(unused),
        !clock.ref_bits[unused],
        unused != used,
        clock.marking(used, true).is_next_victim(chosen),
    ensures
        chosen != used,
{
    let after = clock.marking(used, true);
    assert(after.offers(unused) && !after.ref_bits[unused]);
}

/// A frame that was taken is off the clock, and no other frame is.
pub proof fn law_taken_is_gone(clock: Clock, busy: Seq<bool>, f: int, g: int)
    requires
        busy.len() == clock.size(),
        clock.idle(busy).is_next_victim(f),
    ensures
        clock.taking_idle(f, busy).offers(g) <==> clock.offers(g) && g != f,
{
    assert(clock.idle(busy).offers(f));
}

// ── A shard ──────────────────────────────────────────────────────────────────
/// While no frame in use is on the clock, the frame that is given up is the plain clock's choice.
pub proof fn law_plain_clock(shard: BufferPoolShard)
    requires
        shard.wf(),
        shard.pinned_off_clock(),
    ensures
        shard.idle_clock() == shard.replacer@,
{
    assert forall|f: int| 0 <= f < shard.size() implies shard.idle_clock().evictable[f]
        == shard.replacer@.evictable[f] && shard.idle_clock().ref_bits[f]
        == shard.replacer@.ref_bits[f] by {
        assert(shard.replacer.ref_bits@[f] ==> shard.replacer.evictable@[f]);
    }
    assert(shard.idle_clock() =~= shard.replacer@);
}

/// A page is in one frame at most.
pub proof fn law_page_in_one_frame(shard: BufferPoolShard, f: int, g: int)
    requires
        shard.wf(),
        0 <= f < shard.size(),
        0 <= g < shard.size(),
        shard.metadata@[f].page_id == shard.metadata@[g].page_id,
        shard.metadata@[f].page_id != INVALID_FRAME_ID,
    ensures
        f == g,
{
}

/// A page that was given a frame is there, in use, and off the clock.
pub proof fn law_fetched_is_pinned(
    before: BufferPoolShard,
    after: BufferPoolShard,
    page_id: u64,
    step: FrameStep,
)
    requires
        before.wf(),
        after.wf(),
        before.holds(page_id) ==> before.meta_of(page_id).pin_count < u64::MAX,
        before.finds_frame(after, page_id, Ok::<_, BufferPoolError>(step)),
        !(step is FlushFirst),
    ensures
        after.holds(page_id),
        after.frame_of(page_id) == match step {
            FrameStep::Resident(f) => f as int,
            FrameStep::Installed(f) => f as int,
            FrameStep::FlushFirst(_) => -1,
        },
        after.meta_of(page_id).pin_count >= 1,
        !after.replacer@.offers(after.frame_of(page_id)),
{
}

/// A page in use keeps its frame and its users, whichever page a frame is sought for; also a page
/// that is in use only because it is being written.
pub proof fn law_pinned_page_stays(
    before: BufferPoolShard,
    after: BufferPoolShard,
    page_id: u64,
    res: Result<FrameStep, BufferPoolError>,
    kept: u64,
)
    requires
        before.wf(),
        before.holds(page_id) ==> before.meta_of(page_id).pin_count < u64::MAX,
        before.finds_frame(after, page_id, res),
        before.holds(kept),
        before.meta_of(kept).pin_count > 0,
    ensures
        after.holds(kept),
        after.frame_of(kept) == before.frame_of(kept),
        after.meta_of(kept).pin_count >= before.meta_of(kept).pin_count,
        after.meta_of(kept).is_dirty == before.meta_of(kept).is_dirty,
{
    if let Ok(FrameStep::Installed(f)) = res {
        law_given_up_is_idle(before, after, page_id, f);
    }
}

/// Changes are never lost to eviction: a page with changes keeps its frame and its changes,
/// whichever page a frame is sought for.
pub proof fn law_changes_stay(
    before: BufferPoolShard,
    after: BufferPoolShard,
    page_id: u64,
    res: Result<FrameStep, BufferPoolError>,
    changed: u64,
)
    requires
        before.wf(),
        before.finds_frame(after, page_id, res),
        before.holds(changed),
        before.meta_of(changed).is_dirty,
    ensures
        after.holds(changed),
        after.frame_of(changed) == before.frame_of(changed),
        after.meta_of(changed).is_dirty,
{
    if let Ok(FrameStep::Installed(f)) = res {
        assert(f != before.frame_of(changed));
        assert(before.metadata@[f as int].page_id != changed);
    }
}

/// The frame that a page is given was nobody's, or nobody used it.
pub proof fn law_given_up_is_idle(
    before: BufferPoolShard,
    after: BufferPoolShard,
    page_id: u64,
    frame: usize,
)
    requires
        before.wf(),
        before.finds_frame(
            after,
            page_id,
            Ok::<_, BufferPoolError>(FrameStep::Installed(frame)),
        ),
    ensures
        before.metadata@[frame as int].pin_count == 0,
{
    if before.free_list@.len() > 0 {
        assert(before.free_list@[before.free_list@.len() - 1] == frame);
    } else {
        assert(before.idle_clock().offers(frame as int));
    }
}

/// Being told to flush first is progress: one frame leaves the clock and none comes back, so the
/// search for a frame ends.
pub proof fn law_flush_first_is_progress(
    before: BufferPoolShard,
    after: BufferPoolShard,
    page_id: u64,
    dirty: u64,
)
    requires
        before.wf(),
        before.finds_frame(after, page_id, Ok::<_, BufferPoolError>(FrameStep::FlushFirst(dirty))),
    ensures
        before.replacer@.offers(before.frame_of(dirty)),
        !after.replacer@.offers(before.frame_of(dirty)),
        forall|g: int| #[trigger] after.replacer@.offers(g) ==> before.replacer@.offers(g),
{
    let f = before.frame_of(dirty);
    assert(before.idle_clock().offers(f));
    assert forall|g: int| #[trigger] after.replacer@.offers(g) implies before.replacer@.offers(g) by {
        law_taken_is_gone(before.replacer@, before.in_use(), f, g);
    }
}

/// A flush that was written leaves the page clean and everything else as it was; one that failed
/// leaves everything as it was.
pub proof fn law_flush_round_trip(
    before: BufferPoolShard,
    between: BufferPoolShard,
    after: BufferPoolShard,
    page_id: u64,
    frame: usize,
    written: bool,
)
    requires
        before.wf(),
        before.holds(page_id) ==> before.meta_of(page_id).pin_count < u64::MAX,
        before.flush_begun(between, page_id, Some((page_id, frame))),
        between.write_ended(after, frame as int, between.metadata@[frame as int].is_dirty || !written),
    ensures
        after.metadata@ == before.metadata@.update(
            frame as int,
            (FrameMetadata { is_dirty: !written, ..before.meta_of(page_id) }),
        ),
        after.page_table@ == before.page_table@,
        after.free_list@ == before.free_list@,
        after.replacer@ == before.replacer@,
        before.pinned_off_clock() ==> after.pinned_off_clock(),
{
    assert(after.metadata@ =~= before.metadata@.update(
        frame as int,
        (FrameMetadata { is_dirty: !written, ..before.meta_of(page_id) }),
    ));
}

/// Pinning a page and giving it up without changes leaves what is known of every frame as it was.
pub proof fn law_pin_unpin(
    before: BufferPoolShard,
    between: BufferPoolShard,
    after: BufferPoolShard,
    page_id: u64,
)
    requires
        before.wf(),
        before.holds(page_id),
        before.meta_of(page_id).pin_count < u64::MAX,
        before.pinned_once_more(between, page_id),
        between.unpinned(after, page_id, false),
    ensures
        after.metadata@ == before.metadata@,
        after.page_table@ == before.page_table@,
        after.free_list@ == before.free_list@,
{
    assert(after.metadata@ =~= before.metadata@);
}

/// A page that was given up with changes is flushed before its frame is reused: it has changes
/// from then on.
pub proof fn law_dirty_unpin_is_remembered(
    before: BufferPoolShard,
    after: BufferPoolShard,
    page_id: u64,
)
    requires
        before.wf(),
        before.holds(page_id),
        before.meta_of(page_id).pin_count > 0,
        before.unpinned(after, page_id, true),
    ensures
        after.holds(page_id),
        after.meta_of(page_id).is_dirty,
{
}

/// A deleted page is in no frame, and its frame is the next to be handed out.
pub proof fn law_deleted_is_gone(before: BufferPoolShard, after: BufferPoolShard, page_id: u64)
    requires
        before.wf(),
        before.deletes(after, page_id, Ok::<_, BufferPoolError>(DeleteStep::Done)),
    ensures
        !after.holds(page_id),
        before.holds(page_id) ==> after.free_list@.last() == before.frame_of(page_id),
{
}

/// No page in use is deleted, and none with changes: what has changes keeps them, or is being written
/// and in use.
pub proof fn law_delete_spares_used(
    before: BufferPoolShard,
    after: BufferPoolShard,
    page_id: u64,
    res: Result<DeleteStep, BufferPoolError>,
)
    requires
        before.wf(),
        before.deletes(after, page_id, res),
        before.holds(page_id),
        before.meta_of(page_id).pin_count > 0 || before.meta_of(page_id).is_dirty,
    ensures
        after.holds(page_id),
        after.frame_of(page_id) == before.frame_of(page_id),
        after.meta_of(page_id).pin_count > 0,
        res matches Err(_) ==> after.meta_of(page_id).is_dirty == before.meta_of(page_id).is_dirty,
{
}

/// A deletion whose write failed leaves everything as it was.
pub proof fn law_failed_delete_changes_nothing(
    before: BufferPoolShard,
    writing: BufferPoolShard,
    after: BufferPoolShard,
    page_id: u64,
    frame: usize,
)
    requires
        before.wf(),
        before.deletes(
            writing,
            page_id,
            Ok::<_, BufferPoolError>(DeleteStep::WriteFirst { frame, page_id }),
        ),
        writing.write_ended(after, frame as int, true),
    ensures
        before.same(after),
{
    assert(after.metadata@ =~= before.metadata@);
}

/// A page that could not be read by its only user is in no frame, so that the next fetch reads it
/// again; no other page is touched.
pub proof fn law_unread_page_is_gone(
    before: BufferPoolShard,
    after: BufferPoolShard,
    page_id: u64,
    other: u64,
)
    requires
        before.wf(),
        before.holds(page_id),
        before.meta_of(page_id).pin_count == 1,
        !before.meta_of(page_id).is_dirty,
        before.load_failed(after, page_id),
        other != page_id,
    ensures
        !after.holds(page_id),
        after.metadata@[before.frame_of(page_id)] == shard::vacant(),
        after.free_list@.last() == before.frame_of(page_id),
        after.holds(other) == before.holds(other),
        before.holds(other) ==> {
            &&& after.frame_of(other) == before.frame_of(other)
            &&& after.meta_of(other) == before.meta_of(other)
        },
{
}

/// A page that a deletion had written is clean and unused again, so the next try drops it.
pub proof fn law_written_page_is_deleted(
    before: BufferPoolShard,
    writing: BufferPoolShard,
    written: BufferPoolShard,
    after: BufferPoolShard,
    page_id: u64,
    frame: usize,
    res: Result<DeleteStep, BufferPoolError>,
)
    requires
        before.wf(),
        before.deletes(
            writing,
            page_id,
            Ok::<_, BufferPoolError>(DeleteStep::WriteFirst { frame, page_id }),
        ),
        writing.write_ended(written, frame as int, writing.metadata@[frame as int].is_dirty),
        written.deletes(after, page_id, res),
    ensures
        res == Ok::<_, BufferPoolError>(DeleteStep::Done),
        !after.holds(page_id),
{
    assert(written.meta_of(page_id).pin_count == 0);
    assert(!written.meta_of(page_id).is_dirty);
}

// ── The pool ─────────────────────────────────────────────────────────────────
/// A page is in one shard at most.
pub proof fn law_page_in_one_shard(pool: BufferPoolManager, i: int, j: int, page_id: u64)
    requires
        pool.wf(),
        0 <= i < NUM_SHARDS,
        0 <= j < NUM_SHARDS,
        pool.shards@[i].holds(page_id),
        pool.shards@[j].holds(page_id),
    ensures
        i == j,
        i == manager::shard_of(page_id),
{
    assert(pool.shards@[i].page_table@.contains_key(page_id));
    assert(pool.shards@[j].page_table@.contains_key(page_id));
}

/// A page that was made is one that nobody had before: it was in no frame of any shard. From then on
/// it exists. Once it has a frame, it has one user, no changes, and its frame is off the clock.
pub proof fn law_new_page_is_pinned(
    before: BufferPoolManager,
    after: BufferPoolManager,
    page_id: u64,
    res: Result<FrameStep, BufferPoolError>,
)
    requires
        before.wf(),
        after.wf(),
        before.creates(after, page_id, res),
    ensures
        page_id >= before.next_page_id,
        page_id < after.next_page_id,
        forall|i: int| 0 <= i < NUM_SHARDS ==> !(#[trigger] before.shards@[i]).holds(page_id),
        match res {
            Ok(FrameStep::Installed(f)) => {
                &&& after.shard_for(page_id).holds(page_id)
                &&& after.shard_for(page_id).frame_of(page_id) == f
                &&& after.shard_for(page_id).meta_of(page_id).pin_count == 1
                &&& !after.shard_for(page_id).meta_of(page_id).is_dirty
                &&& !after.shard_for(page_id).replacer@.offers(f as int)
            },
            Ok(FrameStep::FlushFirst(_)) => !after.shard_for(page_id).holds(page_id),
            Ok(FrameStep::Resident(_)) => false,
            Err(e) => e is NoEvictableFrames && !after.shard_for(page_id).holds(page_id),
        },
{
    assert forall|i: int| 0 <= i < NUM_SHARDS implies !(#[trigger] before.shards@[i]).holds(
        page_id,
    ) by {
        if before.shards@[i].page_table@.contains_key(page_id) {
            assert(page_id < before.next_page_id);
        }
    }
    assert(before.shards@[manager::shard_of(page_id)].wf());
    assert(after.shards@[manager::shard_of(page_id)].wf());
    if let Ok(step) = res {
        if !(step is FlushFirst) {
            law_fetched_is_pinned(
                before.shard_for(page_id),
                after.shard_for(page_id),
                page_id,
                step,
            );
        }
    }
}

/// No id is handed out twice.
pub proof fn law_new_ids_differ(
    first: BufferPoolManager,
    second: BufferPoolManager,
    third: BufferPoolManager,
    fourth: BufferPoolManager,
    a: u64,
    b: u64,
    res_a: Result<FrameStep, BufferPoolError>,
    res_b: Result<FrameStep, BufferPoolError>,
)
    requires
        first.creates(second, a, res_a),
        second.next_page_id <= third.next_page_id,
        third.creates(fourth, b, res_b),
    ensures
        a < b,
{
}

/// A page that was never allocated is refused and leaves the pool alone; one that was is never
/// refused as unknown.
pub proof fn law_unknown_page_is_refused(
    before: BufferPoolManager,
    after: BufferPoolManager,
    page_id: u64,
    res: Result<FrameStep, BufferPoolError>,
)
    requires
        before.wf(),
        before.fetches(after, page_id, res),
    ensures
        page_id >= before.next_page_id <==> (res matches Err(e) && e is PageNotFound),
        page_id >= before.next_page_id ==> after == before,
{
}

} // verus!
