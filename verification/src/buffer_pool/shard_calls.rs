//! What each call on a shard does to its frames, its page table, its free list and its clock.

use crate::buffer_pool::replacer;
use crate::buffer_pool::shard;
use crate::buffer_pool::shard::{BufferPoolShard, DeleteStep, FrameMetadata, FrameStep};
use crate::buffer_pool::BufferPoolError;
use vstd::prelude::*;

verus! {

/// Nothing about frame `f` differs, neither what is known of it nor its marks on the clock.
pub open spec fn frame_stays(a: BufferPoolShard, b: BufferPoolShard, f: int) -> bool {
    &&& b.metadata@[f].page_id == a.metadata@[f].page_id
    &&& b.metadata@[f].pin_count == a.metadata@[f].pin_count
    &&& b.metadata@[f].is_dirty == a.metadata@[f].is_dirty
    &&& b.replacer.evictable@[f] == a.replacer.evictable@[f]
    &&& b.replacer.ref_bits@[f] == a.replacer.ref_bits@[f]
}

// ── What is known of a shard ─────────────────────────────────────────────────
/// A page is held where the page table says, and what is known of it is what is known of that frame.
pub proof fn law_names(s: BufferPoolShard, p: u64, f: int)
    ensures
        s.size() == s.metadata@.len(),
        s.holds(p) <==> s.page_table@.contains_key(p),
        s.frame_of(p) == s.page_table@[p],
        s.meta_of(p) == s.metadata@[s.page_table@[p] as int],
        s.in_use().len() == s.metadata@.len(),
        0 <= f < s.metadata@.len() ==> (s.in_use()[f] <==> s.metadata@[f].pin_count > 0),
        shard::vacant() == (FrameMetadata { page_id: u64::MAX, pin_count: 0, is_dirty: false }),
{
}

/// A shard is sound when page table and frames agree, the free list is exactly the vacant frames, each
/// once, and only frames with a page are on the clock.
pub proof fn law_sound_shard(s: BufferPoolShard)
    requires
        s.replacer.wf(),
        s.replacer.size == s.metadata@.len(),
        forall|p: u64| #[trigger]
            s.page_table@.contains_key(p) ==> {
                &&& p != u64::MAX
                &&& s.page_table@[p] < s.metadata@.len()
                &&& s.metadata@[s.page_table@[p] as int].page_id == p
            },
        forall|f: int|
            0 <= f < s.metadata@.len() && (#[trigger] s.metadata@[f]).page_id != u64::MAX ==> {
                &&& s.page_table@.contains_key(s.metadata@[f].page_id)
                &&& s.page_table@[s.metadata@[f].page_id] == f
            },
        forall|i: int|
            0 <= i < s.free_list@.len() ==> {
                &&& (#[trigger] s.free_list@[i]) < s.metadata@.len()
                &&& s.metadata@[s.free_list@[i] as int].page_id == u64::MAX
                &&& s.metadata@[s.free_list@[i] as int].pin_count == 0
                &&& !s.metadata@[s.free_list@[i] as int].is_dirty
            },
        s.free_list@.no_duplicates(),
        forall|f: usize|
            f < s.metadata@.len() && (#[trigger] s.metadata@[f as int]).page_id == u64::MAX
                ==> s.free_list@.contains(f),
        forall|f: int|
            0 <= f < s.metadata@.len() && #[trigger] s.replacer.evictable@[f]
                ==> s.metadata@[f].page_id != u64::MAX,
    ensures
        s.wf(),
{
}

/// And what a sound shard promises: a page that the table names is in that frame, a frame with a page is
/// named for it, a frame without one is on the free list, once, and is off the clock.
pub proof fn law_sound_shard_means(s: BufferPoolShard, p: u64, f: int, i: int, j: int)
    requires
        s.wf(),
        0 <= f < s.metadata@.len(),
    ensures
        s.replacer.wf(),
        s.replacer.size == s.metadata@.len(),
        s.page_table@.contains_key(p) ==> {
            &&& p != u64::MAX
            &&& s.page_table@[p] < s.metadata@.len()
            &&& s.metadata@[s.page_table@[p] as int].page_id == p
        },
        s.metadata@[f].page_id != u64::MAX ==> {
            &&& s.page_table@.contains_key(s.metadata@[f].page_id)
            &&& s.page_table@[s.metadata@[f].page_id] == f
        },
        s.metadata@[f].page_id == u64::MAX ==> {
            &&& s.free_list@.contains(f as usize)
            &&& s.metadata@[f].pin_count == 0
            &&& !s.metadata@[f].is_dirty
            &&& !s.replacer.evictable@[f]
        },
        0 <= i < s.free_list@.len() ==> s.free_list@[i] < s.metadata@.len()
            && s.metadata@[s.free_list@[i] as int].page_id == u64::MAX,
        0 <= i < j < s.free_list@.len() ==> s.free_list@[i] != s.free_list@[j],
        s.pinned_off_clock() && s.replacer.evictable@[f] ==> s.metadata@[f].pin_count == 0,
{
    let free = s.free_list@;
    if s.metadata@[f].page_id == u64::MAX {
        assert(s.size() <= usize::MAX);
        assert(s.metadata@[f as usize as int].page_id == u64::MAX);
        let k = choose|k: int| 0 <= k < free.len() && free[k] == f as usize;
        assert(s.metadata@[free[k] as int] == shard::vacant());
    }
}

/// A shard in which no frame in use is on the clock is one in which every frame on the clock is unused.
pub proof fn law_pinned_off_clock(s: BufferPoolShard)
    ensures
        s.pinned_off_clock() <==> forall|f: int|
            0 <= f < s.metadata@.len() && #[trigger] s.replacer.evictable@[f]
                ==> s.metadata@[f].pin_count == 0,
{
}

/// A new shard has vacant frames only, hands out frame 0 first, and has no frame on its clock.
pub proof fn law_new_shard(s: BufferPoolShard, size: usize, f: int, p: u64)
    requires
        call_ensures(BufferPoolShard::new, (size,), s),
    ensures
        s.wf(),
        s.metadata@.len() == size,
        !s.page_table@.contains_key(p),
        s.free_list@.len() == size,
        0 <= f < size ==> {
            &&& s.metadata@[f].page_id == u64::MAX
            &&& s.metadata@[f].pin_count == 0
            &&& !s.metadata@[f].is_dirty
            &&& s.free_list@[size - 1 - f] == f
            &&& !s.replacer.evictable@[f]
        },
        s.replacer.hand == 0,
        s.pinned_off_clock(),
{
    if 0 <= f < size {
        assert(!s.replacer@.offers(f));
    }
}

/// Where nothing differs, every frame stays, and so do the page table and the free list.
pub proof fn law_same(a: BufferPoolShard, b: BufferPoolShard, f: int)
    requires
        a.same(b),
        0 <= f < a.metadata@.len(),
        a.wf(),
    ensures
        frame_stays(a, b, f),
        b.metadata@.len() == a.metadata@.len(),
        b.page_table@ == a.page_table@,
        b.free_list@ == a.free_list@,
        b.replacer.hand == a.replacer.hand,
{
}

// ── Using pages ──────────────────────────────────────────────────────────────
/// A use that ends takes one from the page's count and remembers changes. The last user puts the frame
/// on the clock, referenced, whether or not the page has changes and whether or not it had some. A page
/// that nobody uses, or that is in no frame, stays as it is.
pub proof fn law_unpinned(a: BufferPoolShard, b: BufferPoolShard, p: u64, dirty: bool, g: int)
    requires
        a.wf(),
        a.unpinned(b, p, dirty),
        0 <= g < a.metadata@.len(),
    ensures
        ({
            let f = a.page_table@[p] as int;
            let used = a.page_table@.contains_key(p) && a.metadata@[f].pin_count > 0;
            &&& b.page_table@ == a.page_table@
            &&& b.free_list@ == a.free_list@
            &&& b.metadata@.len() == a.metadata@.len()
            &&& b.replacer.hand == a.replacer.hand
            &&& !used || g != f ==> frame_stays(a, b, g)
            &&& used ==> {
                &&& b.metadata@[f].page_id == p
                &&& b.metadata@[f].pin_count == a.metadata@[f].pin_count - 1
                &&& b.metadata@[f].is_dirty == (a.metadata@[f].is_dirty || dirty)
                &&& a.metadata@[f].pin_count == 1 ==> b.replacer.evictable@[f]
                    && b.replacer.ref_bits@[f]
                &&& a.metadata@[f].pin_count > 1 ==> b.replacer.evictable@[f]
                    == a.replacer.evictable@[f] && b.replacer.ref_bits@[f] == a.replacer.ref_bits@[f]
            }
        }),
{
}

/// `unpin_page` ends a use.
pub proof fn law_unpin_page(s: &mut BufferPoolShard, p: u64, dirty: bool)
    requires
        call_ensures(BufferPoolShard::unpin_page, (s, p, dirty), ()),
    ensures
        old(s).unpinned(*final(s), p, dirty),
        final(s).wf(),
{
}

/// One more use adds one to the page's count and takes its frame off the clock; nothing else changes.
pub proof fn law_pinned_once_more(a: BufferPoolShard, b: BufferPoolShard, p: u64, g: int)
    requires
        a.wf(),
        a.page_table@.contains_key(p),
        a.metadata@[a.page_table@[p] as int].pin_count < u64::MAX,
        a.pinned_once_more(b, p),
        0 <= g < a.metadata@.len(),
    ensures
        ({
            let f = a.page_table@[p] as int;
            &&& b.page_table@ == a.page_table@
            &&& b.free_list@ == a.free_list@
            &&& b.metadata@.len() == a.metadata@.len()
            &&& b.replacer.hand == a.replacer.hand
            &&& g != f ==> frame_stays(a, b, g)
            &&& b.metadata@[f].page_id == p
            &&& b.metadata@[f].pin_count == a.metadata@[f].pin_count + 1
            &&& b.metadata@[f].is_dirty == a.metadata@[f].is_dirty
            &&& !b.replacer.evictable@[f]
            &&& !b.replacer.ref_bits@[f]
        }),
{
}

/// `pin_page` takes a use of a page exactly when it is in a frame, and says which frame that is.
pub proof fn law_pin_page(s: &mut BufferPoolShard, p: u64, frame: Option<usize>)
    requires
        call_ensures(BufferPoolShard::pin_page, (s, p), frame),
    ensures
        frame is Some <==> old(s).page_table@.contains_key(p),
        frame matches Some(f) ==> f == old(s).page_table@[p] && old(s).pinned_once_more(*final(s), p),
        frame is None ==> old(s).same(*final(s)),
        final(s).wf(),
{
}

// ── Finding a frame ──────────────────────────────────────────────────────────
/// The frame that is given up is the last free one if there is one. Else it is on the clock and nobody
/// uses it; while some such frame is unreferenced, it is the first unreferenced one from the hand on,
/// else the first one from the hand on.
pub proof fn law_gives_up(a: BufferPoolShard, b: BufferPoolShard, f: int, g: int)
    requires
        a.wf(),
        a.gives_up(b, f),
        0 <= g < a.metadata@.len(),
    ensures
        a.free_list@.len() > 0 ==> {
            &&& f == a.free_list@[a.free_list@.len() - 1]
            &&& b.free_list@ == a.free_list@.drop_last()
            &&& b.replacer.hand == a.replacer.hand
            &&& b.replacer.evictable@ == a.replacer.evictable@
            &&& b.replacer.ref_bits@ == a.replacer.ref_bits@
        },
        a.free_list@.len() == 0 ==> {
            let n = a.metadata@.len() as int;
            let candidate = a.replacer.evictable@[g] && a.metadata@[g].pin_count == 0;
            let to_f = replacer::ahead(a.replacer.hand as int, f, n);
            let to_g = replacer::ahead(a.replacer.hand as int, g, n);
            &&& 0 <= f < n
            &&& a.replacer.evictable@[f]
            &&& a.metadata@[f].pin_count == 0
            &&& candidate && !a.replacer.ref_bits@[g] ==> !a.replacer.ref_bits@[f] && to_f <= to_g
            &&& candidate && a.replacer.ref_bits@[f] ==> to_f <= to_g
            &&& !b.replacer.evictable@[f]
            &&& g != f ==> b.replacer.evictable@[g] == a.replacer.evictable@[g]
            &&& b.free_list@.len() == 0
            &&& b.replacer.hand == if f + 1 == n {
                0
            } else {
                f + 1
            }
            &&& !b.replacer.ref_bits@[f]
            &&& a.metadata@[g].pin_count > 0 ==> b.replacer.ref_bits@[g] == a.replacer.ref_bits@[g]
            &&& a.metadata@[g].pin_count == 0 && (a.replacer.ref_bits@[f] || to_g < to_f)
                ==> !b.replacer.ref_bits@[g]
            &&& !a.replacer.ref_bits@[f] && to_g > to_f ==> b.replacer.ref_bits@[g]
                == a.replacer.ref_bits@[g]
        },
{
    if a.free_list@.len() == 0 {
        let idle = a.idle_clock();
        assert(idle.offers(f));
        if a.replacer.evictable@[g] && a.metadata@[g].pin_count == 0 {
            assert(idle.offers(g));
        }
        if !a.replacer.ref_bits@[f] {
            assert(!idle.all_referenced());
        }
    }
}

/// `find_victim_frame_id` fails exactly when no frame is free and every frame on the clock is in use;
/// what it gives was given up.
pub proof fn law_find_victim(s: &mut BufferPoolShard, res: Result<usize, BufferPoolError>, g: int)
    requires
        call_ensures(BufferPoolShard::find_victim_frame_id, (s,), res),
        old(s).wf(),
    ensures
        final(s).metadata@ == old(s).metadata@,
        final(s).page_table@ == old(s).page_table@,
        res matches Ok(f) ==> old(s).gives_up(*final(s), f as int),
        res matches Err(e) ==> e is NoEvictableFrames && old(s).same(*final(s)),
        old(s).free_list@.len() > 0 ==> res is Ok,
        0 <= g < old(s).metadata@.len() && old(s).replacer.evictable@[g] && old(
            s,
        ).metadata@[g].pin_count == 0 ==> res is Ok,
{
    if res is Err && 0 <= g < old(s).metadata@.len() {
        assert(!old(s).idle_clock().offers(g));
    }
}

/// A page that is in a frame is found there and pinned once more. Any other page is given a frame, or a
/// page with changes has to be flushed first; and that fails only when no frame is free and every frame
/// on the clock is in use.
pub proof fn law_finds_frame(
    a: BufferPoolShard,
    b: BufferPoolShard,
    p: u64,
    res: Result<FrameStep, BufferPoolError>,
    g: int,
)
    requires
        a.wf(),
        a.finds_frame(b, p, res),
        0 <= g < a.metadata@.len(),
    ensures
        a.page_table@.contains_key(p) <==> res matches Ok(FrameStep::Resident(_)),
        res matches Ok(FrameStep::Resident(f)) ==> f == a.page_table@[p] && a.pinned_once_more(b, p),
        res matches Ok(FrameStep::Installed(f)) ==> {
            &&& a.gives_up(b, f as int)
            &&& f < a.metadata@.len()
            &&& !a.metadata@[f as int].is_dirty
            &&& a.metadata@[f as int].pin_count == 0
            &&& b.metadata@.len() == a.metadata@.len()
            &&& b.metadata@[f as int].page_id == p
            &&& b.metadata@[f as int].pin_count == 1
            &&& !b.metadata@[f as int].is_dirty
            &&& !b.replacer.evictable@[f as int]
            &&& g != f ==> b.metadata@[g] == a.metadata@[g]
        },
        res matches Ok(FrameStep::FlushFirst(q)) ==> {
            &&& a.free_list@.len() == 0
            &&& a.page_table@.contains_key(q)
            &&& a.metadata@[a.page_table@[q] as int].is_dirty
            &&& a.gives_up(b, a.page_table@[q] as int)
            &&& b.metadata@ == a.metadata@
            &&& b.page_table@ == a.page_table@
        },
        res matches Err(e) ==> e is NoEvictableFrames && a.same(b),
        a.free_list@.len() > 0 ==> res is Ok,
        a.replacer.evictable@[g] && a.metadata@[g].pin_count == 0 ==> res is Ok,
{
    match res {
        Ok(FrameStep::Installed(f)) => {
            law_gives_up(a, b, f as int, g);
            if a.free_list@.len() > 0 {
                let free = a.free_list@;
                assert(free[free.len() - 1] == f);
            }
        },
        Err(_) => {
            assert(!a.idle_clock().offers(g));
        },
        _ => {},
    }
}

/// A page that was given a frame is in the page table there; the page that the frame held is not; every
/// other page is where it was.
pub proof fn law_installed(a: BufferPoolShard, b: BufferPoolShard, p: u64, f: usize, q: u64)
    requires
        a.wf(),
        a.finds_frame(b, p, Ok::<_, BufferPoolError>(FrameStep::Installed(f))),
    ensures
        b.page_table@.contains_key(p),
        b.page_table@[p] == f,
        q != p && q == a.metadata@[f as int].page_id ==> !b.page_table@.contains_key(q),
        q != p && q != a.metadata@[f as int].page_id ==> {
            &&& b.page_table@.contains_key(q) == a.page_table@.contains_key(q)
            &&& b.page_table@[q] == a.page_table@[q]
        },
{
}

/// `evict_and_replace` finds a frame.
pub proof fn law_evict_and_replace(
    s: &mut BufferPoolShard,
    p: u64,
    res: Result<FrameStep, BufferPoolError>,
)
    requires
        call_ensures(BufferPoolShard::evict_and_replace, (s, p), res),
    ensures
        old(s).finds_frame(*final(s), p, res),
        final(s).wf(),
{
}

// ── Writing pages ────────────────────────────────────────────────────────────
/// A flush is owed exactly for a page that is in a frame and has changes. It counts as a use, the page
/// counts as clean from then on, and nothing else changes, the clock included.
pub proof fn law_flush_begun(
    a: BufferPoolShard,
    b: BufferPoolShard,
    p: u64,
    owed: Option<(u64, usize)>,
    g: int,
)
    requires
        a.wf(),
        a.page_table@.contains_key(p) ==> a.metadata@[a.page_table@[p] as int].pin_count < u64::MAX,
        a.flush_begun(b, p, owed),
        0 <= g < a.metadata@.len(),
    ensures
        ({
            let f = a.page_table@[p];
            &&& owed is Some <==> a.page_table@.contains_key(p) && a.metadata@[f as int].is_dirty
            &&& owed is Some ==> {
                &&& owed == Some((p, f))
                &&& b.metadata@[f as int].page_id == p
                &&& b.metadata@[f as int].pin_count == a.metadata@[f as int].pin_count + 1
                &&& !b.metadata@[f as int].is_dirty
                &&& b.replacer.evictable@[f as int] == a.replacer.evictable@[f as int]
                &&& b.replacer.ref_bits@[f as int] == a.replacer.ref_bits@[f as int]
            }
            &&& owed is None || g != f ==> frame_stays(a, b, g)
            &&& b.metadata@.len() == a.metadata@.len()
            &&& b.page_table@ == a.page_table@
            &&& b.free_list@ == a.free_list@
            &&& b.replacer.hand == a.replacer.hand
        }),
{
}

/// `begin_flush` begins a flush.
pub proof fn law_begin_flush(s: &mut BufferPoolShard, p: u64, owed: Option<(u64, usize)>)
    requires
        call_ensures(BufferPoolShard::begin_flush, (s, p), owed),
    ensures
        old(s).flush_begun(*final(s), p, owed),
        final(s).wf(),
{
}

/// A write that ends takes its use back and says whether the page has changes; nothing else changes, the
/// clock included.
pub proof fn law_write_ended(a: BufferPoolShard, b: BufferPoolShard, f: int, dirty: bool, g: int)
    requires
        a.wf(),
        0 <= f < a.metadata@.len(),
        a.metadata@[f].pin_count > 0,
        a.write_ended(b, f, dirty),
        0 <= g < a.metadata@.len(),
    ensures
        b.metadata@.len() == a.metadata@.len(),
        b.metadata@[f].page_id == a.metadata@[f].page_id,
        b.metadata@[f].pin_count == a.metadata@[f].pin_count - 1,
        b.metadata@[f].is_dirty == dirty,
        b.replacer.evictable@[f] == a.replacer.evictable@[f],
        b.replacer.ref_bits@[f] == a.replacer.ref_bits@[f],
        g != f ==> frame_stays(a, b, g),
        b.page_table@ == a.page_table@,
        b.free_list@ == a.free_list@,
        b.replacer.hand == a.replacer.hand,
{
}

/// `end_flush` and `end_delete_write` end a write. The page has changes afterwards exactly when it got
/// some meanwhile or was not written. A deletion whose write failed is told so.
pub proof fn law_end_writes(
    s: &mut BufferPoolShard,
    t: &mut BufferPoolShard,
    f: usize,
    written: bool,
    res: Result<(), BufferPoolError>,
)
    requires
        call_ensures(BufferPoolShard::end_flush, (s, f, written), ()),
        call_ensures(BufferPoolShard::end_delete_write, (t, f, written), res),
    ensures
        old(s).write_ended(
            *final(s),
            f as int,
            old(s).metadata@[f as int].is_dirty || !written,
        ),
        old(t).write_ended(
            *final(t),
            f as int,
            old(t).metadata@[f as int].is_dirty || !written,
        ),
        res is Ok <==> written,
        res matches Err(e) ==> e matches BufferPoolError::InternalError(msg) && msg@
            == "Flush failed during delete"@,
        final(s).wf(),
        final(t).wf(),
{
}

/// A frame's page has to be flushed exactly when it has changes.
pub proof fn law_page_to_flush(s: &BufferPoolShard, f: usize, p: Option<u64>)
    requires
        call_ensures(BufferPoolShard::page_to_flush, (s, f), p),
    ensures
        p is Some <==> s.metadata@[f as int].is_dirty && s.metadata@[f as int].page_id != u64::MAX,
        p matches Some(q) ==> q == s.metadata@[f as int].page_id,
{
}

/// The list of changed pages grows frame by frame by the pages that have changes.
pub proof fn law_changed_pages(s: BufferPoolShard, n: int)
    requires
        0 <= n,
    ensures
        s.changed_pages(0) == Seq::<u64>::empty(),
        s.metadata@[n].is_dirty && s.metadata@[n].page_id != u64::MAX ==> s.changed_pages(n + 1)
            == s.changed_pages(n).push(s.metadata@[n].page_id),
        !s.metadata@[n].is_dirty || s.metadata@[n].page_id == u64::MAX ==> s.changed_pages(n + 1)
            == s.changed_pages(n),
{
}

// ── Dropping pages ───────────────────────────────────────────────────────────
/// A dropped page is in no frame; its frame is vacant, off the clock and the next to be handed out. No
/// other page and no other frame is touched.
pub proof fn law_dropped(a: BufferPoolShard, b: BufferPoolShard, p: u64, q: u64, g: int)
    requires
        a.wf(),
        a.page_table@.contains_key(p),
        a.dropped(b, p),
        q != p,
        0 <= g < a.metadata@.len(),
    ensures
        ({
            let f = a.page_table@[p] as int;
            &&& !b.page_table@.contains_key(p)
            &&& b.page_table@.contains_key(q) == a.page_table@.contains_key(q)
            &&& b.page_table@[q] == a.page_table@[q]
            &&& b.metadata@.len() == a.metadata@.len()
            &&& b.metadata@[f].page_id == u64::MAX
            &&& b.metadata@[f].pin_count == 0
            &&& !b.metadata@[f].is_dirty
            &&& !b.replacer.evictable@[f]
            &&& b.free_list@.len() == a.free_list@.len() + 1
            &&& b.free_list@[a.free_list@.len() as int] == f
            &&& b.free_list@.drop_last() == a.free_list@
            &&& g != f ==> frame_stays(a, b, g)
            &&& b.replacer.hand == a.replacer.hand
        }),
{
    assert(b.free_list@.drop_last() =~= a.free_list@);
}

/// Deleting a page drops it when nobody uses it and it has no changes; refuses when somebody uses it;
/// and asks for a write when it has changes, which counts as a use. A page in no frame is deleted already.
pub proof fn law_deletes(
    a: BufferPoolShard,
    b: BufferPoolShard,
    p: u64,
    res: Result<DeleteStep, BufferPoolError>,
    g: int,
)
    requires
        a.wf(),
        a.deletes(b, p, res),
        0 <= g < a.metadata@.len(),
    ensures
        ({
            let f = a.page_table@[p];
            let held = a.page_table@.contains_key(p);
            let meta = a.metadata@[f as int];
            &&& res is Err <==> held && meta.pin_count > 0
            &&& res matches Err(e) ==> e is PinCountError && a.same(b)
            &&& res == Ok::<_, BufferPoolError>(DeleteStep::Done) <==> !held || (meta.pin_count == 0
                && !meta.is_dirty)
            &&& !held ==> a.same(b)
            &&& held && meta.pin_count == 0 && !meta.is_dirty ==> a.dropped(b, p)
            &&& held && meta.pin_count == 0 && meta.is_dirty ==> {
                &&& res == Ok::<_, BufferPoolError>(DeleteStep::WriteFirst { frame: f, page_id: p })
                &&& b.metadata@[f as int].page_id == p
                &&& b.metadata@[f as int].pin_count == 1
                &&& !b.metadata@[f as int].is_dirty
                &&& g != f ==> frame_stays(a, b, g)
                &&& b.replacer.evictable@[f as int] == a.replacer.evictable@[f as int]
                &&& b.replacer.ref_bits@[f as int] == a.replacer.ref_bits@[f as int]
                &&& b.replacer.hand == a.replacer.hand
                &&& b.page_table@ == a.page_table@
                &&& b.free_list@ == a.free_list@
            }
        }),
{
}

/// `delete_page` deletes.
pub proof fn law_delete_page(
    s: &mut BufferPoolShard,
    p: u64,
    res: Result<DeleteStep, BufferPoolError>,
)
    requires
        call_ensures(BufferPoolShard::delete_page, (s, p), res),
    ensures
        old(s).deletes(*final(s), p, res),
        final(s).wf(),
{
}

/// A page that could not be read is dropped by its only user; another user only gives up a use.
pub proof fn law_load_failed(a: BufferPoolShard, b: BufferPoolShard, p: u64)
    requires
        a.load_failed(b, p),
    ensures
        ({
            let meta = a.metadata@[a.page_table@[p] as int];
            let alone = a.page_table@.contains_key(p) && meta.pin_count == 1 && !meta.is_dirty;
            &&& alone ==> a.dropped(b, p)
            &&& !alone ==> a.unpinned(b, p, false)
        }),
{
}

/// `end_failed_load` gives such a page up.
pub proof fn law_end_failed_load(s: &mut BufferPoolShard, p: u64)
    requires
        call_ensures(BufferPoolShard::end_failed_load, (s, p), ()),
    ensures
        old(s).load_failed(*final(s), p),
        final(s).wf(),
{
}

// ── Calls one after the other ────────────────────────────────────────────────
/// The last user of a page puts its frame on the clock, so that a frame can be found for any page: the
/// search does not end for want of a frame, whether or not changes were reported and whether or not the
/// page had some.
pub proof fn law_unpin_then_fetch(
    first: &mut BufferPoolShard,
    second: &mut BufferPoolShard,
    p: u64,
    dirty: bool,
    q: u64,
    res: Result<FrameStep, BufferPoolError>,
)
    requires
        old(first).wf(),
        old(first).page_table@.contains_key(p),
        old(first).metadata@[old(first).page_table@[p] as int].pin_count == 1,
        call_ensures(BufferPoolShard::unpin_page, (first, p, dirty), ()),
        *old(second) == *final(first),
        call_ensures(BufferPoolShard::evict_and_replace, (second, q), res),
    ensures
        res is Ok,
{
    let f = old(first).page_table@[p] as int;
    law_unpinned(*old(first), *final(first), p, dirty, f);
    law_finds_frame(*old(second), *final(second), q, res, f);
}

/// A flush leaves an unused frame on the clock: a page that its last user gave up, and that was flushed,
/// can be evicted, so that a frame can be found for any page.
pub proof fn law_unpin_flush_then_fetch(
    first: &mut BufferPoolShard,
    second: &mut BufferPoolShard,
    third: &mut BufferPoolShard,
    fourth: &mut BufferPoolShard,
    p: u64,
    dirty: bool,
    frame: usize,
    written: bool,
    q: u64,
    res: Result<FrameStep, BufferPoolError>,
)
    requires
        old(first).wf(),
        old(first).page_table@.contains_key(p),
        old(first).metadata@[old(first).page_table@[p] as int].pin_count == 1,
        call_ensures(BufferPoolShard::unpin_page, (first, p, dirty), ()),
        *old(second) == *final(first),
        call_ensures(BufferPoolShard::begin_flush, (second, p), Some((p, frame))),
        *old(third) == *final(second),
        call_ensures(BufferPoolShard::end_flush, (third, frame, written), ()),
        *old(fourth) == *final(third),
        call_ensures(BufferPoolShard::evict_and_replace, (fourth, q), res),
    ensures
        res is Ok,
        final(third).metadata@[frame as int].is_dirty == !written,
        final(third).metadata@[frame as int].pin_count == 0,
{
    let f = old(first).page_table@[p] as int;
    law_unpinned(*old(first), *final(first), p, dirty, f);
    law_flush_begun(*old(second), *final(second), p, Some((p, frame)), f);
    law_write_ended(*old(third), *final(third), f, !written, f);
    law_finds_frame(*old(fourth), *final(fourth), q, res, f);
}

/// Once every user has gone and every page was flushed, with every frame on the clock or free, a page is
/// found or given a frame at once: no search ends for want of a frame, and none asks for a flush.
pub proof fn law_idle_clean_shard_gives_a_frame(
    s: &mut BufferPoolShard,
    p: u64,
    res: Result<FrameStep, BufferPoolError>,
)
    requires
        old(s).wf(),
        old(s).metadata@.len() > 0,
        forall|f: int|
            0 <= f < old(s).metadata@.len() ==> {
                &&& (#[trigger] old(s).metadata@[f]).pin_count == 0
                &&& !old(s).metadata@[f].is_dirty
                &&& old(s).metadata@[f].page_id != u64::MAX ==> old(s).replacer.evictable@[f]
            },
        call_ensures(BufferPoolShard::evict_and_replace, (s, p), res),
    ensures
        res matches Ok(step) && !(step is FlushFirst),
{
    let a = *old(s);
    assert(a.metadata@[0].pin_count == 0);
    if a.metadata@[0].page_id == u64::MAX {
        assert(a.metadata@[0usize as int].page_id == u64::MAX);
        assert(a.free_list@.contains(0));
    }
    law_finds_frame(a, *final(s), p, res, 0);
}

/// Every page in a frame that nobody uses is on the clock.
pub open spec fn unused_on_clock(s: BufferPoolShard) -> bool {
    forall|f: int|
        0 <= f < s.metadata@.len() && (#[trigger] s.metadata@[f]).page_id != u64::MAX
            && s.metadata@[f].pin_count == 0 ==> s.replacer.evictable@[f]
}

/// Giving up a page keeps every unused page on the clock.
pub proof fn law_unpin_keeps_unused_on_clock(s: &mut BufferPoolShard, p: u64, dirty: bool)
    requires
        old(s).wf(),
        unused_on_clock(*old(s)),
        call_ensures(BufferPoolShard::unpin_page, (s, p, dirty), ()),
    ensures
        unused_on_clock(*final(s)),
{
    let (a, b) = (*old(s), *final(s));
    assert forall|f: int|
        0 <= f < b.metadata@.len() && (#[trigger] b.metadata@[f]).page_id != u64::MAX
            && b.metadata@[f].pin_count == 0 implies b.replacer.evictable@[f] by {
        law_unpinned(a, b, p, dirty, f);
        assert(a.metadata@[f].page_id != u64::MAX);
    }
}

/// Fetching a page keeps every unused page on the clock, unless a flush is asked for.
pub proof fn law_fetch_keeps_unused_on_clock(
    s: &mut BufferPoolShard,
    p: u64,
    res: Result<FrameStep, BufferPoolError>,
)
    requires
        old(s).wf(),
        old(s).page_table@.contains_key(p) ==> old(s).metadata@[old(s).page_table@[p] as int].pin_count
            < u64::MAX,
        unused_on_clock(*old(s)),
        call_ensures(BufferPoolShard::evict_and_replace, (s, p), res),
        !(res matches Ok(FrameStep::FlushFirst(_))),
    ensures
        unused_on_clock(*final(s)),
{
    let (a, b) = (*old(s), *final(s));
    assert forall|g: int|
        0 <= g < b.metadata@.len() && (#[trigger] b.metadata@[g]).page_id != u64::MAX
            && b.metadata@[g].pin_count == 0 implies b.replacer.evictable@[g] by {
        law_finds_frame(a, b, p, res, g);
        match res {
            Ok(FrameStep::Resident(_)) => law_pinned_once_more(a, b, p, g),
            Ok(FrameStep::Installed(f)) => law_gives_up(a, b, f as int, g),
            _ => {},
        }
        assert(a.metadata@[g].page_id != u64::MAX);
    }
}

/// Flushing a page that nobody uses keeps every unused page on the clock.
pub proof fn law_flush_keeps_unused_on_clock(
    first: &mut BufferPoolShard,
    second: &mut BufferPoolShard,
    p: u64,
    frame: usize,
    written: bool,
)
    requires
        old(first).wf(),
        unused_on_clock(*old(first)),
        old(first).page_table@.contains_key(p) ==> old(first).metadata@[old(first).page_table@[p] as int].pin_count
            == 0,
        call_ensures(BufferPoolShard::begin_flush, (first, p), Some((p, frame))),
        *old(second) == *final(first),
        call_ensures(BufferPoolShard::end_flush, (second, frame, written), ()),
    ensures
        unused_on_clock(*final(second)),
        final(second).metadata@[frame as int].is_dirty == !written,
{
    let (a, b, c) = (*old(first), *final(first), *final(second));
    law_flush_begun(a, b, p, Some((p, frame)), 0);
    assert forall|g: int|
        0 <= g < c.metadata@.len() && (#[trigger] c.metadata@[g]).page_id != u64::MAX
            && c.metadata@[g].pin_count == 0 implies c.replacer.evictable@[g] by {
        law_flush_begun(a, b, p, Some((p, frame)), g);
        law_write_ended(b, c, frame as int, !written, g);
        assert(a.metadata@[g].page_id != u64::MAX);
    }
}

/// Every page but the mark of a vacant frame can be sought; any page can be given up, flushed or deleted.
pub proof fn law_calls_accepted(s: &mut BufferPoolShard, p: u64, dirty: bool, f: usize)
    requires
        old(s).wf(),
        old(s).page_table@.contains_key(p) ==> old(s).metadata@[old(s).page_table@[p] as int].pin_count
            < u64::MAX,
    ensures
        p != u64::MAX ==> call_requires(BufferPoolShard::evict_and_replace, (s, p)),
        call_requires(BufferPoolShard::pin_page, (s, p)),
        call_requires(BufferPoolShard::unpin_page, (s, p, dirty)),
        call_requires(BufferPoolShard::begin_flush, (s, p)),
        call_requires(BufferPoolShard::delete_page, (s, p)),
        call_requires(BufferPoolShard::end_failed_load, (s, p)),
        f < old(s).metadata@.len() && old(s).metadata@[f as int].pin_count > 0 ==> call_requires(
            BufferPoolShard::end_flush,
            (s, f, dirty),
        ),
{
}

} // verus!
