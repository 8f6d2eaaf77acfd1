//! One shard of the pool: its frames, its page table, its free frames and its clock.

use crate::buffer_pool::replacer::{Clock, ClockReplacer};
use crate::buffer_pool::{BufferPoolError, INVALID_FRAME_ID};
use std::collections::HashMap;
use vstd::prelude::*;

verus! {

broadcast use vstd::std_specs::hash::group_hash_axioms;

/// What is known of one frame.
#[derive(Debug, Clone, Copy, PartialEq, Eq, Structural)]
pub struct FrameMetadata {
    /// The page in the frame, or `INVALID_FRAME_ID`.
    pub page_id: u64,
    /// How many users the page has.
    pub pin_count: u64,
    /// The frame holds changes that are not on disk.
    pub is_dirty: bool,
}

pub struct BufferPoolShard {
    pub metadata: Vec<FrameMetadata>,
    pub page_table: HashMap<u64, usize>,
    pub free_list: Vec<usize>,
    pub replacer: ClockReplacer,
}

/// What looking for a frame for a page comes to.
#[derive(Debug, Clone, Copy, PartialEq, Eq, Structural)]
pub enum FrameStep {
    /// The page is in this frame already, and pinned once more.
    Resident(usize),
    /// The page was given this frame, which does not hold its contents yet. A user who cannot fill
    /// it gives the page up by `end_failed_load`.
    Installed(usize),
    /// The frame to reuse holds changes: flush this page, then try again.
    FlushFirst(u64),
}

/// What deleting a page comes to.
#[derive(Debug, Clone, Copy, PartialEq, Eq, Structural)]
pub enum DeleteStep {
    /// The page is in no frame.
    Done,
    /// The frame held changes and counts as clean and in use from here on: write this page from this
    /// frame, report how it went, then try again.
    WriteFirst { frame: usize, page_id: u64 },
}

/// A frame without a page.
pub open spec fn vacant() -> FrameMetadata {
    FrameMetadata { page_id: INVALID_FRAME_ID, pin_count: 0, is_dirty: false }
}

impl BufferPoolShard {
    pub open spec fn size(&self) -> int {
        self.metadata@.len() as int
    }

    /// The page is in a frame of this shard.
    pub open spec fn holds(&self, page_id: u64) -> bool {
        self.page_table@.contains_key(page_id)
    }

    /// The frame that the page is in.
    pub open spec fn frame_of(&self, page_id: u64) -> int {
        self.page_table@[page_id] as int
    }

    pub open spec fn meta_of(&self, page_id: u64) -> FrameMetadata {
        self.metadata@[self.frame_of(page_id)]
    }

    /// The page table and the frames agree, the free list is exactly the vacant frames, and only
    /// frames with a page are on the clock.
    pub open spec fn wf(&self) -> bool {
        &&& self.replacer.wf()
        &&& self.replacer.size == self.size()
        &&& forall|p: u64| #[trigger]
            self.page_table@.contains_key(p) ==> {
                &&& p != INVALID_FRAME_ID
                &&& 0 <= self.frame_of(p) < self.size()
                &&& self.meta_of(p).page_id == p
            }
        &&& forall|f: int|
            0 <= f < self.size() && (#[trigger] self.metadata@[f]).page_id != INVALID_FRAME_ID ==> {
                &&& self.holds(self.metadata@[f].page_id)
                &&& self.frame_of(self.metadata@[f].page_id) == f
            }
        &&& forall|i: int|
            0 <= i < self.free_list@.len() ==> {
                &&& (#[trigger] self.free_list@[i]) < self.size()
                &&& self.metadata@[self.free_list@[i] as int] == vacant()
            }
        &&& self.free_list@.no_duplicates()
        &&& forall|f: usize|
            f < self.size() && (#[trigger] self.metadata@[f as int]).page_id == INVALID_FRAME_ID
                ==> self.free_list@.contains(f)
        &&& forall|f: int|
            0 <= f < self.size() && #[trigger] self.replacer.evictable@[f]
                ==> self.metadata@[f].page_id != INVALID_FRAME_ID
    }

    /// Which frames hold a page that somebody uses.
    pub open spec fn in_use(&self) -> Seq<bool> {
        Seq::new(self.metadata@.len(), |f: int| self.metadata@[f].pin_count > 0)
    }

    /// The clock without the frames that somebody uses.
    pub open spec fn idle_clock(&self) -> Clock {
        self.replacer@.idle(self.in_use())
    }

    /// No frame in use is on the clock. Only a write that is under way makes an exception: its frame
    /// is in use and may be on the clock.
    pub open spec fn pinned_off_clock(&self) -> bool {
        forall|f: int|
            0 <= f < self.size() && #[trigger] self.replacer.evictable@[f]
                ==> self.metadata@[f].pin_count == 0
    }

    /// Nothing differs.
    pub open spec fn same(&self, after: BufferPoolShard) -> bool {
        &&& after.metadata@ == self.metadata@
        &&& after.page_table@ == self.page_table@
        &&& after.free_list@ == self.free_list@
        &&& after.replacer@ == self.replacer@
    }

    /// Only what is known of frame `frame` differs: it is `meta` now.
    pub open spec fn reframed(
        &self,
        after: BufferPoolShard,
        frame: int,
        meta: FrameMetadata,
    ) -> bool {
        &&& after.metadata@ == self.metadata@.update(frame, meta)
        &&& after.page_table@ == self.page_table@
        &&& after.free_list@ == self.free_list@
    }

    /// All of `size` frames are vacant, the first is handed out first, and the clock has not moved.
    pub open spec fn fresh(&self, size: int) -> bool {
        &&& self.metadata@ == Seq::new(size as nat, |f: int| vacant())
        &&& self.page_table@ == Map::<u64, usize>::empty()
        &&& self.free_list@ == Seq::new(size as nat, |i: int| (size - 1 - i) as usize)
        &&& self.replacer.hand == 0
        &&& forall|f: int| !(#[trigger] self.replacer@.offers(f))
    }

    pub fn new(size: usize) -> (shard: Self)
        requires
            2 * size <= usize::MAX,
        ensures
            shard.wf(),
            shard.pinned_off_clock(),
            shard.fresh(size as int),
    {
        let mut metadata: Vec<FrameMetadata> = Vec::with_capacity(size);
        let mut free_list: Vec<usize> = Vec::with_capacity(size);
        let mut frame_id: usize = 0;
        while frame_id < size
            invariant
                frame_id <= size,
                metadata@ == Seq::new(frame_id as nat, |f: int| vacant()),
                free_list@ == Seq::new(frame_id as nat, |i: int| (size - 1 - i) as usize),
            decreases size - frame_id,
        {
            metadata.push(
                FrameMetadata { page_id: INVALID_FRAME_ID, pin_count: 0, is_dirty: false },
            );
            free_list.push(size - 1 - frame_id);
            frame_id = frame_id + 1;
            assert(metadata@ =~= Seq::new(frame_id as nat, |f: int| vacant()));
            assert(free_list@ =~= Seq::new(frame_id as nat, |i: int| (size - 1 - i) as usize));
        }
        let shard = Self {
            metadata,
            page_table: HashMap::with_capacity(size),
            free_list,
            replacer: ClockReplacer::new(size),
        };
        proof {
            assert forall|f: usize| f < shard.size() implies shard.free_list@.contains(f) by {
                assert(shard.free_list@[size - 1 - f] == f);
            }
        }
        shard
    }

    /// From `self` to `after` one use of a page ends, if it has one: the count goes down, changes
    /// are remembered, and the frame goes on the clock with its last user.
    pub open spec fn unpinned(&self, after: BufferPoolShard, page_id: u64, is_dirty: bool) -> bool {
        if self.holds(page_id) && self.meta_of(page_id).pin_count > 0 {
            let meta = self.meta_of(page_id);
            let frame = self.frame_of(page_id);
            &&& self.reframed(
                after,
                frame,
                (FrameMetadata {
                    page_id,
                    pin_count: (meta.pin_count - 1) as u64,
                    is_dirty: meta.is_dirty || is_dirty,
                }),
            )
            &&& if meta.pin_count == 1 {
                after.replacer@ == self.replacer@.marking(frame, true)
            } else {
                after.replacer@ == self.replacer@
            }
        } else {
            self.same(after)
        }
    }

    /// Gives up one use of a page. The last user puts its frame on the clock.
    pub fn unpin_page(&mut self, page_id: u64, is_dirty: bool)
        requires
            old(self).wf(),
        ensures
            final(self).wf(),
            old(self).pinned_off_clock() ==> final(self).pinned_off_clock(),
            old(self).unpinned(*final(self), page_id, is_dirty),
    {
        match self.page_table.get(&page_id) {
            Some(id) => {
                let local_id: usize = *id;
                assert(self.holds(page_id) && self.frame_of(page_id) == local_id);
                let meta = self.metadata[local_id];
                if meta.pin_count > 0 {
                    let pins: u64 = meta.pin_count - 1;
                    self.metadata.set(
                        local_id,
                        FrameMetadata {
                            page_id: meta.page_id,
                            pin_count: pins,
                            is_dirty: meta.is_dirty || is_dirty,
                        },
                    );
                    if pins == 0 {
                        self.replacer.unpin(local_id);
                    }
                }
            },
            None => {},
        }
    }

    /// Takes a use of a page that is in a frame, and says which.
    pub fn pin_page(&mut self, page_id: u64) -> (frame: Option<usize>)
        requires
            old(self).wf(),
            old(self).holds(page_id) ==> old(self).meta_of(page_id).pin_count < u64::MAX,
        ensures
            final(self).wf(),
            old(self).pinned_off_clock() ==> final(self).pinned_off_clock(),
            match frame {
                Some(f) => {
                    &&& old(self).holds(page_id)
                    &&& f == old(self).frame_of(page_id)
                    &&& old(self).pinned_once_more(*final(self), page_id)
                },
                None => !old(self).holds(page_id) && old(self).same(*final(self)),
            },
    {
        match self.page_table.get(&page_id) {
            Some(id) => {
                let frame_id: usize = *id;
                assert(self.holds(page_id) && self.frame_of(page_id) == frame_id);
                let meta = self.metadata[frame_id];
                self.metadata.set(
                    frame_id,
                    FrameMetadata { pin_count: meta.pin_count + 1, ..meta },
                );
                self.replacer.pin(frame_id);
                Some(frame_id)
            },
            None => None,
        }
    }

    /// One more user of a page in a frame: its count goes up and the frame leaves the clock.
    pub open spec fn pinned_once_more(&self, after: BufferPoolShard, page_id: u64) -> bool {
        let frame = self.frame_of(page_id);
        let meta = self.meta_of(page_id);
        &&& self.reframed(
            after,
            frame,
            (FrameMetadata { pin_count: (meta.pin_count + 1) as u64, ..meta }),
        )
        &&& after.replacer@ == self.replacer@.marking(frame, false)
    }

    fn frames_in_use(&self) -> (busy: Vec<bool>)
        ensures
            busy@ == self.in_use(),
    {
        let mut busy: Vec<bool> = Vec::new();
        while busy.len() < self.metadata.len()
            invariant
                busy@.len() <= self.metadata@.len(),
                busy@ == self.in_use().take(busy@.len() as int),
            decreases self.metadata@.len() - busy@.len(),
        {
            busy.push(self.metadata[busy.len()].pin_count > 0);
            assert(busy@ =~= self.in_use().take(busy@.len() as int));
        }
        assert(busy@ =~= self.in_use());
        busy
    }

    /// A frame to reuse: the last free one, or else the clock's victim among the frames that nobody
    /// uses. A frame from which a write is under way is in use, so it is passed over.
    pub fn find_victim_frame_id(&mut self) -> (res: Result<usize, BufferPoolError>)
        requires
            old(self).wf(),
        ensures
            final(self).metadata@ == old(self).metadata@,
            final(self).page_table@ == old(self).page_table@,
            final(self).replacer.wf(),
            match res {
                Ok(frame) => old(self).gives_up(*final(self), frame as int),
                Err(e) => {
                    &&& e is NoEvictableFrames
                    &&& old(self).free_list@.len() == 0
                    &&& forall|f: int| !(#[trigger] old(self).idle_clock().offers(f))
                    &&& old(self).same(*final(self))
                },
            },
    {
        match self.free_list.pop() {
            Some(id) => {
                assert(id == old(self).free_list@.last());
                Ok(id)
            },
            None => {
                let busy: Vec<bool> = self.frames_in_use();
                self.replacer.victim_among(&busy)
            },
        }
    }

    /// `frame` was free and is no longer, or was the clock's choice among the frames that nobody uses
    /// and is off the clock.
    pub open spec fn gives_up(&self, after: BufferPoolShard, frame: int) -> bool {
        if self.free_list@.len() > 0 {
            &&& frame == self.free_list@.last()
            &&& after.free_list@ == self.free_list@.drop_last()
            &&& after.replacer@ == self.replacer@
        } else {
            &&& self.idle_clock().is_next_victim(frame)
            &&& after.replacer@ == self.replacer@.taking_idle(frame, self.in_use())
            &&& after.free_list@ == self.free_list@
        }
    }

    /// From `self` to `after` a frame is sought for `page_id`, with the result `res`: the frame that
    /// it is in, else a frame that can be given up and has no changes, else the word to flush what
    /// is in the way first; an error if no frame can be given up.
    pub open spec fn finds_frame(
        &self,
        after: BufferPoolShard,
        page_id: u64,
        res: Result<FrameStep, BufferPoolError>,
    ) -> bool {
        match res {
            Ok(FrameStep::Resident(f)) => {
                &&& self.holds(page_id)
                &&& f == self.frame_of(page_id)
                &&& self.pinned_once_more(after, page_id)
            },
            Ok(FrameStep::Installed(f)) => {
                &&& !self.holds(page_id)
                &&& f < self.size()
                &&& !self.metadata@[f as int].is_dirty
                &&& self.gives_up(after, f as int)
                &&& self.installed(after, page_id, f)
            },
            Ok(FrameStep::FlushFirst(dirty)) => {
                &&& !self.holds(page_id)
                &&& self.free_list@.len() == 0
                &&& self.holds(dirty)
                &&& self.meta_of(dirty).is_dirty
                &&& self.gives_up(after, self.frame_of(dirty))
                &&& after.metadata@ == self.metadata@
                &&& after.page_table@ == self.page_table@
            },
            Err(e) => {
                &&& e is NoEvictableFrames
                &&& !self.holds(page_id)
                &&& self.free_list@.len() == 0
                &&& forall|f: int| !(#[trigger] self.idle_clock().offers(f))
                &&& self.same(after)
            },
        }
    }

    /// Finds a frame for `page_id` and pins it there. A frame whose page has changes is not reused
    /// before they are on disk.
    pub fn evict_and_replace(&mut self, page_id: u64) -> (res: Result<FrameStep, BufferPoolError>)
        requires
            old(self).wf(),
            page_id != INVALID_FRAME_ID,
            old(self).holds(page_id) ==> old(self).meta_of(page_id).pin_count < u64::MAX,
        ensures
            final(self).wf(),
            old(self).pinned_off_clock() ==> final(self).pinned_off_clock(),
            old(self).finds_frame(*final(self), page_id, res),
    {
        if let Some(id) = self.page_table.get(&page_id) {
            let frame: usize = *id;
            assert(self.holds(page_id) && self.frame_of(page_id) == frame);
            self.pin_page(page_id);
            return Ok(FrameStep::Resident(frame));
        }
        let frame_id: usize = match self.find_victim_frame_id() {
            Ok(id) => id,
            Err(e) => {
                return Err(e);
            },
        };
        let meta = self.metadata[frame_id];
        if meta.is_dirty && meta.page_id != INVALID_FRAME_ID {
            return Ok(FrameStep::FlushFirst(meta.page_id));
        }
        if meta.page_id != INVALID_FRAME_ID {
            self.page_table.remove(&meta.page_id);
        }
        self.metadata.set(frame_id, FrameMetadata { page_id, pin_count: 1, is_dirty: false });
        self.page_table.insert(page_id, frame_id);
        let ghost clock = self.replacer;
        self.replacer.pin(frame_id);
        proof {
            assert(!clock.evictable@[frame_id as int]);
            assert(self.replacer@ =~= clock@);
            assert(self.page_table@ =~= old(self).page_table@.remove(meta.page_id).insert(
                page_id,
                frame_id,
            ));
            old(self).lemma_installed(*self, page_id, frame_id);
        }
        Ok(FrameStep::Installed(frame_id))
    }

    /// Frame `frame` holds `page_id` now, used once and without changes, in place of what it held.
    pub open spec fn installed(&self, after: BufferPoolShard, page_id: u64, frame: usize) -> bool {
        let gone = self.metadata@[frame as int].page_id;
        &&& after.metadata@ == self.metadata@.update(
            frame as int,
            (FrameMetadata { page_id, pin_count: 1, is_dirty: false }),
        )
        &&& after.page_table@ == self.page_table@.remove(gone).insert(page_id, frame)
    }

    /// From `self` to `after` the flush of a page begins: if it is in a frame and has changes, the
    /// frame counts as clean and in use, and the write of `owed` is due.
    pub open spec fn flush_begun(
        &self,
        after: BufferPoolShard,
        page_id: u64,
        owed: Option<(u64, usize)>,
    ) -> bool {
        match owed {
            Some((pid, frame)) => {
                &&& self.holds(page_id)
                &&& self.meta_of(page_id).is_dirty
                &&& pid == page_id
                &&& frame == self.frame_of(page_id)
                &&& self.reframed(
                    after,
                    frame as int,
                    (FrameMetadata {
                        page_id,
                        pin_count: (self.meta_of(page_id).pin_count + 1) as u64,
                        is_dirty: false,
                    }),
                )
                &&& after.replacer@ == self.replacer@
            },
            None => {
                &&& !(self.holds(page_id) && self.meta_of(page_id).is_dirty)
                &&& self.same(after)
            },
        }
    }

    /// Begins to flush a page: if it is in a frame and has changes, the frame counts as clean and
    /// in use from here on, and the caller owes the write and a call of `end_flush`.
    pub fn begin_flush(&mut self, page_id: u64) -> (owed: Option<(u64, usize)>)
        requires
            old(self).wf(),
            old(self).holds(page_id) ==> old(self).meta_of(page_id).pin_count < u64::MAX,
        ensures
            final(self).wf(),
            old(self).flush_begun(*final(self), page_id, owed),
    {
        match self.page_table.get(&page_id) {
            Some(id) => {
                let frame: usize = *id;
                assert(self.holds(page_id) && self.frame_of(page_id) == frame);
                let meta = self.metadata[frame];
                if meta.is_dirty && meta.page_id != INVALID_FRAME_ID {
                    self.metadata.set(
                        frame,
                        FrameMetadata {
                            page_id: meta.page_id,
                            pin_count: meta.pin_count + 1,
                            is_dirty: false,
                        },
                    );
                    Some((meta.page_id, frame))
                } else {
                    None
                }
            },
            None => None,
        }
    }

    /// From `self` to `after` a write from `frame` ends: one user less, and changes as told.
    pub open spec fn write_ended(&self, after: BufferPoolShard, frame: int, is_dirty: bool) -> bool {
        let meta = self.metadata@[frame];
        &&& self.reframed(
            after,
            frame,
            (FrameMetadata {
                page_id: meta.page_id,
                pin_count: (meta.pin_count - 1) as u64,
                is_dirty,
            }),
        )
        &&& after.replacer@ == self.replacer@
    }

    /// Ends the flush of the page in `frame`. If it was not written, the frame has changes again.
    pub fn end_flush(&mut self, frame: usize, written: bool)
        requires
            old(self).wf(),
            frame < old(self).size(),
            old(self).metadata@[frame as int].pin_count > 0,
        ensures
            final(self).wf(),
            old(self).pinned_off_clock() ==> final(self).pinned_off_clock(),
            old(self).write_ended(
                *final(self),
                frame as int,
                old(self).metadata@[frame as int].is_dirty || !written,
            ),
    {
        let meta = self.metadata[frame];
        self.metadata.set(
            frame,
            FrameMetadata {
                page_id: meta.page_id,
                pin_count: meta.pin_count - 1,
                is_dirty: meta.is_dirty || !written,
            },
        );
    }

    /// The pages with changes in the first `n` frames, in frame order.
    pub open spec fn changed_pages(&self, n: int) -> Seq<u64>
        decreases n,
    {
        if n <= 0 {
            seq![]
        } else if self.metadata@[n - 1].is_dirty && self.metadata@[n - 1].page_id
            != INVALID_FRAME_ID {
            self.changed_pages(n - 1).push(self.metadata@[n - 1].page_id)
        } else {
            self.changed_pages(n - 1)
        }
    }

    /// The page that has to be flushed from `frame`, if the frame has changes.
    pub fn page_to_flush(&self, frame: usize) -> (page_id: Option<u64>)
        requires
            frame < self.size(),
        ensures
            page_id == {
                let meta = self.metadata@[frame as int];
                if meta.is_dirty && meta.page_id != INVALID_FRAME_ID {
                    Some(meta.page_id)
                } else {
                    None
                }
            },
    {
        let meta = self.metadata[frame];
        if meta.is_dirty && meta.page_id != INVALID_FRAME_ID {
            Some(meta.page_id)
        } else {
            None
        }
    }

    /// From `self` to `after` a page leaves its frame: the frame is vacant, free, next to be handed
    /// out, and off the clock, and every other frame is as it was.
    pub open spec fn dropped(&self, after: BufferPoolShard, page_id: u64) -> bool {
        let frame = self.frame_of(page_id);
        &&& after.metadata@ == self.metadata@.update(frame, vacant())
        &&& after.page_table@ == self.page_table@.remove(page_id)
        &&& after.free_list@ == self.free_list@.push(frame as usize)
        &&& after.replacer@ == self.replacer@.marking(frame, false)
    }

    /// Empties `frame`, which holds `page_id`.
    fn drop_page(&mut self, page_id: u64, frame: usize)
        requires
            old(self).wf(),
            old(self).holds(page_id),
            old(self).frame_of(page_id) == frame,
        ensures
            final(self).wf(),
            old(self).pinned_off_clock() ==> final(self).pinned_off_clock(),
            old(self).dropped(*final(self), page_id),
    {
        self.page_table.remove(&page_id);
        self.metadata.set(
            frame,
            FrameMetadata { page_id: INVALID_FRAME_ID, pin_count: 0, is_dirty: false },
        );
        self.replacer.pin(frame);
        self.free_list.push(frame);
        proof {
            let before = old(self).free_list@;
            assert forall|f: usize|
                f < self.size() && (#[trigger] self.metadata@[f as int]).page_id
                    == INVALID_FRAME_ID implies self.free_list@.contains(f) by {
                if f == frame {
                    assert(self.free_list@[before.len() as int] == f);
                } else {
                    assert(old(self).metadata@[f as int].page_id == INVALID_FRAME_ID);
                    let k = choose|k: int| 0 <= k < before.len() && before[k] == f;
                    assert(self.free_list@[k] == f);
                }
            }
        }
    }

    /// From `self` to `after` a user of `page_id` who could not fill its frame gives the page up: the
    /// only user drops it, so that nobody finds bytes of another page under its id; else the count
    /// goes down, and the other users have still to fill the frame.
    pub open spec fn load_failed(&self, after: BufferPoolShard, page_id: u64) -> bool {
        if self.holds(page_id) && self.meta_of(page_id).pin_count == 1 && !self.meta_of(
            page_id,
        ).is_dirty {
            self.dropped(after, page_id)
        } else {
            self.unpinned(after, page_id, false)
        }
    }

    /// Gives up a page whose contents could not be read into its frame.
    pub fn end_failed_load(&mut self, page_id: u64)
        requires
            old(self).wf(),
        ensures
            final(self).wf(),
            old(self).pinned_off_clock() ==> final(self).pinned_off_clock(),
            old(self).load_failed(*final(self), page_id),
    {
        if let Some(id) = self.page_table.get(&page_id) {
            let frame: usize = *id;
            assert(self.holds(page_id) && self.frame_of(page_id) == frame);
            let meta = self.metadata[frame];
            if meta.pin_count == 1 && !meta.is_dirty {
                self.drop_page(page_id, frame);
                return;
            }
        }
        self.unpin_page(page_id, false);
    }

    /// From `self` to `after` a page is dropped from its frame, with the result `res`.
    pub open spec fn deletes(
        &self,
        after: BufferPoolShard,
        page_id: u64,
        res: Result<DeleteStep, BufferPoolError>,
    ) -> bool {
        match res {
            Ok(DeleteStep::Done) => {
                if self.holds(page_id) {
                    &&& self.meta_of(page_id).pin_count == 0
                    &&& !self.meta_of(page_id).is_dirty
                    &&& self.dropped(after, page_id)
                } else {
                    self.same(after)
                }
            },
            Ok(DeleteStep::WriteFirst { frame, page_id: pid }) => {
                &&& self.holds(page_id)
                &&& self.meta_of(page_id).pin_count == 0
                &&& self.meta_of(page_id).is_dirty
                &&& pid == page_id
                &&& frame == self.frame_of(page_id)
                &&& self.reframed(
                    after,
                    frame as int,
                    (FrameMetadata { page_id, pin_count: 1, is_dirty: false }),
                )
                &&& after.replacer@ == self.replacer@
            },
            Err(e) => {
                &&& e is PinCountError
                &&& self.holds(page_id)
                &&& self.meta_of(page_id).pin_count > 0
                &&& self.same(after)
            },
        }
    }

    /// Drops a page from its frame, which becomes free. A page in use is not dropped; one with
    /// changes is dropped only after they are on disk.
    pub fn delete_page(&mut self, page_id: u64) -> (res: Result<DeleteStep, BufferPoolError>)
        requires
            old(self).wf(),
        ensures
            final(self).wf(),
            !(res matches Ok(DeleteStep::WriteFirst { .. })) && old(self).pinned_off_clock()
                ==> final(self).pinned_off_clock(),
            old(self).deletes(*final(self), page_id, res),
    {
        let frame: usize = match self.page_table.get(&page_id) {
            Some(id) => *id,
            None => {
                return Ok(DeleteStep::Done);
            },
        };
        assert(self.holds(page_id) && self.frame_of(page_id) == frame);
        let meta = self.metadata[frame];
        if meta.pin_count > 0 {
            return Err(BufferPoolError::PinCountError);
        }
        if meta.is_dirty {
            self.metadata.set(
                frame,
                FrameMetadata { page_id: meta.page_id, pin_count: 1, is_dirty: false },
            );
            return Ok(DeleteStep::WriteFirst { frame, page_id: meta.page_id });
        }
        self.drop_page(page_id, frame);
        Ok(DeleteStep::Done)
    }

    /// Ends the write that a deletion asked for. If it went wrong the deletion has failed, and the
    /// frame has changes again. Changes made during the write are kept.
    pub fn end_delete_write(&mut self, frame: usize, written: bool) -> (res: Result<
        (),
        BufferPoolError,
    >)
        requires
            old(self).wf(),
            frame < old(self).size(),
            old(self).metadata@[frame as int].pin_count > 0,
        ensures
            final(self).wf(),
            old(self).pinned_off_clock() ==> final(self).pinned_off_clock(),
            old(self).write_ended(
                *final(self),
                frame as int,
                old(self).metadata@[frame as int].is_dirty || !written,
            ),
            match res {
                Ok(_) => written,
                Err(e) => {
                    &&& !written
                    &&& e matches BufferPoolError::InternalError(msg)
                    &&& msg@ == "Flush failed during delete"@
                },
            },
    {
        let meta = self.metadata[frame];
        self.metadata.set(
            frame,
            FrameMetadata {
                page_id: meta.page_id,
                pin_count: meta.pin_count - 1,
                is_dirty: meta.is_dirty || !written,
            },
        );
        if !written {
            return Err(
                BufferPoolError::InternalError(String::from_str("Flush failed during delete")),
            );
        }
        Ok(())
    }

    /// Installing a page in a clean frame that was given up keeps the shard sound.
    proof fn lemma_installed(self, after: BufferPoolShard, page_id: u64, frame: usize)
        requires
            self.wf(),
            page_id != INVALID_FRAME_ID,
            !self.holds(page_id),
            frame < self.size(),
            self.gives_up(after, frame as int),
            self.installed(after, page_id, frame),
            after.replacer.wf(),
        ensures
            after.wf(),
            self.pinned_off_clock() ==> after.pinned_off_clock(),
    {
        let before = self.free_list@;
        assert(!after.replacer.evictable@[frame as int]);
        assert forall|f: usize|
            f < after.size() && (#[trigger] after.metadata@[f as int]).page_id
                == INVALID_FRAME_ID implies after.free_list@.contains(f) by {
            assert(f != frame);
            assert(self.metadata@[f as int].page_id == INVALID_FRAME_ID);
            let k = choose|k: int| 0 <= k < before.len() && before[k] == f;
            assert(after.free_list@[k] == f);
        }
        assert forall|f: int|
            0 <= f < after.size() && (#[trigger] after.metadata@[f]).page_id
                != INVALID_FRAME_ID implies after.holds(after.metadata@[f].page_id)
            && after.frame_of(after.metadata@[f].page_id) == f by {
            if f != frame {
                assert(self.metadata@[f].page_id == after.metadata@[f].page_id);
            }
        }
    }
}

} // verus!
