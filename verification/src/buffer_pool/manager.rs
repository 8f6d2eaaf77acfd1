//! The whole pool: which pages exist, and which shard looks after which.
//!
//! A caller that gets `FlushFirst` or `WriteFirst` makes the write, reports it, and asks again.

use crate::buffer_pool::shard::{BufferPoolShard, DeleteStep, FrameStep};
use crate::buffer_pool::{BufferPoolError, MAX_FRAMES, NUM_SHARDS, SHARD_MASK};
use vstd::prelude::*;

verus! {

pub struct BufferPoolManager {
    pub shards: Vec<BufferPoolShard>,
    /// Pages below this id exist.
    pub next_page_id: u64,
}

/// The shard that looks after a page.
pub open spec fn shard_of(page_id: u64) -> int {
    (page_id % 16) as int
}

/// The index of the shard that looks after a page.
pub fn shard_index(page_id: u64) -> (index: usize)
    ensures
        index == shard_of(page_id),
        index < NUM_SHARDS,
{
    assert(page_id & 15 == page_id % 16) by (bit_vector);
    (page_id & SHARD_MASK) as usize
}

/// Refuses a page that does not exist.
pub fn check_page_id(page_id: u64, next_page_id: u64) -> (res: Result<(), BufferPoolError>)
    ensures
        match res {
            Ok(_) => page_id < next_page_id,
            Err(e) => page_id >= next_page_id && e == BufferPoolError::PageNotFound(page_id),
        },
{
    if page_id >= next_page_id {
        Err(BufferPoolError::PageNotFound(page_id))
    } else {
        Ok(())
    }
}

/// Takes the next page id.
pub fn allocate_page_id(next_page_id: &mut u64) -> (page_id: u64)
    requires
        *old(next_page_id) < u64::MAX,
    ensures
        page_id == *old(next_page_id),
        *final(next_page_id) == *old(next_page_id) + 1,
{
    let page_id: u64 = *next_page_id;
    *next_page_id = page_id + 1;
    page_id
}

/// The bytes of a cleared frame.
pub open spec fn zeroes(len: nat) -> Seq<u8> {
    Seq::new(len, |i: int| 0u8)
}

/// Clears the frame of a new page.
pub fn clear_frame(data: &mut [u8])
    ensures
        final(data)@ == zeroes(old(data)@.len()),
{
    let n: usize = data.len();
    let mut i: usize = 0;
    while i < n
        invariant
            i <= n == data@.len(),
            n == old(data)@.len(),
            forall|k: int| 0 <= k < i ==> (#[trigger] data@[k]) == 0,
        decreases n - i,
    {
        data[i] = 0;
        i = i + 1;
    }
    assert(data@ =~= zeroes(old(data)@.len()));
}

impl BufferPoolManager {
    /// Every shard is sound and as large as the others, and holds only pages that exist and that it
    /// looks after.
    pub open spec fn wf(&self) -> bool {
        &&& self.shards@.len() == NUM_SHARDS
        &&& forall|i: int|
            0 <= i < NUM_SHARDS ==> {
                &&& (#[trigger] self.shards@[i]).wf()
                &&& self.shards@[i].size() == MAX_FRAMES / NUM_SHARDS
            }
        &&& forall|i: int, p: u64|
            0 <= i < NUM_SHARDS && #[trigger] self.shards@[i].page_table@.contains_key(p)
                ==> shard_of(p) == i && p < self.next_page_id
    }

    pub open spec fn shard_for(&self, page_id: u64) -> BufferPoolShard {
        self.shards@[shard_of(page_id)]
    }

    /// Nothing but the shard for `page_id` differs.
    pub open spec fn only_shard_of(&self, after: BufferPoolManager, page_id: u64) -> bool {
        &&& after.next_page_id == self.next_page_id
        &&& after.shards@ == self.shards@.update(shard_of(page_id), after.shard_for(page_id))
    }

    /// One more use of the page, if it is in a frame, can be counted.
    pub open spec fn can_pin(&self, page_id: u64) -> bool {
        self.shard_for(page_id).holds(page_id) ==> self.shard_for(page_id).meta_of(
            page_id,
        ).pin_count < u64::MAX
    }

    /// A pool of vacant frames, over a file that has `existing_pages` pages.
    pub fn new(existing_pages: u64) -> (pool: Self)
        ensures
            pool.wf(),
            pool.next_page_id == existing_pages,
            forall|i: int|
                0 <= i < NUM_SHARDS ==> (#[trigger] pool.shards@[i]).fresh(
                    (MAX_FRAMES / NUM_SHARDS) as int,
                ),
    {
        let shard_size: usize = MAX_FRAMES / NUM_SHARDS;
        let mut shards: Vec<BufferPoolShard> = Vec::new();
        while shards.len() < NUM_SHARDS
            invariant
                shard_size == MAX_FRAMES / NUM_SHARDS,
                shards@.len() <= NUM_SHARDS,
                forall|i: int|
                    0 <= i < shards@.len() ==> {
                        &&& (#[trigger] shards@[i]).wf()
                        &&& shards@[i].fresh(shard_size as int)
                    },
            decreases NUM_SHARDS - shards@.len(),
        {
            shards.push(BufferPoolShard::new(shard_size));
        }
        Self { shards, next_page_id: existing_pages }
    }

    /// Takes the next page id and looks for a frame for the page. The id is taken in any case. If
    /// something has to be flushed first, the frame is then to be had by `frame_for`; the frame that
    /// the page is given is to be cleared with `clear_frame`.
    pub fn new_page(&mut self) -> (res: (u64, Result<FrameStep, BufferPoolError>))
        requires
            old(self).wf(),
            old(self).next_page_id < u64::MAX,
        ensures
            final(self).wf(),
            old(self).creates(*final(self), res.0, res.1),
    {
        let page_id: u64 = allocate_page_id(&mut self.next_page_id);
        assert(!self.shard_for(page_id).holds(page_id)) by {
            if self.shards@[shard_of(page_id)].page_table@.contains_key(page_id) {
                assert(page_id < old(self).next_page_id);
            }
        }
        (page_id, self.frame_for(page_id))
    }

    /// From `self` to `after` a page is made: it has the next id, and a frame was sought for it with
    /// the result `res`.
    pub open spec fn creates(
        &self,
        after: BufferPoolManager,
        page_id: u64,
        res: Result<FrameStep, BufferPoolError>,
    ) -> bool {
        &&& page_id == self.next_page_id
        &&& after.next_page_id == self.next_page_id + 1
        &&& after.shards@ == self.shards@.update(shard_of(page_id), after.shard_for(page_id))
        &&& self.shard_for(page_id).finds_frame(after.shard_for(page_id), page_id, res)
        &&& !(res matches Ok(FrameStep::Resident(_)))
    }

    /// Finds a frame for a page that exists, and pins it there.
    pub fn frame_for(&mut self, page_id: u64) -> (res: Result<FrameStep, BufferPoolError>)
        requires
            old(self).wf(),
            old(self).can_pin(page_id),
            page_id < old(self).next_page_id,
        ensures
            final(self).wf(),
            old(self).only_shard_of(*final(self), page_id),
            old(self).shard_for(page_id).finds_frame(
                final(self).shard_for(page_id),
                page_id,
                res,
            ),
    {
        let index: usize = shard_index(page_id);
        assert(self.shards@[index as int].wf());
        self.shards[index].evict_and_replace(page_id)
    }

    /// Pins a page for reading. `Installed` means that its contents have to be read into the frame.
    /// If that fails, `end_failed_load` gives the page up.
    pub fn fetch_page(&mut self, page_id: u64) -> (res: Result<FrameStep, BufferPoolError>)
        requires
            old(self).wf(),
            old(self).can_pin(page_id),
        ensures
            final(self).wf(),
            old(self).fetches(*final(self), page_id, res),
    {
        match check_page_id(page_id, self.next_page_id) {
            Ok(_) => self.frame_for(page_id),
            Err(e) => Err(e),
        }
    }

    /// Pins a page for writing. `Installed` means that its contents have to be read into the frame.
    /// If that fails, `end_failed_load` gives the page up.
    pub fn fetch_page_mut(&mut self, page_id: u64) -> (res: Result<FrameStep, BufferPoolError>)
        requires
            old(self).wf(),
            old(self).can_pin(page_id),
        ensures
            final(self).wf(),
            old(self).fetches(*final(self), page_id, res),
    {
        match check_page_id(page_id, self.next_page_id) {
            Ok(_) => self.frame_for(page_id),
            Err(e) => Err(e),
        }
    }

    /// From `self` to `after` a page is fetched, with the result `res`: a page that does not exist
    /// is refused, any other is given a frame.
    pub open spec fn fetches(
        &self,
        after: BufferPoolManager,
        page_id: u64,
        res: Result<FrameStep, BufferPoolError>,
    ) -> bool {
        if page_id >= self.next_page_id {
            &&& res == Err::<FrameStep, _>(BufferPoolError::PageNotFound(page_id))
            &&& after == *self
        } else {
            &&& self.only_shard_of(after, page_id)
            &&& self.shard_for(page_id).finds_frame(after.shard_for(page_id), page_id, res)
        }
    }

    /// Gives up one use of a page.
    pub fn unpin_page(&mut self, page_id: u64, is_dirty: bool)
        requires
            old(self).wf(),
        ensures
            final(self).wf(),
            old(self).only_shard_of(*final(self), page_id),
            old(self).shard_for(page_id).unpinned(
                final(self).shard_for(page_id),
                page_id,
                is_dirty,
            ),
    {
        let index: usize = shard_index(page_id);
        assert(self.shards@[index as int].wf());
        self.shards[index].unpin_page(page_id, is_dirty);
    }

    /// Gives up a page whose contents could not be read into its frame.
    pub fn end_failed_load(&mut self, page_id: u64)
        requires
            old(self).wf(),
        ensures
            final(self).wf(),
            old(self).only_shard_of(*final(self), page_id),
            old(self).shard_for(page_id).load_failed(final(self).shard_for(page_id), page_id),
    {
        let index: usize = shard_index(page_id);
        assert(self.shards@[index as int].wf());
        self.shards[index].end_failed_load(page_id);
    }

    /// Begins to flush a page; the write that is owed is to be reported to `end_flush`.
    pub fn flush_page(&mut self, page_id: u64) -> (owed: Option<(u64, usize)>)
        requires
            old(self).wf(),
            old(self).can_pin(page_id),
        ensures
            final(self).wf(),
            old(self).only_shard_of(*final(self), page_id),
            old(self).shard_for(page_id).flush_begun(
                final(self).shard_for(page_id),
                page_id,
                owed,
            ),
    {
        let index: usize = shard_index(page_id);
        assert(self.shards@[index as int].wf());
        self.shards[index].begin_flush(page_id)
    }

    /// Ends the flush of `page_id` from `frame`.
    pub fn end_flush(&mut self, page_id: u64, frame: usize, written: bool)
        requires
            old(self).wf(),
            frame < old(self).shard_for(page_id).size(),
            old(self).shard_for(page_id).metadata@[frame as int].pin_count > 0,
        ensures
            final(self).wf(),
            old(self).only_shard_of(*final(self), page_id),
            old(self).shard_for(page_id).write_ended(
                final(self).shard_for(page_id),
                frame as int,
                old(self).shard_for(page_id).metadata@[frame as int].is_dirty || !written,
            ),
    {
        let index: usize = shard_index(page_id);
        assert(self.shards@[index as int].wf());
        self.shards[index].end_flush(frame, written);
    }

    /// From `self` over `between` to `after` a page is flushed, and the write that was owed, if one
    /// was, goes well.
    pub open spec fn flushes(
        &self,
        between: BufferPoolManager,
        after: BufferPoolManager,
        page_id: u64,
        owed: Option<(u64, usize)>,
    ) -> bool {
        &&& self.can_pin(page_id)
        &&& self.only_shard_of(between, page_id)
        &&& self.shard_for(page_id).flush_begun(between.shard_for(page_id), page_id, owed)
        &&& match owed {
            Some((_, frame)) => {
                &&& between.only_shard_of(after, page_id)
                &&& between.shard_for(page_id).write_ended(
                    after.shard_for(page_id),
                    frame as int,
                    between.shard_for(page_id).metadata@[frame as int].is_dirty,
                )
            },
            None => after == between,
        }
    }

    /// Drops a page from its frame.
    pub fn delete_page(&mut self, page_id: u64) -> (res: Result<DeleteStep, BufferPoolError>)
        requires
            old(self).wf(),
        ensures
            final(self).wf(),
            old(self).only_shard_of(*final(self), page_id),
            old(self).shard_for(page_id).deletes(final(self).shard_for(page_id), page_id, res),
    {
        let index: usize = shard_index(page_id);
        assert(self.shards@[index as int].wf());
        self.shards[index].delete_page(page_id)
    }

    /// Every page that has changes, in the order in which flushing all of them goes: shard by
    /// shard, frame by frame.
    pub fn flush_all_pages(&self) -> (pages: Vec<u64>)
        requires
            self.wf(),
        ensures
            pages@ == self.changed_pages(NUM_SHARDS as int),
    {
        let mut pages: Vec<u64> = Vec::new();
        let mut index: usize = 0;
        while index < NUM_SHARDS
            invariant
                self.wf(),
                index <= NUM_SHARDS,
                pages@ == self.changed_pages(index as int),
            decreases NUM_SHARDS - index,
        {
            assert(self.shards@[index as int].wf());
            let n: usize = self.shards[index].metadata.len();
            let mut frame: usize = 0;
            let ghost before = pages@;
            assert(before =~= before + self.shards@[index as int].changed_pages(0));
            while frame < n
                invariant
                    self.wf(),
                    index < NUM_SHARDS,
                    frame <= n == self.shards@[index as int].size(),
                    pages@ == before + self.shards@[index as int].changed_pages(frame as int),
                decreases n - frame,
            {
                if let Some(page_id) = self.shards[index].page_to_flush(frame) {
                    pages.push(page_id);
                }
                frame = frame + 1;
                assert(pages@ =~= before + self.shards@[index as int].changed_pages(
                    frame as int,
                ));
            }
            index = index + 1;
        }
        pages
    }

    /// The pages with changes in the first `n` shards.
    pub open spec fn changed_pages(&self, n: int) -> Seq<u64>
        decreases n,
    {
        if n <= 0 {
            seq![]
        } else {
            self.changed_pages(n - 1) + self.shards@[n - 1].changed_pages(
                self.shards@[n - 1].size(),
            )
        }
    }
}

} // verus!
