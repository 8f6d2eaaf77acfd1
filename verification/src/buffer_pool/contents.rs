//! What pages hold: the bytes in the frames, the bytes in the file, and how the steps of a shard move
//! them. From the steps' own contracts it follows that a fetch gives back what was last written.

use crate::buffer_pool::laws;
use crate::buffer_pool::manager;
use crate::buffer_pool::shard::{BufferPoolShard, DeleteStep, FrameStep};
use crate::buffer_pool::BufferPoolError;
use vstd::prelude::*;

verus! {

/// A shard together with the bytes that it looks after.
pub struct PoolState {
    pub shard: BufferPoolShard,
    /// What each frame holds.
    pub frames: Seq<Seq<u8>>,
    /// What the file holds, page by page.
    pub file: Map<u64, Seq<u8>>,
    /// How many users each page has.
    pub users: Map<u64, nat>,
    /// The pages that are being written, each with the bytes that were taken from its frame, once
    /// they were.
    pub writing: Map<u64, Option<Seq<u8>>>,
    /// The pages that were given a frame which does not hold their bytes yet.
    pub loading: Set<u64>,
}

/// One thing that is done with a shard.
pub enum PoolStep {
    /// A page is fetched; if it was given a frame, the frame has to be filled.
    Fetch { page_id: u64, res: Result<FrameStep, BufferPoolError> },
    /// A user of the page fills its frame from the file.
    Load { page_id: u64 },
    /// A user of the page could not fill its frame, which holds `left`, and gives the page up.
    FailLoad { page_id: u64, left: Seq<u8> },
    /// A new page is given a frame, which is cleared before anyone else looks at it.
    Create { page_id: u64, res: Result<FrameStep, BufferPoolError> },
    /// A user of the page changes its bytes.
    Write { page_id: u64, bytes: Seq<u8> },
    Unpin { page_id: u64, is_dirty: bool },
    BeginFlush { page_id: u64, owed: Option<(u64, usize)> },
    /// The bytes to write are taken from the frame.
    Copy { page_id: u64 },
    Delete { page_id: u64, outcome: Result<DeleteStep, BufferPoolError> },
    /// The write that a flush or a deletion owed was made, or failed; then `left` is what the file
    /// has.
    EndWrite { page_id: u64, written: bool, left: Seq<u8> },
}

impl PoolStep {
    /// The page that the step is about.
    pub open spec fn page(self) -> u64 {
        match self {
            PoolStep::Fetch { page_id, .. } => page_id,
            PoolStep::Load { page_id } => page_id,
            PoolStep::FailLoad { page_id, .. } => page_id,
            PoolStep::Create { page_id, .. } => page_id,
            PoolStep::Write { page_id, .. } => page_id,
            PoolStep::Unpin { page_id, .. } => page_id,
            PoolStep::BeginFlush { page_id, .. } => page_id,
            PoolStep::Copy { page_id } => page_id,
            PoolStep::Delete { page_id, .. } => page_id,
            PoolStep::EndWrite { page_id, .. } => page_id,
        }
    }

    /// The step gives the page new bytes.
    pub open spec fn writes(self, page_id: u64) -> bool {
        (self is Write || self is Create) && self.page() == page_id
    }
}

impl PoolState {
    /// How many users the page has.
    pub open spec fn users_of(self, page_id: u64) -> nat {
        if self.users.contains_key(page_id) {
            self.users[page_id]
        } else {
            0
        }
    }

    /// How many uses of a page in a frame there are: its users, and the write of it that is under way.
    pub open spec fn uses_of(self, page_id: u64) -> nat {
        self.users_of(page_id) + if self.writing.contains_key(page_id) {
            1nat
        } else {
            0nat
        }
    }

    /// The shard is sound and counts every use, every frame has its bytes, and only a page in a frame
    /// has users or is being written. A page whose frame is not filled has a user who will see to it,
    /// and neither changes nor a write under way.
    pub open spec fn wf(self) -> bool {
        &&& self.shard.wf()
        &&& self.frames.len() == self.shard.size()
        &&& forall|p: u64| #[trigger]
            self.shard.page_table@.contains_key(p) ==> self.shard.meta_of(p).pin_count
                == self.uses_of(p)
        &&& forall|p: u64|
            !(#[trigger] self.shard.page_table@.contains_key(p)) ==> self.uses_of(p) == 0
        &&& forall|p: u64| #[trigger]
            self.loading.contains(p) ==> {
                &&& self.users_of(p) > 0
                &&& !self.shard.meta_of(p).is_dirty
                &&& !self.writing.contains_key(p)
            }
    }

    /// The users once `page_id` has been given a frame, if `res` says that it was.
    pub open spec fn joined(
        self,
        page_id: u64,
        res: Result<FrameStep, BufferPoolError>,
    ) -> Map<u64, nat> {
        match res {
            Ok(FrameStep::Resident(_)) => self.users.insert(page_id, self.users_of(page_id) + 1),
            Ok(FrameStep::Installed(_)) => self.users.insert(page_id, self.users_of(page_id) + 1),
            _ => self.users,
        }
    }

    /// One more use of the page can be counted.
    pub open spec fn can_pin(self, page_id: u64) -> bool {
        self.shard.holds(page_id) ==> self.shard.meta_of(page_id).pin_count < u64::MAX
    }

    /// The pages that have to be filled once `page_id` was fetched.
    pub open spec fn to_load(
        self,
        page_id: u64,
        res: Result<FrameStep, BufferPoolError>,
    ) -> Set<u64> {
        match res {
            Ok(FrameStep::Installed(_)) => self.loading.insert(page_id),
            _ => self.loading,
        }
    }

    /// The frames once the frame that a new page was given, if it was, is cleared.
    pub open spec fn cleared(self, res: Result<FrameStep, BufferPoolError>) -> Seq<Seq<u8>> {
        match res {
            Ok(FrameStep::Resident(f)) => self.frames.update(
                f as int,
                manager::zeroes(self.frames[f as int].len()),
            ),
            Ok(FrameStep::Installed(f)) => self.frames.update(
                f as int,
                manager::zeroes(self.frames[f as int].len()),
            ),
            _ => self.frames,
        }
    }

    /// The file once the write of `page_id` ended.
    pub open spec fn saved(self, page_id: u64, written: bool, left: Seq<u8>) -> Map<u64, Seq<u8>> {
        match self.writing[page_id] {
            Some(bytes) if written => self.file.insert(page_id, bytes),
            _ => self.file.insert(page_id, left),
        }
    }

    /// Only the shard differs.
    pub open spec fn same_bytes(self, after: PoolState) -> bool {
        &&& after.frames == self.frames
        &&& after.file == self.file
        &&& after.users == self.users
        &&& after.writing == self.writing
        &&& after.loading == self.loading
    }

    /// `step` leads from `self` to `after`. Only a user fills a page's frame, changes it or gives it
    /// up, and nobody changes a page or gives it up unfilled, except by saying that it could not be
    /// filled. A page is not written twice at a time.
    pub open spec fn goes(self, step: PoolStep, after: PoolState) -> bool {
        match step {
            PoolStep::Fetch { page_id, res } => {
                &&& self.can_pin(page_id)
                &&& self.shard.finds_frame(after.shard, page_id, res)
                &&& after.frames == self.frames
                &&& after.file == self.file
                &&& after.users == self.joined(page_id, res)
                &&& after.writing == self.writing
                &&& after.loading == self.to_load(page_id, res)
            },
            PoolStep::Load { page_id } => {
                &&& self.loading.contains(page_id)
                &&& after.shard == self.shard
                &&& after.frames == self.frames.update(
                    self.shard.frame_of(page_id),
                    self.file[page_id],
                )
                &&& after.file == self.file
                &&& after.users == self.users
                &&& after.writing == self.writing
                &&& after.loading == self.loading.remove(page_id)
            },
            PoolStep::FailLoad { page_id, left } => {
                &&& self.loading.contains(page_id)
                &&& self.shard.load_failed(after.shard, page_id)
                &&& after.frames == self.frames.update(self.shard.frame_of(page_id), left)
                &&& after.file == self.file
                &&& after.users == self.left(page_id)
                &&& after.writing == self.writing
                &&& after.loading == if self.users_of(page_id) == 1 {
                    self.loading.remove(page_id)
                } else {
                    self.loading
                }
            },
            PoolStep::Create { page_id, res } => {
                &&& self.can_pin(page_id)
                &&& self.shard.finds_frame(after.shard, page_id, res)
                &&& after.frames == self.cleared(res)
                &&& after.file == self.file
                &&& after.users == self.joined(page_id, res)
                &&& after.writing == self.writing
                &&& after.loading == self.loading.remove(page_id)
            },
            PoolStep::Write { page_id, bytes } => {
                &&& self.users_of(page_id) > 0
                &&& !self.loading.contains(page_id)
                &&& after.shard == self.shard
                &&& after.frames == self.frames.update(self.shard.frame_of(page_id), bytes)
                &&& after.file == self.file
                &&& after.users == self.users
                &&& after.writing == self.writing
                &&& after.loading == self.loading
            },
            PoolStep::Unpin { page_id, is_dirty } => {
                &&& self.users_of(page_id) > 0
                &&& !self.loading.contains(page_id)
                &&& self.shard.unpinned(after.shard, page_id, is_dirty)
                &&& after.frames == self.frames
                &&& after.file == self.file
                &&& after.users == self.left(page_id)
                &&& after.writing == self.writing
                &&& after.loading == self.loading
            },
            PoolStep::BeginFlush { page_id, owed } => {
                &&& self.can_pin(page_id)
                &&& self.shard.flush_begun(after.shard, page_id, owed)
                &&& if owed is Some {
                    &&& !self.writing.contains_key(page_id)
                    &&& self.begins_write(after, page_id)
                } else {
                    self.same_bytes(after)
                }
            },
            PoolStep::Copy { page_id } => {
                &&& self.writing.contains_key(page_id)
                &&& after.shard == self.shard
                &&& after.frames == self.frames
                &&& after.file == self.file
                &&& after.users == self.users
                &&& after.writing == self.writing.insert(
                    page_id,
                    Some(self.frames[self.shard.frame_of(page_id)]),
                )
                &&& after.loading == self.loading
            },
            PoolStep::Delete { page_id, outcome } => {
                &&& self.shard.deletes(after.shard, page_id, outcome)
                &&& if outcome matches Ok(DeleteStep::WriteFirst { .. }) {
                    self.begins_write(after, page_id)
                } else {
                    self.same_bytes(after)
                }
            },
            PoolStep::EndWrite { page_id, written, left } => {
                &&& self.writing.contains_key(page_id)
                &&& written ==> self.writing[page_id] is Some
                &&& self.shard.write_ended(
                    after.shard,
                    self.shard.frame_of(page_id),
                    self.shard.meta_of(page_id).is_dirty || !written,
                )
                &&& after.frames == self.frames
                &&& after.file == self.saved(page_id, written, left)
                &&& after.users == self.users
                &&& after.writing == self.writing.remove(page_id)
                &&& after.loading == self.loading
            },
        }
    }

    /// The users once one of `page_id` has gone.
    pub open spec fn left(self, page_id: u64) -> Map<u64, nat> {
        self.users.insert(page_id, (self.users_of(page_id) - 1) as nat)
    }

    /// A write of `page_id` begins.
    pub open spec fn begins_write(self, after: PoolState, page_id: u64) -> bool {
        &&& after.frames == self.frames
        &&& after.file == self.file
        &&& after.users == self.users
        &&& after.writing == self.writing.insert(page_id, None)
        &&& after.loading == self.loading
    }

    /// The file has `bytes` under `page_id`.
    pub open spec fn on_disk(self, page_id: u64, bytes: Seq<u8>) -> bool {
        self.file.contains_key(page_id) && self.file[page_id] == bytes
    }

    /// A write of the page that is under way, if there is one, brings `bytes` to the file.
    pub open spec fn brings(self, page_id: u64, bytes: Seq<u8>) -> bool {
        self.writing.contains_key(page_id) ==> match self.writing[page_id] {
            Some(taken) => taken == bytes,
            None => true,
        }
    }

    /// The page has these bytes. If it is in a frame that was filled, they are in the frame, and they
    /// are marked as changes, or on disk, or on their way there; else they are on disk.
    pub open spec fn carries(self, page_id: u64, bytes: Seq<u8>) -> bool {
        if self.shard.holds(page_id) && !self.loading.contains(page_id) {
            &&& self.frames[self.shard.frame_of(page_id)] == bytes
            &&& {
                ||| self.shard.meta_of(page_id).is_dirty
                ||| {
                    &&& self.brings(page_id, bytes)
                    &&& self.on_disk(page_id, bytes) || self.writing.contains_key(page_id)
                }
            }
        } else {
            self.on_disk(page_id, bytes)
        }
    }

    /// Somebody uses the page, and its frame was filled.
    pub open spec fn readable(self, page_id: u64) -> bool {
        self.users_of(page_id) > 0 && !self.loading.contains(page_id)
    }
}

/// `steps` lead through `states`, from a sound one on.
pub open spec fn is_run(states: Seq<PoolState>, steps: Seq<PoolStep>) -> bool {
    &&& states.len() == steps.len() + 1
    &&& states[0].wf()
    &&& forall|i: int| 0 <= i < states.len() ==> (#[trigger] states[i]).shard.wf()
    &&& forall|i: int| 0 <= i < steps.len() ==> states[i].goes(#[trigger] steps[i], states[i + 1])
}

/// A new shard that nobody uses yet is a sound start, whatever its frames and the file hold.
pub proof fn law_new_shard_is_sound(state: PoolState, size: int)
    requires
        0 <= size,
        state.shard.wf(),
        state.shard.fresh(size),
        state.frames.len() == size,
        state.users == Map::<u64, nat>::empty(),
        state.writing == Map::<u64, Option<Seq<u8>>>::empty(),
        state.loading == Set::<u64>::empty(),
    ensures
        state.wf(),
        forall|p: u64| !(#[trigger] state.shard.holds(p)),
{
}

/// A page that a user changed and gave up with its changes carries the new bytes.
pub proof fn law_written_page_carries(
    before: PoolState,
    changed: PoolState,
    after: PoolState,
    page_id: u64,
    bytes: Seq<u8>,
)
    requires
        before.wf(),
        before.goes(PoolStep::Write { page_id, bytes }, changed),
        changed.goes(PoolStep::Unpin { page_id, is_dirty: true }, after),
        after.shard.wf(),
    ensures
        after.wf(),
        after.carries(page_id, bytes),
{
    law_step_keeps_count(before, PoolStep::Write { page_id, bytes }, changed);
    law_step_keeps_count(changed, PoolStep::Unpin { page_id, is_dirty: true }, after);
}

/// Every byte of a new page that was given a frame is zero, whatever the frame held before.
pub proof fn law_new_page_is_zero(before: PoolState, after: PoolState, page_id: u64, got: FrameStep)
    requires
        before.wf(),
        before.goes(PoolStep::Create { page_id, res: Ok(got) }, after),
        !(got is FlushFirst),
    ensures
        after.shard.holds(page_id),
        after.readable(page_id),
        after.frames[after.shard.frame_of(page_id)].len()
            == before.frames[after.shard.frame_of(page_id)].len(),
        forall|i: int|
            0 <= i < after.frames[after.shard.frame_of(page_id)].len()
                ==> #[trigger] after.frames[after.shard.frame_of(page_id)][i] == 0,
{
}

/// No step makes the shard lose count of a use, or takes the frame from a page that has users or is
/// being written.
pub proof fn law_step_keeps_count(before: PoolState, step: PoolStep, after: PoolState)
    requires
        before.wf(),
        after.shard.wf(),
        before.goes(step, after),
    ensures
        after.wf(),
{
    assert forall|p: u64| #[trigger] after.shard.page_table@.contains_key(p) implies after.shard.meta_of(
        p,
    ).pin_count == after.uses_of(p) by {
        lemma_count_of(before, step, after, p);
    }
    assert forall|p: u64| !(#[trigger] after.shard.page_table@.contains_key(p)) implies after.uses_of(
        p,
    ) == 0 by {
        lemma_count_of(before, step, after, p);
    }
    lemma_in_use(before, step.page());
    assert forall|p: u64| #[trigger] after.loading.contains(p) implies after.users_of(p) > 0
        && !after.shard.meta_of(p).is_dirty && !after.writing.contains_key(p) by {
        lemma_loading_of(before, step, after, p);
    }
}

/// A page that has users or is being written is in a frame.
proof fn lemma_in_use(state: PoolState, page_id: u64)
    requires
        state.wf(),
    ensures
        state.uses_of(page_id) > 0 ==> state.shard.holds(page_id),
        state.shard.holds(page_id) ==> state.shard.meta_of(page_id).pin_count == state.uses_of(
            page_id,
        ),
        state.loading.contains(page_id) ==> {
            &&& state.users_of(page_id) > 0
            &&& !state.shard.meta_of(page_id).is_dirty
            &&& !state.writing.contains_key(page_id)
        },
{
    assert(state.shard.page_table@.contains_key(page_id) == state.shard.holds(page_id));
}

/// After a step the uses of `p` are counted.
proof fn lemma_count_of(before: PoolState, step: PoolStep, after: PoolState, p: u64)
    requires
        before.wf(),
        after.shard.wf(),
        before.goes(step, after),
    ensures
        after.shard.holds(p) ==> after.shard.meta_of(p).pin_count == after.uses_of(p),
        !after.shard.holds(p) ==> after.uses_of(p) == 0,
{
    let q = step.page();
    lemma_in_use(before, p);
    lemma_in_use(before, q);
    lemma_frames_differ(before.shard, p, q);
    match step {
        PoolStep::Fetch { res, .. } => lemma_count_after_fill(before, after, q, res, p),
        PoolStep::Create { res, .. } => lemma_count_after_fill(before, after, q, res, p),
        _ => {},
    }
}

/// After a step a page whose frame is not filled has users, no changes, and no write under way.
proof fn lemma_loading_of(before: PoolState, step: PoolStep, after: PoolState, p: u64)
    requires
        before.wf(),
        after.shard.wf(),
        before.goes(step, after),
        after.loading.contains(p),
    ensures
        after.users_of(p) > 0,
        !after.shard.meta_of(p).is_dirty,
        !after.writing.contains_key(p),
{
    let q = step.page();
    lemma_in_use(before, p);
    lemma_in_use(before, q);
    lemma_frames_differ(before.shard, p, q);
    match step {
        PoolStep::Fetch { res, .. } => lemma_use_survives(before, after, q, res, p),
        PoolStep::Create { res, .. } => lemma_use_survives(before, after, q, res, p),
        _ => {},
    }
}

/// A page in use keeps its frame and its changes, or the lack of them, whichever page is sought.
proof fn lemma_use_survives(
    before: PoolState,
    after: PoolState,
    sought: u64,
    res: Result<FrameStep, BufferPoolError>,
    p: u64,
)
    requires
        before.wf(),
        before.can_pin(sought),
        before.shard.finds_frame(after.shard, sought, res),
    ensures
        before.uses_of(p) > 0 ==> {
            &&& after.shard.holds(p)
            &&& after.shard.frame_of(p) == before.shard.frame_of(p)
            &&& after.shard.meta_of(p).is_dirty == before.shard.meta_of(p).is_dirty
        },
{
    lemma_in_use(before, p);
    if before.uses_of(p) > 0 {
        laws::law_pinned_page_stays(before.shard, after.shard, sought, res, p);
    }
}

proof fn lemma_frames_differ(shard: BufferPoolShard, p: u64, q: u64)
    requires
        shard.wf(),
    ensures
        p != q && shard.holds(p) && shard.holds(q) ==> shard.frame_of(p) != shard.frame_of(q),
{
}

proof fn lemma_count_after_fill(
    before: PoolState,
    after: PoolState,
    sought: u64,
    res: Result<FrameStep, BufferPoolError>,
    p: u64,
)
    requires
        before.wf(),
        after.shard.wf(),
        before.can_pin(sought),
        before.shard.finds_frame(after.shard, sought, res),
        after.users == before.joined(sought, res),
        after.writing == before.writing,
    ensures
        after.shard.holds(p) ==> after.shard.meta_of(p).pin_count == after.uses_of(p),
        !after.shard.holds(p) ==> after.uses_of(p) == 0,
{
    lemma_in_use(before, p);
    lemma_in_use(before, sought);
    match res {
        Ok(FrameStep::Resident(f)) => {
            lemma_frames_differ(before.shard, p, sought);
        },
        Ok(FrameStep::Installed(f)) => {
            laws::law_given_up_is_idle(before.shard, after.shard, sought, f);
            if before.shard.holds(p) {
                if before.shard.frame_of(p) == f {
                    assert(before.shard.metadata@[f as int].page_id == p);
                } else {
                    assert(before.shard.metadata@[f as int].page_id != p);
                    assert(after.shard.holds(p));
                }
            }
        },
        _ => {},
    }
}

/// No step but a write to the page itself changes what it carries.
pub proof fn law_step_keeps_contents(
    before: PoolState,
    step: PoolStep,
    after: PoolState,
    page_id: u64,
    bytes: Seq<u8>,
)
    requires
        before.wf(),
        after.shard.wf(),
        before.goes(step, after),
        !step.writes(page_id),
        before.carries(page_id, bytes),
    ensures
        after.carries(page_id, bytes),
{
    let q = step.page();
    lemma_in_use(before, page_id);
    lemma_in_use(before, q);
    lemma_frames_differ(before.shard, page_id, q);
    match step {
        PoolStep::Fetch { res, .. } => {
            lemma_search_keeps_contents(before, after, q, res, page_id, bytes);
        },
        PoolStep::Create { res, .. } => {
            lemma_search_keeps_contents(before, after, q, res, page_id, bytes);
        },
        _ => {},
    }
}

proof fn lemma_search_keeps_contents(
    before: PoolState,
    after: PoolState,
    sought: u64,
    res: Result<FrameStep, BufferPoolError>,
    page_id: u64,
    bytes: Seq<u8>,
)
    requires
        before.wf(),
        after.shard.wf(),
        before.shard.finds_frame(after.shard, sought, res),
        after.file == before.file,
        after.writing == before.writing,
        (after.frames == before.frames && after.loading == before.to_load(sought, res)) || (
        after.frames == before.cleared(res) && after.loading == before.loading.remove(sought)
            && sought != page_id),
        before.carries(page_id, bytes),
    ensures
        after.carries(page_id, bytes),
{
    lemma_in_use(before, page_id);
    match res {
        Ok(FrameStep::Resident(f)) => {
            lemma_frames_differ(before.shard, page_id, sought);
        },
        Ok(FrameStep::Installed(f)) => {
            laws::law_given_up_is_idle(before.shard, after.shard, sought, f);
            if before.shard.holds(page_id) {
                if before.shard.frame_of(page_id) == f {
                    // The page loses its frame: it was neither changed nor being written.
                    assert(before.shard.metadata@[f as int].page_id == page_id);
                    assert(!before.writing.contains_key(page_id));
                    assert(!after.shard.holds(page_id));
                } else {
                    assert(before.shard.metadata@[f as int].page_id != page_id);
                    assert(after.shard.holds(page_id));
                }
            }
        },
        _ => {},
    }
}

/// Along any run in which nobody writes to a page, it carries the bytes that it carried first,
/// whatever else is fetched, made, written, flushed or deleted, and whichever loads and writes fail.
pub proof fn law_run_keeps_contents(
    states: Seq<PoolState>,
    steps: Seq<PoolStep>,
    page_id: u64,
    bytes: Seq<u8>,
    n: int,
)
    requires
        is_run(states, steps),
        forall|i: int| 0 <= i < steps.len() ==> !(#[trigger] steps[i]).writes(page_id),
        states[0].carries(page_id, bytes),
        0 <= n < states.len(),
    ensures
        states[n].wf(),
        states[n].carries(page_id, bytes),
    decreases n,
{
    if n > 0 {
        law_run_keeps_contents(states, steps, page_id, bytes, n - 1);
        assert(states[n].shard.wf());
        assert(!steps[n - 1].writes(page_id));
        assert(states[n - 1].goes(steps[n - 1], states[n]));
        law_step_keeps_count(states[n - 1], steps[n - 1], states[n]);
        law_step_keeps_contents(states[n - 1], steps[n - 1], states[n], page_id, bytes);
    }
}

/// A fetch that finds the page in a frame that was filled finds there what the page carries.
pub proof fn law_resident_has_contents(
    before: PoolState,
    after: PoolState,
    page_id: u64,
    frame: usize,
    bytes: Seq<u8>,
)
    requires
        before.wf(),
        before.carries(page_id, bytes),
        before.goes(PoolStep::Fetch { page_id, res: Ok(FrameStep::Resident(frame)) }, after),
        !before.loading.contains(page_id),
    ensures
        after.readable(page_id),
        after.frames[frame as int] == bytes,
{
}

/// A frame that was filled for a page holds what the page carries.
pub proof fn law_load_gives_contents(
    before: PoolState,
    after: PoolState,
    page_id: u64,
    bytes: Seq<u8>,
)
    requires
        before.wf(),
        before.carries(page_id, bytes),
        before.goes(PoolStep::Load { page_id }, after),
    ensures
        after.readable(page_id),
        after.frames[after.shard.frame_of(page_id)] == bytes,
{
    lemma_in_use(before, page_id);
}

/// A page whose only user could not fill its frame is in no frame: the next fetch does not find it
/// there, and if it gives the page a frame, that has to be filled.
pub proof fn law_unread_page_is_read_again(
    before: PoolState,
    after: PoolState,
    again: PoolState,
    page_id: u64,
    left: Seq<u8>,
    got: FrameStep,
)
    requires
        before.wf(),
        before.users_of(page_id) == 1,
        before.goes(PoolStep::FailLoad { page_id, left }, after),
        after.goes(PoolStep::Fetch { page_id, res: Ok(got) }, again),
    ensures
        !after.shard.holds(page_id),
        !(got is Resident),
        got is Installed ==> again.loading.contains(page_id),
{
    lemma_in_use(before, page_id);
}

/// What was written to a page is read from it: if a user changed the page and gave it up, and nobody
/// wrote to it along the run that followed, then whoever can read the page reads the user's bytes,
/// whether it stayed in its frame or was read back.
pub proof fn law_fetch_gives_last_write(
    before: PoolState,
    changed: PoolState,
    states: Seq<PoolState>,
    steps: Seq<PoolStep>,
    page_id: u64,
    bytes: Seq<u8>,
)
    requires
        before.wf(),
        before.goes(PoolStep::Write { page_id, bytes }, changed),
        changed.goes(PoolStep::Unpin { page_id, is_dirty: true }, states[0]),
        is_run(states, steps),
        forall|i: int| 0 <= i < steps.len() ==> !(#[trigger] steps[i]).writes(page_id),
        states.last().readable(page_id),
    ensures
        states.last().shard.holds(page_id),
        states.last().frames[states.last().shard.frame_of(page_id)] == bytes,
{
    law_written_page_carries(before, changed, states[0], page_id, bytes);
    law_run_keeps_contents(states, steps, page_id, bytes, states.len() - 1);
    lemma_in_use(states.last(), page_id);
}

} // verus!
