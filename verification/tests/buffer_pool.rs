use fluxdb::buffer_pool::manager::{
    allocate_page_id, check_page_id, clear_frame, shard_index, BufferPoolManager,
};
use fluxdb::buffer_pool::replacer::ClockReplacer;
use fluxdb::buffer_pool::shard::{BufferPoolShard, DeleteStep, FrameMetadata, FrameStep};
use fluxdb::buffer_pool::{
    BufferPoolError, INVALID_FRAME_ID, MAX_FRAMES, NUM_SHARDS, SHARD_MASK,
};

#[test]
fn test_clock_replacer_eviction_order() {
    let mut replacer = ClockReplacer::new(4);

    replacer.unpin(0);
    replacer.unpin(1);
    replacer.unpin(2);
    replacer.unpin(3);

    let v1 = replacer.victim().unwrap();
    assert_eq!(v1, 0, "First eviction should be frame 0");

    let v2 = replacer.victim().unwrap();
    assert_eq!(v2, 1, "Second eviction should be frame 1");

    replacer.pin(2);
    let v3 = replacer.victim().unwrap();
    assert_eq!(v3, 3, "Should skip pinned frame 2 and evict frame 3");
    let result = replacer.victim();
    assert!(
        result.is_err(),
        "Should return NoEvictableFrames when only pinned frames remain"
    );
}

#[test]
fn clock_of_no_frames_has_no_victim() {
    let mut replacer = ClockReplacer::new(0);
    assert!(matches!(replacer.victim(), Err(BufferPoolError::NoEvictableFrames)));
}

#[test]
fn used_frame_gets_a_second_chance() {
    let mut replacer = ClockReplacer::new(3);
    replacer.unpin(0);
    replacer.unpin(1);
    replacer.unpin(2);
    assert_eq!(replacer.victim().ok(), Some(0));
    // 1 and 2 have lost their bits; 1 is used again and is spared
    replacer.pin(1);
    replacer.unpin(1);
    assert_eq!(replacer.victim().ok(), Some(2));
    assert_eq!(replacer.victim().ok(), Some(1));
    assert_eq!((replacer.hand, replacer.size), (2, 3));
    assert!(replacer.victim().is_err());
    assert_eq!(replacer.hand, 2);
}

/// Brings a page into a shard and gives it up again.
fn load(shard: &mut BufferPoolShard, page_id: u64, dirty: bool) -> usize {
    let frame = match shard.evict_and_replace(page_id) {
        Ok(FrameStep::Installed(f)) => f,
        other => panic!("not installed: {:?}", other),
    };
    shard.unpin_page(page_id, dirty);
    frame
}

#[test]
fn new_shard_hands_out_frames_in_order() {
    let mut shard = BufferPoolShard::new(3);
    assert_eq!(shard.free_list, vec![2, 1, 0]);
    assert_eq!(load(&mut shard, 10, false), 0);
    assert_eq!(load(&mut shard, 11, false), 1);
    assert_eq!(load(&mut shard, 12, false), 2);
    assert!(shard.free_list.is_empty());
}

#[test]
fn resident_page_is_pinned_not_reloaded() {
    let mut shard = BufferPoolShard::new(2);
    load(&mut shard, 5, false);
    assert_eq!(shard.evict_and_replace(5).ok(), Some(FrameStep::Resident(0)));
    assert_eq!(shard.pin_page(5), Some(0));
    assert_eq!(shard.metadata[0].pin_count, 2);
    assert_eq!(shard.pin_page(6), None);
}

#[test]
fn clean_victim_is_replaced() {
    let mut shard = BufferPoolShard::new(1);
    load(&mut shard, 5, false);
    assert_eq!(shard.evict_and_replace(6).ok(), Some(FrameStep::Installed(0)));
    assert_eq!(
        shard.metadata[0],
        FrameMetadata { page_id: 6, pin_count: 1, is_dirty: false }
    );
    assert_eq!(shard.pin_page(5), None);
}

#[test]
fn pinned_pages_leave_no_frame() {
    let mut shard = BufferPoolShard::new(1);
    assert_eq!(shard.evict_and_replace(5).ok(), Some(FrameStep::Installed(0)));
    assert!(matches!(shard.evict_and_replace(6), Err(BufferPoolError::NoEvictableFrames)));
    assert_eq!(shard.metadata[0].page_id, 5);
}

#[test]
fn dirty_victim_is_flushed_first() {
    let mut shard = BufferPoolShard::new(2);
    load(&mut shard, 5, true);
    load(&mut shard, 6, false);
    assert_eq!(shard.evict_and_replace(7).ok(), Some(FrameStep::FlushFirst(5)));
    assert_eq!(shard.begin_flush(5), Some((5, 0)));
    shard.end_flush(0, true);
    assert_eq!(
        shard.metadata[0],
        FrameMetadata { page_id: 5, pin_count: 0, is_dirty: false }
    );
    assert_eq!(shard.evict_and_replace(7).ok(), Some(FrameStep::Installed(1)));
    // the flushed frame stays off the clock until its page is used again
    assert!(matches!(shard.evict_and_replace(8), Err(BufferPoolError::NoEvictableFrames)));
    assert_eq!(shard.pin_page(5), Some(0));
    shard.unpin_page(5, false);
    assert_eq!(shard.evict_and_replace(8).ok(), Some(FrameStep::Installed(0)));
}

#[test]
fn failed_flush_leaves_changes() {
    let mut shard = BufferPoolShard::new(1);
    load(&mut shard, 5, true);
    assert_eq!(shard.page_to_flush(0), Some(5));
    assert_eq!(shard.begin_flush(5), Some((5, 0)));
    assert_eq!(shard.page_to_flush(0), None);
    shard.end_flush(0, false);
    assert_eq!(shard.page_to_flush(0), Some(5));
    assert_eq!(shard.metadata[0].pin_count, 0);
}

#[test]
fn clean_or_absent_page_owes_no_flush() {
    let mut shard = BufferPoolShard::new(1);
    load(&mut shard, 5, false);
    assert_eq!(shard.begin_flush(5), None);
    assert_eq!(shard.begin_flush(6), None);
}

#[test]
fn unpin_remembers_changes_and_ignores_strangers() {
    let mut shard = BufferPoolShard::new(1);
    assert_eq!(shard.evict_and_replace(5).ok(), Some(FrameStep::Installed(0)));
    shard.pin_page(5);
    shard.unpin_page(5, true);
    shard.unpin_page(5, false);
    assert_eq!(
        shard.metadata[0],
        FrameMetadata { page_id: 5, pin_count: 0, is_dirty: true }
    );
    shard.unpin_page(5, false);
    shard.unpin_page(9, true);
    assert_eq!(shard.metadata[0].pin_count, 0);
}

#[test]
fn deleted_page_frees_its_frame() {
    let mut shard = BufferPoolShard::new(2);
    load(&mut shard, 5, false);
    assert_eq!(shard.delete_page(5).ok(), Some(DeleteStep::Done));
    assert_eq!(shard.metadata[0].page_id, INVALID_FRAME_ID);
    assert_eq!(shard.free_list, vec![1, 0]);
    assert_eq!(shard.delete_page(5).ok(), Some(DeleteStep::Done));
    assert_eq!(load(&mut shard, 6, false), 0);
}

#[test]
fn page_in_use_is_not_deleted() {
    let mut shard = BufferPoolShard::new(1);
    assert_eq!(shard.evict_and_replace(5).ok(), Some(FrameStep::Installed(0)));
    assert!(matches!(shard.delete_page(5), Err(BufferPoolError::PinCountError)));
    assert_eq!(shard.metadata[0].page_id, 5);
}

#[test]
fn dirty_page_is_written_before_deletion() {
    let mut shard = BufferPoolShard::new(1);
    load(&mut shard, 5, true);
    assert_eq!(
        shard.delete_page(5).ok(),
        Some(DeleteStep::WriteFirst { frame: 0, page_id: 5 })
    );
    assert_eq!(
        shard.metadata[0],
        FrameMetadata { page_id: 5, pin_count: 1, is_dirty: false }
    );
    match shard.end_delete_write(0, false) {
        Err(BufferPoolError::InternalError(msg)) => assert_eq!(msg, "Flush failed during delete"),
        _ => panic!("a failed write went unnoticed"),
    }
    assert_eq!(
        shard.metadata[0],
        FrameMetadata { page_id: 5, pin_count: 0, is_dirty: true }
    );
    assert!(matches!(shard.delete_page(5), Ok(DeleteStep::WriteFirst { .. })));
    assert!(shard.end_delete_write(0, true).is_ok());
    assert_eq!(shard.delete_page(5).ok(), Some(DeleteStep::Done));
}

#[test]
fn changes_during_a_deletion_are_kept() {
    let mut shard = BufferPoolShard::new(1);
    load(&mut shard, 5, true);
    assert!(matches!(shard.delete_page(5), Ok(DeleteStep::WriteFirst { .. })));
    assert_eq!(shard.pin_page(5), Some(0));
    shard.unpin_page(5, true);
    assert!(shard.end_delete_write(0, true).is_ok());
    assert_eq!(
        shard.metadata[0],
        FrameMetadata { page_id: 5, pin_count: 0, is_dirty: true }
    );
    assert!(matches!(shard.delete_page(5), Ok(DeleteStep::WriteFirst { .. })));
}

#[test]
fn page_that_could_not_be_read_is_dropped() {
    let mut shard = BufferPoolShard::new(2);
    load(&mut shard, 5, false);
    assert_eq!(shard.evict_and_replace(6).ok(), Some(FrameStep::Installed(1)));
    shard.end_failed_load(6);
    assert_eq!(
        shard.metadata,
        vec![
            FrameMetadata { page_id: 5, pin_count: 0, is_dirty: false },
            FrameMetadata { page_id: INVALID_FRAME_ID, pin_count: 0, is_dirty: false },
        ]
    );
    assert_eq!(shard.free_list, vec![1]);
    assert_eq!((shard.page_table.get(&5), shard.page_table.get(&6)), (Some(&0), None));
    assert_eq!(shard.evict_and_replace(6).ok(), Some(FrameStep::Installed(1)));
}

#[test]
fn failed_load_with_other_users_gives_up_one_use() {
    let mut pool = BufferPoolManager::new(9);
    assert_eq!(pool.fetch_page(8).ok(), Some(FrameStep::Installed(0)));
    assert_eq!(pool.fetch_page(8).ok(), Some(FrameStep::Resident(0)));
    pool.end_failed_load(8);
    assert_eq!(
        pool.shards[8].metadata[0],
        FrameMetadata { page_id: 8, pin_count: 1, is_dirty: false }
    );
    pool.end_failed_load(8);
    assert_eq!(pool.shards[8].metadata[0].page_id, INVALID_FRAME_ID);
    pool.end_failed_load(8);
    assert!(pool.shards[8].page_table.is_empty());
}

#[test]
fn pages_are_spread_over_shards() {
    assert_eq!(NUM_SHARDS as u64, SHARD_MASK + 1);
    assert_eq!(shard_index(0), 0);
    assert_eq!(shard_index(17), 1);
    assert_eq!(shard_index(u64::MAX), 15);
    let pool = BufferPoolManager::new(0);
    assert_eq!(pool.shards.len(), 16);
    assert!(pool.shards.iter().all(|s| s.metadata.len() == MAX_FRAMES / NUM_SHARDS));
}

#[test]
fn unknown_pages_are_refused() {
    assert!(check_page_id(4, 5).is_ok());
    assert!(matches!(check_page_id(5, 5), Err(BufferPoolError::PageNotFound(5))));
    let mut pool = BufferPoolManager::new(2);
    assert!(matches!(pool.fetch_page(2), Err(BufferPoolError::PageNotFound(2))));
    assert!(matches!(pool.fetch_page_mut(9), Err(BufferPoolError::PageNotFound(9))));
    assert_eq!(pool.fetch_page(1).ok(), Some(FrameStep::Installed(0)));
    assert_eq!(pool.fetch_page_mut(1).ok(), Some(FrameStep::Resident(0)));
}

#[test]
fn new_pages_get_the_next_ids() {
    let mut next = 41u64;
    assert_eq!(allocate_page_id(&mut next), 41);
    assert_eq!(allocate_page_id(&mut next), 42);
    assert_eq!(next, 43);
    let mut pool = BufferPoolManager::new(7);
    assert!(matches!(pool.new_page(), (7, Ok(FrameStep::Installed(0)))));
    assert!(matches!(pool.new_page(), (8, Ok(FrameStep::Installed(0)))));
    assert_eq!(pool.next_page_id, 9);
}

#[test]
fn new_page_is_there_and_pinned() {
    let mut pool = BufferPoolManager::new(3);
    assert!(matches!(pool.new_page(), (3, Ok(FrameStep::Installed(0)))));
    let shard = &pool.shards[3];
    assert_eq!(shard.page_table.get(&3), Some(&0));
    assert_eq!(
        shard.metadata[0],
        FrameMetadata { page_id: 3, pin_count: 1, is_dirty: false }
    );
    assert!(!shard.replacer.evictable[0]);
    assert_eq!(pool.fetch_page(3).ok(), Some(FrameStep::Resident(0)));
}

#[test]
fn new_page_without_a_frame_uses_up_its_id() {
    let per_shard = (MAX_FRAMES / NUM_SHARDS) as u64;
    let mut pool = BufferPoolManager::new(per_shard * 16);
    for n in 0..per_shard {
        assert!(matches!(pool.fetch_page(n * 16), Ok(FrameStep::Installed(_))));
    }
    assert!(matches!(pool.new_page(), (1024, Err(BufferPoolError::NoEvictableFrames))));
    assert_eq!(pool.next_page_id, 1025);
    // a changed page in the way is flushed, then the new page gets a frame
    pool.unpin_page(32, true);
    pool.unpin_page(48, false);
    assert_eq!(pool.frame_for(1024).ok(), Some(FrameStep::FlushFirst(32)));
    assert_eq!(pool.flush_page(32), Some((32, 2)));
    pool.end_flush(32, 2, true);
    assert_eq!(pool.frame_for(1024).ok(), Some(FrameStep::Installed(3)));
}

#[test]
fn frames_of_new_pages_are_cleared() {
    let mut frame = [7u8; 37];
    clear_frame(&mut frame);
    assert_eq!(frame, [0u8; 37]);
    clear_frame(&mut []);
}

#[test]
fn frame_being_written_is_not_reused() {
    let mut shard = BufferPoolShard::new(1);
    load(&mut shard, 1, true);
    // the page is clean and on the clock now, but its write is under way
    assert_eq!(shard.begin_flush(1), Some((1, 0)));
    assert!(shard.replacer.evictable[0]);
    assert!(matches!(shard.evict_and_replace(2), Err(BufferPoolError::NoEvictableFrames)));
    assert_eq!(
        shard.metadata[0],
        FrameMetadata { page_id: 1, pin_count: 1, is_dirty: false }
    );
    shard.end_flush(0, true);
    assert_eq!(shard.evict_and_replace(2).ok(), Some(FrameStep::Installed(0)));
}

#[test]
fn frame_being_written_for_deletion_is_not_reused() {
    let mut shard = BufferPoolShard::new(2);
    load(&mut shard, 1, true);
    load(&mut shard, 2, false);
    assert!(matches!(shard.delete_page(1), Ok(DeleteStep::WriteFirst { frame: 0, page_id: 1 })));
    assert_eq!(shard.evict_and_replace(3).ok(), Some(FrameStep::Installed(1)));
    assert!(shard.end_delete_write(0, true).is_ok());
    assert_eq!(shard.delete_page(1).ok(), Some(DeleteStep::Done));
}

#[test]
fn busy_frames_are_no_victims() {
    let mut replacer = ClockReplacer::new(3);
    replacer.unpin(0);
    replacer.unpin(1);
    replacer.unpin(2);
    assert_eq!(replacer.victim_among(&vec![true, false, false]).ok(), Some(1));
    assert!(replacer.evictable[0]);
    assert!(replacer.victim_among(&vec![true, true, true]).is_err());
    assert_eq!(replacer.victim().ok(), Some(2));
    assert_eq!(replacer.victim().ok(), Some(0));
}

/// Frames and a file as plain arrays, moved by what a shard decides.
struct Store {
    shard: BufferPoolShard,
    frames: Vec<u8>,
    file: Vec<u8>,
}

impl Store {
    fn fetch(&mut self, page_id: u64) -> usize {
        loop {
            match self.shard.evict_and_replace(page_id) {
                Ok(FrameStep::Resident(f)) => return f,
                Ok(FrameStep::Installed(f)) => {
                    self.frames[f] = self.file[page_id as usize];
                    return f;
                }
                Ok(FrameStep::FlushFirst(dirty)) => {
                    self.flush(dirty);
                    // its frame is back on the clock once the page is used again
                    self.shard.pin_page(dirty);
                    self.shard.unpin_page(dirty, false);
                }
                Err(e) => panic!("{:?}", e),
            }
        }
    }

    fn flush(&mut self, page_id: u64) {
        if let Some((pid, f)) = self.shard.begin_flush(page_id) {
            self.file[pid as usize] = self.frames[f];
            self.shard.end_flush(f, true);
        }
    }
}

#[test]
fn fetch_gives_back_what_was_written() {
    let mut store = Store {
        shard: BufferPoolShard::new(3),
        frames: vec![0; 3],
        file: vec![0; 8],
    };
    for page_id in 0..8u64 {
        let f = store.fetch(page_id);
        store.frames[f] = 100 + page_id as u8;
        store.shard.unpin_page(page_id, true);
    }
    for page_id in (0..8u64).rev() {
        let f = store.fetch(page_id);
        assert_eq!(store.frames[f], 100 + page_id as u8);
        store.shard.unpin_page(page_id, false);
    }
}

#[test]
fn pool_flushes_changed_pages_shard_by_shard() {
    let mut pool = BufferPoolManager::new(64);
    for page_id in [33u64, 2, 17, 1] {
        assert!(matches!(pool.fetch_page_mut(page_id), Ok(FrameStep::Installed(_))));
        pool.unpin_page(page_id, page_id != 17);
    }
    assert_eq!(pool.flush_all_pages(), vec![33, 1, 2]);
    assert_eq!(pool.flush_page(1), Some((1, 2)));
    pool.end_flush(1, 2, true);
    assert_eq!(pool.flush_page(1), None);
    assert_eq!(pool.flush_all_pages(), vec![33, 2]);
    assert_eq!(pool.delete_page(17).ok(), Some(DeleteStep::Done));
}

#[test]
fn flushing_every_changed_page_leaves_none() {
    let mut pool = BufferPoolManager::new(100);
    for page_id in 0..50u64 {
        assert!(pool.fetch_page_mut(page_id).is_ok());
        pool.unpin_page(page_id, page_id % 3 == 0);
    }
    assert!(pool.fetch_page(6).is_ok());
    let pages = pool.flush_all_pages();
    assert_eq!(pages.len(), 17);
    for page_id in pages {
        let (pid, frame) = pool.flush_page(page_id).unwrap();
        assert_eq!(pid, page_id);
        pool.end_flush(page_id, frame, true);
    }
    assert!(pool.flush_all_pages().is_empty());
    let frame = pool.shards[6].page_table[&6];
    assert_eq!(
        pool.shards[6].metadata[frame],
        FrameMetadata { page_id: 6, pin_count: 1, is_dirty: false }
    );
}

#[test]
fn buffer_pool_errors_in_words() {
    assert_eq!(BufferPoolError::PageNotFound(42).message(), "Page with ID 42 not found");
    assert_eq!(BufferPoolError::PinCountError.message(), "Pin count error");
    assert_eq!(
        BufferPoolError::NoEvictableFrames.message(),
        "No evictable frames available"
    );
    assert_eq!(
        BufferPoolError::InternalError("boom".to_string()).message(),
        "Internal error: boom"
    );
}

#[test]
fn pin_then_unpin_restores_what_is_known() {
    let mut shard = BufferPoolShard::new(2);
    load(&mut shard, 5, true);
    load(&mut shard, 6, false);
    let before = shard.metadata.clone();
    assert_eq!(shard.pin_page(5), Some(0));
    shard.unpin_page(5, false);
    assert_eq!(shard.metadata, before);
    assert_eq!((shard.page_table.get(&5), shard.page_table.get(&6)), (Some(&0), Some(&1)));
}

#[test]
fn every_page_is_in_one_frame() {
    let mut pool = BufferPoolManager::new(200);
    for page_id in 0..200u64 {
        pool.fetch_page(page_id).ok();
        pool.unpin_page(page_id, false);
    }
    for (index, shard) in pool.shards.iter().enumerate() {
        for (page_id, frame) in &shard.page_table {
            assert_eq!(shard_index(*page_id), index);
            assert_eq!(shard.metadata[*frame].page_id, *page_id);
        }
    }
}
