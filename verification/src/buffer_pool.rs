//! Buffer-pool bookkeeping: which page is in which frame, who uses it, and which frame is reused
//! next.
//!
//! The pool is divided into independent shards, each with its own page table and clock. What is
//! decided here never touches a disk: a step that needs a page written or read says so, and is told
//! how it went.

use crate::text;
use crate::text::with_number;
use vstd::prelude::*;

pub mod clock_calls;
pub mod contents;
pub mod flush_laws;
pub mod laws;
pub mod manager;
pub mod pool_calls;
pub mod replacer;
pub mod shard;
pub mod shard_calls;

verus! {

/// The page id of a frame that holds no page.
pub const INVALID_FRAME_ID: u64 = u64::MAX;

/// Frames in the whole pool.
pub const MAX_FRAMES: usize = 1024;

/// Bytes of a frame.
pub const MAX_PAGE_SIZE: usize = 4096;

pub const NUM_SHARDS: usize = 16;

/// The bits of a page id that choose its shard.
pub const SHARD_MASK: u64 = 15;

#[derive(Debug)]
pub enum BufferPoolError {
    PageNotFound(u64),
    PinCountError,
    NoEvictableFrames,
    InternalError(String),
}

impl BufferPoolError {
    /// The error in words.
    pub open spec fn words(&self) -> Seq<char> {
        match self {
            BufferPoolError::PageNotFound(page_id) => "Page with ID "@ + text::decimal(
                *page_id as int,
            ) + " not found"@,
            BufferPoolError::PinCountError => "Pin count error"@,
            BufferPoolError::NoEvictableFrames => "No evictable frames available"@,
            BufferPoolError::InternalError(msg) => "Internal error: "@ + msg@,
        }
    }

    pub fn message(&self) -> (text: String)
        ensures
            text@ == self.words(),
    {
        match self {
            BufferPoolError::PageNotFound(page_id) => {
                let mut text = with_number("Page with ID ", *page_id);
                text.append(" not found");
                text
            },
            BufferPoolError::PinCountError => String::from_str("Pin count error"),
            BufferPoolError::NoEvictableFrames => {
                String::from_str("No evictable frames available")
            },
            BufferPoolError::InternalError(msg) => {
                let mut text = String::from_str("Internal error: ");
                text.append(msg.as_str());
                text
            },
        }
    }
}

} // verus!
