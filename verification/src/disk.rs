//! Where pages lie in the database file, and how disk faults are told.

use crate::page::PageId;
use vstd::prelude::*;

verus! {

/// What went wrong in a read or a write.
#[derive(Debug)]
pub enum IoFault {
    /// The input ended before a read was satisfied.
    UnexpectedEof,
    /// Any other fault, in the words of the system.
    Other(String),
}

impl IoFault {
    /// The fault in words.
    pub open spec fn words(&self) -> Seq<char> {
        match self {
            IoFault::UnexpectedEof => "failed to fill whole buffer"@,
            IoFault::Other(text) => text@,
        }
    }

    pub fn message(&self) -> (text: String)
        ensures
            text@ == self.words(),
    {
        match self {
            IoFault::UnexpectedEof => String::from_str("failed to fill whole buffer"),
            IoFault::Other(text) => String::from_str(text.as_str()),
        }
    }
}

/// Errors that can occur during disk operations.
#[derive(Debug)]
pub enum DiskError {
    Io(IoFault),
    InvalidPageSize,
}

impl From<IoFault> for DiskError {
    fn from(fault: IoFault) -> (err: Self) {
        DiskError::Io(fault)
    }
}

impl vstd::std_specs::convert::FromSpecImpl<IoFault> for DiskError {
    open spec fn obeys_from_spec() -> bool {
        true
    }

    open spec fn from_spec(fault: IoFault) -> Self {
        DiskError::Io(fault)
    }
}

/// The file offset at which page `page_id` is read or written through a buffer of `buffer_len`
/// bytes. The buffer must be exactly one page long.
pub fn page_offset(page_id: PageId, page_size: usize, buffer_len: usize) -> (offset: Result<
    u64,
    DiskError,
>)
    requires
        buffer_len == page_size ==> page_id * page_size <= u64::MAX,
    ensures
        match offset {
            Ok(at) => buffer_len == page_size && at == page_id * page_size,
            Err(e) => buffer_len != page_size && e == DiskError::InvalidPageSize,
        },
{
    if buffer_len != page_size {
        return Err(DiskError::InvalidPageSize);
    }
    Ok(page_id * (page_size as u64))
}

/// How many whole pages a file of `file_len` bytes holds.
pub fn num_pages(file_len: u64, page_size: usize) -> (n: u64)
    requires
        page_size > 0,
    ensures
        n == file_len as int / page_size as int,
{
    file_len / (page_size as u64)
}

/// Pages do not overlap in the file: one page ends before the next one begins.
pub proof fn law_pages_apart(p: PageId, q: PageId, page_size: usize)
    requires
        p < q,
    ensures
        p * page_size + page_size <= q * page_size,
{
    assert(p * page_size + page_size <= q * page_size) by (nonlinear_arith)
        requires
            p < q,
            page_size >= 0,
    ;
}

} // verus!
