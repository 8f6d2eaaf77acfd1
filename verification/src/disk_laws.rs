//! Where pages lie in the file, call by call.

use crate::disk::{num_pages, page_offset, DiskError, IoFault};
use crate::page::PageId;
use vstd::prelude::*;

verus! {

/// A page is read or written through a buffer of exactly one page, at its id times the page size; a
/// buffer of another length is refused, whatever the page.
pub proof fn law_page_offset(
    page_id: PageId,
    page_size: usize,
    buffer_len: usize,
    res: Result<u64, DiskError>,
)
    requires
        call_ensures(page_offset, (page_id, page_size, buffer_len), res),
    ensures
        res is Ok <==> buffer_len == page_size,
        res matches Ok(at) ==> at == page_id * page_size,
        res matches Err(e) ==> e is InvalidPageSize,
{
}

/// Two pages never share a byte of the file.
pub proof fn law_offsets_apart(p: PageId, q: PageId, page_size: usize, at_p: u64, at_q: u64)
    requires
        p < q,
        call_ensures(page_offset, (p, page_size, page_size), Ok::<u64, DiskError>(at_p)),
        call_ensures(page_offset, (q, page_size, page_size), Ok::<u64, DiskError>(at_q)),
    ensures
        at_p + page_size <= at_q,
{
    crate::disk::law_pages_apart(p, q, page_size);
}

/// A file has as many pages as fit it whole.
pub proof fn law_num_pages(file_len: u64, page_size: usize, n: u64)
    requires
        page_size > 0,
        call_ensures(num_pages, (file_len, page_size), n),
    ensures
        n * page_size <= file_len,
        file_len < (n + 1) * page_size,
{
    vstd::arithmetic::div_mod::lemma_fundamental_div_mod(file_len as int, page_size as int);
    let q = file_len as int / page_size as int;
    assert((q + 1) * page_size == page_size * q + page_size) by (nonlinear_arith);
    assert(q * page_size == page_size * q) by (nonlinear_arith);
}

/// A fault is told in its words.
pub proof fn law_fault_words(fault: &IoFault, text: String)
    requires
        call_ensures(IoFault::message, (fault,), text),
    ensures
        fault is UnexpectedEof ==> text@ == "failed to fill whole buffer"@,
        fault matches IoFault::Other(words) ==> text@ == words@,
{
}

/// A buffer of the wrong length is refused rather than ruled out, and any page whose offset can be
/// counted has one.
pub proof fn law_calls_accepted(page_id: PageId, page_size: usize, buffer_len: usize, len: u64)
    ensures
        buffer_len != page_size || page_id * page_size <= u64::MAX ==> call_requires(
            page_offset,
            (page_id, page_size, buffer_len),
        ),
        page_size > 0 ==> call_requires(num_pages, (len, page_size)),
{
}

} // verus!
