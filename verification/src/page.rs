//! What both page kinds share: identifiers, header offsets, the page buffer, and little-endian
//! access to raw page bytes.

use vstd::prelude::*;

pub mod byte_laws;
pub mod internal;
pub mod internal_calls;
pub mod internal_edit;
pub mod internal_laws;
pub mod internal_layout;
pub mod leaf;
pub mod leaf_calls;
mod leaf_compact;
pub mod leaf_edit;
pub mod leaf_laws;
pub mod leaf_layout;
pub mod leaf_space;

verus! {

pub type PageId = u64;

pub type Lsn = u64;

pub type SlotId = u16;

/// Page-type byte of a leaf page.
pub const LEAF: u8 = 1;

/// Page-type byte of an internal (branch) page.
pub const INTERNAL: u8 = 2;

/// A standard page is 4096 bytes.
pub const PAGE_SIZE: usize = 4096;

/// Offset of the page-type byte (u8).
pub const OFF_PAGE_TYPE: usize = 0;

/// Offset of the flag byte (u8).
pub const OFF_FLAGS: usize = 1;

/// Offset of the page id (u64).
pub const OFF_PAGE_ID: usize = 8;

/// Offset of the log sequence number (u64).
pub const OFF_LSN: usize = 16;

/// Why a page refused a change.
#[derive(Debug, Clone, Copy, PartialEq, Eq, Structural)]
pub enum PageError {
    InsufficientSpace { needed: usize, available: usize },
}

/// Which adjacent child to keep when a key is removed during a merge.
#[derive(Debug, Clone, Copy, PartialEq, Eq, Structural)]
pub enum ChildSide {
    /// Keep `child[index]`, drop `child[index + 1]`.
    Left,
    /// Keep `child[index + 1]`, drop `child[index]`.
    Right,
}

// ── Little-endian integers in a byte sequence ────────────────────────────────
/// The two bytes at `off`, read as a little-endian integer.
pub open spec fn le16(s: Seq<u8>, off: int) -> int {
    s[off] + 0x100 * s[off + 1]
}

/// The four bytes at `off`, read as a little-endian integer.
pub open spec fn le32(s: Seq<u8>, off: int) -> int {
    le16(s, off) + 0x1_0000 * le16(s, off + 2)
}

/// The eight bytes at `off`, read as a little-endian integer.
pub open spec fn le64(s: Seq<u8>, off: int) -> int {
    le32(s, off) + 0x1_0000_0000 * le32(s, off + 4)
}

/// `a` and `b` have one length and differ at most in `[lo, hi)`.
pub open spec fn same_except(a: Seq<u8>, b: Seq<u8>, lo: int, hi: int) -> bool {
    &&& a.len() == b.len()
    &&& forall|i: int| 0 <= i < a.len() && !(lo <= i < hi) ==> #[trigger] b[i] == a[i]
}

/// A link field: zero stands for "no page".
pub open spec fn link(v: int) -> Option<PageId> {
    if v == 0 {
        None
    } else {
        Some(v as PageId)
    }
}

/// What a link field stores for `page`.
pub open spec fn link_value(page: Option<PageId>) -> int {
    match page {
        Some(p) => p as int,
        None => 0,
    }
}

pub fn read_u8(data: &[u8], off: usize) -> (val: u8)
    requires
        off < data@.len(),
    ensures
        val == data@[off as int],
{
    data[off]
}

pub fn read_u16(data: &[u8], off: usize) -> (val: u16)
    requires
        off + 2 <= data@.len(),
    ensures
        val == le16(data@, off as int),
{
    data[off] as u16 + 0x100 * (data[off + 1] as u16)
}

pub fn read_u32(data: &[u8], off: usize) -> (val: u32)
    requires
        off + 4 <= data@.len(),
    ensures
        val == le32(data@, off as int),
{
    assert(data@.len() == data.len());
    read_u16(data, off) as u32 + 0x1_0000 * (read_u16(data, off + 2) as u32)
}

pub fn read_u64(data: &[u8], off: usize) -> (val: u64)
    requires
        off + 8 <= data@.len(),
    ensures
        val == le64(data@, off as int),
{
    assert(data@.len() == data.len());
    read_u32(data, off) as u64 + 0x1_0000_0000 * (read_u32(data, off + 4) as u64)
}

pub fn write_u8(data: &mut [u8], off: usize, val: u8)
    requires
        off < old(data)@.len(),
    ensures
        final(data)@ == old(data)@.update(off as int, val),
{
    data[off] = val;
}

pub fn write_u16(data: &mut [u8], off: usize, val: u16)
    requires
        off + 2 <= old(data)@.len(),
    ensures
        same_except(old(data)@, final(data)@, off as int, off + 2),
        le16(final(data)@, off as int) == val,
{
    data[off] = (val % 0x100) as u8;
    data[off + 1] = (val / 0x100) as u8;
}

pub fn write_u32(data: &mut [u8], off: usize, val: u32)
    requires
        off + 4 <= old(data)@.len(),
    ensures
        same_except(old(data)@, final(data)@, off as int, off + 4),
        le32(final(data)@, off as int) == val,
{
    assert(data@.len() == data.len());
    write_u16(data, off, (val % 0x1_0000) as u16);
    write_u16(data, off + 2, (val / 0x1_0000) as u16);
}

pub fn write_u64(data: &mut [u8], off: usize, val: u64)
    requires
        off + 8 <= old(data)@.len(),
    ensures
        same_except(old(data)@, final(data)@, off as int, off + 8),
        le64(final(data)@, off as int) == val,
{
    assert(data@.len() == data.len());
    write_u32(data, off, (val % 0x1_0000_0000) as u32);
    write_u32(data, off + 4, (val / 0x1_0000_0000) as u32);
}

/// Writes `src` over the bytes at `off`.
pub fn copy_into(data: &mut [u8], off: usize, src: &[u8])
    requires
        off + src@.len() <= old(data)@.len(),
    ensures
        same_except(old(data)@, final(data)@, off as int, off + src@.len()),
        final(data)@.subrange(off as int, off + src@.len()) == src@,
{
    assert(data@.len() == data.len());
    let len: usize = src.len();
    let mut i: usize = 0;
    while i < len
        invariant
            i <= len,
            len == src@.len(),
            off + len <= data@.len() <= usize::MAX,
            same_except(old(data)@, data@, off as int, off + i),
            forall|k: int| 0 <= k < i ==> data@[off + k] == #[trigger] src@[k],
        decreases len - i,
    {
        data[off + i] = src[i];
        i = i + 1;
    }
    assert(data@.subrange(off as int, off + src@.len()) =~= src@);
}

/// Moves `len` bytes from `src` to `dst` within one buffer; the two ranges may overlap.
pub fn move_within(data: &mut [u8], src: usize, len: usize, dst: usize)
    requires
        src + len <= old(data)@.len(),
        dst + len <= old(data)@.len(),
    ensures
        same_except(old(data)@, final(data)@, dst as int, dst + len),
        final(data)@.subrange(dst as int, dst + len) == old(data)@.subrange(src as int, src + len),
{
    assert(data@.len() == data.len());
    if src < dst {
        let mut i: usize = len;
        while i > 0
            invariant
                i <= len,
                src < dst,
                src + len <= data@.len() <= usize::MAX,
                dst + len <= data@.len(),
                same_except(old(data)@, data@, dst + i, dst + len),
                forall|k: int| dst + i <= k < dst + len ==> #[trigger] data@[k] == old(data)@[k - dst + src],
            decreases i,
        {
            i = i - 1;
            data[dst + i] = data[src + i];
        }
    } else {
        let mut i: usize = 0;
        while i < len
            invariant
                i <= len,
                dst <= src,
                src + len <= data@.len() <= usize::MAX,
                dst + len <= data@.len(),
                same_except(old(data)@, data@, dst as int, dst + i),
                forall|k: int| dst <= k < dst + i ==> #[trigger] data@[k] == old(data)@[k - dst + src],
            decreases len - i,
        {
            data[dst + i] = data[src + i];
            i = i + 1;
        }
    }
    assert(data@.subrange(dst as int, dst + len) =~= old(data)@.subrange(src as int, src + len));
}

/// Zeroes the bytes in `[lo, hi)`.
pub fn zero_fill(data: &mut [u8], lo: usize, hi: usize)
    requires
        lo <= hi <= old(data)@.len(),
    ensures
        same_except(old(data)@, final(data)@, lo as int, hi as int),
        forall|i: int| lo <= i < hi ==> #[trigger] final(data)@[i] == 0,
{
    let mut i: usize = lo;
    while i < hi
        invariant
            lo <= i <= hi <= data@.len(),
            same_except(old(data)@, data@, lo as int, i as int),
            forall|k: int| lo <= k < i ==> #[trigger] data@[k] == 0,
        decreases hi - i,
    {
        data[i] = 0;
        i = i + 1;
    }
}

// ── PageBuffer ───────────────────────────────────────────────────────────────
/// The memory of one page, on the heap and contiguous.
pub struct PageBuffer {
    data: Vec<u8>,
}

impl View for PageBuffer {
    type V = Seq<u8>;

    closed spec fn view(&self) -> Seq<u8> {
        self.data@
    }
}

impl PageBuffer {
    /// Creates a completely new, zeroed-out page.
    pub fn new() -> (buf: Self)
        ensures
            buf@ == Seq::new(PAGE_SIZE as nat, |i: int| 0u8),
    {
        let data: Vec<u8> = vec![0u8; PAGE_SIZE];
        let buf = Self { data };
        assert(buf@ =~= Seq::new(PAGE_SIZE as nat, |i: int| 0u8));
        buf
    }

    /// Provides raw read access to the bytes.
    pub fn memory(&self) -> (bytes: &[u8])
        ensures
            bytes@ == self@,
    {
        self.data.as_slice()
    }

    /// Provides raw write access to the bytes: what is in the slice when the borrow ends is what
    /// the page then holds.
    pub fn memory_mut(&mut self) -> (bytes: &mut [u8])
        ensures
            bytes@ == old(self)@,
            final(self)@ == final(bytes)@,
    {
        self.data.as_mut_slice()
    }
}

} // verus!
