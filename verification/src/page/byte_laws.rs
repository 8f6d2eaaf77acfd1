//! What reading and writing raw page bytes comes to, byte by byte.

use crate::page;
use crate::page::{
    copy_into, move_within, read_u16, read_u32, read_u64, read_u8, write_u16, write_u32, write_u64,
    write_u8, zero_fill, PageBuffer, PageId,
};
use vstd::prelude::*;

verus! {

/// In a little-endian integer each byte counts 256 times as much as the one before it.
pub proof fn law_little_endian(s: Seq<u8>, off: int)
    ensures
        page::le16(s, off) == s[off] + 0x100 * s[off + 1],
        page::le32(s, off) == s[off] + 0x100 * s[off + 1] + 0x1_0000 * s[off + 2] + 0x100_0000
            * s[off + 3],
        page::le64(s, off) == s[off] + 0x100 * s[off + 1] + 0x1_0000 * s[off + 2] + 0x100_0000
            * s[off + 3] + 0x1_0000_0000 * s[off + 4] + 0x100_0000_0000 * s[off + 5]
            + 0x1_0000_0000_0000 * s[off + 6] + 0x100_0000_0000_0000 * s[off + 7],
{
}

/// `b` is `a` but for the bytes from `lo` up to `hi`.
pub proof fn law_same_except(a: Seq<u8>, b: Seq<u8>, lo: int, hi: int, i: int)
    requires
        page::same_except(a, b, lo, hi),
    ensures
        b.len() == a.len(),
        0 <= i < a.len() && (i < lo || hi <= i) ==> b[i] == a[i],
{
}

/// A page number that is 0 stands for no page; every other stands for that page.
pub proof fn law_links(v: int, link: Option<PageId>)
    requires
        0 <= v <= u64::MAX,
    ensures
        page::link(v) is None <==> v == 0,
        page::link(v) matches Some(p) ==> p == v,
        page::link_value(None) == 0,
        link matches Some(p) ==> page::link_value(link) == p,
{
}

/// Reading an integer gives the number that its bytes make, least significant first.
pub proof fn law_reads(data: &[u8], off: usize, a: u8, b: u16, c: u32, d: u64)
    requires
        call_ensures(read_u8, (data, off), a),
        call_ensures(read_u16, (data, off), b),
        call_ensures(read_u32, (data, off), c),
        call_ensures(read_u64, (data, off), d),
    ensures
        a == data@[off as int],
        b == data@[off as int] + 0x100 * data@[off + 1],
        c == data@[off as int] + 0x100 * data@[off + 1] + 0x1_0000 * data@[off + 2] + 0x100_0000
            * data@[off + 3],
        d == data@[off as int] + 0x100 * data@[off + 1] + 0x1_0000 * data@[off + 2] + 0x100_0000
            * data@[off + 3] + 0x1_0000_0000 * data@[off + 4] + 0x100_0000_0000 * data@[off + 5]
            + 0x1_0000_0000_0000 * data@[off + 6] + 0x100_0000_0000_0000 * data@[off + 7],
{
}

/// What was written at an offset is read there, and no byte outside it changes.
pub proof fn law_write_u8(data: &mut [u8], off: usize, val: u8, i: int)
    requires
        call_ensures(write_u8, (data, off, val), ()),
        off < old(data)@.len(),
    ensures
        final(data)@.len() == old(data)@.len(),
        final(data)@[off as int] == val,
        0 <= i < old(data)@.len() && i != off ==> final(data)@[i] == old(data)@[i],
{
}

/// A written 16-bit integer is its bytes, least significant first, and no other byte changes.
pub proof fn law_write_u16(data: &mut [u8], off: usize, val: u16, i: int)
    requires
        call_ensures(write_u16, (data, off, val), ()),
    ensures
        final(data)@.len() == old(data)@.len(),
        final(data)@[off as int] + 0x100 * final(data)@[off + 1] == val,
        0 <= i < old(data)@.len() && (i < off || off + 2 <= i) ==> final(data)@[i] == old(data)@[i],
{
}

/// A written 32-bit integer is its bytes, least significant first, and no other byte changes.
pub proof fn law_write_u32(data: &mut [u8], off: usize, val: u32, i: int)
    requires
        call_ensures(write_u32, (data, off, val), ()),
    ensures
        final(data)@.len() == old(data)@.len(),
        final(data)@[off as int] + 0x100 * final(data)@[off + 1] + 0x1_0000 * final(data)@[off + 2]
            + 0x100_0000 * final(data)@[off + 3] == val,
        0 <= i < old(data)@.len() && (i < off || off + 4 <= i) ==> final(data)@[i] == old(data)@[i],
{
}

/// A written 64-bit integer is its bytes, least significant first, and no other byte changes.
pub proof fn law_write_u64(data: &mut [u8], off: usize, val: u64, i: int)
    requires
        call_ensures(write_u64, (data, off, val), ()),
    ensures
        final(data)@.len() == old(data)@.len(),
        final(data)@[off as int] + 0x100 * final(data)@[off + 1] + 0x1_0000 * final(data)@[off + 2]
            + 0x100_0000 * final(data)@[off + 3] + 0x1_0000_0000 * final(data)@[off + 4]
            + 0x100_0000_0000 * final(data)@[off + 5] + 0x1_0000_0000_0000 * final(data)@[off + 6]
            + 0x100_0000_0000_0000 * final(data)@[off + 7] == val,
        0 <= i < old(data)@.len() && (i < off || off + 8 <= i) ==> final(data)@[i] == old(data)@[i],
{
}

/// Bytes that were copied in lie at the offset in their order, and no other byte changes.
pub proof fn law_copy_into(data: &mut [u8], off: usize, src: &[u8], i: int)
    requires
        call_ensures(copy_into, (data, off, src), ()),
        off + src@.len() <= old(data)@.len(),
    ensures
        final(data)@.len() == old(data)@.len(),
        0 <= i < src@.len() ==> final(data)@[off + i] == src@[i],
        0 <= i < old(data)@.len() && (i < off || off + src@.len() <= i) ==> final(data)@[i] == old(
            data,
        )@[i],
{
    if 0 <= i < src@.len() {
        assert(final(data)@.subrange(off as int, off + src@.len())[i] == src@[i]);
    }
}

/// Bytes that were moved are those that lay at the source before, also where source and destination
/// overlap.
pub proof fn law_move_within(data: &mut [u8], src: usize, len: usize, dst: usize, i: int)
    requires
        call_ensures(move_within, (data, src, len, dst), ()),
        src + len <= old(data)@.len(),
        dst + len <= old(data)@.len(),
    ensures
        final(data)@.len() == old(data)@.len(),
        0 <= i < len ==> final(data)@[dst + i] == old(data)@[src + i],
        0 <= i < old(data)@.len() && (i < dst || dst + len <= i) ==> final(data)@[i] == old(
            data,
        )@[i],
{
    if 0 <= i < len {
        assert(final(data)@.subrange(dst as int, dst + len)[i] == old(data)@.subrange(
            src as int,
            src + len,
        )[i]);
    }
}

/// Zeroing clears the named bytes and no others.
pub proof fn law_zero_fill(data: &mut [u8], lo: usize, hi: usize, i: int)
    requires
        call_ensures(zero_fill, (data, lo, hi), ()),
        0 <= i < old(data)@.len(),
    ensures
        final(data)@.len() == old(data)@.len(),
        final(data)@[i] == if lo <= i < hi {
            0
        } else {
            old(data)@[i]
        },
{
}

/// A new page buffer is 4096 zero bytes, and its memory is what it holds.
pub proof fn law_new_buffer(buf: PageBuffer, bytes: &[u8], i: int)
    requires
        call_ensures(PageBuffer::new, (), buf),
        call_ensures(PageBuffer::memory, (&buf,), bytes),
    ensures
        bytes@.len() == 4096,
        0 <= i < 4096 ==> bytes@[i] == 0,
{
}

/// What is written through a buffer's memory is what its memory then shows.
pub proof fn law_buffer_keeps_writes(buf: &mut PageBuffer, through: &mut [u8], after: &[u8])
    requires
        call_ensures(PageBuffer::memory_mut, (buf,), through),
        call_ensures(PageBuffer::memory, (final(buf),), after),
    ensures
        after@ == final(through)@,
        old(through)@ == old(buf)@,
{
}

/// An integer can be read or written wherever its bytes lie within the buffer.
pub proof fn law_accesses_accepted(data: &[u8], out: &mut [u8], off: usize, val: u64)
    ensures
        off < data@.len() ==> call_requires(read_u8, (data, off)),
        off + 2 <= data@.len() ==> call_requires(read_u16, (data, off)),
        off + 4 <= data@.len() ==> call_requires(read_u32, (data, off)),
        off + 8 <= data@.len() ==> call_requires(read_u64, (data, off)),
        off + 8 <= old(out)@.len() ==> call_requires(write_u64, (out, off, val)),
        off + data@.len() <= old(out)@.len() ==> call_requires(copy_into, (out, off, data)),
{
}

} // verus!
