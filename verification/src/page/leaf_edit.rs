//! Changes to the raw bytes of a leaf page, each with its effect on the page's entries.

use crate::page;
use crate::page::leaf_layout as layout;
use crate::page::leaf_layout::{
    LEAF_HEADER_SIZE, OFF_LEAF_FREE_END, OFF_LEAF_FREE_START, OFF_LEAF_SLOT_COUNT, REC_HEADER_SIZE,
    REC_OFF_FLAGS, REC_OFF_KEY_LEN, REC_OFF_VAL_LEN, SLOT_SIZE,
};
use crate::page::{
    copy_into, move_within, read_u16, write_u16, write_u8, zero_fill, PageError, PAGE_SIZE,
};
use vstd::prelude::*;

verus! {

// ── Layout arithmetic ────────────────────────────────────────────────────────
/// Byte offset of slot `i`.
pub fn slot_offset(i: usize) -> (off: usize)
    requires
        layout::slot_at(i as int) <= usize::MAX,
    ensures
        off == layout::slot_at(i as int),
{
    LEAF_HEADER_SIZE + i * SLOT_SIZE
}

/// The key starts after the record's header.
pub fn rec_key_offset(rec_base: usize) -> (off: usize)
    requires
        rec_base + REC_HEADER_SIZE <= usize::MAX,
    ensures
        off == rec_base + REC_HEADER_SIZE,
{
    rec_base + REC_HEADER_SIZE
}

/// The value starts after the key, rounded up to the next even byte.
pub fn rec_val_offset(rec_base: usize, key_len: usize) -> (off: usize)
    requires
        key_len < usize::MAX,
        rec_base + REC_HEADER_SIZE + layout::even_up(key_len as int) <= usize::MAX,
    ensures
        off == rec_base + REC_HEADER_SIZE + layout::even_up(key_len as int),
{
    rec_base + REC_HEADER_SIZE + round_up_even(key_len)
}

/// Total record size, rounded up to the next even byte so that the next record stays 2-byte
/// aligned.
pub fn rec_total_size(key_len: usize, val_len: usize) -> (size: usize)
    requires
        REC_HEADER_SIZE + layout::even_up(key_len as int) + val_len + 1 <= usize::MAX,
    ensures
        size == layout::record_size(key_len as int, val_len as int),
{
    let raw: usize = REC_HEADER_SIZE + round_up_even(key_len) + val_len;
    round_up_even(raw)
}

pub(crate) fn round_up_even(n: usize) -> (r: usize)
    requires
        n + 1 <= usize::MAX,
    ensures
        r == layout::even_up(n as int),
{
    let m: usize = n + 1;
    assert(m & !1usize == m - m % 2) by (bit_vector);
    m & !1
}

// ── Records and slots ────────────────────────────────────────────────────────
/// Lays down a record for `key` and `val` at `rec_base`.
pub(crate) fn write_record(data: &mut [u8], rec_base: usize, key: &[u8], val: &[u8])
    requires
        layout::record_size(key@.len() as int, val@.len() as int) <= PAGE_SIZE,
        rec_base + layout::record_size(key@.len() as int, val@.len() as int) <= old(data)@.len(),
    ensures
        page::same_except(
            old(data)@,
            final(data)@,
            rec_base as int,
            rec_base + layout::record_size(key@.len() as int, val@.len() as int),
        ),
        ({
            let r = final(data)@.subrange(
                rec_base as int,
                rec_base + layout::record_size(key@.len() as int, val@.len() as int),
            );
            &&& layout::record_ok(r)
            &&& layout::record_entry(r) == (key@, val@)
            &&& r[REC_OFF_FLAGS as int] == 0
        }),
{
    assert(data@.len() == data.len());
    let key_len: usize = key.len();
    let val_len: usize = val.len();
    let ghost size = layout::record_size(key_len as int, val_len as int);
    write_u16(data, rec_base + REC_OFF_KEY_LEN, key_len as u16);
    write_u16(data, rec_base + REC_OFF_VAL_LEN, val_len as u16);
    write_u8(data, rec_base + REC_OFF_FLAGS, 0);
    let key_off: usize = rec_key_offset(rec_base);
    copy_into(data, key_off, key);
    let ghost mid = data@;
    let val_off: usize = rec_val_offset(rec_base, key_len);
    copy_into(data, val_off, val);
    proof {
        let r = data@.subrange(rec_base as int, rec_base + size);
        assert(r[0] == data@[rec_base + 0] && r[1] == data@[rec_base + 1]);
        assert(r[2] == data@[rec_base + 2] && r[3] == data@[rec_base + 3]);
        assert(r[4] == data@[rec_base + 4]);
        assert(page::le16(r, 0) == key_len && page::le16(r, 2) == val_len);
        assert forall|k: int| 0 <= k < key_len implies #[trigger] layout::record_key(r)[k] == key@[k] by {
            assert(mid.subrange(key_off as int, key_off + key_len)[k] == key@[k]);
            assert(data@[key_off + k] == mid[key_off + k]);
        }
        assert(layout::record_key(r) =~= key@);
        assert forall|k: int| 0 <= k < val_len implies #[trigger] layout::record_value(r)[k] == val@[k] by {
            assert(data@.subrange(val_off as int, val_off + val_len)[k] == val@[k]);
        }
        assert(layout::record_value(r) =~= val@);
    }
}

/// Shifts the slots `[pos..n]` one place up and puts a slot for the record at `rec_base` in the
/// place that falls free.
pub(crate) fn open_slot(data: &mut [u8], n: usize, pos: usize, rec_base: u16, rec_size: u16)
    requires
        pos <= n <= 0xffff,
        layout::slot_at(n + 1) <= old(data)@.len(),
    ensures
        page::same_except(
            old(data)@,
            final(data)@,
            layout::slot_at(pos as int),
            layout::slot_at(n + 1),
        ),
        layout::slot_base(final(data)@, pos as int) == rec_base,
        layout::slot_size(final(data)@, pos as int) == rec_size,
        forall|i: int|
            pos < i <= n ==> #[trigger] layout::slot_base(final(data)@, i) == layout::slot_base(
                old(data)@,
                i - 1,
            ),
        forall|i: int|
            pos < i <= n ==> #[trigger] layout::slot_size(final(data)@, i) == layout::slot_size(
                old(data)@,
                i - 1,
            ),
{
    let ghost s = data@;
    let src: usize = slot_offset(pos);
    let len: usize = (n - pos) * SLOT_SIZE;
    move_within(data, src, len, src + SLOT_SIZE);
    let ghost b = data@;
    write_u16(data, src, rec_base);
    write_u16(data, src + 2, rec_size);
    proof {
        let t = data@;
        assert forall|k: int| layout::slot_at(pos + 1) <= k < layout::slot_at(n + 1) implies #[trigger] t[k]
            == s[k - SLOT_SIZE] by {
            assert(b.subrange(src + SLOT_SIZE, src + SLOT_SIZE + len)[k - src - SLOT_SIZE] == b[k]);
            assert(s.subrange(src as int, src + len)[k - src - SLOT_SIZE] == s[k - SLOT_SIZE]);
        }
    }
}

/// Writes the three header fields that describe the slot directory and the free gap.
pub(crate) fn write_directory(data: &mut [u8], count: u16, free_start: u16, free_end: u16)
    requires
        old(data)@.len() >= LEAF_HEADER_SIZE,
    ensures
        page::same_except(
            old(data)@,
            final(data)@,
            OFF_LEAF_SLOT_COUNT as int,
            OFF_LEAF_FREE_END + 2,
        ),
        layout::slot_count(final(data)@) == count,
        layout::free_start(final(data)@) == free_start,
        layout::free_end(final(data)@) == free_end,
{
    write_u16(data, OFF_LEAF_SLOT_COUNT, count);
    write_u16(data, OFF_LEAF_FREE_START, free_start);
    write_u16(data, OFF_LEAF_FREE_END, free_end);
}

/// Adds an entry at slot `pos`, or reports how much space is missing.
pub(crate) fn insert_entry(data: &mut [u8], pos: usize, key: &[u8], val: &[u8]) -> (res: Result<(), PageError>)
    requires
        layout::leaf_wf(old(data)@),
        pos <= layout::leaf_entries(old(data)@).len(),
        layout::lengths_fit(key@.len() as int, val@.len() as int),
    ensures
        ({
            let s = old(data)@;
            let t = final(data)@;
            let size = layout::record_size(key@.len() as int, val@.len() as int);
            let gap = layout::gap(s);
            match res {
                Ok(_) => {
                    &&& gap >= SLOT_SIZE + size
                    &&& layout::leaf_wf(t)
                    &&& layout::leaf_entries(t) == layout::leaf_entries(s).insert(
                        pos as int,
                        (key@, val@),
                    )
                    &&& layout::same_identity(s, t)
                    &&& layout::free_end(t) == layout::free_end(s) - size
                    &&& layout::record(t, pos as int)[REC_OFF_FLAGS as int] == 0
                    &&& forall|k: int| layout::free_end(s) <= k < s.len() ==> #[trigger] t[k] == s[k]
                },
                Err(e) => {
                    &&& gap < SLOT_SIZE + size
                    &&& t == s
                    &&& e == (PageError::InsufficientSpace {
                        needed: (SLOT_SIZE + size) as usize,
                        available: gap as usize,
                    })
                },
            }
        }),
{
    let ghost s = data@;
    let rec_size: usize = rec_total_size(key.len(), val.len());
    let free_end: usize = read_u16(data, OFF_LEAF_FREE_END) as usize;
    let free_start: usize = read_u16(data, OFF_LEAF_FREE_START) as usize;
    let free: usize = free_end - free_start;
    if free < SLOT_SIZE + rec_size {
        return Err(PageError::InsufficientSpace { needed: SLOT_SIZE + rec_size, available: free });
    }
    // The record goes just below free_end (the record area grows downward).

    let rec_base: usize = free_end - rec_size;
    write_record(data, rec_base, key, val);
    let ghost a = data@;
    // The slot directory makes room: [pos..n] becomes [pos+1..n+1].
    let n: usize = read_u16(data, OFF_LEAF_SLOT_COUNT) as usize;
    open_slot(data, n, pos, rec_base as u16, rec_size as u16);
    let ghost b = data@;
    write_directory(data, (n + 1) as u16, (free_start + SLOT_SIZE) as u16, rec_base as u16);
    proof {
        let t = data@;
        assert forall|i: int| pos < i < n + 1 implies #[trigger] layout::slot_base(t, i)
            == layout::slot_base(s, i - 1) && layout::slot_size(t, i) == layout::slot_size(s, i - 1) by {
            assert(layout::slot_base(b, i) == layout::slot_base(a, i - 1));
            assert(layout::slot_size(b, i) == layout::slot_size(a, i - 1));
        }
        assert(layout::record(t, pos as int) =~= a.subrange(rec_base as int, rec_base + rec_size));
        layout::lemma_after_insert(s, t, pos as int, (key@, val@));
    }
    Ok(())
}

/// Writes a value of the same length over the value of the entry at slot `pos`.
pub(crate) fn overwrite_in_place(data: &mut [u8], pos: usize, rec_base: usize, key_len: usize, val: &[u8])
    requires
        layout::leaf_wf(old(data)@),
        pos < layout::leaf_entries(old(data)@).len(),
        rec_base == layout::slot_base(old(data)@, pos as int),
        key_len == layout::leaf_entries(old(data)@)[pos as int].0.len(),
        val@.len() == layout::leaf_entries(old(data)@)[pos as int].1.len(),
    ensures
        layout::leaf_wf(final(data)@),
        layout::leaf_entries(final(data)@) == layout::leaf_entries(old(data)@).update(
            pos as int,
            (layout::leaf_entries(old(data)@)[pos as int].0, val@),
        ),
        page::same_except(
            old(data)@,
            final(data)@,
            layout::value_at(old(data)@, pos as int),
            layout::value_at(old(data)@, pos as int) + val@.len(),
        ),
        layout::free_end(old(data)@) <= layout::value_at(old(data)@, pos as int),
{
    let ghost s = data@;
    let ghost r = layout::record(s, pos as int);
    let ghost e = layout::leaf_entries(s)[pos as int];
    assert(layout::slot_ok(s, pos as int));
    assert(r[0] == s[rec_base + 0] && r[1] == s[rec_base + 1]);
    assert(r[2] == s[rec_base + 2] && r[3] == s[rec_base + 3]);
    let val_off: usize = rec_val_offset(rec_base, key_len);
    copy_into(data, val_off, val);
    proof {
        let t = data@;
        let r2 = layout::record(t, pos as int);
        assert(r2[0] == t[rec_base + 0] && r2[1] == t[rec_base + 1]);
        assert(r2[2] == t[rec_base + 2] && r2[3] == t[rec_base + 3]);
        assert(layout::record_key(r2) =~= layout::record_key(r));
        assert(layout::record_value(r2) =~= t.subrange(val_off as int, val_off + val@.len()));
        layout::lemma_after_replace(s, t, pos as int, (e.0, val@));
    }
}

/// Gives the entry at slot `pos` a fresh record just below free space; the old record becomes
/// dead space.
pub(crate) fn overwrite_with_record(data: &mut [u8], pos: usize, key: &[u8], val: &[u8], rec_size: usize)
    requires
        layout::leaf_wf(old(data)@),
        pos < layout::leaf_entries(old(data)@).len(),
        key@ == layout::leaf_entries(old(data)@)[pos as int].0,
        rec_size == layout::record_size(key@.len() as int, val@.len() as int),
        layout::free_end(old(data)@) - layout::free_start(old(data)@) >= rec_size,
    ensures
        layout::leaf_wf(final(data)@),
        layout::leaf_entries(final(data)@) == layout::leaf_entries(old(data)@).update(
            pos as int,
            (key@, val@),
        ),
        layout::same_identity(old(data)@, final(data)@),
        layout::free_end(final(data)@) == layout::free_end(old(data)@) - rec_size,
        layout::record(final(data)@, pos as int)[REC_OFF_FLAGS as int] == 0,
        forall|k: int|
            layout::free_end(old(data)@) <= k < old(data)@.len() ==> #[trigger] final(data)@[k]
                == old(data)@[k],
{
    let ghost s = data@;
    assert(layout::slot_ok(s, pos as int));
    let free_end: usize = read_u16(data, OFF_LEAF_FREE_END) as usize;
    let new_rec_base: usize = free_end - rec_size;
    write_record(data, new_rec_base, key, val);
    let ghost a = data@;
    write_u16(data, slot_offset(pos), new_rec_base as u16);
    write_u16(data, slot_offset(pos) + 2, rec_size as u16);
    write_u16(data, OFF_LEAF_FREE_END, new_rec_base as u16);
    proof {
        let t = data@;
        assert forall|i: int|
            0 <= i < layout::slot_count(s) && i != pos implies #[trigger] layout::slot_base(t, i)
            == layout::slot_base(s, i) && layout::slot_size(t, i) == layout::slot_size(s, i) by {}
        assert(layout::record(t, pos as int) =~= a.subrange(
            new_rec_base as int,
            new_rec_base + rec_size,
        ));
        layout::lemma_after_replace(s, t, pos as int, (key@, val@));
    }
}

/// Replaces the value of the entry at slot `pos`, or reports how much space is missing.
pub(crate) fn overwrite_entry(data: &mut [u8], pos: usize, val: &[u8]) -> (res: Result<(), PageError>)
    requires
        layout::leaf_wf(old(data)@),
        pos < layout::leaf_entries(old(data)@).len(),
        layout::lengths_fit(
            layout::leaf_entries(old(data)@)[pos as int].0.len() as int,
            val@.len() as int,
        ),
    ensures
        ({
            let s = old(data)@;
            let t = final(data)@;
            let e = layout::leaf_entries(s)[pos as int];
            let size = layout::record_size(e.0.len() as int, val@.len() as int);
            let gap = layout::gap(s);
            match res {
                Ok(_) => {
                    &&& layout::leaf_wf(t)
                    &&& layout::leaf_entries(t) == layout::leaf_entries(s).update(
                        pos as int,
                        (e.0, val@),
                    )
                    &&& layout::same_identity(s, t)
                    &&& if val@.len() == e.1.len() {
                        page::same_except(
                            s,
                            t,
                            layout::value_at(s, pos as int),
                            layout::value_at(s, pos as int) + val@.len(),
                        )
                    } else {
                        &&& gap >= size
                        &&& layout::free_end(t) == layout::free_end(s) - size
                        &&& layout::record(t, pos as int)[REC_OFF_FLAGS as int] == 0
                        &&& forall|k: int|
                            layout::free_end(s) <= k < s.len() ==> #[trigger] t[k] == s[k]
                    }
                },
                Err(e2) => {
                    &&& val@.len() != e.1.len()
                    &&& gap < size
                    &&& t == s
                    &&& e2 == (PageError::InsufficientSpace {
                        needed: size as usize,
                        available: gap as usize,
                    })
                },
            }
        }),
{
    let ghost s = data@;
    let ghost r = layout::record(s, pos as int);
    assert(layout::slot_ok(s, pos as int));
    let new_val_len: usize = val.len();
    let rec_base: usize = read_u16(data, slot_offset(pos)) as usize;
    assert(r[0] == s[rec_base + 0] && r[1] == s[rec_base + 1]);
    assert(r[2] == s[rec_base + 2] && r[3] == s[rec_base + 3]);
    let key_len: usize = read_u16(data, rec_base + REC_OFF_KEY_LEN) as usize;
    let old_val_len: usize = read_u16(data, rec_base + REC_OFF_VAL_LEN) as usize;
    if new_val_len == old_val_len {
        overwrite_in_place(data, pos, rec_base, key_len, val);
        return Ok(());
    }
    let new_rec_size: usize = rec_total_size(key_len, new_val_len);
    let free_end: usize = read_u16(data, OFF_LEAF_FREE_END) as usize;
    let free_start: usize = read_u16(data, OFF_LEAF_FREE_START) as usize;
    let free: usize = free_end - free_start;
    if free < new_rec_size {
        return Err(PageError::InsufficientSpace { needed: new_rec_size, available: free });
    }
    let old_key_off: usize = rec_key_offset(rec_base);
    let key: Vec<u8> = copy_out(data, old_key_off, key_len);
    assert(key@ =~= layout::record_key(r));
    overwrite_with_record(data, pos, key.as_slice(), val, new_rec_size);
    Ok(())
}

/// Removes the slot at `pos`; the record's bytes become dead space.
pub(crate) fn remove_entry(data: &mut [u8], pos: usize)
    requires
        layout::leaf_wf(old(data)@),
        pos < layout::leaf_entries(old(data)@).len(),
    ensures
        layout::leaf_wf(final(data)@),
        layout::leaf_entries(final(data)@) == layout::leaf_entries(old(data)@).remove(pos as int),
        layout::same_identity(old(data)@, final(data)@),
        layout::free_end(final(data)@) == layout::free_end(old(data)@),
        forall|k: int|
            layout::free_start(final(data)@) <= k < layout::free_start(old(data)@)
                ==> #[trigger] final(data)@[k] == 0,
        forall|k: int|
            layout::free_start(old(data)@) <= k < old(data)@.len() ==> #[trigger] final(data)@[k]
                == old(data)@[k],
{
    let ghost s = data@;
    let n: usize = read_u16(data, OFF_LEAF_SLOT_COUNT) as usize;
    let free_start: usize = read_u16(data, OFF_LEAF_FREE_START) as usize;
    let free_end: u16 = read_u16(data, OFF_LEAF_FREE_END);
    // Shift [pos+1..n] one slot down and zero the slot that is left over.
    let src: usize = slot_offset(pos + 1);
    let len: usize = (n - pos - 1) * SLOT_SIZE;
    move_within(data, src, len, src - SLOT_SIZE);
    let ghost b = data@;
    let vacated: usize = slot_offset(n - 1);
    zero_fill(data, vacated, vacated + SLOT_SIZE);
    let ghost c = data@;
    write_directory(data, (n - 1) as u16, (free_start - SLOT_SIZE) as u16, free_end);
    proof {
        let t = data@;
        assert forall|k: int| layout::slot_at(pos as int) <= k < layout::slot_at(n - 1) implies #[trigger] t[k]
            == s[k + SLOT_SIZE] by {
            assert(b.subrange(src - SLOT_SIZE, src - SLOT_SIZE + len)[k - src + SLOT_SIZE] == b[k]);
            assert(s.subrange(src as int, src + len)[k - src + SLOT_SIZE] == s[k + SLOT_SIZE]);
            assert(c[k] == b[k]);
        }
        assert forall|i: int| pos <= i < n - 1 implies #[trigger] layout::slot_base(t, i)
            == layout::slot_base(s, i + 1) && layout::slot_size(t, i) == layout::slot_size(s, i + 1) by {}
        layout::lemma_after_remove(s, t, pos as int);
    }
}

/// The `len` bytes at `off`, copied out of the page.
pub(crate) fn copy_out(data: &[u8], off: usize, len: usize) -> (bytes: Vec<u8>)
    requires
        off + len <= data@.len(),
    ensures
        bytes@ == data@.subrange(off as int, off + len),
{
    assert(data@.len() == data.len());
    vstd::slice::slice_to_vec(&data[off..off + len])
}

} // verus!
