//! Reading an internal page's children and keys into vectors, and writing them back: a change of
//! the key count moves every section.

use crate::page;
use crate::page::internal_layout as layout;
use crate::page::internal_layout::{INT_HEADER_SIZE, OFF_INT_NUM_KEYS};
use crate::page::{
    copy_into, read_u16, read_u32, read_u64, write_u16, write_u32, write_u64, PageId, INTERNAL,
    PAGE_SIZE,
};
use vstd::prelude::*;

verus! {

// ── Offset arithmetic ────────────────────────────────────────────────────────
/// Byte offset of `child[i]` (section A).
pub fn int_child_offset(i: usize) -> (off: usize)
    requires
        layout::child_at(i as int) <= usize::MAX,
    ensures
        off == layout::child_at(i as int),
{
    INT_HEADER_SIZE + i * 8
}

/// Byte offset of the first byte of section B (key-end offsets).
pub fn int_key_end_section(num_keys: usize) -> (off: usize)
    requires
        layout::ends_at(num_keys as int) <= usize::MAX,
    ensures
        off == layout::ends_at(num_keys as int),
{
    INT_HEADER_SIZE + (num_keys + 1) * 8
}

/// Byte offset of `key_end[i]` (section B entry).
pub fn int_key_end_offset(num_keys: usize, i: usize) -> (off: usize)
    requires
        layout::end_at(num_keys as int, i as int) <= usize::MAX,
    ensures
        off == layout::end_at(num_keys as int, i as int),
{
    int_key_end_section(num_keys) + i * 4
}

/// Byte offset of the first byte of section C (raw key data).
pub fn int_key_data_base(num_keys: usize) -> (off: usize)
    requires
        layout::keys_at(num_keys as int) <= usize::MAX,
    ensures
        off == layout::keys_at(num_keys as int),
{
    int_key_end_section(num_keys) + num_keys * 4
}

/// The byte strings that a vector of vectors holds.
pub open spec fn strings(v: Seq<Vec<u8>>) -> Seq<Seq<u8>> {
    Seq::new(v.len(), |i: int| v[i]@)
}

// ── Reading ──────────────────────────────────────────────────────────────────
/// Where key `i` lies: its first byte and the byte past its end.
pub(crate) fn key_range(data: &[u8], i: usize) -> (r: (usize, usize))
    requires
        layout::int_wf(data@),
        i < layout::key_count(data@),
    ensures
        r.0 <= r.1 <= data@.len(),
        data@.subrange(r.0 as int, r.1 as int) == layout::keys(data@)[i as int],
{
    let n: usize = read_u16(data, OFF_INT_NUM_KEYS) as usize;
    let ghost s = data@;
    assert(layout::key_end(s, -1) <= layout::key_end(s, i - 1) <= layout::key_end(s, i as int)
        <= layout::key_end(s, n - 1));
    let base: usize = int_key_data_base(n);
    let start: usize = if i == 0 {
        0
    } else {
        read_u32(data, int_key_end_offset(n, i - 1)) as usize
    };
    let end: usize = read_u32(data, int_key_end_offset(n, i)) as usize;
    (base + start, base + end)
}

/// Copies all children and keys into vectors so that they can be modified before being written
/// back.
pub(crate) fn snapshot(data: &[u8]) -> (r: (Vec<PageId>, Vec<Vec<u8>>))
    requires
        layout::int_wf(data@),
    ensures
        r.0@ == layout::children(data@),
        strings(r.1@) == layout::keys(data@),
{
    let ghost s = data@;
    let n: usize = read_u16(data, OFF_INT_NUM_KEYS) as usize;
    assert(layout::key_end(s, -1) <= layout::key_end(s, n - 1));
    let mut children: Vec<PageId> = Vec::new();
    let mut i: usize = 0;
    while i <= n
        invariant
            s == data@,
            layout::int_wf(s),
            n == layout::key_count(s) <= 0xffff,
            layout::keys_at(n as int) <= s.len(),
            i <= n + 1,
            children@ == layout::children(s).take(i as int),
        decreases n + 1 - i,
    {
        let c: u64 = read_u64(data, int_child_offset(i));
        children.push(c);
        i = i + 1;
        assert(children@ =~= layout::children(s).take(i as int));
    }
    assert(children@ =~= layout::children(s));
    let mut keys: Vec<Vec<u8>> = Vec::new();
    let mut j: usize = 0;
    while j < n
        invariant
            s == data@,
            layout::int_wf(s),
            n == layout::key_count(s),
            j <= n,
            strings(keys@) == layout::keys(s).take(j as int),
        decreases n - j,
    {
        let (from, to) = key_range(data, j);
        let key: Vec<u8> = vstd::slice::slice_to_vec(&data[from..to]);
        let ghost before = keys@;
        keys.push(key);
        proof {
            assert(layout::keys(s).take(j + 1) =~= layout::keys(s).take(j as int).push(
                layout::keys(s)[j as int],
            ));
            assert(strings(keys@) =~= strings(before).push(key@));
        }
        j = j + 1;
    }
    assert(strings(keys@) =~= layout::keys(s));
    (children, keys)
}

// ── Writing ──────────────────────────────────────────────────────────────────
/// Section A: the child page ids.
fn write_children(data: &mut [u8], children: &Vec<PageId>)
    requires
        layout::child_at(children@.len() as int) <= old(data)@.len(),
    ensures
        page::same_except(
            old(data)@,
            final(data)@,
            INT_HEADER_SIZE as int,
            layout::child_at(children@.len() as int),
        ),
        forall|i: int|
            0 <= i < children@.len() ==> #[trigger] page::le64(final(data)@, layout::child_at(i))
                == children@[i],
{
    assert(data@.len() == data.len());
    let mut i: usize = 0;
    while i < children.len()
        invariant
            i <= children@.len(),
            layout::child_at(children@.len() as int) <= data@.len() <= usize::MAX,
            page::same_except(
                old(data)@,
                data@,
                INT_HEADER_SIZE as int,
                layout::child_at(i as int),
            ),
            forall|j: int|
                0 <= j < i ==> #[trigger] page::le64(data@, layout::child_at(j)) == children@[j],
        decreases children@.len() - i,
    {
        let ghost before = data@;
        write_u64(data, int_child_offset(i), children[i]);
        assert forall|j: int| 0 <= j < i + 1 implies #[trigger] page::le64(
            data@,
            layout::child_at(j),
        ) == children@[j] by {
            if j < i {
                assert(page::le64(before, layout::child_at(j)) == children@[j]);
            }
        }
        i = i + 1;
    }
}

/// Section B: the cumulative key end offsets.
fn write_key_ends(data: &mut [u8], keys: &Vec<Vec<u8>>)
    requires
        layout::needed(strings(keys@)) <= PAGE_SIZE,
        PAGE_SIZE <= old(data)@.len(),
    ensures
        page::same_except(
            old(data)@,
            final(data)@,
            layout::ends_at(keys@.len() as int),
            layout::keys_at(keys@.len() as int),
        ),
        forall|i: int|
            0 <= i < keys@.len() ==> #[trigger] page::le32(
                final(data)@,
                layout::end_at(keys@.len() as int, i),
            ) == layout::key_bytes(strings(keys@), i + 1),
{
    let ghost ks = strings(keys@);
    let n: usize = keys.len();
    proof {
        layout::lemma_key_bytes_monotone(ks, 0, n as int);
    }
    let mut cumulative: usize = 0;
    let mut i: usize = 0;
    while i < n
        invariant
            ks == strings(keys@),
            n == keys@.len(),
            i <= n,
            layout::needed(ks) <= PAGE_SIZE <= data@.len(),
            layout::key_bytes(ks, n as int) >= 0,
            cumulative == layout::key_bytes(ks, i as int),
            page::same_except(
                old(data)@,
                data@,
                layout::ends_at(n as int),
                layout::end_at(n as int, i as int),
            ),
            forall|j: int|
                0 <= j < i ==> #[trigger] page::le32(data@, layout::end_at(n as int, j))
                    == layout::key_bytes(ks, j + 1),
        decreases n - i,
    {
        let ghost before = data@;
        proof {
            layout::lemma_key_bytes_monotone(ks, i + 1, n as int);
            assert(ks[i as int] == keys@[i as int]@);
        }
        cumulative = cumulative + keys[i].len();
        write_u32(data, int_key_end_offset(n, i), cumulative as u32);
        assert forall|j: int| 0 <= j < i + 1 implies #[trigger] page::le32(
            data@,
            layout::end_at(n as int, j),
        ) == layout::key_bytes(ks, j + 1) by {
            if j < i {
                assert(page::le32(before, layout::end_at(n as int, j)) == layout::key_bytes(
                    ks,
                    j + 1,
                ));
            }
        }
        i = i + 1;
    }
}

/// `data` holds key `i` of `ks`, packed from `base` on.
spec fn holds_key(data: Seq<u8>, ks: Seq<Seq<u8>>, base: int, i: int) -> bool {
    data.subrange(base + layout::key_bytes(ks, i), base + layout::key_bytes(ks, i + 1)) == ks[i]
}

/// Writing key `i` after the keys before it leaves those in place.
proof fn lemma_key_written(before: Seq<u8>, data: Seq<u8>, ks: Seq<Seq<u8>>, base: int, i: int)
    requires
        0 <= base,
        0 <= i < ks.len(),
        base + layout::key_bytes(ks, i + 1) <= data.len(),
        page::same_except(
            before,
            data,
            base + layout::key_bytes(ks, i),
            base + layout::key_bytes(ks, i) + ks[i].len(),
        ),
        data.subrange(
            base + layout::key_bytes(ks, i),
            base + layout::key_bytes(ks, i) + ks[i].len(),
        ) == ks[i],
        forall|j: int| 0 <= j < i ==> #[trigger] holds_key(before, ks, base, j),
    ensures
        forall|j: int| 0 <= j < i + 1 ==> #[trigger] holds_key(data, ks, base, j),
{
    assert forall|j: int| 0 <= j < i + 1 implies #[trigger] holds_key(data, ks, base, j) by {
        if j < i {
            assert(holds_key(before, ks, base, j));
            layout::lemma_key_bytes_monotone(ks, 0, j);
            layout::lemma_key_bytes_monotone(ks, j, j + 1);
            layout::lemma_key_bytes_monotone(ks, j + 1, i);
            assert(data.subrange(
                base + layout::key_bytes(ks, j),
                base + layout::key_bytes(ks, j + 1),
            ) =~= before.subrange(
                base + layout::key_bytes(ks, j),
                base + layout::key_bytes(ks, j + 1),
            ));
        }
    }
}

/// Section C: the packed key data.
fn write_key_data(data: &mut [u8], keys: &Vec<Vec<u8>>)
    requires
        layout::needed(strings(keys@)) <= PAGE_SIZE,
        PAGE_SIZE <= old(data)@.len(),
    ensures
        page::same_except(
            old(data)@,
            final(data)@,
            layout::keys_at(keys@.len() as int),
            layout::needed(strings(keys@)),
        ),
        forall|i: int|
            0 <= i < keys@.len() ==> #[trigger] holds_key(
                final(data)@,
                strings(keys@),
                layout::keys_at(keys@.len() as int),
                i,
            ),
{
    let ghost ks = strings(keys@);
    let n: usize = keys.len();
    let ghost base = layout::keys_at(n as int);
    proof {
        layout::lemma_key_bytes_monotone(ks, 0, n as int);
    }
    let mut off: usize = int_key_data_base(n);
    let mut i: usize = 0;
    while i < n
        invariant
            ks == strings(keys@),
            n == keys@.len(),
            base == layout::keys_at(n as int),
            i <= n,
            layout::needed(ks) <= PAGE_SIZE <= data@.len(),
            off == base + layout::key_bytes(ks, i as int),
            base <= off <= PAGE_SIZE,
            page::same_except(old(data)@, data@, base, off as int),
            forall|j: int| 0 <= j < i ==> #[trigger] holds_key(data@, ks, base, j),
        decreases n - i,
    {
        let ghost before = data@;
        proof {
            layout::lemma_key_bytes_monotone(ks, i + 1, n as int);
            assert(ks[i as int] == keys@[i as int]@);
        }
        copy_into(data, off, keys[i].as_slice());
        proof {
            lemma_key_written(before, data@, ks, base, i as int);
        }
        off = off + keys[i].len();
        i = i + 1;
    }
}

/// Writes children and keys back to the page in their section layout; the key count follows from
/// `keys`. A page without keys may be given no child: the child slot then keeps its bytes.
pub(crate) fn rewrite(data: &mut [u8], children: &Vec<PageId>, keys: &Vec<Vec<u8>>)
    requires
        old(data)@.len() >= PAGE_SIZE,
        old(data)@[0] == INTERNAL,
        children@.len() == keys@.len() + 1 || (children@.len() == 0 && keys@.len() == 0),
        layout::needed(strings(keys@)) <= PAGE_SIZE,
    ensures
        layout::int_wf(final(data)@),
        layout::children(final(data)@) == if children@.len() == 0 {
            seq![layout::child(old(data)@, 0)]
        } else {
            children@
        },
        layout::keys(final(data)@) == strings(keys@),
        layout::same_identity(old(data)@, final(data)@),
        forall|i: int|
            layout::needed(strings(keys@)) <= i < old(data)@.len() ==> #[trigger] final(data)@[i]
                == old(data)@[i],
{
    let ghost s = data@;
    let ghost ks = strings(keys@);
    let ghost n = keys@.len() as int;
    proof {
        layout::lemma_key_bytes_monotone(ks, 0, n);
    }
    let new_n: usize = keys.len();
    write_u16(data, OFF_INT_NUM_KEYS, new_n as u16);
    write_children(data, children);
    let ghost a = data@;
    write_key_ends(data, keys);
    let ghost b = data@;
    write_key_data(data, keys);
    proof {
        let t = data@;
        let kids = if children@.len() == 0 {
            seq![layout::child(s, 0)]
        } else {
            children@
        };
        assert forall|i: int| 0 <= i < kids.len() implies #[trigger] page::le64(
            t,
            layout::child_at(i),
        ) == kids[i] by {
            if children@.len() > 0 {
                assert(page::le64(a, layout::child_at(i)) == kids[i]);
            }
        }
        assert forall|i: int| 0 <= i < n implies #[trigger] page::le32(t, layout::end_at(n, i))
            == layout::key_bytes(ks, i + 1) by {
            assert(page::le32(b, layout::end_at(n, i)) == layout::key_bytes(ks, i + 1));
        }
        assert forall|i: int| 0 <= i < n implies t.subrange(
            layout::keys_at(n) + layout::key_bytes(ks, i),
            layout::keys_at(n) + layout::key_bytes(ks, i + 1),
        ) == #[trigger] ks[i] by {
            assert(holds_key(t, ks, layout::keys_at(n), i));
        }
        layout::lemma_sections(t, kids, ks);
    }
}

} // verus!
