//! Compaction of a leaf page: live records are repacked from the end of the page downward, so
//! that the space of dead records joins the free gap.

use crate::page;
use crate::page::leaf_edit::slot_offset;
use crate::page::leaf_layout as layout;
use crate::page::leaf_layout::{LEAF_HEADER_SIZE, OFF_LEAF_FREE_END, OFF_LEAF_SLOT_COUNT};
use crate::page::{move_within, read_u16, write_u16, PAGE_SIZE};
use vstd::prelude::*;

verus! {

/// A slot and the record it points at.
#[derive(Clone, Copy)]
pub(crate) struct LiveRecord {
    pub(crate) slot: usize,
    pub(crate) base: usize,
    pub(crate) size: usize,
}

/// `live` lists slots below `n` of page `s`, with the place and size of their records.
spec fn describes(s: Seq<u8>, live: Seq<LiveRecord>, n: int) -> bool {
    forall|p: int|
        0 <= p < live.len() ==> {
            &&& (#[trigger] live[p]).slot < n
            &&& live[p].base == layout::slot_base(s, live[p].slot as int)
            &&& live[p].size == layout::slot_size(s, live[p].slot as int)
        }
}

/// Each record of `live` ends at or before the start of every earlier one.
spec fn descends(live: Seq<LiveRecord>) -> bool {
    forall|p: int, q: int|
        0 <= p < q < live.len() ==> (#[trigger] live[q]).base + live[q].size <= (
        #[trigger] live[p]).base
}

/// Slot `i` is in the list.
spec fn listed(live: Seq<LiveRecord>, i: int) -> bool {
    exists|p: int| 0 <= p < live.len() && (#[trigger] live[p]).slot == i
}

/// The sizes of the first `k` records of the list, summed.
spec fn total(live: Seq<LiveRecord>, k: int) -> int
    decreases k,
{
    if k <= 0 {
        0
    } else {
        total(live, k - 1) + live[k - 1].size
    }
}

proof fn lemma_total_prefix(a: Seq<LiveRecord>, b: Seq<LiveRecord>, k: int)
    requires
        k <= a.len(),
        k <= b.len(),
        forall|p: int| 0 <= p < k ==> a[p] == b[p],
    ensures
        total(a, k) == total(b, k),
    decreases k,
{
    if k > 0 {
        lemma_total_prefix(a, b, k - 1);
    }
}

proof fn lemma_total_insert(live: Seq<LiveRecord>, at: int, r: LiveRecord, k: int)
    requires
        0 <= at <= k <= live.len(),
    ensures
        total(live.insert(at, r), k + 1) == total(live, k) + r.size,
    decreases k,
{
    let more = live.insert(at, r);
    if k == at {
        lemma_total_prefix(more, live, at);
    } else {
        lemma_total_insert(live, at, r, k - 1);
    }
}

/// The records of a page, the one closest to the end of the page first.
fn collect_live(data: &[u8], n: usize) -> (live: Vec<LiveRecord>)
    requires
        layout::leaf_wf(data@),
        n == layout::slot_count(data@),
    ensures
        describes(data@, live@, n as int),
        descends(live@),
        forall|i: int| 0 <= i < n ==> #[trigger] listed(live@, i),
        live@.len() == n,
        total(live@, n as int) == layout::live_bytes(data@),
{
    let ghost s = data@;
    let mut live: Vec<LiveRecord> = Vec::new();
    let mut i: usize = 0;
    while i < n
        invariant
            s == data@,
            layout::leaf_wf(s),
            i <= n == layout::slot_count(s),
            live@.len() == i,
            describes(s, live@, i as int),
            descends(live@),
            forall|j: int| 0 <= j < i ==> #[trigger] listed(live@, j),
            total(live@, i as int) == layout::live_bytes_of(s, i as int),
        decreases n - i,
    {
        assert(layout::slot_ok(s, i as int));
        let base: usize = read_u16(data, slot_offset(i)) as usize;
        let size: usize = read_u16(data, slot_offset(i) + 2) as usize;
        let mut at: usize = 0;
        while at < live.len() && live[at].base > base
            invariant
                at <= live@.len(),
                forall|p: int| 0 <= p < at ==> (#[trigger] live@[p]).base > base,
            decreases live@.len() - at,
        {
            at = at + 1;
        }
        let r = LiveRecord { slot: i, base, size };
        let ghost before = live@;
        live.insert(at, r);
        proof {
            assert forall|p: int| 0 <= p < before.len() implies (p < at ==> base + size
                <= #[trigger] before[p].base) && (p >= at ==> before[p].base + before[p].size
                <= base) by {
                let j = before[p].slot as int;
                assert(layout::slot_ok(s, j));
                assert(layout::records_apart(s, j, i as int));
                if p >= at && p > at {
                    assert(before[p].base + before[p].size <= before[at as int].base);
                }
            }
            assert forall|p: int, q: int| 0 <= p < q < live@.len() implies (
            #[trigger] live@[q]).base + live@[q].size <= (#[trigger] live@[p]).base by {
                let op = if p < at { p } else { p - 1 };
                let oq = if q < at { q } else { q - 1 };
                if p != at && q != at {
                    assert(before[oq].base + before[oq].size <= before[op].base);
                } else if p == at {
                    assert(live@[q] == before[oq]);
                } else {
                    assert(live@[p] == before[op]);
                }
            }
            assert forall|p: int| 0 <= p < live@.len() implies {
                &&& (#[trigger] live@[p]).slot < i + 1
                &&& live@[p].base == layout::slot_base(s, live@[p].slot as int)
                &&& live@[p].size == layout::slot_size(s, live@[p].slot as int)
            } by {
                if p < at {
                    assert(live@[p] == before[p]);
                } else if p > at {
                    assert(live@[p] == before[p - 1]);
                }
            }
            assert forall|j: int| 0 <= j < i + 1 implies #[trigger] listed(live@, j) by {
                if j == i {
                    assert(live@[at as int].slot == j);
                } else {
                    assert(listed(before, j));
                    let p = choose|p: int| 0 <= p < before.len() && (#[trigger] before[p]).slot == j;
                    if p < at {
                        assert(live@[p].slot == j);
                    } else {
                        assert(live@[p + 1].slot == j);
                    }
                }
            }
            lemma_total_insert(before, at as int, r, i as int);
        }
        i = i + 1;
    }
    live
}

/// After `k` moves: the first `k` records are packed in `[w, PAGE_SIZE)`, unchanged, and the
/// others have not been touched.
spec fn packed(s: Seq<u8>, c: Seq<u8>, live: Seq<LiveRecord>, k: int, w: int) -> bool {
    let n = live.len();
    &&& c.len() == s.len()
    &&& forall|x: int| 0 <= x < LEAF_HEADER_SIZE ==> #[trigger] c[x] == s[x]
    &&& forall|x: int|
        layout::slot_at(n as int) <= x < w && (k > 0 ==> x < live[k - 1].base) ==> #[trigger] c[x]
            == s[x]
    &&& forall|i: int|
        0 <= i < n ==> #[trigger] layout::slot_size(c, i) == layout::slot_size(s, i)
    &&& forall|p: int|
        k <= p < n ==> layout::slot_base(c, (#[trigger] live[p]).slot as int) == live[p].base
    &&& forall|p: int|
        0 <= p < k ==> {
            let b = layout::slot_base(c, (#[trigger] live[p]).slot as int);
            &&& w <= b
            &&& b + live[p].size <= PAGE_SIZE
            &&& c.subrange(b, b + live[p].size) == s.subrange(
                live[p].base as int,
                live[p].base + live[p].size,
            )
        }
    &&& forall|p: int, q: int|
        0 <= p < q < k ==> layout::slot_base(c, (#[trigger] live[q]).slot as int) + live[q].size
            <= layout::slot_base(c, (#[trigger] live[p]).slot as int)
}

/// Slots are listed once: two places in the list hold two slots.
proof fn lemma_slots_distinct(s: Seq<u8>, live: Seq<LiveRecord>, p: int, q: int)
    requires
        layout::leaf_wf(s),
        describes(s, live, layout::slot_count(s)),
        descends(live),
        0 <= p < live.len(),
        0 <= q < live.len(),
        p != q,
    ensures
        live[p].slot != live[q].slot,
{
    assert(layout::slot_ok(s, live[p].slot as int));
    assert(layout::slot_ok(s, live[q].slot as int));
    if p < q {
        assert(live[q].base + live[q].size <= live[p].base);
    } else {
        assert(live[p].base + live[p].size <= live[q].base);
    }
}

/// One more record packed: the bytes of record `k` are in `[new_w, w)`, its slot says so, and
/// nothing else has changed.
proof fn lemma_pack_step(
    s: Seq<u8>,
    c: Seq<u8>,
    t: Seq<u8>,
    live: Seq<LiveRecord>,
    k: int,
    w: int,
    new_w: int,
)
    requires
        layout::leaf_wf(s),
        live.len() == layout::slot_count(s),
        describes(s, live, layout::slot_count(s)),
        descends(live),
        0 <= k < live.len(),
        packed(s, c, live, k, w),
        w <= PAGE_SIZE,
        live[k].base <= new_w,
        new_w == w - live[k].size,
        k > 0 ==> live[k].base <= live[k - 1].base,
        t.len() == c.len(),
        layout::slot_base(t, live[k].slot as int) == new_w,
        t.subrange(new_w, w) == s.subrange(live[k].base as int, live[k].base + live[k].size),
        forall|x: int|
            0 <= x < t.len() && !(new_w <= x < w) && !(layout::slot_at(live[k].slot as int) <= x
                < layout::slot_at(live[k].slot as int) + 2) ==> #[trigger] t[x] == c[x],
    ensures
        packed(s, t, live, k + 1, new_w),
{
    let n = live.len() as int;
    assert(live[k].slot < n);
    assert(layout::slot_ok(s, live[k].slot as int));
    assert(layout::slot_at(n) <= new_w);
    assert forall|i: int| 0 <= i < n implies #[trigger] layout::slot_size(t, i)
        == layout::slot_size(s, i) by {
        assert(layout::slot_size(c, i) == layout::slot_size(s, i));
    }
    assert forall|p: int| 0 <= p < n && p != k implies layout::slot_base(
        t,
        (#[trigger] live[p]).slot as int,
    ) == layout::slot_base(c, live[p].slot as int) by {
        lemma_slots_distinct(s, live, p, k);
        assert(live[p].slot < n);
    }
    assert forall|p: int| 0 <= p < k + 1 implies {
        let b = layout::slot_base(t, (#[trigger] live[p]).slot as int);
        &&& new_w <= b
        &&& b + live[p].size <= PAGE_SIZE
        &&& t.subrange(b, b + live[p].size) == s.subrange(
            live[p].base as int,
            live[p].base + live[p].size,
        )
    } by {
        if p < k {
            let b = layout::slot_base(c, live[p].slot as int);
            assert(w <= b);
            assert(t.subrange(b, b + live[p].size) =~= c.subrange(b, b + live[p].size));
        }
    }
    assert forall|p: int, q: int| 0 <= p < q < k + 1 implies layout::slot_base(
        t,
        (#[trigger] live[q]).slot as int,
    ) + live[q].size <= layout::slot_base(t, (#[trigger] live[p]).slot as int) by {
        if q < k {
            assert(layout::slot_base(c, live[q].slot as int) + live[q].size <= layout::slot_base(
                c,
                live[p].slot as int,
            ));
        } else {
            assert(w <= layout::slot_base(c, live[p].slot as int));
        }
    }
    assert forall|x: int|
        layout::slot_at(n) <= x < new_w && x < live[k].base implies #[trigger] t[x] == s[x] by {
        assert(c[x] == s[x]);
    }
}

/// Moves record `k` of the list to end at `w`.
fn pack_record(
    data: &mut [u8],
    Ghost(s): Ghost<Seq<u8>>,
    live: &Vec<LiveRecord>,
    k: usize,
    w: usize,
) -> (new_w: usize)
    requires
        layout::leaf_wf(s),
        live@.len() == layout::slot_count(s),
        describes(s, live@, layout::slot_count(s)),
        descends(live@),
        k < live@.len(),
        packed(s, old(data)@, live@, k as int, w as int),
        w <= PAGE_SIZE,
        k == 0 ==> w == PAGE_SIZE,
        k > 0 ==> live@[k - 1].base <= w,
    ensures
        packed(s, final(data)@, live@, k + 1, new_w as int),
        new_w == w - live@[k as int].size,
        live@[k as int].base <= new_w,
        live@[k as int].base == new_w ==> final(data)@ == old(data)@,
{
    let ghost c = data@;
    let ghost n = live@.len() as int;
    let r: LiveRecord = live[k];
    assert(layout::slot_ok(s, r.slot as int));
    assert(r.base + r.size <= w) by {
        if k > 0 {
            assert(live@[k as int].base + live@[k as int].size <= live@[k - 1].base);
        }
    }
    let new_w: usize = w - r.size;
    assert(layout::slot_base(c, r.slot as int) == r.base);
    assert(c.subrange(r.base as int, r.base + r.size) =~= s.subrange(
        r.base as int,
        r.base + r.size,
    ));
    if r.base != new_w {
        move_within(data, r.base, r.size, new_w);
        let ghost d = data@;
        write_u16(data, slot_offset(r.slot), new_w as u16);
        assert(data@.subrange(new_w as int, w as int) =~= d.subrange(new_w as int, w as int));
    }
    proof {
        assert(layout::slot_base(data@, r.slot as int) == new_w);
        if k > 0 {
            assert(live@[k as int].base + live@[k as int].size <= live@[k - 1].base);
        }
        lemma_pack_step(s, c, data@, live@, k as int, w as int, new_w as int);
    }
    new_w
}

/// Reclaims dead record space: all live records are repacked from `PAGE_SIZE` downward with no
/// gaps, and their slots follow.
pub(crate) fn compact_page(data: &mut [u8])
    requires
        layout::leaf_wf(old(data)@),
    ensures
        layout::compacts(old(data)@, final(data)@),
{
    let ghost s = data@;
    let n: usize = read_u16(data, OFF_LEAF_SLOT_COUNT) as usize;
    if n == 0 {
        write_u16(data, OFF_LEAF_FREE_END, PAGE_SIZE as u16);
        assert(layout::leaf_entries(data@) =~= layout::leaf_entries(s));
        assert(layout::is_packed(s) ==> data@ =~= s);
        return ;
    }
    let live: Vec<LiveRecord> = collect_live(data, n);
    let mut w: usize = PAGE_SIZE;
    let mut k: usize = 0;
    while k < n
        invariant
            layout::leaf_wf(s),
            n == layout::slot_count(s),
            live@.len() == n,
            describes(s, live@, n as int),
            descends(live@),
            k <= n,
            packed(s, data@, live@, k as int, w as int),
            w == PAGE_SIZE - total(live@, k as int),
            w <= PAGE_SIZE,
            k == 0 ==> w == PAGE_SIZE,
            k > 0 ==> live@[k - 1].base <= w,
            total(live@, n as int) == layout::live_bytes(s),
            layout::is_packed(s) ==> data@ == s,
        decreases n - k,
    {
        proof {
            lemma_room_below(s, live@, k as int);
        }
        w = pack_record(data, Ghost(s), &live, k, w);
        k = k + 1;
    }
    let ghost c = data@;
    proof {
        assert(layout::slot_ok(s, live@[n - 1].slot as int));
    }
    write_u16(data, OFF_LEAF_FREE_END, w as u16);
    proof {
        lemma_packed_all(s, c, data@, live@, w as int);
        assert(layout::is_packed(s) ==> data@ =~= s);
    }
}

/// Below a record there is room for all that lie below it.
proof fn lemma_room_below(s: Seq<u8>, live: Seq<LiveRecord>, k: int)
    requires
        layout::leaf_wf(s),
        live.len() == layout::slot_count(s),
        describes(s, live, layout::slot_count(s)),
        descends(live),
        0 <= k < live.len(),
    ensures
        layout::free_end(s) + total(live, live.len() as int) - total(live, k + 1) <= live[k].base,
    decreases live.len() - k,
{
    assert(layout::slot_ok(s, live[k].slot as int));
    if k + 1 < live.len() {
        lemma_room_below(s, live, k + 1);
        assert(live[k + 1].base + live[k + 1].size <= live[k].base);
    }
}

/// A fully packed page is well formed and holds the same entries.
proof fn lemma_packed_all(s: Seq<u8>, c: Seq<u8>, t: Seq<u8>, live: Seq<LiveRecord>, w: int)
    requires
        layout::leaf_wf(s),
        live.len() == layout::slot_count(s),
        describes(s, live, layout::slot_count(s)),
        descends(live),
        forall|i: int| 0 <= i < layout::slot_count(s) ==> #[trigger] listed(live, i),
        packed(s, c, live, live.len() as int, w),
        layout::free_start(s) <= w <= PAGE_SIZE,
        page::same_except(c, t, OFF_LEAF_FREE_END as int, OFF_LEAF_FREE_END + 2),
        layout::free_end(t) == w,
    ensures
        layout::leaf_wf(t),
        layout::leaf_entries(t) == layout::leaf_entries(s),
        layout::same_identity(s, t),
        layout::live_bytes(t) == layout::live_bytes(s),
        forall|i: int|
            0 <= i < layout::slot_count(s) ==> #[trigger] layout::record(t, i) == layout::record(
                s,
                i,
            ),
        forall|i: int, j: int|
            0 <= i < layout::slot_count(s) && 0 <= j < layout::slot_count(s)
                && #[trigger] layout::slot_base(s, i) < #[trigger] layout::slot_base(s, j)
                ==> layout::slot_base(t, i) < layout::slot_base(t, j),
{
    let n = layout::slot_count(s);
    assert(layout::slot_count(t) == n);
    assert(layout::free_start(t) == layout::free_start(s));
    assert forall|i: int| 0 <= i < n implies w <= #[trigger] layout::slot_base(t, i)
        && layout::slot_base(t, i) + layout::slot_size(t, i) <= PAGE_SIZE && layout::record(t, i)
        == layout::record(s, i) && layout::slot_size(t, i) == layout::slot_size(s, i)
        && layout::slot_base(t, i) == layout::slot_base(c, i) by {
        assert(listed(live, i));
        let p = choose|p: int| 0 <= p < live.len() && (#[trigger] live[p]).slot == i;
        assert(layout::slot_size(c, i) == layout::slot_size(s, i));
        assert(layout::slot_ok(s, i));
        let b = layout::slot_base(c, i);
        assert(b + live[p].size <= PAGE_SIZE);
        assert(layout::record(t, i) =~= c.subrange(b, b + live[p].size));
    }
    assert forall|i: int, j: int| 0 <= i < j < n implies #[trigger] layout::records_apart(t, i, j) by {
        assert(listed(live, i) && listed(live, j));
        let p = choose|p: int| 0 <= p < live.len() && (#[trigger] live[p]).slot == i;
        let q = choose|q: int| 0 <= q < live.len() && (#[trigger] live[q]).slot == j;
        assert(w <= layout::slot_base(t, i) && w <= layout::slot_base(t, j));
        if p < q {
            assert(layout::slot_base(c, live[q].slot as int) + live[q].size <= layout::slot_base(
                c,
                live[p].slot as int,
            ));
        } else {
            assert(layout::slot_base(c, live[p].slot as int) + live[p].size <= layout::slot_base(
                c,
                live[q].slot as int,
            ));
        }
    }
    layout::lemma_after_moves(s, t);
    assert forall|i: int| 0 <= i < n implies #[trigger] layout::slot_size(t, i)
        == layout::slot_size(s, i) by {
        assert(w <= layout::slot_base(t, i));
    }
    layout::lemma_live_bytes_same(s, t, n);
    assert forall|i: int, j: int|
        0 <= i < n && 0 <= j < n && #[trigger] layout::slot_base(s, i) < #[trigger] layout::slot_base(
            s,
            j,
        ) implies layout::slot_base(t, i) < layout::slot_base(t, j) by {
        assert(listed(live, i) && listed(live, j));
        let p = choose|p: int| 0 <= p < live.len() && (#[trigger] live[p]).slot == i;
        let q = choose|q: int| 0 <= q < live.len() && (#[trigger] live[q]).slot == j;
        assert(layout::slot_ok(s, i) && layout::slot_ok(s, j));
        if p < q {
            assert(live[q].base + live[q].size <= live[p].base);
        }
        assert(w <= layout::slot_base(t, i) && w <= layout::slot_base(t, j));
        assert(layout::slot_base(c, live[p].slot as int) + live[p].size <= layout::slot_base(
            c,
            live[q].slot as int,
        ));
    }
}

} // verus!
