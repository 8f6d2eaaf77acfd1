//! What each operation on an internal page gives, in the bytes that its children and keys take.

use crate::key;
use crate::key::Key;
use crate::key_laws::ByteKey;
use crate::page;
use crate::page::internal;
use crate::page::internal::{InternalPageAccessor, InternalPageBuilder, InternalPageMutator};
use crate::page::internal_edit::{
    int_child_offset, int_key_data_base, int_key_end_offset, int_key_end_section,
};
use crate::page::internal_layout as layout;
use crate::page::{ChildSide, Lsn, PageError, PageId};
use std::cmp::Ordering;
use vstd::prelude::*;

verus! {

// ── The layout ───────────────────────────────────────────────────────────────
/// Where the fields of an internal page's header lie.
pub proof fn law_header(s: Seq<u8>)
    ensures
        layout::key_count(s) == page::le16(s, 2),
        layout::int_page_id(s) == page::le64(s, 8),
        layout::int_lsn(s) == page::le64(s, 16),
        layout::int_parent(s) is None <==> page::le64(s, 24) == 0,
        layout::int_parent(s) matches Some(p) ==> p == page::le64(s, 24),
{
}

/// Where the children of an internal page lie: 8 bytes each, from byte 32 on, one more than it has keys.
pub proof fn law_children(s: Seq<u8>, i: int)
    ensures
        layout::children(s).len() == page::le16(s, 2) + 1,
        layout::child(s, i) == page::le64(s, 32 + 8 * i),
        0 <= i <= page::le16(s, 2) ==> layout::children(s)[i] == page::le64(s, 32 + 8 * i),
{
}

/// Where the keys of an internal page lie. On a page with `n` keys the end of key `i` is the 32-bit
/// number at `40 + 8 * n + 4 * i`, counted from byte `40 + 12 * n`, and a key begins where the one
/// before it ends.
pub proof fn law_keys(s: Seq<u8>, i: int, k: int)
    requires
        layout::int_wf(s),
        0 <= i < page::le16(s, 2),
    ensures
        ({
            let n = page::le16(s, 2);
            let base = 40 + 12 * n;
            let from = if i == 0 {
                0
            } else {
                page::le32(s, 40 + 8 * n + 4 * (i - 1))
            };
            let to = page::le32(s, 40 + 8 * n + 4 * i);
            &&& layout::keys(s).len() == n
            &&& layout::keys(s)[i].len() == to - from
            &&& 0 <= from <= to
            &&& base + to <= 4096
            &&& 0 <= k < to - from ==> layout::keys(s)[i][k] == s[base + from + k]
        }),
{
    let n = layout::key_count(s);
    assert(layout::key_end(s, i - 1) <= layout::key_end(s, i));
    assert(layout::key_end(s, -1) <= layout::key_end(s, i - 1));
    assert(layout::key_end(s, i) <= layout::key_end(s, n - 1));
}

/// The bytes that a page uses: header, children and key ends take `40 + 12 * n`, and the keys the rest.
pub proof fn law_used(s: Seq<u8>)
    requires
        layout::int_wf(s),
    ensures
        ({
            let n = page::le16(s, 2);
            &&& n == 0 ==> layout::used(s) == 40
            &&& n > 0 ==> layout::used(s) == 40 + 12 * n + page::le32(s, 40 + 8 * n + 4 * (n - 1))
            &&& 40 + 12 * n <= layout::used(s) <= 4096
        }),
{
    let n = layout::key_count(s);
    assert(layout::key_end(s, -1) <= layout::key_end(s, n - 1));
}

/// Keys need 40 bytes, and 12 more than its own length for each key.
pub proof fn law_needed(keys: Seq<Seq<u8>>, more: Seq<u8>)
    ensures
        layout::needed(Seq::<Seq<u8>>::empty()) == 40,
        layout::needed(keys.push(more)) == layout::needed(keys) + 12 + more.len(),
{
    let n = keys.len() as int;
    lemma_same_key_bytes(keys, keys.push(more), n);
}

proof fn lemma_same_key_bytes(a: Seq<Seq<u8>>, b: Seq<Seq<u8>>, n: int)
    requires
        n <= a.len(),
        n <= b.len(),
        forall|i: int| 0 <= i < n ==> a[i] == b[i],
    ensures
        layout::key_bytes(a, n) == layout::key_bytes(b, n),
    decreases n,
{
    if n > 0 {
        lemma_same_key_bytes(a, b, n - 1);
    }
}

/// A page uses what its keys need.
pub proof fn law_used_is_needed(s: Seq<u8>)
    requires
        layout::int_wf(s),
    ensures
        layout::used(s) == layout::needed(layout::keys(s)),
{
    layout::lemma_used(s);
}

/// Every page of at least 4096 bytes that begins with the byte 2, whose key ends never step back, and
/// whose keys end within the first 4096 bytes, is an internal page, however many keys it has.
pub proof fn law_sound_page(s: Seq<u8>)
    requires
        s.len() >= 4096,
        s[0] == 2,
        forall|i: int, j: int|
            0 <= i <= j < page::le16(s, 2) ==> #[trigger] page::le32(
                s,
                40 + 8 * page::le16(s, 2) + 4 * i,
            ) <= #[trigger] page::le32(s, 40 + 8 * page::le16(s, 2) + 4 * j),
        40 + 12 * page::le16(s, 2) <= 4096,
        page::le16(s, 2) > 0 ==> 40 + 12 * page::le16(s, 2) + page::le32(
            s,
            40 + 8 * page::le16(s, 2) + 4 * (page::le16(s, 2) - 1),
        ) <= 4096,
    ensures
        layout::int_wf(s),
{
    let n = page::le16(s, 2);
    assert forall|i: int, j: int| -1 <= i <= j < layout::key_count(s) implies #[trigger] layout::key_end(
        s,
        i,
    ) <= #[trigger] layout::key_end(s, j) by {
        if i >= 0 {
            assert(page::le32(s, 40 + 8 * n + 4 * i) <= page::le32(s, 40 + 8 * n + 4 * j));
        }
    }
}

/// And what an internal page promises: its type byte, key ends that never step back, and keys that end
/// within the first 4096 bytes.
pub proof fn law_sound_page_means(s: Seq<u8>, i: int, j: int)
    requires
        layout::int_wf(s),
    ensures
        s.len() >= 4096,
        s[0] == 2,
        ({
            let n = page::le16(s, 2);
            &&& 40 + 12 * n <= 4096
            &&& n > 0 ==> 40 + 12 * n + page::le32(s, 40 + 8 * n + 4 * (n - 1)) <= 4096
            &&& 0 <= i <= j < n ==> page::le32(s, 40 + 8 * n + 4 * i) <= page::le32(
                s,
                40 + 8 * n + 4 * j,
            )
        }),
{
    law_used(s);
    if 0 <= i <= j < page::le16(s, 2) {
        assert(layout::key_end(s, i) <= layout::key_end(s, j));
    }
}

/// One more key fits exactly when its bytes, 8 for the child and 4 for the key's end are free.
pub proof fn law_fits(s: Seq<u8>, key_len: int)
    requires
        layout::int_wf(s),
    ensures
        layout::fits(s, key_len) <==> 4096 - layout::needed(layout::keys(s)) >= 12 + key_len,
{
    layout::lemma_used(s);
}

// ── Reading ──────────────────────────────────────────────────────────────────
/// The header is read from its bytes.
pub proof fn law_read_header(
    acc: &InternalPageAccessor<'_, ByteKey>,
    id: PageId,
    lsn: Lsn,
    n: u16,
    parent: Option<PageId>,
)
    requires
        call_ensures(InternalPageAccessor::page_id, (acc,), id),
        call_ensures(InternalPageAccessor::lsn, (acc,), lsn),
        call_ensures(InternalPageAccessor::num_keys, (acc,), n),
        call_ensures(InternalPageAccessor::parent_page_id, (acc,), parent),
    ensures
        id == page::le64(acc.data@, 8),
        lsn == page::le64(acc.data@, 16),
        n == page::le16(acc.data@, 2),
        parent is None <==> page::le64(acc.data@, 24) == 0,
        parent matches Some(p) ==> p == page::le64(acc.data@, 24),
{
}

/// A child is read from its 8 bytes, a key from the bytes between two key ends.
pub proof fn law_read_child_and_key(
    acc: &InternalPageAccessor<'static, ByteKey>,
    i: usize,
    id: PageId,
    key: &'static [u8],
    k: int,
)
    requires
        layout::int_wf(acc.data@),
        i < page::le16(acc.data@, 2),
        call_ensures(InternalPageAccessor::child_page_at, (acc, i), id),
        call_ensures(InternalPageAccessor::<'static, ByteKey>::key_at, (acc, i), key),
    ensures
        id == page::le64(acc.data@, 32 + 8 * i),
        ({
            let s = acc.data@;
            let n = page::le16(s, 2);
            let from = if i == 0 {
                0
            } else {
                page::le32(s, 40 + 8 * n + 4 * (i - 1))
            };
            let to = page::le32(s, 40 + 8 * n + 4 * i);
            &&& key@.len() == to - from
            &&& 0 <= k < key@.len() ==> key@[k] == s[40 + 12 * n + from + k]
        }),
{
    law_keys(acc.data@, i as int, k);
}

/// The child to follow: the separators before it are at most the key that is sought, those from it on
/// are greater. So a key below every separator goes to the first child, a key that is not below any
/// goes to the last, and a separator itself goes to its right.
pub proof fn law_find_child<K: Key>(
    acc: &InternalPageAccessor<'_, K>,
    query: &K::SelfType<'_>,
    r: (usize, PageId),
    i: int,
)
    requires
        call_ensures(InternalPageAccessor::<'_, K>::find_child, (acc, query), r),
        key::ascending::<K>(layout::keys(acc.data@)),
        0 <= i < layout::keys(acc.data@).len(),
    ensures
        r.0 <= layout::keys(acc.data@).len(),
        r.1 == layout::children(acc.data@)[r.0 + 0],
        i < r.0 ==> K::order(layout::keys(acc.data@)[i], K::encoding(*query)) != Ordering::Greater,
        r.0 <= i ==> K::order(layout::keys(acc.data@)[i], K::encoding(*query)) == Ordering::Greater,
        K::order(layout::keys(acc.data@)[i], K::encoding(*query)) != Ordering::Greater ==> i < r.0,
{
}

/// Also where equal separators follow each other, every separator before the child is at most the key that
/// is sought, and every one from it on is greater.
pub proof fn law_find_child_sorted<K: Key>(
    acc: &InternalPageAccessor<'_, K>,
    query: &K::SelfType<'_>,
    r: (usize, PageId),
    i: int,
)
    requires
        call_ensures(InternalPageAccessor::<'_, K>::find_child, (acc, query), r),
        key::sorted::<K>(layout::keys(acc.data@)),
        0 <= i < layout::keys(acc.data@).len(),
    ensures
        i < r.0 <==> K::order(layout::keys(acc.data@)[i], K::encoding(*query)) != Ordering::Greater,
{
}

/// On any page, in order or not: the separator before the child is at most the key that is sought, and the
/// separator behind it is greater.
pub proof fn law_find_child_anywhere<K: Key>(
    acc: &InternalPageAccessor<'_, K>,
    query: &K::SelfType<'_>,
    r: (usize, PageId),
)
    requires
        call_ensures(InternalPageAccessor::<'_, K>::find_child, (acc, query), r),
    ensures
        ({
            let keys = layout::keys(acc.data@);
            let q = K::encoding(*query);
            &&& r.0 > 0 ==> K::order(keys[r.0 - 1], q) != Ordering::Greater
            &&& r.0 < keys.len() ==> K::order(keys[r.0 + 0], q) == Ordering::Greater
        }),
{
}

/// A page is read, and written, where it lies.
pub proof fn law_wraps<K: Key>(
    data: &[u8],
    acc: InternalPageAccessor<'_, K>,
    out: &mut [u8],
    m: InternalPageMutator<'_, K>,
    n: &InternalPageMutator<'_, K>,
    of_n: InternalPageAccessor<'_, K>,
)
    requires
        call_ensures(InternalPageAccessor::<'_, K>::new, (data,), acc),
        call_ensures(InternalPageMutator::<'_, K>::new, (out,), m),
        call_ensures(InternalPageMutator::<'_, K>::as_accessor, (n,), of_n),
    ensures
        acc.data@ == data@,
        old(m.data)@ == old(out)@,
        final(m.data)@ == final(out)@,
        of_n.data@ == old(n.data)@,
{
}

/// A search gives a child that the page has; a page without keys has one.
pub proof fn law_find_child_bounds<K: Key>(
    acc: &InternalPageAccessor<'_, K>,
    query: &K::SelfType<'_>,
    r: (usize, PageId),
)
    requires
        call_ensures(InternalPageAccessor::<'_, K>::find_child, (acc, query), r),
    ensures
        r.0 <= page::le16(acc.data@, 2),
        r.1 == page::le64(acc.data@, 32 + 8 * r.0),
{
}

/// The free bytes of a page are those that its children and keys leave of 4096.
pub proof fn law_free_bytes(acc: &InternalPageAccessor<'_, ByteKey>, free: usize)
    requires
        layout::int_wf(acc.data@),
        call_ensures(InternalPageAccessor::free_bytes, (acc,), free),
    ensures
        free == 4096 - layout::needed(layout::keys(acc.data@)),
        page::le16(acc.data@, 2) == 0 ==> free == 4056,
        page::le16(acc.data@, 2) > 0 ==> free == 4056 - 12 * page::le16(acc.data@, 2) - page::le32(
            acc.data@,
            40 + 8 * page::le16(acc.data@, 2) + 4 * (page::le16(acc.data@, 2) - 1),
        ),
{
    law_used(acc.data@);
    layout::lemma_used(acc.data@);
}

/// A page says that a key fits exactly when there is room for its bytes and 12 more, whatever else the
/// page holds.
pub proof fn law_can_fit(
    acc: &InternalPageAccessor<'_, ByteKey>,
    key_len: usize,
    fits: bool,
    free: usize,
)
    requires
        layout::int_wf(acc.data@),
        call_ensures(InternalPageAccessor::can_fit, (acc, key_len), fits),
        call_ensures(InternalPageAccessor::free_bytes, (acc,), free),
    ensures
        fits <==> 4096 - layout::needed(layout::keys(acc.data@)) >= 12 + key_len,
        fits <==> free >= 12 + key_len,
{
    layout::lemma_used(acc.data@);
}

// ── Changing ─────────────────────────────────────────────────────────────────
/// A separator is refused only for want of room: it goes in exactly when the page has its bytes and 12
/// more to spare. What is refused leaves every byte, and is told what it needs and what there is.
pub proof fn law_insert_refused_for_room<K: Key>(
    m: &mut InternalPageMutator<'_, K>,
    index: usize,
    key: &K::SelfType<'_>,
    right_child: PageId,
    res: Result<(), PageError>,
)
    requires
        layout::int_wf(old(m).data@),
        K::encoding(*key).len() + 12 <= usize::MAX,
        call_ensures(
            InternalPageMutator::<'_, K>::insert_key_and_right_child,
            (m, index, key, right_child),
            res,
        ),
    ensures
        res is Ok <==> 4096 - layout::needed(layout::keys(old(m).data@)) >= 12 + K::encoding(
            *key,
        ).len(),
        res matches Err(PageError::InsufficientSpace { needed, available }) ==> {
            &&& needed == 12 + K::encoding(*key).len()
            &&& available == 4096 - layout::needed(layout::keys(old(m).data@))
            &&& needed > available
            &&& final(m).data@ == old(m).data@
        },
{
    layout::lemma_used(old(m).data@);
}

/// A separator that went in stands at its index with its child to the right of it; what stood from
/// there on moved up by one, and what stood before stayed.
pub proof fn law_insert_places<K: Key>(
    m: &mut InternalPageMutator<'_, K>,
    index: usize,
    key: &K::SelfType<'_>,
    right_child: PageId,
    i: int,
)
    requires
        layout::int_wf(old(m).data@),
        index <= layout::keys(old(m).data@).len(),
        call_ensures(
            InternalPageMutator::<'_, K>::insert_key_and_right_child,
            (m, index, key, right_child),
            Ok::<(), PageError>(()),
        ),
    ensures
        ({
            let (s, t) = (old(m).data@, final(m).data@);
            let (ks, kt) = (layout::keys(s), layout::keys(t));
            let (cs, ct) = (layout::children(s), layout::children(t));
            &&& layout::int_wf(t)
            &&& kt.len() == ks.len() + 1
            &&& ct.len() == cs.len() + 1
            &&& page::le16(t, 2) == page::le16(s, 2) + 1
            &&& kt[index as int] == K::encoding(*key)
            &&& ct[index + 1] == right_child
            &&& 0 <= i < index ==> kt[i] == ks[i]
            &&& index <= i < ks.len() ==> kt[i + 1] == ks[i]
            &&& 0 <= i <= index ==> ct[i] == cs[i]
            &&& index < i < cs.len() ==> ct[i + 1] == cs[i]
            &&& layout::needed(kt) == layout::needed(ks) + 12 + K::encoding(*key).len()
            &&& t.len() == s.len()
            &&& (0 <= i < 2 || 4 <= i < 32) ==> t[i] == s[i]
        }),
{
    let (s, t) = (old(m).data@, final(m).data@);
    layout::lemma_used(s);
    layout::lemma_used(t);
    assert(layout::keys(t).len() == layout::key_count(t));
    assert(layout::keys(s).len() == layout::key_count(s));
}

/// A separator that is removed takes one of its two children with it, the one that is not to be kept;
/// what stood behind moves down by one, and what stood before stays.
pub proof fn law_remove_places<K: Key>(
    m: &mut InternalPageMutator<'_, K>,
    index: usize,
    keep: ChildSide,
    i: int,
)
    requires
        layout::int_wf(old(m).data@),
        index < layout::keys(old(m).data@).len(),
        call_ensures(InternalPageMutator::<'_, K>::remove_key_at, (m, index, keep), ()),
    ensures
        ({
            let (s, t) = (old(m).data@, final(m).data@);
            let (ks, kt) = (layout::keys(s), layout::keys(t));
            let (cs, ct) = (layout::children(s), layout::children(t));
            &&& layout::int_wf(t)
            &&& kt.len() == ks.len() - 1
            &&& ct.len() == cs.len() - 1
            &&& 0 <= i < index ==> kt[i] == ks[i]
            &&& index < i < ks.len() ==> kt[i - 1] == ks[i]
            &&& 0 <= i < index ==> ct[i] == cs[i]
            &&& index + 1 < i < cs.len() ==> ct[i - 1] == cs[i]
            &&& keep == ChildSide::Left ==> ct[index as int] == cs[index as int]
            &&& keep == ChildSide::Right ==> ct[index as int] == cs[index + 1]
            &&& layout::needed(kt) == layout::needed(ks) - 12 - ks[index as int].len()
            &&& t.len() == s.len()
            &&& (0 <= i < 2 || 4 <= i < 32) ==> t[i] == s[i]
        }),
{
    let (s, t) = (old(m).data@, final(m).data@);
    layout::lemma_used(s);
    layout::lemma_used(t);
    assert(layout::keys(t).len() == layout::key_count(t));
    assert(layout::keys(s).len() == layout::key_count(s));
    assert(layout::children(s).len() == layout::key_count(s) + 1);
}

/// Removing a separator that was just inserted, and keeping its left child, brings back the children and
/// the keys that there were.
pub proof fn law_insert_then_remove<K: Key>(
    first: &mut InternalPageMutator<'_, K>,
    second: &mut InternalPageMutator<'_, K>,
    index: usize,
    key: &K::SelfType<'_>,
    right_child: PageId,
)
    requires
        layout::int_wf(old(first).data@),
        index <= layout::keys(old(first).data@).len(),
        call_ensures(
            InternalPageMutator::<'_, K>::insert_key_and_right_child,
            (first, index, key, right_child),
            Ok::<(), PageError>(()),
        ),
        old(second).data@ == final(first).data@,
        call_ensures(
            InternalPageMutator::<'_, K>::remove_key_at,
            (second, index, ChildSide::Left),
            (),
        ),
    ensures
        layout::keys(final(second).data@) == layout::keys(old(first).data@),
        layout::children(final(second).data@) == layout::children(old(first).data@),
{
    let s = old(first).data@;
    assert(layout::keys(final(second).data@) =~= layout::keys(s));
    assert(layout::children(final(second).data@) =~= layout::children(s));
}

/// Setting a header field or a child writes its 8 bytes and no other byte.
pub proof fn law_set_fields<K: Key>(
    a: &mut InternalPageMutator<'_, K>,
    b: &mut InternalPageMutator<'_, K>,
    c: &mut InternalPageMutator<'_, K>,
    lsn: Lsn,
    parent: Option<PageId>,
    at: usize,
    child: PageId,
    i: int,
)
    requires
        call_ensures(InternalPageMutator::<'_, K>::set_lsn, (a, lsn), ()),
        call_ensures(InternalPageMutator::<'_, K>::set_parent_page_id, (b, parent), ()),
        call_ensures(InternalPageMutator::<'_, K>::set_child_at, (c, at, child), ()),
        0 <= i,
    ensures
        page::le64(final(a).data@, 16) == lsn,
        i < old(a).data@.len() && (i < 16 || 24 <= i) ==> final(a).data@[i] == old(a).data@[i],
        parent matches Some(p) ==> page::le64(final(b).data@, 24) == p,
        parent is None ==> page::le64(final(b).data@, 24) == 0,
        i < old(b).data@.len() && (i < 24 || 32 <= i) ==> final(b).data@[i] == old(b).data@[i],
        page::le64(final(c).data@, 32 + 8 * at) == child,
        i < old(c).data@.len() && (i < 32 + 8 * at || 40 + 8 * at <= i) ==> final(c).data@[i] == old(
            c,
        ).data@[i],
{
}

/// A built page holds the pushed children and keys in the order in which they were pushed.
pub proof fn law_build<K: Key>(
    fresh: InternalPageBuilder<'_, K>,
    page_id: PageId,
    data: &mut [u8],
    i: int,
)
    requires
        old(data)@.len() >= 4096,
        call_ensures(InternalPageBuilder::<'_, K>::new, (page_id, data), fresh),
    ensures
        fresh.wf(),
        fresh.keys@.len() == 0,
        fresh.children@.len() == 0,
        old(fresh.data)@.len() == old(data)@.len(),
        old(fresh.data)@[0] == 2,
        page::le64(old(fresh.data)@, 8) == page_id,
        (0 < i < 8 || 16 <= i < old(fresh.data)@.len()) ==> old(fresh.data)@[i] == 0,
{
}

/// A page is under way while its buffer is large enough and carries the type byte and a zero first child,
/// and it has one child more than keys, or neither.
pub proof fn law_build_under_way<K: Key>(b: InternalPageBuilder<'_, K>)
    ensures
        b.wf() <==> {
            &&& old(b.data)@.len() >= 4096
            &&& old(b.data)@[0] == 2
            &&& b.children@.len() == b.keys@.len() + 1 || (b.children@.len() == 0 && b.keys@.len()
                == 0)
            &&& page::le64(old(b.data)@, 32) == 0
        },
{
}

/// Each push adds one child behind the others, and all but the first a key behind the others.
pub proof fn law_build_pushes<K: Key>(
    a: &mut InternalPageBuilder<'_, K>,
    b: &mut InternalPageBuilder<'_, K>,
    child: PageId,
    key: &K::SelfType<'_>,
)
    requires
        call_ensures(InternalPageBuilder::<'_, K>::push_first_child, (a, child), ()),
        call_ensures(InternalPageBuilder::<'_, K>::push_key_and_right_child, (b, key, child), ()),
    ensures
        final(a).children@ == seq![child],
        final(a).keys@ == old(a).keys@,
        final(a).data@ == old(a).data@,
        final(b).children@ == old(b).children@.push(child),
        final(b).keys@.len() == old(b).keys@.len() + 1,
        final(b).keys@.last()@ == K::encoding(*key),
        forall|i: int|
            0 <= i < old(b).keys@.len() ==> (#[trigger] final(b).keys@[i])@ == old(b).keys@[i]@,
        final(b).data@ == old(b).data@,
{
    let n = old(b).keys@.len() as int;
    assert(final(b).key_strings()[n] == K::encoding(*key));
    assert forall|i: int| 0 <= i < n implies (#[trigger] final(b).keys@[i])@ == old(b).keys@[i]@ by {
        assert(final(b).key_strings()[i] == old(b).key_strings()[i]);
    }
}

/// A finished page holds what was pushed, and keeps every header byte but the key count.
pub proof fn law_build_finish<K: Key>(
    b: InternalPageBuilder<'_, K>,
    m: InternalPageMutator<'_, K>,
    i: int,
)
    requires
        call_ensures(InternalPageBuilder::<'_, K>::finish, (b,), m),
    ensures
        layout::int_wf(old(m.data)@),
        b.children@.len() > 0 ==> layout::children(old(m.data)@) == b.children@,
        b.children@.len() == 0 ==> layout::children(old(m.data)@) == seq![0u64],
        layout::keys(old(m.data)@).len() == b.keys@.len(),
        0 <= i < b.keys@.len() ==> layout::keys(old(m.data)@)[i] == b.keys@[i]@,
        (0 <= i < 2 || 4 <= i < 32) ==> old(m.data)@[i] == old(b.data)@[i],
{
}

/// Where the sections of a page with `n` keys begin.
pub proof fn law_offsets(n: usize, i: usize, a: usize, b: usize, c: usize, d: usize)
    requires
        call_ensures(int_child_offset, (i,), a),
        call_ensures(int_key_end_section, (n,), b),
        call_ensures(int_key_end_offset, (n, i), c),
        call_ensures(int_key_data_base, (n,), d),
    ensures
        a == 32 + 8 * i,
        b == 40 + 8 * n,
        c == 40 + 8 * n + 4 * i,
        d == 40 + 12 * n,
{
}

/// Any sound page can be searched, changed at any index that it has, and asked whether any key fits.
pub proof fn law_calls_accepted<K: Key>(
    m: &mut InternalPageMutator<'_, K>,
    acc: &InternalPageAccessor<'_, K>,
    index: usize,
    key: &K::SelfType<'_>,
    child: PageId,
    keep: ChildSide,
)
    requires
        layout::int_wf(old(m).data@),
        layout::int_wf(acc.data@),
        K::encoding(*key).len() + 12 <= usize::MAX,
    ensures
        index <= layout::keys(old(m).data@).len() ==> call_requires(
            InternalPageMutator::<'_, K>::insert_key_and_right_child,
            (m, index, key, child),
        ),
        index < layout::keys(old(m).data@).len() ==> call_requires(
            InternalPageMutator::<'_, K>::remove_key_at,
            (m, index, keep),
        ),
        call_requires(InternalPageAccessor::<'_, K>::find_child, (acc, key)),
        index + 12 <= usize::MAX ==> call_requires(
            InternalPageAccessor::<'_, K>::can_fit,
            (acc, index),
        ),
        call_requires(InternalPageAccessor::<'_, K>::free_bytes, (acc,)),
{
}

/// A header field or a child can be read and set wherever its bytes are there; a page can be built in any
/// buffer that has room for its id, and finished while its keys fit.
pub proof fn law_header_calls_accepted<K: Key>(
    acc: &InternalPageAccessor<'_, K>,
    m: &mut InternalPageMutator<'_, K>,
    b: InternalPageBuilder<'_, K>,
    data: &mut [u8],
    i: usize,
    id: PageId,
    link: Option<PageId>,
)
    ensures
        acc.data@.len() >= 16 ==> call_requires(InternalPageAccessor::<'_, K>::page_id, (acc,)),
        acc.data@.len() >= 24 ==> call_requires(InternalPageAccessor::<'_, K>::lsn, (acc,)),
        acc.data@.len() >= 4 ==> call_requires(InternalPageAccessor::<'_, K>::num_keys, (acc,)),
        acc.data@.len() >= 32 ==> call_requires(
            InternalPageAccessor::<'_, K>::parent_page_id,
            (acc,),
        ),
        acc.data@.len() >= 40 + 8 * i ==> call_requires(
            InternalPageAccessor::<'_, K>::child_page_at,
            (acc, i),
        ),
        old(m).data@.len() >= 24 ==> call_requires(InternalPageMutator::<'_, K>::set_lsn, (m, id)),
        old(m).data@.len() >= 32 ==> call_requires(
            InternalPageMutator::<'_, K>::set_parent_page_id,
            (m, link),
        ),
        old(m).data@.len() >= 40 + 8 * i ==> call_requires(
            InternalPageMutator::<'_, K>::set_child_at,
            (m, i, id),
        ),
        old(data)@.len() >= 16 ==> call_requires(InternalPageBuilder::<'_, K>::new, (id, data)),
        b.wf() && layout::needed(b.key_strings()) <= 4096 ==> call_requires(
            InternalPageBuilder::<'_, K>::finish,
            (b,),
        ),
{
}

/// A descent is told by the separators on either side of it.
pub proof fn law_descent<K: Key>(keys: Seq<Seq<u8>>, query: Seq<u8>, index: int, i: int)
    requires
        internal::is_descent::<K>(keys, query, index),
        0 <= i < keys.len(),
    ensures
        0 <= index <= keys.len(),
        i < index <==> K::order(keys[i], query) != Ordering::Greater,
{
}

} // verus!
