//! Internal (branch) pages: a read-only accessor, a mutator, and a builder for fresh pages. The
//! byte layout is in `internal_layout`.

use crate::key;
use crate::key::Key;
use crate::page;
use crate::page::internal_edit;
use crate::page::internal_edit::{int_child_offset, int_key_end_offset, key_range, rewrite, snapshot};
use crate::page::internal_layout as layout;
use crate::page::internal_layout::{INT_HEADER_SIZE, OFF_INT_NUM_KEYS, OFF_INT_PARENT};
use crate::page::{
    read_u16, read_u32, read_u64, write_u64, write_u8, zero_fill, ChildSide, Lsn, PageError,
    PageId, INTERNAL, OFF_LSN, OFF_PAGE_ID, OFF_PAGE_TYPE, PAGE_SIZE,
};
use std::cmp::Ordering;
use std::marker::PhantomData;
use vstd::prelude::*;

verus! {

// ── InternalPageAccessor ─────────────────────────────────────────────────────
/// Read-only typed view over a raw internal page buffer.
///
/// The lifetime `'a` is tied to the underlying page data, not to `&self`, so `key_at` can return
/// zero-copy values that outlive the accessor itself.
pub struct InternalPageAccessor<'a, K: Key> {
    pub data: &'a [u8],
    pub _key: PhantomData<K>,
}

/// `index` is the child to descend into for the key encoded as `query`: every separator before it
/// is at most the query, every separator from it on is greater.
pub open spec fn is_descent<K: Key>(keys: Seq<Seq<u8>>, query: Seq<u8>, index: int) -> bool {
    &&& 0 <= index <= keys.len()
    &&& forall|i: int| 0 <= i < index ==> #[trigger] K::order(keys[i], query) != Ordering::Greater
    &&& forall|i: int|
        index <= i < keys.len() ==> #[trigger] K::order(keys[i], query) == Ordering::Greater
}

/// A descent for the key encoded as `query` could go to `index`: the separator before it is at most the
/// query, the separator there is greater.
pub open spec fn is_gap<K: Key>(keys: Seq<Seq<u8>>, query: Seq<u8>, index: int) -> bool {
    &&& 0 <= index <= keys.len()
    &&& index > 0 ==> K::order(keys[index - 1], query) != Ordering::Greater
    &&& index < keys.len() ==> K::order(keys[index], query) == Ordering::Greater
}

impl<'a, K: Key> InternalPageAccessor<'a, K> {
    /// Wraps a raw page buffer, which must carry the internal page-type byte.
    pub fn new(data: &'a [u8]) -> (acc: Self)
        requires
            data@.len() > 0,
            data@[0] == INTERNAL,
        ensures
            acc.data@ == data@,
    {
        Self { data, _key: PhantomData }
    }

    pub fn lsn(&self) -> (lsn: Lsn)
        requires
            self.data@.len() >= OFF_LSN + 8,
        ensures
            lsn == layout::int_lsn(self.data@),
    {
        read_u64(self.data, OFF_LSN)
    }

    pub fn page_id(&self) -> (id: PageId)
        requires
            self.data@.len() >= OFF_PAGE_ID + 8,
        ensures
            id == layout::int_page_id(self.data@),
    {
        read_u64(self.data, OFF_PAGE_ID)
    }

    pub fn num_keys(&self) -> (n: u16)
        requires
            self.data@.len() >= OFF_INT_NUM_KEYS + 2,
        ensures
            n == layout::key_count(self.data@),
    {
        read_u16(self.data, OFF_INT_NUM_KEYS)
    }

    /// Returns the parent page id, or `None` if this is the root.
    pub fn parent_page_id(&self) -> (parent: Option<PageId>)
        requires
            self.data@.len() >= OFF_INT_PARENT + 8,
        ensures
            parent == layout::int_parent(self.data@),
    {
        let v: u64 = read_u64(self.data, OFF_INT_PARENT);
        if v == 0 {
            None
        } else {
            Some(v)
        }
    }

    pub fn child_page_at(&self, i: usize) -> (id: PageId)
        requires
            layout::child_at(i as int) + 8 <= self.data@.len(),
        ensures
            id == layout::child(self.data@, i as int),
            i < layout::children(self.data@).len() ==> id == layout::children(self.data@)[i as int],
    {
        assert(self.data@.len() == self.data.len());
        read_u64(self.data, int_child_offset(i))
    }

    /// Deserialised key at position `i`. Lifetime is `'a` (tied to page data).
    pub fn key_at(&self, i: usize) -> (key: K::SelfType<'a>)
        requires
            layout::int_wf(self.data@),
            i < layout::keys(self.data@).len(),
            K::decodable(layout::keys(self.data@)[i as int]),
        ensures
            K::encoding(key) == layout::keys(self.data@)[i as int],
    {
        K::from_bytes(self.key_bytes_at(i))
    }

    /// Binary-search for the child to descend into for `search_key`.
    ///
    /// Returns `(child_index, child_page_id)` where `child_index` is the index of the first
    /// separator key that is strictly greater than `search_key`, which is the correct subtree to
    /// follow.
    pub fn find_child<'q>(&self, search_key: &K::SelfType<'q>) -> (r: (usize, PageId))
        requires
            layout::int_wf(self.data@),
        ensures
            r.0 < layout::children(self.data@).len(),
            r.1 == layout::children(self.data@)[r.0 + 0],
            key::ascending::<K>(layout::keys(self.data@)) ==> is_descent::<K>(
                layout::keys(self.data@),
                K::encoding(*search_key),
                r.0 + 0,
            ),
            key::sorted::<K>(layout::keys(self.data@)) ==> is_descent::<K>(
                layout::keys(self.data@),
                K::encoding(*search_key),
                r.0 + 0,
            ),
            is_gap::<K>(layout::keys(self.data@), K::encoding(*search_key), r.0 + 0),
    {
        let ghost keys = layout::keys(self.data@);
        let ghost q = K::encoding(*search_key);
        let n: usize = self.key_count();
        let mut low: usize = 0;
        let mut high: usize = n;
        let search_bytes: Vec<u8> = K::as_bytes(search_key);
        while low < high
            invariant
                layout::int_wf(self.data@),
                keys == layout::keys(self.data@),
                q == search_bytes@,
                q == K::encoding(*search_key),
                low <= high <= keys.len(),
                low > 0 ==> K::order(keys[low - 1], q) != Ordering::Greater,
                high < keys.len() ==> K::order(keys[high + 0], q) == Ordering::Greater,
                key::sorted::<K>(keys) ==> (forall|i: int|
                    0 <= i < low ==> #[trigger] K::order(keys[i], q) != Ordering::Greater),
                key::sorted::<K>(keys) ==> (forall|i: int|
                    high <= i < keys.len() ==> #[trigger] K::order(keys[i], q)
                        == Ordering::Greater),
            decreases high - low,
        {
            let mid: usize = low + (high - low) / 2;
            match K::compare(self.key_bytes_at(mid), search_bytes.as_slice()) {
                Ordering::Greater => {
                    proof {
                        if key::sorted::<K>(keys) {
                            assert forall|i: int| mid <= i < keys.len() implies #[trigger] K::order(
                                keys[i],
                                q,
                            ) == Ordering::Greater by {
                                lemma_separators_above::<K>(keys, q, i, mid + 0);
                            }
                        }
                    }
                    high = mid;
                },
                Ordering::Less | Ordering::Equal => {
                    proof {
                        if key::sorted::<K>(keys) {
                            assert forall|i: int| 0 <= i < mid + 1 implies #[trigger] K::order(
                                keys[i],
                                q,
                            ) != Ordering::Greater by {
                                lemma_separators_below::<K>(keys, q, i, mid + 0);
                            }
                        }
                    }
                    low = mid + 1;
                },
            }
        }
        proof {
            self.lemma_children_in_page();
            assert(key::ascending::<K>(keys) ==> key::sorted::<K>(keys));
        }
        (low, self.child_page_at(low))
    }

    /// Contiguous free bytes remaining in this page.
    pub fn free_bytes(&self) -> (free: usize)
        requires
            layout::int_wf(self.data@),
        ensures
            free == PAGE_SIZE - layout::used(self.data@),
            free == PAGE_SIZE - layout::needed(layout::keys(self.data@)),
    {
        proof {
            layout::lemma_used(self.data@);
        }
        PAGE_SIZE - self.used_bytes()
    }

    /// Returns `true` if a new key of `key_len` bytes would fit on this page.
    pub fn can_fit(&self, key_len: usize) -> (fits: bool)
        requires
            layout::int_wf(self.data@),
            key_len + 12 <= usize::MAX,
        ensures
            fits == layout::fits(self.data@, key_len as int),
    {
        // One more key and child need 8 bytes for the child page id (section A), 4 bytes for the
        // key_end entry (section B) and key_len raw key bytes (section C).
        self.free_bytes() >= 8 + 4 + key_len
    }

    // ── Private helpers ──────────────────────────────────────────────────────
    proof fn lemma_children_in_page(&self)
        requires
            layout::int_wf(self.data@),
        ensures
            layout::child_at(layout::key_count(self.data@) + 1) <= self.data@.len(),
    {
        assert(layout::key_end(self.data@, -1) <= layout::key_end(
            self.data@,
            layout::key_count(self.data@) - 1,
        ));
    }

    fn key_count(&self) -> (n: usize)
        requires
            self.data@.len() >= OFF_INT_NUM_KEYS + 2,
        ensures
            n == layout::key_count(self.data@),
            n == layout::keys(self.data@).len(),
            n + 1 == layout::children(self.data@).len(),
    {
        self.num_keys() as usize
    }

    /// Raw bytes for `key[i]`.
    fn key_bytes_at(&self, i: usize) -> (bytes: &'a [u8])
        requires
            layout::int_wf(self.data@),
            i < layout::keys(self.data@).len(),
        ensures
            bytes@ == layout::keys(self.data@)[i as int],
    {
        let data: &'a [u8] = self.data;
        let (from, to) = key_range(data, i);
        &data[from..to]
    }

    fn used_bytes(&self) -> (n: usize)
        requires
            layout::int_wf(self.data@),
        ensures
            n == layout::used(self.data@),
    {
        proof {
            self.lemma_children_in_page();
        }
        let n: usize = self.num_keys() as usize;
        assert(layout::key_end(self.data@, -1) <= layout::key_end(self.data@, n - 1));
        let key_data_size: usize = if n == 0 {
            0
        } else {
            read_u32(self.data, int_key_end_offset(n, n - 1)) as usize
        };
        INT_HEADER_SIZE + (n + 1) * 8 + n * 4 + key_data_size
    }
}

/// Where separators are sorted and separator `mid` is at most the query, so is every one up to it.
proof fn lemma_separators_below<K: Key>(keys: Seq<Seq<u8>>, q: Seq<u8>, i: int, mid: int)
    requires
        key::sorted::<K>(keys),
        0 <= i <= mid < keys.len(),
        K::order(keys[mid], q) != Ordering::Greater,
    ensures
        K::order(keys[i], q) != Ordering::Greater,
{
    if i < mid {
        assert(K::order(keys[i], keys[mid]) != Ordering::Greater);
        K::order_transitive(keys[i], keys[mid], q);
    }
}

/// Where separators are sorted and separator `mid` is greater than the query, so is every one from it
/// on.
proof fn lemma_separators_above<K: Key>(keys: Seq<Seq<u8>>, q: Seq<u8>, i: int, mid: int)
    requires
        key::sorted::<K>(keys),
        0 <= mid <= i < keys.len(),
        K::order(keys[mid], q) == Ordering::Greater,
    ensures
        K::order(keys[i], q) == Ordering::Greater,
{
    if mid < i {
        assert(K::order(keys[mid], keys[i]) != Ordering::Greater);
        K::order_reverses(keys[mid], q);
        K::order_transitive(q, keys[mid], keys[i]);
        K::order_reverses(q, keys[i]);
    }
}

// ── InternalPageMutator ──────────────────────────────────────────────────────
/// Mutable typed view over a raw internal page buffer.
///
/// What `data` holds when the mutator is gone is what the page then holds; each method keeps
/// that bond and says how `data` changes.
pub struct InternalPageMutator<'a, K: Key> {
    pub data: &'a mut [u8],
    pub _key: PhantomData<K>,
}

impl<'a, K: Key> InternalPageMutator<'a, K> {
    /// Wraps a raw page buffer, which must carry the internal page-type byte.
    pub fn new(data: &'a mut [u8]) -> (m: Self)
        requires
            old(data)@.len() > 0,
            old(data)@[0] == INTERNAL,
        ensures
            m.data@ == old(data)@,
            final(m.data)@ == final(data)@,
    {
        Self { data, _key: PhantomData }
    }

    pub fn set_lsn(&mut self, lsn: Lsn)
        requires
            old(self).data@.len() >= OFF_LSN + 8,
        ensures
            final(final(self).data)@ == final(old(self).data)@,
            page::same_except(old(self).data@, final(self).data@, OFF_LSN as int, OFF_LSN + 8),
            layout::int_lsn(final(self).data@) == lsn,
            layout::int_wf(old(self).data@) ==> {
                &&& layout::int_wf(final(self).data@)
                &&& layout::children(final(self).data@) == layout::children(old(self).data@)
                &&& layout::keys(final(self).data@) == layout::keys(old(self).data@)
            },
    {
        let ghost s = self.data@;
        write_u64(self.data, OFF_LSN, lsn);
        proof {
            if layout::int_wf(s) {
                layout::lemma_same_sections(s, self.data@);
            }
        }
    }

    pub fn set_parent_page_id(&mut self, parent: Option<PageId>)
        requires
            old(self).data@.len() >= OFF_INT_PARENT + 8,
        ensures
            final(final(self).data)@ == final(old(self).data)@,
            page::same_except(
                old(self).data@,
                final(self).data@,
                OFF_INT_PARENT as int,
                OFF_INT_PARENT + 8,
            ),
            page::le64(final(self).data@, OFF_INT_PARENT as int) == page::link_value(parent),
            layout::int_wf(old(self).data@) ==> {
                &&& layout::int_wf(final(self).data@)
                &&& layout::children(final(self).data@) == layout::children(old(self).data@)
                &&& layout::keys(final(self).data@) == layout::keys(old(self).data@)
            },
    {
        let ghost s = self.data@;
        write_u64(self.data, OFF_INT_PARENT, parent.unwrap_or(0));
        proof {
            if layout::int_wf(s) {
                layout::lemma_same_sections(s, self.data@);
            }
        }
    }

    /// Update a child pointer in place (e.g. after a split assigns a new id).
    pub fn set_child_at(&mut self, i: usize, page_id: PageId)
        requires
            layout::child_at(i as int) + 8 <= old(self).data@.len(),
        ensures
            final(final(self).data)@ == final(old(self).data)@,
            page::same_except(
                old(self).data@,
                final(self).data@,
                layout::child_at(i as int),
                layout::child_at(i as int) + 8,
            ),
            layout::child(final(self).data@, i as int) == page_id,
            layout::int_wf(old(self).data@) && i < layout::children(old(self).data@).len() ==> {
                &&& layout::int_wf(final(self).data@)
                &&& layout::children(final(self).data@) == layout::children(
                    old(self).data@,
                ).update(i as int, page_id)
                &&& layout::keys(final(self).data@) == layout::keys(old(self).data@)
            },
    {
        let ghost s = self.data@;
        assert(self.data@.len() == self.data.len());
        write_u64(self.data, int_child_offset(i), page_id);
        proof {
            if layout::int_wf(s) && i < layout::children(s).len() {
                layout::lemma_child_written(s, self.data@, i as int, page_id);
            }
        }
    }

    /// Borrow as a read-only accessor without releasing the mutable borrow.
    pub fn as_accessor(&self) -> (acc: InternalPageAccessor<'_, K>)
        requires
            self.data@.len() > 0,
            self.data@[0] == INTERNAL,
        ensures
            acc.data@ == old(self.data)@,
    {
        InternalPageAccessor::new(self.data)
    }

    // ── Insert ───────────────────────────────────────────────────────────────
    /// Insert a promoted separator key at `index` after a child split.
    ///
    /// Before: `... | child[index] | key[index] | child[index+1] | ...`
    /// After:  `... | child[index] | key(new) | right_child | key[index] | ...`
    ///
    /// Returns `Err(InsufficientSpace)` when the page is too full.
    pub fn insert_key_and_right_child<'k>(
        &mut self,
        index: usize,
        key: &K::SelfType<'k>,
        right_child: PageId,
    ) -> (res: Result<(), PageError>)
        requires
            layout::int_wf(old(self).data@),
            index <= layout::keys(old(self).data@).len(),
            K::encoding(*key).len() + 12 <= usize::MAX,
        ensures
            final(final(self).data)@ == final(old(self).data)@,
            ({
                let s = old(self).data@;
                let t = final(self).data@;
                let wanted = 8 + 4 + K::encoding(*key).len();
                match res {
                    Ok(_) => {
                        &&& layout::fits(s, K::encoding(*key).len() as int)
                        &&& layout::int_wf(t)
                        &&& layout::keys(t) == layout::keys(s).insert(
                            index as int,
                            K::encoding(*key),
                        )
                        &&& layout::children(t) == layout::children(s).insert(
                            index + 1,
                            right_child,
                        )
                        &&& layout::used(t) == layout::used(s) + wanted
                        &&& layout::same_identity(s, t)
                    },
                    Err(e) => {
                        &&& !layout::fits(s, K::encoding(*key).len() as int)
                        &&& t == s
                        &&& e == (PageError::InsufficientSpace {
                            needed: wanted as usize,
                            available: (PAGE_SIZE - layout::used(s)) as usize,
                        })
                    },
                }
            }),
    {
        let ghost s = self.data@;
        let key_bytes: Vec<u8> = K::as_bytes(key);
        let ghost key_view = key_bytes@;
        let key_len: usize = key_bytes.len();
        if !self.as_accessor().can_fit(key_len) {
            return Err(
                PageError::InsufficientSpace {
                    needed: 8 + 4 + key_len,
                    available: self.as_accessor().free_bytes(),
                },
            );
        }
        let (mut children, mut keys) = snapshot(self.data);
        let ghost ks = internal_edit::strings(keys@);
        children.insert(index + 1, right_child);
        keys.insert(index, key_bytes);
        proof {
            assert(internal_edit::strings(keys@) =~= ks.insert(index as int, key_view));
            layout::lemma_used(s);
            layout::lemma_key_bytes_insert(ks, index as int, key_view, ks.len() as int);
        }
        rewrite(self.data, &children, &keys);
        proof {
            layout::lemma_used(self.data@);
        }
        Ok(())
    }

    // ── Remove ───────────────────────────────────────────────────────────────
    /// Remove `key[index]` and one adjacent child during a merge.
    ///
    /// `keep` controls which of the two children flanking the key is retained.
    pub fn remove_key_at(&mut self, index: usize, keep: ChildSide)
        requires
            layout::int_wf(old(self).data@),
            index < layout::keys(old(self).data@).len(),
        ensures
            final(final(self).data)@ == final(old(self).data)@,
            layout::int_wf(final(self).data@),
            layout::keys(final(self).data@) == layout::keys(old(self).data@).remove(index as int),
            layout::children(final(self).data@) == match keep {
                ChildSide::Left => layout::children(old(self).data@).remove(index + 1),
                ChildSide::Right => layout::children(old(self).data@).remove(index as int),
            },
            layout::used(final(self).data@) == layout::used(old(self).data@) - (8 + 4
                + layout::keys(old(self).data@)[index as int].len()),
            layout::same_identity(old(self).data@, final(self).data@),
    {
        let ghost s = self.data@;
        let (mut children, mut keys) = snapshot(self.data);
        let ghost ks = internal_edit::strings(keys@);
        keys.remove(index);
        match keep {
            ChildSide::Left => {
                children.remove(index + 1);
            },
            ChildSide::Right => {
                children.remove(index);
            },
        }
        proof {
            assert(internal_edit::strings(keys@) =~= ks.remove(index as int));
            layout::lemma_used(s);
            layout::lemma_key_bytes_remove(ks, index as int, ks.len() as int);
        }
        rewrite(self.data, &children, &keys);
        proof {
            layout::lemma_used(self.data@);
        }
    }
}

// ── InternalPageBuilder ──────────────────────────────────────────────────────
/// Write-once constructor for a fresh internal page. Keys and children are buffered and written
/// all at once in `finish`, because every section offset depends on the final key count.
pub struct InternalPageBuilder<'a, K: Key> {
    pub data: &'a mut [u8],
    pub keys: Vec<Vec<u8>>,
    pub children: Vec<PageId>,
    pub _key: PhantomData<K>,
}

impl<'a, K: Key> InternalPageBuilder<'a, K> {
    /// The keys pushed so far, in bytes.
    pub open spec fn key_strings(&self) -> Seq<Seq<u8>> {
        Seq::new(self.keys@.len(), |i: int| self.keys@[i]@)
    }

    /// A page is under way, with one child more than it has keys, or neither.
    pub open spec fn wf(&self) -> bool {
        &&& self.data@.len() >= PAGE_SIZE
        &&& self.data@[0] == INTERNAL
        &&& self.children@.len() == self.keys@.len() + 1 || (self.children@.len() == 0
            && self.keys@.len() == 0)
        &&& layout::child(self.data@, 0) == 0
    }

    /// Zero the buffer, stamp the page type and page id.
    pub fn new(page_id: PageId, data: &'a mut [u8]) -> (b: Self)
        requires
            old(data)@.len() >= OFF_PAGE_ID + 8,
        ensures
            final(b.data)@ == final(data)@,
            b.data@.len() == old(data)@.len(),
            b.data@.len() >= PAGE_SIZE ==> b.wf(),
            b.keys@.len() == 0,
            b.children@.len() == 0,
            b.data@[0] == INTERNAL,
            layout::int_page_id(b.data@) == page_id,
            forall|i: int|
                0 < i < b.data@.len() && !(OFF_PAGE_ID <= i < OFF_PAGE_ID + 8)
                    ==> #[trigger] b.data@[i] == 0,
    {
        let len: usize = data.len();
        zero_fill(data, 0, len);
        write_u8(data, OFF_PAGE_TYPE, INTERNAL);
        write_u64(data, OFF_PAGE_ID, page_id);
        Self { data, keys: Vec::new(), children: Vec::new(), _key: PhantomData }
    }

    /// Register the leftmost child. Must be called exactly once, before any
    /// `push_key_and_right_child` calls.
    pub fn push_first_child(&mut self, child: PageId)
        requires
            old(self).children@.len() == 0,
        ensures
            final(final(self).data)@ == final(old(self).data)@,
            final(self).data@ == old(self).data@,
            final(self).children@ == seq![child],
            final(self).keys@ == old(self).keys@,
            old(self).wf() ==> final(self).wf(),
    {
        self.children.push(child);
        assert(self.children@ =~= seq![child]);
    }

    /// Append a separator key and the right child that follows it. Keys must be pushed in
    /// strictly ascending order for the page to be searchable, after `push_first_child`.
    pub fn push_key_and_right_child<'k>(&mut self, key: &K::SelfType<'k>, right_child: PageId)
        requires
            old(self).children@.len() > 0,
        ensures
            final(final(self).data)@ == final(old(self).data)@,
            final(self).data@ == old(self).data@,
            final(self).children@ == old(self).children@.push(right_child),
            final(self).key_strings() == old(self).key_strings().push(K::encoding(*key)),
            final(self).keys@.len() == old(self).keys@.len() + 1,
            old(self).wf() ==> final(self).wf(),
    {
        let key_bytes: Vec<u8> = K::as_bytes(key);
        self.keys.push(key_bytes);
        self.children.push(right_child);
        assert(self.key_strings() =~= old(self).key_strings().push(K::encoding(*key)));
    }

    /// Seal the page: flush all buffered data with the correct layout, then return a mutator for
    /// remaining header writes (lsn, parent). A page that was given no child at all keeps a zero
    /// child slot.
    pub fn finish(self) -> (m: InternalPageMutator<'a, K>)
        requires
            self.wf(),
            layout::needed(self.key_strings()) <= PAGE_SIZE,
        ensures
            final(m.data)@ == final(self.data)@,
            layout::int_wf(m.data@),
            layout::children(m.data@) == if self.children@.len() == 0 {
                seq![0u64]
            } else {
                self.children@
            },
            layout::keys(m.data@) == self.key_strings(),
            layout::same_identity(old(self.data)@, m.data@),
    {
        let ghost pushed = self.key_strings();
        let data: &'a mut [u8] = self.data;
        let keys: Vec<Vec<u8>> = self.keys;
        let children: Vec<PageId> = self.children;
        assert(internal_edit::strings(keys@) =~= pushed);
        rewrite(data, &children, &keys);
        InternalPageMutator::new(data)
    }
}

} // verus!
