//! What holds between the operations on an internal page.

use crate::key;
use crate::key::Key;
use crate::page;
use crate::page::internal;
use crate::page::internal_layout as layout;
use crate::page::internal_layout::{INT_HEADER_SIZE, OFF_INT_PARENT};
use crate::page::{ChildSide, PageId, OFF_LSN, OFF_PAGE_ID};
use std::cmp::Ordering;
use vstd::prelude::*;

verus! {

/// Key `a` is at most key `b`.
pub open spec fn at_most<K: Key>(a: Seq<u8>, b: Seq<u8>) -> bool {
    K::order(a, b) != Ordering::Greater
}

/// Key `a` comes before key `b`.
pub open spec fn below<K: Key>(a: Seq<u8>, b: Seq<u8>) -> bool {
    K::order(a, b) == Ordering::Less
}

/// There is one child to descend into.
pub proof fn law_one_descent<K: Key>(keys: Seq<Seq<u8>>, query: Seq<u8>, i: int, j: int)
    requires
        internal::is_descent::<K>(keys, query, i),
        internal::is_descent::<K>(keys, query, j),
    ensures
        i == j,
{
    if i < j {
        assert(K::order(keys[i], query) != Ordering::Greater);
    } else if j < i {
        assert(K::order(keys[j], query) != Ordering::Greater);
    }
}

/// In a page whose separators ascend there is a child to descend into for every key.
pub proof fn law_some_descent<K: Key>(keys: Seq<Seq<u8>>, query: Seq<u8>, n: int) -> (index: int)
    requires
        key::ascending::<K>(keys),
        n == keys.len(),
    ensures
        internal::is_descent::<K>(keys, query, index),
    decreases n,
{
    if n == 0 {
        0
    } else {
        let fewer = keys.drop_last();
        assert forall|i: int, j: int| 0 <= i < j < fewer.len() implies #[trigger] K::order(
            fewer[i],
            fewer[j],
        ) == Ordering::Less by {
            assert(K::order(keys[i], keys[j]) == Ordering::Less);
        }
        let below = law_some_descent::<K>(fewer, query, n - 1);
        assert forall|i: int| 0 <= i < n - 1 implies #[trigger] keys[i] == fewer[i] by {}
        if K::order(keys[n - 1], query) == Ordering::Greater {
            assert forall|i: int| 0 <= i < below implies #[trigger] K::order(keys[i], query)
                != Ordering::Greater by {
                assert(K::order(fewer[i], query) != Ordering::Greater);
            }
            assert forall|i: int| below <= i < n implies #[trigger] K::order(keys[i], query)
                == Ordering::Greater by {
                if i < n - 1 {
                    assert(K::order(fewer[i], query) == Ordering::Greater);
                }
            }
            below
        } else {
            assert forall|i: int| 0 <= i < n implies #[trigger] K::order(keys[i], query)
                != Ordering::Greater by {
                if i < n - 1 {
                    assert(K::order(keys[i], keys[n - 1]) == Ordering::Less);
                    K::order_transitive(keys[i], keys[n - 1], query);
                }
            }
            n
        }
    }
}

/// A separator that is inserted where a descent for it goes, and that is not there yet, keeps the
/// separators in order.
pub proof fn law_insert_keeps_order<K: Key>(keys: Seq<Seq<u8>>, index: int, separator: Seq<u8>)
    requires
        key::ascending::<K>(keys),
        internal::is_descent::<K>(keys, separator, index),
        index > 0 ==> below::<K>(keys[index - 1], separator),
    ensures
        key::ascending::<K>(keys.insert(index, separator)),
{
    let more = keys.insert(index, separator);
    assert forall|i: int, j: int| 0 <= i < j < more.len() implies #[trigger] K::order(
        more[i],
        more[j],
    ) == Ordering::Less by {
        let oi = if i < index { i } else { i - 1 };
        let oj = if j < index { j } else { j - 1 };
        if i == index {
            assert(more[j] == keys[oj]);
            assert(K::order(keys[oj], separator) == Ordering::Greater);
            K::order_reverses(keys[oj], separator);
        } else if j == index {
            assert(more[i] == keys[i]);
            if i < index - 1 {
                assert(K::order(keys[i], keys[index - 1]) == Ordering::Less);
                K::order_transitive(keys[i], keys[index - 1], separator);
            }
        } else {
            assert(more[i] == keys[oi] && more[j] == keys[oj]);
            assert(K::order(keys[oi], keys[oj]) == Ordering::Less);
        }
    }
}

/// A split changes the descent only in the child that was split: keys from the separator on go to
/// the new right child, and every other key goes where it went.
pub proof fn law_split_routes<K: Key>(
    keys: Seq<Seq<u8>>,
    children: Seq<PageId>,
    index: int,
    separator: Seq<u8>,
    right_child: PageId,
    query: Seq<u8>,
    before: int,
    after: int,
)
    requires
        children.len() == keys.len() + 1,
        key::ascending::<K>(keys),
        internal::is_descent::<K>(keys, separator, index),
        index > 0 ==> below::<K>(keys[index - 1], separator),
        internal::is_descent::<K>(keys, query, before),
        internal::is_descent::<K>(keys.insert(index, separator), query, after),
    ensures
        children.insert(index + 1, right_child)[after] == if before == index && at_most::<K>(
            separator,
            query,
        ) {
            right_child
        } else {
            children[before]
        },
{
    let more = keys.insert(index, separator);
    let expected = if before < index || (before == index && !at_most::<K>(separator, query)) {
        before
    } else {
        before + 1
    };
    if before < index {
        assert(K::order(keys[before], query) == Ordering::Greater);
        assert(K::order(keys[before], separator) != Ordering::Greater);
        K::order_reverses(keys[before], query);
        K::order_transitive(query, keys[before], separator);
        K::order_reverses(query, separator);
    }
    if before > index {
        assert(K::order(keys[index], separator) == Ordering::Greater);
        assert(K::order(keys[index], query) != Ordering::Greater);
        K::order_reverses(keys[index], separator);
        K::order_transitive(separator, keys[index], query);
    }
    assert forall|i: int| 0 <= i < expected implies #[trigger] K::order(more[i], query)
        != Ordering::Greater by {
        if i < index {
            assert(more[i] == keys[i]);
            assert(K::order(keys[i], query) != Ordering::Greater);
        } else if i > index {
            assert(more[i] == keys[i - 1]);
            assert(K::order(keys[i - 1], query) != Ordering::Greater);
        }
    }
    assert forall|i: int| expected <= i < more.len() implies #[trigger] K::order(more[i], query)
        == Ordering::Greater by {
        if i < index {
            assert(more[i] == keys[i]);
            assert(K::order(keys[i], query) == Ordering::Greater);
        } else if i > index {
            assert(more[i] == keys[i - 1]);
            assert(K::order(keys[i - 1], query) == Ordering::Greater);
        }
    }
    assert(internal::is_descent::<K>(more, query, expected));
    law_one_descent::<K>(more, query, expected, after);
}

/// Removing a separator keeps the others in order.
pub proof fn law_remove_keeps_order<K: Key>(keys: Seq<Seq<u8>>, index: int)
    requires
        key::ascending::<K>(keys),
        0 <= index < keys.len(),
    ensures
        key::ascending::<K>(keys.remove(index)),
{
    let less = keys.remove(index);
    assert forall|i: int, j: int| 0 <= i < j < less.len() implies #[trigger] K::order(
        less[i],
        less[j],
    ) == Ordering::Less by {
        let oi = if i < index { i } else { i + 1 };
        let oj = if j < index { j } else { j + 1 };
        assert(less[i] == keys[oi] && less[j] == keys[oj]);
        assert(K::order(keys[oi], keys[oj]) == Ordering::Less);
    }
}

/// A merge sends the keys of the two children beside the removed separator to the one that was kept,
/// and every other key where it went.
pub proof fn law_merge_routes<K: Key>(
    keys: Seq<Seq<u8>>,
    children: Seq<PageId>,
    index: int,
    keep: ChildSide,
    query: Seq<u8>,
    before: int,
    after: int,
)
    requires
        children.len() == keys.len() + 1,
        0 <= index < keys.len(),
        internal::is_descent::<K>(keys, query, before),
        internal::is_descent::<K>(keys.remove(index), query, after),
    ensures
        match keep {
            ChildSide::Left => children.remove(index + 1)[after] == if before == index + 1 {
                children[index]
            } else {
                children[before]
            },
            ChildSide::Right => children.remove(index)[after] == if before == index {
                children[index + 1]
            } else {
                children[before]
            },
        },
{
    let less = keys.remove(index);
    let expected = if before <= index {
        before
    } else {
        before - 1
    };
    assert forall|i: int| 0 <= i < expected implies #[trigger] K::order(less[i], query)
        != Ordering::Greater by {
        let o = if i < index { i } else { i + 1 };
        assert(less[i] == keys[o]);
        assert(K::order(keys[o], query) != Ordering::Greater);
    }
    assert forall|i: int| expected <= i < less.len() implies #[trigger] K::order(less[i], query)
        == Ordering::Greater by {
        let o = if i < index { i } else { i + 1 };
        assert(less[i] == keys[o]);
        assert(K::order(keys[o], query) == Ordering::Greater);
    }
    assert(internal::is_descent::<K>(less, query, expected));
    law_one_descent::<K>(less, query, expected, after);
}

/// Merging back what a split put in, and keeping the left child, undoes the split.
pub proof fn law_split_then_merge(
    keys: Seq<Seq<u8>>,
    children: Seq<PageId>,
    index: int,
    separator: Seq<u8>,
    right_child: PageId,
)
    requires
        children.len() == keys.len() + 1,
        0 <= index <= keys.len(),
    ensures
        keys.insert(index, separator).remove(index) == keys,
        children.insert(index + 1, right_child).remove(index + 1) == children,
{
    assert(keys.insert(index, separator).remove(index) =~= keys);
    assert(children.insert(index + 1, right_child).remove(index + 1) =~= children);
}

/// The three sections of a page with `n` keys follow each other without gap or overlap: one child id
/// more than there are keys, then the key ends, then the key data, which begins at `40 + 12 * n`.
pub proof fn law_sections_abut(n: int)
    requires
        0 <= n,
    ensures
        layout::child_at(0) == INT_HEADER_SIZE,
        layout::child_at(n + 1) == layout::ends_at(n),
        layout::end_at(n, 0) == layout::ends_at(n),
        layout::end_at(n, n) == layout::keys_at(n),
        layout::keys_at(n) == 40 + 12 * n,
        forall|i: int|
            0 <= i <= n ==> #[trigger] layout::child_at(i) + 8 == layout::child_at(i + 1),
        forall|i: int|
            0 <= i < n ==> #[trigger] layout::end_at(n, i) + 4 == layout::end_at(n, i + 1),
{
}

/// Changes to keys and children keep the page's id, its lsn and its parent.
pub proof fn law_edits_keep_header(s: Seq<u8>, t: Seq<u8>)
    requires
        s.len() >= INT_HEADER_SIZE,
        layout::same_identity(s, t),
    ensures
        layout::int_page_id(t) == layout::int_page_id(s),
        layout::int_lsn(t) == layout::int_lsn(s),
        layout::int_parent(t) == layout::int_parent(s),
{
}

/// The header fields are independent: writing one of id, lsn and parent leaves the others.
pub proof fn law_header_fields_apart(s: Seq<u8>, t: Seq<u8>, off: int)
    requires
        s.len() >= INT_HEADER_SIZE,
        off == OFF_PAGE_ID || off == OFF_LSN || off == OFF_INT_PARENT,
        page::same_except(s, t, off, off + 8),
    ensures
        off != OFF_PAGE_ID ==> layout::int_page_id(t) == layout::int_page_id(s),
        off != OFF_LSN ==> layout::int_lsn(t) == layout::int_lsn(s),
        off != OFF_INT_PARENT ==> layout::int_parent(t) == layout::int_parent(s),
        layout::key_count(t) == layout::key_count(s),
{
}

} // verus!
