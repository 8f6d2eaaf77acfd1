//! What the order of byte-string keys is, byte by byte.

use crate::key;
use crate::key::{Key, Value};
use std::cmp::Ordering;
use vstd::prelude::*;

verus! {

/// A byte string as a key.
pub type ByteKey = &'static [u8];

/// Where two byte strings first differ, their order is that of the two bytes as numbers from 0 to 255;
/// if one of them ends there, it comes first; if both do, they are the same key.
pub proof fn law_first_difference_decides(a: Seq<u8>, b: Seq<u8>, k: int)
    requires
        0 <= k <= a.len(),
        k <= b.len(),
        forall|i: int| 0 <= i < k ==> #[trigger] a[i] == b[i],
    ensures
        k < a.len() && k < b.len() && a[k] < b[k] ==> ByteKey::order(a, b) == Ordering::Less,
        k < a.len() && k < b.len() && a[k] > b[k] ==> ByteKey::order(a, b) == Ordering::Greater,
        k == a.len() && k < b.len() ==> ByteKey::order(a, b) == Ordering::Less,
        k < a.len() && k == b.len() ==> ByteKey::order(a, b) == Ordering::Greater,
        k == a.len() && k == b.len() ==> ByteKey::order(a, b) == Ordering::Equal,
    decreases k,
{
    if k > 0 {
        assert(a[0] == b[0]);
        assert forall|i: int| 0 <= i < k - 1 implies #[trigger] a.skip(1)[i] == b.skip(1)[i] by {
            assert(a[i + 1] == b[i + 1]);
        }
        law_first_difference_decides(a.skip(1), b.skip(1), k - 1);
    }
}

/// Comparing two byte strings says which of them has the smaller byte where they first differ, or which
/// of them is a proper beginning of the other.
pub proof fn law_compare_bytes(a: &[u8], b: &[u8], k: int, o: Ordering)
    requires
        call_ensures(ByteKey::compare, (a, b), o),
        0 <= k <= a@.len(),
        k <= b@.len(),
        forall|i: int| 0 <= i < k ==> #[trigger] a@[i] == b@[i],
    ensures
        k < a@.len() && k < b@.len() && a@[k] < b@[k] ==> o == Ordering::Less,
        k < a@.len() && k < b@.len() && a@[k] > b@[k] ==> o == Ordering::Greater,
        k == a@.len() && k < b@.len() ==> o == Ordering::Less,
        k < a@.len() && k == b@.len() ==> o == Ordering::Greater,
        k == a@.len() && k == b@.len() ==> o == Ordering::Equal,
{
    law_first_difference_decides(a@, b@, k);
}

/// Two byte strings of which each is at most the other are one string.
pub proof fn law_equal_is_same_bytes(a: &[u8], b: &[u8], o: Ordering)
    requires
        call_ensures(ByteKey::compare, (a, b), o),
    ensures
        o == Ordering::Equal <==> a@ == b@,
{
    key::lemma_lexicographic_equal(a@, b@);
}

/// Comparing the other way round gives the opposite outcome.
pub proof fn law_compare_both_ways(a: &[u8], b: &[u8], o: Ordering, p: Ordering)
    requires
        call_ensures(ByteKey::compare, (a, b), o),
        call_ensures(ByteKey::compare, (b, a), p),
    ensures
        o == Ordering::Less <==> p == Ordering::Greater,
        o == Ordering::Greater <==> p == Ordering::Less,
        o == Ordering::Equal <==> p == Ordering::Equal,
{
    key::lemma_lexicographic_reverses(a@, b@);
}

/// Keys ascend exactly when each comes before every later one.
pub proof fn law_ascending<K: Key>(keys: Seq<Seq<u8>>)
    ensures
        key::ascending::<K>(keys) <==> forall|i: int, j: int|
            0 <= i < j < keys.len() ==> #[trigger] K::order(keys[i], keys[j]) == Ordering::Less,
{
}

/// Keys are sorted exactly when none is greater than a later one; keys that ascend are.
pub proof fn law_sorted<K: Key>(keys: Seq<Seq<u8>>)
    ensures
        key::sorted::<K>(keys) <==> forall|i: int, j: int|
            0 <= i < j < keys.len() ==> #[trigger] K::order(keys[i], keys[j]) != Ordering::Greater,
        key::ascending::<K>(keys) ==> key::sorted::<K>(keys),
{
}

/// Comparing two keys says how their encodings are ordered, and the order turned round is the order the
/// other way.
pub proof fn law_compare_is_order<K: Key>(a: &[u8], b: &[u8], o: Ordering)
    requires
        call_ensures(K::compare, (a, b), o),
    ensures
        o == K::order(a@, b@),
        o == Ordering::Less <==> K::order(b@, a@) == Ordering::Greater,
        o == Ordering::Equal <==> K::order(b@, a@) == Ordering::Equal,
{
    K::order_reverses(a@, b@);
}

/// A byte string is stored as its own bytes and read back from them.
pub proof fn law_bytes_are_themselves(value: &'static [u8], stored: Vec<u8>, back: &[u8])
    requires
        call_ensures(ByteKey::as_bytes, (&value,), stored),
        call_ensures(ByteKey::from_bytes, (value,), back),
    ensures
        stored@ == value@,
        back@ == value@,
{
}

/// Every byte string can be stored and read back.
pub proof fn law_any_bytes_are_accepted(value: &'static [u8], other: &'static [u8])
    ensures
        call_requires(ByteKey::from_bytes, (value,)),
        call_requires(ByteKey::as_bytes, (&value,)),
        call_requires(ByteKey::compare, (value, other)),
{
}

} // verus!
