//! How typed keys and values become page bytes, and how key bytes are ordered.

use std::cmp::Ordering;
use vstd::prelude::*;

verus! {

/// A type whose values are stored in a page as bytes.
///
/// `SelfType<'a>` is the form in which a stored value is handed out; it may borrow from the page.
pub trait Value {
    type SelfType<'a>;

    /// The bytes that stand for `value`.
    spec fn encoding<'a>(value: Self::SelfType<'a>) -> Seq<u8>;

    /// `bytes` is the encoding of some value.
    spec fn decodable(bytes: Seq<u8>) -> bool;

    fn from_bytes<'a>(data: &'a [u8]) -> (value: Self::SelfType<'a>)
        requires
            Self::decodable(data@),
        ensures
            Self::encoding(value) == data@,
    ;

    fn as_bytes<'a>(value: &Self::SelfType<'a>) -> (bytes: Vec<u8>)
        ensures
            bytes@ == Self::encoding(*value),
            Self::decodable(bytes@),
    ;
}

/// A value that can be searched for: its encodings are totally preordered.
pub trait Key: Value {
    /// How the key encoded as `a` compares with the key encoded as `b`.
    spec fn order(a: Seq<u8>, b: Seq<u8>) -> Ordering;

    proof fn order_reverses(a: Seq<u8>, b: Seq<u8>)
        ensures
            Self::order(b, a) == reversed(Self::order(a, b)),
    ;

    proof fn order_transitive(a: Seq<u8>, b: Seq<u8>, c: Seq<u8>)
        requires
            Self::order(a, b) != Ordering::Greater,
            Self::order(b, c) != Ordering::Greater,
        ensures
            Self::order(a, c) != Ordering::Greater,
            Self::order(a, c) == Ordering::Equal ==> Self::order(a, b) == Ordering::Equal
                && Self::order(b, c) == Ordering::Equal,
    ;

    fn compare(a: &[u8], b: &[u8]) -> (o: Ordering)
        ensures
            o == Self::order(a@, b@),
    ;
}

/// The keys encoded in `keys` strictly ascend.
pub open spec fn ascending<K: Key>(keys: Seq<Seq<u8>>) -> bool {
    forall|i: int, j: int|
        0 <= i < j < keys.len() ==> #[trigger] K::order(keys[i], keys[j]) == Ordering::Less
}

/// No key encoded in `keys` is greater than a later one; equal keys may follow each other.
pub open spec fn sorted<K: Key>(keys: Seq<Seq<u8>>) -> bool {
    forall|i: int, j: int|
        0 <= i < j < keys.len() ==> #[trigger] K::order(keys[i], keys[j]) != Ordering::Greater
}

/// The outcome of a comparison with its two sides exchanged.
pub open spec fn reversed(o: Ordering) -> Ordering {
    match o {
        Ordering::Less => Ordering::Greater,
        Ordering::Equal => Ordering::Equal,
        Ordering::Greater => Ordering::Less,
    }
}

/// Lexicographic order of byte strings: the first byte that differs decides, and a proper prefix
/// comes first.
pub open spec fn lexicographic(a: Seq<u8>, b: Seq<u8>) -> Ordering
    decreases a.len(),
{
    if a.len() == 0 && b.len() == 0 {
        Ordering::Equal
    } else if a.len() == 0 {
        Ordering::Less
    } else if b.len() == 0 {
        Ordering::Greater
    } else if a[0] < b[0] {
        Ordering::Less
    } else if a[0] > b[0] {
        Ordering::Greater
    } else {
        lexicographic(a.skip(1), b.skip(1))
    }
}

pub proof fn lemma_lexicographic_reverses(a: Seq<u8>, b: Seq<u8>)
    ensures
        lexicographic(b, a) == reversed(lexicographic(a, b)),
    decreases a.len(),
{
    if a.len() > 0 && b.len() > 0 && a[0] == b[0] {
        lemma_lexicographic_reverses(a.skip(1), b.skip(1));
    }
}

pub proof fn lemma_lexicographic_transitive(a: Seq<u8>, b: Seq<u8>, c: Seq<u8>)
    requires
        lexicographic(a, b) != Ordering::Greater,
        lexicographic(b, c) != Ordering::Greater,
    ensures
        lexicographic(a, c) != Ordering::Greater,
        lexicographic(a, c) == Ordering::Equal ==> lexicographic(a, b) == Ordering::Equal
            && lexicographic(b, c) == Ordering::Equal,
    decreases a.len(),
{
    if a.len() > 0 && b.len() > 0 && c.len() > 0 && a[0] == b[0] && b[0] == c[0] {
        lemma_lexicographic_transitive(a.skip(1), b.skip(1), c.skip(1));
    }
}

/// Two byte strings compare equal exactly when they are the same string.
pub proof fn lemma_lexicographic_equal(a: Seq<u8>, b: Seq<u8>)
    ensures
        lexicographic(a, b) == Ordering::Equal <==> a == b,
    decreases a.len(),
{
    if a.len() > 0 && b.len() > 0 && a[0] == b[0] {
        lemma_lexicographic_equal(a.skip(1), b.skip(1));
        if a.skip(1) == b.skip(1) {
            assert forall|i: int| 0 <= i < a.len() implies a[i] == b[i] by {
                if i > 0 {
                    assert(a.skip(1)[i - 1] == b.skip(1)[i - 1]);
                }
            }
            assert(a.skip(1).len() == b.skip(1).len());
        }
    }
    assert(lexicographic(a, b) == Ordering::Equal ==> a =~= b);
}

/// Byte strings are their own encoding.
impl<'x> Value for &'x [u8] {
    type SelfType<'a> = &'a [u8];

    open spec fn encoding<'a>(value: &'a [u8]) -> Seq<u8> {
        value@
    }

    open spec fn decodable(bytes: Seq<u8>) -> bool {
        true
    }

    fn from_bytes<'a>(data: &'a [u8]) -> (value: &'a [u8]) {
        data
    }

    fn as_bytes<'a>(value: &&'a [u8]) -> (bytes: Vec<u8>) {
        vstd::slice::slice_to_vec(*value)
    }
}

/// Byte strings are ordered lexicographically.
impl<'x> Key for &'x [u8] {
    open spec fn order(a: Seq<u8>, b: Seq<u8>) -> Ordering {
        lexicographic(a, b)
    }

    proof fn order_reverses(a: Seq<u8>, b: Seq<u8>) {
        lemma_lexicographic_reverses(a, b);
    }

    proof fn order_transitive(a: Seq<u8>, b: Seq<u8>, c: Seq<u8>) {
        lemma_lexicographic_transitive(a, b, c);
    }

    fn compare(a: &[u8], b: &[u8]) -> (o: Ordering) {
        let mut i: usize = 0;
        assert(a@.skip(0) =~= a@ && b@.skip(0) =~= b@);
        while i < a.len() && i < b.len()
            invariant
                i <= a@.len(),
                i <= b@.len(),
                lexicographic(a@, b@) == lexicographic(a@.skip(i + 0), b@.skip(i + 0)),
            decreases a@.len() - i,
        {
            if a[i] < b[i] {
                return Ordering::Less;
            }
            if a[i] > b[i] {
                return Ordering::Greater;
            }
            assert(a@.skip(i + 0).skip(1) =~= a@.skip(i + 1));
            assert(b@.skip(i + 0).skip(1) =~= b@.skip(i + 1));
            i = i + 1;
        }
        if i < b.len() {
            Ordering::Less
        } else if i < a.len() {
            Ordering::Greater
        } else {
            Ordering::Equal
        }
    }
}

} // verus!
