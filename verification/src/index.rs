//! What an index over pages is described by.

use crate::page::PageId;
use vstd::prelude::*;

verus! {

/// Comparator for keys: since a B-tree is sorted by comparison of keys, a method is needed to
/// compare them.
pub trait KeyCmp: Send + Sync + 'static {
    fn cmp(&self, a: &[u8], b: &[u8]) -> std::cmp::Ordering;
}

/// Persistent metadata for an index.
#[derive(Debug, Clone, Copy)]
pub struct BTreeMeta {
    pub root: PageId,
}

} // verus!
