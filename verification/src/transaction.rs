//! A transaction and the snapshot it reads through.

use vstd::prelude::*;

verus! {

/// Which transactions were under way at some moment.
pub struct Snapshot {
    /// The oldest transaction under way, or `xmax` if there was none.
    pub xmin: u64,
    /// The id that the next transaction was going to get.
    pub xmax: u64,
    /// The transactions under way, in no particular order.
    pub active: Vec<u64>,
}

pub struct Transaction {
    pub txn_id: u64,
    pub snapshot: Snapshot,
}

/// `id` is the least member of `active`, or `fallback` if there is no member.
pub open spec fn is_oldest(active: Set<u64>, fallback: u64, id: u64) -> bool {
    if active.is_empty() {
        id == fallback
    } else {
        active.contains(id) && forall|t: u64| #[trigger] active.contains(t) ==> id <= t
    }
}

impl Snapshot {
    /// The snapshot of a moment at which `active` were under way and `next` was the next id.
    pub open spec fn is_of(&self, active: Set<u64>, next: u64) -> bool {
        &&& self.xmax == next
        &&& is_oldest(active, next, self.xmin)
        &&& self.active@.no_duplicates()
        &&& self.active@.to_set() == active
    }
}

} // verus!
