//! The status of every transaction, and the snapshots taken of it.

use crate::transaction;
use crate::transaction::{Snapshot, Transaction};
use std::collections::{HashMap, HashSet};
use vstd::prelude::*;

verus! {

broadcast use vstd::std_specs::hash::group_hash_axioms;

#[derive(Debug, Clone, Copy, PartialEq, Eq, Structural)]
pub enum TransactionStatus {
    Active,
    Committed,
    Aborted,
}

/// Hands out transaction ids and keeps the commit log.
pub struct TransactionManager {
    /// The id of the next transaction. Id 0 is never handed out: it stands for "no transaction".
    pub next_txn_id: u64,
    pub clog: HashMap<u64, TransactionStatus>,
    pub active_txns: HashSet<u64>,
}

/// From `before` to `after`, transaction `txn_id` starts: it takes the next id and is active.
pub open spec fn begins(
    before: TransactionManager,
    after: TransactionManager,
    txn_id: u64,
) -> bool {
    &&& txn_id == before.next_txn_id
    &&& after.next_txn_id == before.next_txn_id + 1
    &&& after.active_txns@ == before.active_txns@.insert(txn_id)
    &&& after.clog@ == before.clog@.insert(txn_id, TransactionStatus::Active)
}

/// From `before` to `after`, transaction `txn_id` ends with `status`.
pub open spec fn settles(
    before: TransactionManager,
    after: TransactionManager,
    txn_id: u64,
    status: TransactionStatus,
) -> bool {
    &&& after.next_txn_id == before.next_txn_id
    &&& after.active_txns@ == before.active_txns@.remove(txn_id)
    &&& after.clog@ == before.clog@.insert(txn_id, status)
}

impl TransactionManager {
    /// Active transactions are those that the commit log calls active, and all have ids that were
    /// handed out.
    pub open spec fn wf(&self) -> bool {
        &&& self.next_txn_id >= 1
        &&& forall|t: u64| #[trigger]
            self.active_txns@.contains(t) <==> self.status(t) == Some(TransactionStatus::Active)
        &&& forall|t: u64| #[trigger]
            self.active_txns@.contains(t) ==> 0 < t < self.next_txn_id
    }

    /// What the commit log says of `txn_id`.
    pub open spec fn status(&self, txn_id: u64) -> Option<TransactionStatus> {
        if self.clog@.contains_key(txn_id) {
            Some(self.clog@[txn_id])
        } else {
            None
        }
    }

    /// Transaction 0 counts as committed: it stands for data that was always there.
    pub open spec fn committed(&self, txn_id: u64) -> bool {
        txn_id == 0 || self.status(txn_id) == Some(TransactionStatus::Committed)
    }

    pub open spec fn aborted(&self, txn_id: u64) -> bool {
        self.status(txn_id) == Some(TransactionStatus::Aborted)
    }

    /// `txn_id` is older than every active transaction, or than the next one if none is active.
    pub open spec fn before_horizon(&self, txn_id: u64) -> bool {
        if self.active_txns@.is_empty() {
            txn_id < self.next_txn_id
        } else {
            forall|t: u64| #[trigger] self.active_txns@.contains(t) ==> txn_id < t
        }
    }

    /// A manager without transactions. Each manager counts its own transactions, from 1.
    pub fn new() -> (tm: Self)
        ensures
            tm.wf(),
            tm.next_txn_id == 1,
            tm.clog@ == Map::<u64, TransactionStatus>::empty(),
            tm.active_txns@ == Set::<u64>::empty(),
    {
        Self { next_txn_id: 1, clog: HashMap::new(), active_txns: HashSet::new() }
    }

    /// Starts a transaction. Its snapshot counts the transaction itself among those under way.
    pub fn begin(&mut self) -> (txn: Transaction)
        requires
            old(self).wf(),
            old(self).next_txn_id < u64::MAX,
        ensures
            final(self).wf(),
            begins(*old(self), *final(self), txn.txn_id),
            txn.snapshot.is_of(final(self).active_txns@, final(self).next_txn_id),
    {
        let txn_id: u64 = self.next_txn_id;
        self.next_txn_id = txn_id + 1;
        self.active_txns.insert(txn_id);
        let snapshot = self.get_snapshot();
        self.clog.insert(txn_id, TransactionStatus::Active);
        Transaction { txn_id, snapshot }
    }

    pub fn commit(&mut self, txn_id: u64)
        requires
            old(self).wf(),
        ensures
            final(self).wf(),
            settles(*old(self), *final(self), txn_id, TransactionStatus::Committed),
    {
        self.clog.insert(txn_id, TransactionStatus::Committed);
        self.active_txns.remove(&txn_id);
    }

    pub fn abort(&mut self, txn_id: u64)
        requires
            old(self).wf(),
        ensures
            final(self).wf(),
            settles(*old(self), *final(self), txn_id, TransactionStatus::Aborted),
    {
        self.clog.insert(txn_id, TransactionStatus::Aborted);
        self.active_txns.remove(&txn_id);
    }

    pub fn is_committed(&self, txn_id: u64) -> (yes: bool)
        ensures
            yes == self.committed(txn_id),
    {
        if txn_id == 0 {
            return true;
        }
        match self.clog.get(&txn_id) {
            Some(TransactionStatus::Committed) => true,
            _ => false,
        }
    }

    pub fn is_aborted(&self, txn_id: u64) -> (yes: bool)
        ensures
            yes == self.aborted(txn_id),
    {
        match self.clog.get(&txn_id) {
            Some(TransactionStatus::Aborted) => true,
            _ => false,
        }
    }

    pub fn is_active(&self, txn_id: u64) -> (yes: bool)
        ensures
            yes == self.active_txns@.contains(txn_id),
    {
        self.active_txns.contains(&txn_id)
    }

    pub fn get_snapshot(&self) -> (snapshot: Snapshot)
        ensures
            snapshot.is_of(self.active_txns@, self.next_txn_id),
    {
        let active: Vec<u64> = self.active_ids();
        Snapshot { xmin: oldest(&active, self.next_txn_id), xmax: self.next_txn_id, active }
    }

    /// The oldest active transaction, or the next id if none is active: no snapshot that is still
    /// in use can tell apart what was settled before it.
    pub fn global_xmin(&self) -> (id: u64)
        ensures
            transaction::is_oldest(self.active_txns@, self.next_txn_id, id),
    {
        oldest(&self.active_ids(), self.next_txn_id)
    }

    fn active_ids(&self) -> (ids: Vec<u64>)
        ensures
            ids@.no_duplicates(),
            ids@.to_set() == self.active_txns@,
    {
        let mut ids: Vec<u64> = Vec::new();
        for id in it: self.active_txns.iter()
            invariant
                ids@ == it.seq().unref().take(it.index()),
                it.seq().no_duplicates(),
                it.seq().unref().to_set() == self.active_txns@,
                it.index() == it.seq().len() ==> ids@.to_set() == self.active_txns@,
        {
            ids.push(*id);
            assert(it.seq().unref().take(it.index() + 1) =~= it.seq().unref().take(
                it.index(),
            ).push(*id));
            assert(it.seq().unref().take(it.seq().len() as int) =~= it.seq().unref());
        }
        ids
    }
}

/// The least of `ids`, or `fallback`.
fn oldest(ids: &Vec<u64>, fallback: u64) -> (id: u64)
    ensures
        transaction::is_oldest(ids@.to_set(), fallback, id),
{
    if ids.len() == 0 {
        assert(ids@.to_set() =~= Set::<u64>::empty());
        return fallback;
    }
    let mut least: u64 = ids[0];
    let mut i: usize = 1;
    while i < ids.len()
        invariant
            1 <= i <= ids@.len(),
            ids@.contains(least),
            forall|j: int| 0 <= j < i ==> least <= #[trigger] ids@[j],
        decreases ids@.len() - i,
    {
        if ids[i] < least {
            least = ids[i];
        }
        i = i + 1;
    }
    assert(ids@.to_set().contains(least));
    least
}

// ── Laws ─────────────────────────────────────────────────────────────────────
/// A transaction that has just begun is active, and neither committed nor aborted.
pub proof fn law_begun_is_active(
    before: TransactionManager,
    after: TransactionManager,
    txn_id: u64,
)
    requires
        before.wf(),
        begins(before, after, txn_id),
    ensures
        after.active_txns@.contains(txn_id),
        !after.committed(txn_id),
        !after.aborted(txn_id),
{
}

/// A committed transaction is committed, and neither active nor aborted.
pub proof fn law_commit_settles(
    before: TransactionManager,
    after: TransactionManager,
    txn_id: u64,
)
    requires
        settles(before, after, txn_id, TransactionStatus::Committed),
    ensures
        after.committed(txn_id),
        !after.aborted(txn_id),
        !after.active_txns@.contains(txn_id),
{
}

/// An aborted transaction is aborted, and neither active nor committed.
pub proof fn law_abort_settles(before: TransactionManager, after: TransactionManager, txn_id: u64)
    requires
        txn_id != 0,
        settles(before, after, txn_id, TransactionStatus::Aborted),
    ensures
        after.aborted(txn_id),
        !after.committed(txn_id),
        !after.active_txns@.contains(txn_id),
{
}

/// No transaction is two of active, committed and aborted at once.
pub proof fn law_one_status(tm: TransactionManager, txn_id: u64)
    requires
        tm.wf(),
        txn_id != 0,
    ensures
        !(tm.active_txns@.contains(txn_id) && tm.committed(txn_id)),
        !(tm.active_txns@.contains(txn_id) && tm.aborted(txn_id)),
        !(tm.committed(txn_id) && tm.aborted(txn_id)),
{
}

/// What one transaction does leaves every other transaction as it was.
pub proof fn law_others_keep_status(
    before: TransactionManager,
    after: TransactionManager,
    txn_id: u64,
    other: u64,
)
    requires
        begins(before, after, txn_id) || (exists|status: TransactionStatus|
            settles(before, after, txn_id, status)),
        other != txn_id,
    ensures
        after.status(other) == before.status(other),
        after.active_txns@.contains(other) == before.active_txns@.contains(other),
{
}

/// In a snapshot every transaction under way lies in `[xmin, xmax)`, and `xmin` is at most `xmax`;
/// they are equal exactly when nothing was under way.
pub proof fn law_snapshot_bounds(tm: TransactionManager, snapshot: Snapshot, txn_id: u64)
    requires
        tm.wf(),
        snapshot.is_of(tm.active_txns@, tm.next_txn_id),
    ensures
        snapshot.xmin <= snapshot.xmax,
        snapshot.xmin == snapshot.xmax <==> snapshot.active@.len() == 0,
        snapshot.active@.contains(txn_id) ==> snapshot.xmin <= txn_id < snapshot.xmax,
        snapshot.active@.contains(txn_id) <==> tm.active_txns@.contains(txn_id),
{
    assert(snapshot.active@.contains(txn_id) <==> snapshot.active@.to_set().contains(txn_id));
    if snapshot.active@.len() > 0 {
        assert(snapshot.active@.to_set().contains(snapshot.active@[0]));
    } else {
        assert(snapshot.active@.to_set() =~= Set::<u64>::empty());
    }
}

/// The horizon never moves back, whichever transaction begins or ends.
pub proof fn law_horizon_advances(
    before: TransactionManager,
    after: TransactionManager,
    txn_id: u64,
    horizon_before: u64,
    horizon_after: u64,
)
    requires
        before.wf(),
        begins(before, after, txn_id) || (exists|status: TransactionStatus|
            settles(before, after, txn_id, status)),
        transaction::is_oldest(before.active_txns@, before.next_txn_id, horizon_before),
        transaction::is_oldest(after.active_txns@, after.next_txn_id, horizon_after),
    ensures
        horizon_before <= horizon_after,
{
    if after.active_txns@.contains(horizon_after) {
        if before.active_txns@.contains(horizon_after) {
        } else {
            assert(horizon_after == txn_id);
            if !before.active_txns@.is_empty() {
                assert(before.active_txns@.contains(horizon_before));
            }
        }
    } else {
        if !before.active_txns@.is_empty() {
            assert(before.active_txns@.contains(horizon_before));
        }
    }
}

} // verus!
