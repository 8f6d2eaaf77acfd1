//! What transactions see of each other: ids, statuses and snapshots, call by call.

use crate::transaction::{Snapshot, Transaction};
use crate::transaction_manager;
use crate::transaction_manager::{TransactionManager, TransactionStatus};
use vstd::prelude::*;

verus! {

/// A manager is sound when the active transactions are those that the log calls active, and their ids
/// lie between 0 and the next id.
pub proof fn law_sound_manager(tm: TransactionManager)
    ensures
        tm.wf() <==> {
            &&& tm.next_txn_id >= 1
            &&& forall|t: u64| #[trigger]
                tm.active_txns@.contains(t) <==> (tm.clog@.contains_key(t) && tm.clog@[t]
                    == TransactionStatus::Active)
            &&& forall|t: u64| #[trigger]
                tm.active_txns@.contains(t) ==> 0 < t && t < tm.next_txn_id
        },
{
}

/// A new manager knows no transaction, and the first that begins gets id 1.
pub proof fn law_new_manager(tm: TransactionManager, t: u64)
    requires
        call_ensures(TransactionManager::new, (), tm),
    ensures
        tm.next_txn_id == 1,
        !tm.clog@.contains_key(t),
        !tm.active_txns@.contains(t),
        tm.wf(),
{
}

/// A transaction that begins gets the next id, is active from then on, and leaves the status of every
/// other transaction alone.
pub proof fn law_begin(tm: &mut TransactionManager, txn: Transaction, other: u64)
    requires
        call_ensures(TransactionManager::begin, (tm,), txn),
        other != txn.txn_id,
    ensures
        txn.txn_id == old(tm).next_txn_id,
        final(tm).next_txn_id == old(tm).next_txn_id + 1,
        final(tm).active_txns@.contains(txn.txn_id),
        final(tm).clog@.contains_key(txn.txn_id),
        final(tm).clog@[txn.txn_id] == TransactionStatus::Active,
        final(tm).active_txns@.contains(other) == old(tm).active_txns@.contains(other),
        final(tm).clog@.contains_key(other) == old(tm).clog@.contains_key(other),
        final(tm).clog@[other] == old(tm).clog@[other],
        final(tm).wf(),
{
}

/// The snapshot that a transaction begins with is the one that would be taken right after: it counts
/// the transaction itself, every transaction under way and no other, and ends just above its id.
pub proof fn law_begin_snapshot(tm: &mut TransactionManager, txn: Transaction, t: u64)
    requires
        call_ensures(TransactionManager::begin, (tm,), txn),
        old(tm).wf(),
    ensures
        txn.snapshot.xmax == txn.txn_id + 1,
        txn.snapshot.active@.contains(txn.txn_id),
        txn.snapshot.active@.contains(t) <==> t == txn.txn_id || old(tm).active_txns@.contains(t),
        txn.snapshot.active@.contains(txn.snapshot.xmin),
        txn.snapshot.active@.contains(t) ==> txn.snapshot.xmin <= t && t < txn.snapshot.xmax,
        txn.snapshot.active@.no_duplicates(),
{
    let active = txn.snapshot.active@;
    assert(active.contains(txn.txn_id) <==> active.to_set().contains(txn.txn_id));
    assert(active.contains(t) <==> active.to_set().contains(t));
    assert(final(tm).active_txns@.contains(txn.txn_id));
    assert(active.contains(txn.snapshot.xmin) <==> active.to_set().contains(txn.snapshot.xmin));
}

/// A committed transaction is committed and no longer active; every other keeps its status.
pub proof fn law_commit(tm: &mut TransactionManager, txn_id: u64, other: u64)
    requires
        call_ensures(TransactionManager::commit, (tm, txn_id), ()),
        other != txn_id,
    ensures
        !final(tm).active_txns@.contains(txn_id),
        final(tm).clog@.contains_key(txn_id),
        final(tm).clog@[txn_id] == TransactionStatus::Committed,
        final(tm).next_txn_id == old(tm).next_txn_id,
        final(tm).active_txns@.contains(other) == old(tm).active_txns@.contains(other),
        final(tm).clog@.contains_key(other) == old(tm).clog@.contains_key(other),
        final(tm).clog@[other] == old(tm).clog@[other],
        final(tm).wf(),
{
}

/// An aborted transaction is aborted and no longer active; every other keeps its status.
pub proof fn law_abort(tm: &mut TransactionManager, txn_id: u64, other: u64)
    requires
        call_ensures(TransactionManager::abort, (tm, txn_id), ()),
        other != txn_id,
    ensures
        !final(tm).active_txns@.contains(txn_id),
        final(tm).clog@.contains_key(txn_id),
        final(tm).clog@[txn_id] == TransactionStatus::Aborted,
        final(tm).next_txn_id == old(tm).next_txn_id,
        final(tm).active_txns@.contains(other) == old(tm).active_txns@.contains(other),
        final(tm).clog@.contains_key(other) == old(tm).clog@.contains_key(other),
        final(tm).clog@[other] == old(tm).clog@[other],
        final(tm).wf(),
{
}

/// The three questions about a transaction are answered by what the log says of it. Transaction 0 is
/// always committed.
pub proof fn law_status_questions(
    tm: &TransactionManager,
    txn_id: u64,
    committed: bool,
    aborted: bool,
    active: bool,
)
    requires
        call_ensures(TransactionManager::is_committed, (tm, txn_id), committed),
        call_ensures(TransactionManager::is_aborted, (tm, txn_id), aborted),
        call_ensures(TransactionManager::is_active, (tm, txn_id), active),
    ensures
        committed <==> txn_id == 0 || (tm.clog@.contains_key(txn_id) && tm.clog@[txn_id]
            == TransactionStatus::Committed),
        aborted <==> tm.clog@.contains_key(txn_id) && tm.clog@[txn_id]
            == TransactionStatus::Aborted,
        active <==> tm.active_txns@.contains(txn_id),
{
}

/// The spec names for a status mean what the log says.
pub proof fn law_status_names(tm: TransactionManager, txn_id: u64)
    ensures
        tm.committed(txn_id) <==> txn_id == 0 || (tm.clog@.contains_key(txn_id)
            && tm.clog@[txn_id] == TransactionStatus::Committed),
        tm.aborted(txn_id) <==> tm.clog@.contains_key(txn_id) && tm.clog@[txn_id]
            == TransactionStatus::Aborted,
{
}

/// After a commit the questions are answered "committed", after an abort "aborted".
pub proof fn law_settled_is_told(
    tm: &mut TransactionManager,
    txn_id: u64,
    committed: bool,
    aborted: bool,
    active: bool,
)
    requires
        txn_id != 0,
        call_ensures(TransactionManager::is_committed, (final(tm), txn_id), committed),
        call_ensures(TransactionManager::is_aborted, (final(tm), txn_id), aborted),
        call_ensures(TransactionManager::is_active, (final(tm), txn_id), active),
        call_ensures(TransactionManager::commit, (tm, txn_id), ()) || call_ensures(
            TransactionManager::abort,
            (tm, txn_id),
            (),
        ),
    ensures
        !active,
        call_ensures(TransactionManager::commit, (tm, txn_id), ()) ==> committed && !aborted,
        call_ensures(TransactionManager::abort, (tm, txn_id), ()) ==> aborted && !committed,
{
}

/// A snapshot's `xmax` is the next id to be handed out: every transaction that has begun lies below it,
/// whether it is active or settled, and every one that begins later does not.
pub proof fn law_snapshot_xmax(tm: &TransactionManager, snapshot: Snapshot, t: u64)
    requires
        call_ensures(TransactionManager::get_snapshot, (tm,), snapshot),
    ensures
        snapshot.xmax == tm.next_txn_id,
        t < tm.next_txn_id <==> t < snapshot.xmax,
{
}

/// A snapshot lists the active transactions, each once, and its `xmin` is the least of them, or `xmax`
/// if none is active.
pub proof fn law_snapshot_active(tm: &TransactionManager, snapshot: Snapshot, t: u64)
    requires
        call_ensures(TransactionManager::get_snapshot, (tm,), snapshot),
    ensures
        snapshot.active@.contains(t) <==> tm.active_txns@.contains(t),
        snapshot.active@.no_duplicates(),
        tm.active_txns@.contains(t) ==> snapshot.xmin <= t,
        tm.active_txns@.contains(t) ==> tm.active_txns@.contains(snapshot.xmin),
        tm.active_txns@.is_empty() ==> snapshot.xmin == tm.next_txn_id,
{
    assert(snapshot.active@.contains(t) <==> snapshot.active@.to_set().contains(t));
}

/// A transaction that begins after a snapshot was taken is not among those that it knows of: its id is
/// not below the snapshot's `xmax`. One that began before is below it.
pub proof fn law_snapshot_splits_past_and_future(
    first: &mut TransactionManager,
    earlier: Transaction,
    snapshot: Snapshot,
    later: Transaction,
    second: &mut TransactionManager,
)
    requires
        old(first).wf(),
        call_ensures(TransactionManager::begin, (first,), earlier),
        call_ensures(TransactionManager::get_snapshot, (final(first),), snapshot),
        old(second).next_txn_id >= final(first).next_txn_id,
        call_ensures(TransactionManager::begin, (second,), later),
    ensures
        earlier.txn_id < snapshot.xmax,
        later.txn_id >= snapshot.xmax,
        earlier.txn_id < later.txn_id,
{
}

/// The horizon is the oldest active transaction, or the next id if none is active; it is the `xmin` of
/// a snapshot taken at the same moment.
pub proof fn law_horizon(tm: &TransactionManager, horizon: u64, snapshot: Snapshot, t: u64)
    requires
        call_ensures(TransactionManager::global_xmin, (tm,), horizon),
        call_ensures(TransactionManager::get_snapshot, (tm,), snapshot),
    ensures
        horizon == snapshot.xmin,
        tm.active_txns@.contains(t) ==> horizon <= t,
        tm.active_txns@.contains(t) ==> tm.active_txns@.contains(horizon),
        tm.active_txns@.is_empty() ==> horizon == tm.next_txn_id,
{
    if !tm.active_txns@.is_empty() {
        assert(tm.active_txns@.contains(horizon) && tm.active_txns@.contains(snapshot.xmin));
    }
}

/// What lies before the horizon is older than every active transaction and than the next one.
pub proof fn law_before_horizon(tm: TransactionManager, txn_id: u64, t: u64)
    requires
        tm.wf(),
    ensures
        tm.before_horizon(txn_id) ==> txn_id < tm.next_txn_id,
        tm.before_horizon(txn_id) && tm.active_txns@.contains(t) ==> txn_id < t,
        txn_id < tm.next_txn_id && (forall|u: u64| #[trigger]
            tm.active_txns@.contains(u) ==> txn_id < u) ==> tm.before_horizon(txn_id),
{
    if !tm.active_txns@.is_empty() {
        let o = tm.active_txns@.choose();
        assert(tm.active_txns@.contains(o));
    }
}

/// Nothing but the last id stands in the way of a transaction that wants to begin, and any transaction
/// of a sound manager can be settled.
pub proof fn law_calls_accepted(tm: &mut TransactionManager, read: &TransactionManager, t: u64)
    requires
        old(tm).wf(),
    ensures
        old(tm).next_txn_id < u64::MAX ==> call_requires(TransactionManager::begin, (tm,)),
        call_requires(TransactionManager::commit, (tm, t)),
        call_requires(TransactionManager::abort, (tm, t)),
        call_requires(TransactionManager::get_snapshot, (read,)),
        call_requires(TransactionManager::global_xmin, (read,)),
        call_requires(TransactionManager::is_committed, (read, t)),
{
}

/// The relations that describe a beginning and an end say which id, which status and which sets change.
pub proof fn law_transitions(
    before: TransactionManager,
    after: TransactionManager,
    txn_id: u64,
    status: TransactionStatus,
    t: u64,
)
    ensures
        transaction_manager::begins(before, after, txn_id) ==> {
            &&& txn_id == before.next_txn_id
            &&& after.next_txn_id == txn_id + 1
            &&& after.active_txns@.contains(t) <==> t == txn_id || before.active_txns@.contains(t)
            &&& after.clog@[txn_id] == TransactionStatus::Active
            &&& t != txn_id ==> after.clog@[t] == before.clog@[t]
        },
        transaction_manager::settles(before, after, txn_id, status) ==> {
            &&& after.next_txn_id == before.next_txn_id
            &&& after.active_txns@.contains(t) <==> t != txn_id && before.active_txns@.contains(t)
            &&& after.clog@[txn_id] == status
            &&& t != txn_id ==> after.clog@[t] == before.clog@[t]
        },
{
}

} // verus!
