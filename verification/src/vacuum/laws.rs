//! What vacuum keeps and what it removes.

use crate::key::Key;
use crate::page::leaf;
use crate::page::leaf_layout::Entry;
use crate::transaction;
use crate::transaction_manager;
use crate::transaction_manager::{TransactionManager, TransactionStatus};
use crate::vacuum;
use crate::vacuum::VersionStamp;
use vstd::prelude::*;

verus! {

/// A version of an aborted creator is dead, whether somebody deleted it or not.
pub proof fn law_aborted_creator_is_dead(xmin: u64, xmax: u64, tm: TransactionManager)
    requires
        tm.aborted(xmin),
    ensures
        vacuum::dead_version(xmin, xmax, tm),
{
}

/// While its creator has not aborted, a version that nobody deleted, or whose deleter has not
/// committed, is not dead.
pub proof fn law_undeleted_is_live(xmin: u64, xmax: u64, tm: TransactionManager)
    requires
        !tm.aborted(xmin),
        xmax == 0 || !tm.committed(xmax),
    ensures
        !vacuum::dead_version(xmin, xmax, tm),
{
}

/// A version that was deleted before the horizon, by a transaction that committed, is dead.
pub proof fn law_old_deletion_is_dead(xmin: u64, xmax: u64, horizon: u64, tm: TransactionManager)
    requires
        transaction::is_oldest(tm.active_txns@, tm.next_txn_id, horizon),
        xmax != 0,
        tm.committed(xmax),
        xmax < horizon,
    ensures
        vacuum::dead_version(xmin, xmax, tm),
{
}

/// While its creator has not aborted, a version that was deleted at or after the horizon is kept: an
/// active snapshot may still see it.
pub proof fn law_recent_deletion_is_kept(
    xmin: u64,
    xmax: u64,
    horizon: u64,
    tm: TransactionManager,
)
    requires
        transaction::is_oldest(tm.active_txns@, tm.next_txn_id, horizon),
        !tm.aborted(xmin),
        xmax >= horizon,
    ensures
        !vacuum::dead_version(xmin, xmax, tm),
{
    if !tm.active_txns@.is_empty() {
        assert(tm.active_txns@.contains(horizon));
    }
}

/// What is dead stays dead, whichever other transaction begins or ends.
pub proof fn law_dead_stays_dead(
    before: TransactionManager,
    after: TransactionManager,
    txn_id: u64,
    xmin: u64,
    xmax: u64,
)
    requires
        before.wf(),
        transaction_manager::begins(before, after, txn_id) || (exists|status: TransactionStatus|
            transaction_manager::settles(before, after, txn_id, status)),
        txn_id != xmin,
        txn_id != xmax,
        vacuum::dead_version(xmin, xmax, before),
    ensures
        vacuum::dead_version(xmin, xmax, after),
{
    if !before.aborted(xmin) {
        assert forall|t: u64| #[trigger] after.active_txns@.contains(t) implies xmax < t by {
            if !before.active_txns@.contains(t) {
                assert(t == txn_id);
                if !before.active_txns@.is_empty() {
                    let o = before.active_txns@.choose();
                    assert(before.active_txns@.contains(o));
                }
            }
        }
        if after.active_txns@.is_empty() && !before.active_txns@.is_empty() {
            let o = before.active_txns@.choose();
            assert(before.active_txns@.contains(o));
        }
    }
}

/// Kept item `k` is one of the first `n` items, and was not to be dropped.
proof fn lemma_origin<A, B>(a: Seq<A>, b: Seq<B>, dropped: Seq<bool>, n: int, k: int) -> (i: int)
    requires
        0 <= n,
        0 <= k < vacuum::kept(a, dropped, n).len(),
    ensures
        0 <= i < n,
        vacuum::kept(a, dropped, n)[k] == a[i],
        k < vacuum::kept(b, dropped, n).len(),
        vacuum::kept(b, dropped, n)[k] == b[i],
        !dropped[i],
    decreases n,
{
    vacuum::lemma_kept_agree(a, b, dropped, n - 1);
    if k < vacuum::kept(a, dropped, n - 1).len() {
        lemma_origin(a, b, dropped, n - 1, k)
    } else {
        n - 1
    }
}

/// Every version that is not to be dropped is kept.
pub proof fn law_rest_is_kept<A>(items: Seq<A>, dropped: Seq<bool>, n: int, i: int)
    requires
        0 <= i < n,
        !dropped[i],
    ensures
        vacuum::kept(items, dropped, n).contains(items[i]),
    decreases n,
{
    let after = vacuum::kept(items, dropped, n);
    if i == n - 1 {
        assert(after[after.len() - 1] == items[i]);
    } else {
        law_rest_is_kept(items, dropped, n - 1, i);
        let before = vacuum::kept(items, dropped, n - 1);
        let k = choose|k: int| 0 <= k < before.len() && before[k] == items[i];
        assert(after[k] == items[i]);
    }
}

/// Nothing that compaction leaves is dead, and what it leaves was there before.
pub proof fn law_only_live_is_kept(
    entries: Seq<Entry>,
    stamps: Seq<VersionStamp>,
    tm: TransactionManager,
    k: int,
)
    requires
        entries.len() == stamps.len(),
        0 <= k < vacuum::kept(
            entries,
            vacuum::dead_versions(stamps, tm),
            stamps.len() as int,
        ).len(),
    ensures
        ({
            let dead = vacuum::dead_versions(stamps, tm);
            let stamp = vacuum::kept(stamps, dead, stamps.len() as int)[k];
            &&& !vacuum::dead_version(stamp.xmin, stamp.xmax, tm)
            &&& entries.contains(vacuum::kept(entries, dead, stamps.len() as int)[k])
        }),
{
    let dead = vacuum::dead_versions(stamps, tm);
    let i = lemma_origin(entries, stamps, dead, stamps.len() as int, k);
    assert(entries[i] == vacuum::kept(entries, dead, stamps.len() as int)[k]);
}

/// A second compaction finds nothing dead.
pub proof fn law_compaction_idempotent(stamps: Seq<VersionStamp>, tm: TransactionManager)
    ensures
        ({
            let left = vacuum::kept(
                stamps,
                vacuum::dead_versions(stamps, tm),
                stamps.len() as int,
            );
            vacuum::kept(left, vacuum::dead_versions(left, tm), left.len() as int) == left
        }),
{
    let dead = vacuum::dead_versions(stamps, tm);
    let left = vacuum::kept(stamps, dead, stamps.len() as int);
    assert forall|j: int| 0 <= j < left.len() implies !(#[trigger] vacuum::dead_versions(
        left,
        tm,
    )[j]) by {
        let i = lemma_origin(stamps, stamps, dead, stamps.len() as int, j);
    }
    lemma_none_dropped(left, vacuum::dead_versions(left, tm), left.len() as int);
    assert(left.take(left.len() as int) =~= left);
}

proof fn lemma_none_dropped<A>(items: Seq<A>, dropped: Seq<bool>, n: int)
    requires
        0 <= n <= items.len(),
        forall|k: int| 0 <= k < n ==> !(#[trigger] dropped[k]),
    ensures
        vacuum::kept(items, dropped, n) == items.take(n),
    decreases n,
{
    if n > 0 {
        lemma_none_dropped(items, dropped, n - 1);
        assert(!dropped[n - 1]);
    }
    assert(vacuum::kept(items, dropped, n) =~= items.take(n));
}

/// A page that was in key order is in key order whatever versions are dropped.
pub proof fn law_vacuum_keeps_order<K: Key>(entries: Seq<Entry>, dropped: Seq<bool>, n: int)
    requires
        0 <= n <= entries.len(),
        leaf::keys_ascend::<K>(entries),
    ensures
        leaf::keys_ascend::<K>(vacuum::kept(entries, dropped, n)),
    decreases n,
{
    if n > 0 {
        law_vacuum_keeps_order::<K>(entries, dropped, n - 1);
        let before = vacuum::kept(entries, dropped, n - 1);
        if !dropped[n - 1] {
            assert forall|k: int| 0 <= k < before.len() implies leaf::key_below::<K>(
                #[trigger] before[k],
                entries[n - 1],
            ) by {
                let i = lemma_origin(entries, entries, dropped, n - 1, k);
                leaf::lemma_keys_below::<K>(entries, i, n - 1);
            }
            leaf::lemma_push_keeps_order::<K>(before, entries[n - 1]);
        }
    }
}

} // verus!
