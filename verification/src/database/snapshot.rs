//! Decisions of the snapshot store: the row a new snapshot is stored as, and
//! which snapshots are pruned when too many are kept.

use vstd::prelude::*;

use crate::commands::snapshot::MAX_SNAPSHOTS;
use crate::model::{NewSnapshot, SnapshotModel};

verus! {

/// Reads of the snapshot store.
pub struct Query;

/// Changes to the snapshot store.
pub struct Mutation;

/// How many of `total` snapshots are pruned when `keep` are to be kept.
pub open spec fn prune_count(total: nat, keep: nat) -> nat {
    if total > keep {
        (total - keep) as nat
    } else {
        0
    }
}

/// The ids of the first `n` snapshots of `all`.
pub open spec fn ids_of_first(all: Seq<SnapshotModel>, n: nat) -> Seq<i32> {
    all.take(n as int).map_values(|s: SnapshotModel| s.id)
}

/// Holds when no two snapshots of `all` share an id.
pub open spec fn ids_distinct(all: Seq<SnapshotModel>) -> bool {
    forall|i: int, j: int| 0 <= i < all.len() && 0 <= j < all.len() && i != j ==> all[i].id != all[j].id
}

impl Mutation {
    /// The row that stores a new snapshot: its data and its creation time, as given.
    pub fn create_snapshot(snapshot_data: String, created_at: String) -> (r: NewSnapshot)
        ensures
            r.snapshot_data == snapshot_data,
            r.created_at == created_at,
    {
        NewSnapshot { snapshot_data, created_at }
    }

    /// Which snapshots to delete so that at most `keep_count` remain. `all_snapshots`
    /// holds every stored snapshot, oldest first; the ids returned are those of the
    /// oldest ones, in that order, as many as exceed `keep_count` (none if none do).
    pub fn delete_oldest_snapshots(all_snapshots: &Vec<SnapshotModel>, keep_count: u64) -> (r: Vec<i32>)
        ensures
            r@ == ids_of_first(all_snapshots@, prune_count(all_snapshots@.len(), keep_count as nat)),
    {
        let total = all_snapshots.len();
        let mut r: Vec<i32> = Vec::new();
        let ghost d = prune_count(all_snapshots@.len(), keep_count as nat);
        if (total as u64) > keep_count {
            let to_delete = ((total as u64) - keep_count) as usize;
            for i in 0..to_delete
                invariant
                    to_delete == d,
                    d <= all_snapshots@.len(),
                    r@ == ids_of_first(all_snapshots@, i as nat),
            {
                proof {
                    assert(all_snapshots@.take(i + 1) == all_snapshots@.take(i as int).push(all_snapshots@[i as int]));
                }
                r.push(all_snapshots[i].id);
            }
        } else {
            assert(ids_of_first(all_snapshots@, 0) =~= Seq::<i32>::empty());
        }
        r
    }
}

/// Pruning keeps exactly the newest snapshots: when the ids are distinct, a
/// snapshot of `all` (oldest first) is deleted if and only if it is among the
/// first `len - min(len, keep)`, and `min(len, keep)` of them remain.
pub proof fn lemma_pruning_keeps_newest(all: Seq<SnapshotModel>, keep: nat)
    requires
        ids_distinct(all),
    ensures
        ({
            let d = prune_count(all.len(), keep);
            let deleted = ids_of_first(all, d);
            &&& all.len() - d == (if all.len() < keep { all.len() } else { keep })
            &&& forall|i: int| 0 <= i < all.len() ==> (deleted.contains(#[trigger] all[i].id) <==> i < d)
        }),
{
    let d = prune_count(all.len(), keep);
    let deleted = ids_of_first(all, d);
    assert forall|i: int| 0 <= i < all.len() implies (deleted.contains(#[trigger] all[i].id) <==> i < d) by {
        if i < d {
            assert(deleted[i] == all[i].id);
        }
        if deleted.contains(all[i].id) {
            let k = choose|k: int| 0 <= k < deleted.len() && deleted[k] == all[i].id;
            assert(deleted[k] == all[k].id);
        }
    }
}

/// After a snapshot is created and the store pruned to [`MAX_SNAPSHOTS`], at most
/// that many remain: of the `n + 1` stored snapshots (oldest first, ids distinct)
/// exactly `min(n + 1, MAX_SNAPSHOTS)` are kept. If fewer than [`MAX_SNAPSHOTS`]
/// were stored before, nothing is deleted, so the new snapshot stays. Pruning
/// what is left deletes nothing more.
pub proof fn lemma_snapshot_bound_after_creation(all: Seq<SnapshotModel>, n: nat)
    requires
        ids_distinct(all),
        all.len() == n + 1,
    ensures
        ({
            let d = prune_count(all.len(), MAX_SNAPSHOTS as nat);
            &&& all.len() - d == (if n + 1 < MAX_SNAPSHOTS { (n + 1) as int } else { MAX_SNAPSHOTS as int })
            &&& all.len() - d <= MAX_SNAPSHOTS
            &&& n < MAX_SNAPSHOTS ==> ids_of_first(all, d) == Seq::<i32>::empty()
            &&& prune_count((all.len() - d) as nat, MAX_SNAPSHOTS as nat) == 0
        }),
{
    lemma_pruning_keeps_newest(all, MAX_SNAPSHOTS as nat);
    let d = prune_count(all.len(), MAX_SNAPSHOTS as nat);
    if n < MAX_SNAPSHOTS {
        assert(ids_of_first(all, d) =~= Seq::<i32>::empty());
    }
}

} // verus!
