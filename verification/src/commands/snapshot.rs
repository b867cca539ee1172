//! The values that snapshot commands take and give back.

use vstd::prelude::*;

use crate::model::SnapshotModel;

verus! {

/// A snapshot as listed: its id and when it was taken.
#[derive(Clone, Debug, PartialEq, Eq)]
pub struct SnapshotInfo {
    pub id: i32,
    pub created_at: String,
}

/// A snapshot with its data.
#[derive(Clone, Debug, PartialEq, Eq)]
pub struct SnapshotData {
    pub id: i32,
    pub created_at: String,
    pub snapshot_data: String,
}

/// The input of a snapshot creation.
#[derive(Clone, Debug, PartialEq, Eq)]
pub struct CreateSnapshotInput {
    pub snapshot_data: String,
    pub created_at: String,
}

/// How many snapshots are kept; older ones are pruned after each creation.
pub const MAX_SNAPSHOTS: u64 = 30;

/// What the commands report of a stored snapshot in a listing.
pub open spec fn snapshot_info_of(s: SnapshotModel) -> SnapshotInfo {
    SnapshotInfo { id: s.id, created_at: s.created_at }
}

/// What the commands report of a stored snapshot with its data.
pub open spec fn snapshot_data_of(s: SnapshotModel) -> SnapshotData {
    SnapshotData { id: s.id, created_at: s.created_at, snapshot_data: s.snapshot_data }
}

/// The listing entry of a stored snapshot.
pub fn snapshot_info(s: &SnapshotModel) -> (r: SnapshotInfo)
    ensures
        r == snapshot_info_of(*s),
{
    SnapshotInfo { id: s.id, created_at: s.created_at.clone() }
}

/// What listing the snapshots reports: one entry per stored snapshot, in the order given.
pub fn get_all_snapshots(snapshots: Vec<SnapshotModel>) -> (r: Vec<SnapshotInfo>)
    ensures
        r.len() == snapshots.len(),
        forall|i: int| 0 <= i < snapshots.len() ==> #[trigger] r@[i] == snapshot_info_of(snapshots@[i]),
{
    let mut r: Vec<SnapshotInfo> = Vec::new();
    let n = snapshots.len();
    for i in 0..n
        invariant
            n == snapshots.len(),
            r.len() == i,
            forall|j: int| 0 <= j < i ==> #[trigger] r@[j] == snapshot_info_of(snapshots@[j]),
    {
        r.push(snapshot_info(&snapshots[i]));
    }
    r
}

/// What reading one snapshot reports: its data if it exists, `None` if not.
pub fn get_snapshot(snapshot: Option<SnapshotModel>) -> (r: Option<SnapshotData>)
    ensures
        r == match snapshot {
            Some(s) => Some(snapshot_data_of(s)),
            None => None::<SnapshotData>,
        },
{
    match snapshot {
        Some(s) => Some(SnapshotData { id: s.id, created_at: s.created_at, snapshot_data: s.snapshot_data }),
        None => None,
    }
}

} // verus!
