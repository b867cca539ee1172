use kanban_boards::commands::snapshot::{
    get_all_snapshots, get_snapshot, snapshot_info, SnapshotData, SnapshotInfo, MAX_SNAPSHOTS,
};
use kanban_boards::database::snapshot::Mutation;
use kanban_boards::model::SnapshotModel;

fn snap(id: i32) -> SnapshotModel {
    SnapshotModel { id, snapshot_data: format!("data{}", id), created_at: format!("2024-01-{:02}", id % 28 + 1) }
}

#[test]
fn new_snapshot_row_keeps_its_data_and_time() {
    let row = Mutation::create_snapshot("{}".to_string(), "2024-05-01".to_string());
    assert_eq!(row.snapshot_data, "{}");
    assert_eq!(row.created_at, "2024-05-01");
}

#[test]
fn pruning_deletes_the_oldest_beyond_the_limit() {
    let all: Vec<SnapshotModel> = (1..=32).map(snap).collect();
    assert_eq!(Mutation::delete_oldest_snapshots(&all, MAX_SNAPSHOTS), vec![1, 2]);
    assert_eq!(Mutation::delete_oldest_snapshots(&all, 32), Vec::<i32>::new());
    assert_eq!(Mutation::delete_oldest_snapshots(&all, 40), Vec::<i32>::new());
    assert_eq!(Mutation::delete_oldest_snapshots(&all, 0).len(), 32);
    assert_eq!(Mutation::delete_oldest_snapshots(&Vec::new(), 0), Vec::<i32>::new());
}

#[test]
fn thirty_snapshots_are_kept() {
    assert_eq!(MAX_SNAPSHOTS, 30);
    let all: Vec<SnapshotModel> = (1..=31).map(snap).collect();
    let deleted = Mutation::delete_oldest_snapshots(&all, MAX_SNAPSHOTS);
    let kept: Vec<i32> = all.iter().map(|s| s.id).filter(|id| !deleted.contains(id)).collect();
    assert_eq!(kept, (2..=31).collect::<Vec<i32>>());
}

#[test]
fn snapshot_listing_and_reading() {
    let list = get_all_snapshots(vec![snap(3), snap(1)]);
    assert_eq!(list, vec![SnapshotInfo { id: 3, created_at: "2024-01-04".to_string() }, SnapshotInfo { id: 1, created_at: "2024-01-02".to_string() }]);
    assert_eq!(snapshot_info(&snap(2)), SnapshotInfo { id: 2, created_at: "2024-01-03".to_string() });
    assert_eq!(
        get_snapshot(Some(snap(5))),
        Some(SnapshotData { id: 5, created_at: "2024-01-06".to_string(), snapshot_data: "data5".to_string() })
    );
    assert_eq!(get_snapshot(None), None);
}
