use std::collections::HashMap;

use kanban_boards::color::{rgb_int_to_string, string_to_rgb_int};
use kanban_boards::commands::board::{
    board_output, get_all_boards, ActivityExport, BoardOutput, CategoryExport, CategoryTagExport,
    ColumnActivityExport, ColumnExport, CreateBoardInput, ImportBoardInput, UpdateBoardInput,
};
use kanban_boards::database::board::{DeletionStep, Mutation, Query};
use kanban_boards::database::transfer::{BoardTransfer, TransferRow};
use kanban_boards::model::{
    ActivityModel, AppError, BoardModel, CategoryModel, CategoryTagModel, ColumnModel,
    NewActivity, NewCategory, NewCategoryTag, NewColumn,
};

fn board(id: i32, name: &str) -> BoardModel {
    BoardModel {
        id,
        name: name.to_string(),
        created_at: "2024-01-01T00:00:00+00:00".to_string(),
        updated_at: "2024-01-02T00:00:00+00:00".to_string(),
    }
}

fn activity(id: i32, name: &str, body: Option<&str>, ordinal: i32, column_id: Option<i32>) -> ActivityModel {
    ActivityModel { id, name: name.to_string(), body: body.map(|b| b.to_string()), ordinal, column_id }
}

#[test]
fn board_output_copies_every_field() {
    let b = board(7, "Work");
    let out = BoardOutput::from(b.clone());
    assert_eq!(out.id, 7);
    assert_eq!(out.name, "Work");
    assert_eq!(out.created_at, "2024-01-01T00:00:00+00:00");
    assert_eq!(out.updated_at, "2024-01-02T00:00:00+00:00");
    assert_eq!(board_output(&b), out);
}

#[test]
fn all_boards_keep_their_order() {
    let out = get_all_boards(vec![board(2, "B"), board(1, "A")]);
    assert_eq!(out.len(), 2);
    assert_eq!(out[0].id, 2);
    assert_eq!(out[1].name, "A");
    assert!(get_all_boards(Vec::new()).is_empty());
}

#[test]
fn missing_board_is_row_not_found() {
    assert_eq!(Query::get_board_by_id(None), Err(AppError::RowNotFound));
    assert_eq!(Query::get_board_by_id(Some(board(3, "X"))), Ok(board(3, "X")));
}

#[test]
fn new_board_row_uses_one_time_for_both_stamps() {
    let row = Mutation::new_board_row(CreateBoardInput { name: "Plan".to_string() }, "T".to_string());
    assert_eq!(row.name, "Plan");
    assert_eq!(row.created_at, "T");
    assert_eq!(row.updated_at, "T");
}

#[test]
fn created_board_is_stamped_now_in_utc() {
    let row = Mutation::create_board(CreateBoardInput { name: "Plan".to_string() }).unwrap();
    assert_eq!(row.name, "Plan");
    assert_eq!(row.created_at, row.updated_at);
    assert!(row.created_at.len() >= 25);
    assert!(row.created_at.ends_with("+00:00"));
    assert_eq!(&row.created_at[4..5], "-");
}

#[test]
fn update_renames_only_when_a_name_is_given() {
    let b = board(5, "Old");
    let renamed = Mutation::apply_board_update(
        Some(b.clone()),
        UpdateBoardInput { id: 5, name: Some("New".to_string()) },
        "NOW".to_string(),
    )
    .unwrap();
    assert_eq!(renamed.name, "New");
    assert_eq!(renamed.id, 5);
    assert_eq!(renamed.created_at, b.created_at);
    assert_eq!(renamed.updated_at, "NOW");
    let kept = Mutation::apply_board_update(Some(b.clone()), UpdateBoardInput { id: 5, name: None }, "NOW".to_string())
        .unwrap();
    assert_eq!(kept.name, "Old");
    assert_eq!(kept.updated_at, "NOW");
    assert_eq!(
        Mutation::apply_board_update(None, UpdateBoardInput { id: 5, name: None }, "NOW".to_string()),
        Err(AppError::RowNotFound)
    );
    let now = Mutation::update_board(Some(b), UpdateBoardInput { id: 5, name: None }).unwrap();
    assert!(now.updated_at.ends_with("+00:00"));
    assert_eq!(Mutation::update_board(None, UpdateBoardInput { id: 5, name: None }), Err(AppError::RowNotFound));
}

#[test]
fn board_deletion_goes_from_leaves_to_board() {
    assert_eq!(
        Mutation::delete_board(4),
        vec![
            DeletionStep::ActivitiesOfBoardColumns(4),
            DeletionStep::TagsOfBoardCategories(4),
            DeletionStep::ColumnsOfBoard(4),
            DeletionStep::CategoriesOfBoard(4),
            DeletionStep::Board(4),
        ]
    );
}

#[test]
fn colors_are_written_as_lower_case_hex() {
    assert_eq!(rgb_int_to_string(0xff8800), "#ff8800");
    assert_eq!(rgb_int_to_string(0), "#000000");
    assert_eq!(rgb_int_to_string(0x0a0b0c), "#0a0b0c");
    assert_eq!(rgb_int_to_string(0x1ff8800), "#ff8800");
    assert_eq!(rgb_int_to_string(-1), "#ffffff");
}

#[test]
fn colors_are_read_from_hex_text() {
    assert_eq!(string_to_rgb_int("#ff8800"), 0xff8800);
    assert_eq!(string_to_rgb_int("#FF8800"), 0xff8800);
    assert_eq!(string_to_rgb_int("#000000"), 0);
    assert_eq!(string_to_rgb_int("ff8800"), 0);
    assert_eq!(string_to_rgb_int("#ff880"), 0);
    assert_eq!(string_to_rgb_int("#ff88zz"), 0);
    assert_eq!(string_to_rgb_int(""), 0);
}

#[test]
fn color_round_trips() {
    for c in [0, 1, 0x123456, 0xabcdef, 0xffffff] {
        assert_eq!(string_to_rgb_int(&rgb_int_to_string(c)), c);
    }
    for s in ["#00ff00", "#a1b2c3", "#ffffff"] {
        assert_eq!(rgb_int_to_string(string_to_rgb_int(s)), s);
    }
}

fn sample_export() -> kanban_boards::commands::board::ExportBoardOutput {
    let columns = vec![
        (
            ColumnModel { id: 10, name: "Todo".to_string(), ordinal: 0, board_id: Some(1) },
            vec![activity(100, "Write", Some("draft"), 0, Some(10)), activity(101, "Read", None, 1, Some(10))],
        ),
        (ColumnModel { id: 11, name: "Done".to_string(), ordinal: 1, board_id: Some(1) }, vec![]),
    ];
    let categories = vec![(
        CategoryModel { id: 20, name: "Priority".to_string(), ordinal: 0, board_id: Some(1) },
        vec![CategoryTagModel { id: 200, tag_name: "High".to_string(), color: 0xff0000, ordinal: 0, category_id: Some(20) }],
    )];
    let others = vec![activity(300, "Loose", None, 4, None)];
    Query::export_board(board(1, "Work"), columns, categories, others)
}

#[test]
fn export_keys_every_part_by_its_id() {
    let e = sample_export();
    assert_eq!(e.name, "Work");
    assert_eq!(e.columns.len(), 2);
    assert_eq!(e.columns[&10], ColumnExport { name: "Todo".to_string(), ordinal: 0, activities: vec![100, 101] });
    assert_eq!(e.columns[&11].activities, Vec::<i32>::new());
    assert_eq!(
        e.activities[&100],
        ColumnActivityExport {
            name: "Write".to_string(),
            body: Some("draft".to_string()),
            ordinal: 0,
            tags: vec![],
            column_id: 10
        }
    );
    assert_eq!(e.activities[&101].body, None);
    assert_eq!(e.other_activities[&300], ActivityExport { name: "Loose".to_string(), body: None, ordinal: 4, tags: vec![] });
    assert_eq!(e.categories[&20], CategoryExport { name: "Priority".to_string(), ordinal: 0, tags: vec![200] });
    assert_eq!(
        e.category_tags[&200],
        CategoryTagExport { name: "High".to_string(), color: "#ff0000".to_string(), ordinal: 0, category_id: 20 }
    );
    assert!(e.other_tags.is_empty());
}

#[test]
fn export_gives_activity_without_column_id_zero_and_later_rows_win() {
    let columns = vec![
        (ColumnModel { id: 1, name: "A".to_string(), ordinal: 0, board_id: Some(1) }, vec![activity(5, "x", None, 0, None)]),
        (ColumnModel { id: 1, name: "B".to_string(), ordinal: 1, board_id: Some(1) }, vec![]),
    ];
    let e = Query::export_board(board(1, "W"), columns, vec![], vec![]);
    assert_eq!(e.columns.len(), 1);
    assert_eq!(e.columns[&1].name, "B");
    assert_eq!(e.activities[&5].column_id, 0);
}

fn run(mut t: BoardTransfer, first_id: i32) -> Vec<(TransferRow, i32)> {
    let mut out = Vec::new();
    let mut id = first_id;
    while let Some(row) = t.next_row() {
        t.record_inserted(id);
        out.push((row, id));
        id += 1;
    }
    out
}

#[test]
fn import_remaps_references_to_new_ids() {
    let mut categories = HashMap::new();
    categories.insert(20, CategoryExport { name: "Priority".to_string(), ordinal: 0, tags: vec![200] });
    let mut category_tags = HashMap::new();
    category_tags.insert(200, CategoryTagExport { name: "High".to_string(), color: "#FF0000".to_string(), ordinal: 0, category_id: 20 });
    category_tags.insert(201, CategoryTagExport { name: "Lost".to_string(), color: "red".to_string(), ordinal: 1, category_id: 99 });
    let mut columns = HashMap::new();
    columns.insert(10, ColumnExport { name: "Todo".to_string(), ordinal: 0, activities: vec![100] });
    let mut activities = HashMap::new();
    activities.insert(100, ColumnActivityExport { name: "Write".to_string(), body: Some("b".to_string()), ordinal: 0, tags: vec![], column_id: 10 });
    let mut other_activities = HashMap::new();
    other_activities.insert(300, ActivityExport { name: "Loose".to_string(), body: None, ordinal: 2, tags: vec![] });
    let data = ImportBoardInput {
        name: String::new(),
        columns,
        activities,
        other_activities,
        categories,
        category_tags,
        other_tags: HashMap::new(),
    };
    let rows = run(Mutation::import_board(data).unwrap(), 1000);
    assert_eq!(rows.len(), 7);
    match &rows[0].0 {
        TransferRow::Board(b) => {
            assert_eq!(b.name, "Imported Board");
            assert_eq!(b.created_at, b.updated_at);
        },
        other => panic!("unexpected first row {:?}", other),
    }
    assert_eq!(rows[1].0, TransferRow::Category(NewCategory { name: "Priority".to_string(), ordinal: 0, board_id: Some(1000) }));
    let tags: Vec<&TransferRow> = rows[2..4].iter().map(|(r, _)| r).collect();
    assert!(tags.contains(&&TransferRow::Tag(NewCategoryTag { tag_name: "High".to_string(), color: 0xff0000, ordinal: 0, category_id: Some(1001) })));
    assert!(tags.contains(&&TransferRow::Tag(NewCategoryTag { tag_name: "Lost".to_string(), color: 0, ordinal: 1, category_id: None })));
    assert_eq!(rows[4].0, TransferRow::Column(NewColumn { name: "Todo".to_string(), ordinal: 0, board_id: Some(1000) }));
    assert_eq!(
        rows[5].0,
        TransferRow::Activity(NewActivity { name: "Write".to_string(), body: Some("b".to_string()), column_id: Some(1004), ordinal: 0 })
    );
    assert_eq!(rows[6].0, TransferRow::Activity(NewActivity { name: "Loose".to_string(), body: None, column_id: None, ordinal: 2 }));
}

#[test]
fn import_keeps_a_given_name() {
    assert_eq!(Mutation::import_board_name("Mine".to_string()), "Mine");
    assert_eq!(Mutation::import_board_name(String::new()), "Imported Board");
}

#[test]
fn duplicate_names_default_to_a_copy_of_the_source() {
    assert_eq!(Mutation::duplicate_board_name(&"Work".to_string(), String::new()), "Work (Copy)");
    assert_eq!(Mutation::duplicate_board_name(&"Work".to_string(), "Other".to_string()), "Other");
}

#[test]
fn duplicate_copies_an_export() {
    let e = sample_export();
    let rows = run(Mutation::duplicate_board(e, String::new()).unwrap(), 50);
    assert_eq!(rows.len(), 1 + 1 + 1 + 2 + 2 + 1);
    match &rows[0].0 {
        TransferRow::Board(b) => assert_eq!(b.name, "Work (Copy)"),
        other => panic!("unexpected first row {:?}", other),
    }
    assert_eq!(rows[1].0, TransferRow::Category(NewCategory { name: "Priority".to_string(), ordinal: 0, board_id: Some(50) }));
    assert_eq!(rows[2].0, TransferRow::Tag(NewCategoryTag { tag_name: "High".to_string(), color: 0xff0000, ordinal: 0, category_id: Some(51) }));
    let column_rows: Vec<(TransferRow, i32)> = rows[3..5].to_vec();
    let todo_id = column_rows
        .iter()
        .find(|(r, _)| *r == TransferRow::Column(NewColumn { name: "Todo".to_string(), ordinal: 0, board_id: Some(50) }))
        .map(|(_, id)| *id)
        .unwrap();
    for (row, _) in &rows[5..7] {
        match row {
            TransferRow::Activity(a) => assert_eq!(a.column_id, Some(todo_id)),
            other => panic!("unexpected row {:?}", other),
        }
    }
    assert_eq!(rows[7].0, TransferRow::Activity(NewActivity { name: "Loose".to_string(), body: None, column_id: None, ordinal: 4 }));
}

#[test]
fn duplicate_keeps_twin_columns_and_categories_apart() {
    let mut columns = HashMap::new();
    columns.insert(10, ColumnExport { name: "Todo".to_string(), ordinal: 0, activities: vec![100] });
    columns.insert(11, ColumnExport { name: "Todo".to_string(), ordinal: 0, activities: vec![101] });
    let mut activities = HashMap::new();
    activities.insert(100, ColumnActivityExport { name: "a".to_string(), body: None, ordinal: 0, tags: vec![], column_id: 10 });
    activities.insert(101, ColumnActivityExport { name: "b".to_string(), body: None, ordinal: 0, tags: vec![], column_id: 11 });
    let mut categories = HashMap::new();
    categories.insert(1, CategoryExport { name: "Same".to_string(), ordinal: 0, tags: vec![7] });
    categories.insert(2, CategoryExport { name: "Same".to_string(), ordinal: 0, tags: vec![8] });
    let mut category_tags = HashMap::new();
    category_tags.insert(7, CategoryTagExport { name: "t".to_string(), color: "#000001".to_string(), ordinal: 0, category_id: 1 });
    category_tags.insert(8, CategoryTagExport { name: "u".to_string(), color: "#000002".to_string(), ordinal: 0, category_id: 2 });
    let e = kanban_boards::commands::board::ExportBoardOutput {
        name: "W".to_string(),
        columns,
        activities,
        other_activities: HashMap::new(),
        categories,
        category_tags,
        other_tags: HashMap::new(),
    };
    let rows = run(Mutation::duplicate_board(e, "Dup".to_string()).unwrap(), 10);
    assert_eq!(rows.len(), 1 + 2 + 2 + 2 + 2);
    // Every tag and every activity points at a category or column copy, and no
    // two at the same one.
    let category_copies: Vec<i32> = rows[1..3].iter().map(|(_, id)| *id).collect();
    let mut tag_categories = Vec::new();
    for (row, _) in &rows[3..5] {
        match row {
            TransferRow::Tag(t) => tag_categories.push(t.category_id.unwrap()),
            other => panic!("unexpected row {:?}", other),
        }
    }
    tag_categories.sort();
    assert_eq!(tag_categories, category_copies);
    let column_copies: Vec<i32> = rows[5..7].iter().map(|(_, id)| *id).collect();
    let mut activity_columns = Vec::new();
    for (row, _) in &rows[7..9] {
        match row {
            TransferRow::Activity(a) => activity_columns.push(a.column_id.unwrap()),
            other => panic!("unexpected row {:?}", other),
        }
    }
    activity_columns.sort();
    assert_eq!(activity_columns, column_copies);
}
