//! Decisions of the board store: how a board is exported from its stored
//! rows, how a new or updated board row looks, and in which order the rows of
//! a deleted board go.

use std::collections::HashMap;
use vstd::prelude::*;

use crate::color::{color_text_of_int, rgb_int_to_string};
use crate::commands::board::{
    ActivityExport, ActivityExportView, BoardExportView, CategoryExport, CategoryExportView,
    CategoryTagExport, CategoryTagExportView, ColumnActivityExport, ColumnActivityExportView,
    ColumnExport, ColumnExportView, ExportBoardOutput,
};
use crate::clock::{is_clock_text, is_utc_rfc3339_shaped, now_rfc3339};
use crate::commands::board::{CreateBoardInput, UpdateBoardInput};
use crate::model::{
    copy_opt_string, opt_str_view, ActivityModel, AppError, BoardModel, CategoryModel,
    CategoryTagModel, ColumnModel, NewBoard,
};

verus! {

broadcast use vstd::std_specs::hash::group_hash_axioms;

/// Reads of the board store.
pub struct Query;

/// Changes to the board store.
pub struct Mutation;

/// The export of a column with its activities.
pub open spec fn column_export_of(col: ColumnModel, acts: Seq<ActivityModel>) -> ColumnExportView {
    ColumnExportView {
        name: col.name@,
        ordinal: col.ordinal,
        activities: acts.map_values(|a: ActivityModel| a.id),
    }
}

/// The export of an activity of a column; an activity with no column gets column id 0.
pub open spec fn column_activity_export_of(a: ActivityModel) -> ColumnActivityExportView {
    ColumnActivityExportView {
        name: a.name@,
        body: opt_str_view(a.body),
        ordinal: a.ordinal,
        tags: Seq::empty(),
        column_id: match a.column_id {
            Some(c) => c,
            None => 0,
        },
    }
}

/// The export of an activity outside the columns.
pub open spec fn activity_export_of(a: ActivityModel) -> ActivityExportView {
    ActivityExportView { name: a.name@, body: opt_str_view(a.body), ordinal: a.ordinal, tags: Seq::empty() }
}

/// The export of a category with its tags.
pub open spec fn category_export_of(cat: CategoryModel, tags: Seq<CategoryTagModel>) -> CategoryExportView {
    CategoryExportView {
        name: cat.name@,
        ordinal: cat.ordinal,
        tags: tags.map_values(|t: CategoryTagModel| t.id),
    }
}

/// The export of a tag of the category with id `category_id`.
pub open spec fn category_tag_export_of(t: CategoryTagModel, category_id: i32) -> CategoryTagExportView {
    CategoryTagExportView {
        name: t.tag_name@,
        color: color_text_of_int(t.color),
        ordinal: t.ordinal,
        category_id,
    }
}

/// The exported columns, keyed by column id; a later column with the same id replaces an earlier one.
pub open spec fn columns_export(cols: Seq<(ColumnModel, Vec<ActivityModel>)>) -> Map<i32, ColumnExportView>
    decreases cols.len(),
{
    if cols.len() == 0 {
        Map::empty()
    } else {
        let last = cols.last();
        columns_export(cols.drop_last()).insert(last.0.id, column_export_of(last.0, last.1@))
    }
}

/// `m` with the activities `acts` added in order, keyed by activity id.
pub open spec fn with_column_activities(
    m: Map<i32, ColumnActivityExportView>,
    acts: Seq<ActivityModel>,
) -> Map<i32, ColumnActivityExportView>
    decreases acts.len(),
{
    if acts.len() == 0 {
        m
    } else {
        with_column_activities(m, acts.drop_last()).insert(acts.last().id, column_activity_export_of(acts.last()))
    }
}

/// The exported activities of all columns, keyed by activity id, columns in order.
pub open spec fn column_activities_export(cols: Seq<(ColumnModel, Vec<ActivityModel>)>) -> Map<i32, ColumnActivityExportView>
    decreases cols.len(),
{
    if cols.len() == 0 {
        Map::empty()
    } else {
        with_column_activities(column_activities_export(cols.drop_last()), cols.last().1@)
    }
}

/// The exported activities outside the columns, keyed by activity id.
pub open spec fn other_activities_export(acts: Seq<ActivityModel>) -> Map<i32, ActivityExportView>
    decreases acts.len(),
{
    if acts.len() == 0 {
        Map::empty()
    } else {
        other_activities_export(acts.drop_last()).insert(acts.last().id, activity_export_of(acts.last()))
    }
}

/// The exported categories, keyed by category id.
pub open spec fn categories_export(cats: Seq<(CategoryModel, Vec<CategoryTagModel>)>) -> Map<i32, CategoryExportView>
    decreases cats.len(),
{
    if cats.len() == 0 {
        Map::empty()
    } else {
        let last = cats.last();
        categories_export(cats.drop_last()).insert(last.0.id, category_export_of(last.0, last.1@))
    }
}

/// `m` with the tags `tags` of the category `category_id` added in order, keyed by tag id.
pub open spec fn with_category_tags(
    m: Map<i32, CategoryTagExportView>,
    tags: Seq<CategoryTagModel>,
    category_id: i32,
) -> Map<i32, CategoryTagExportView>
    decreases tags.len(),
{
    if tags.len() == 0 {
        m
    } else {
        with_category_tags(m, tags.drop_last(), category_id).insert(
            tags.last().id,
            category_tag_export_of(tags.last(), category_id),
        )
    }
}

/// The exported tags of all categories, keyed by tag id, categories in order.
pub open spec fn category_tags_export(cats: Seq<(CategoryModel, Vec<CategoryTagModel>)>) -> Map<i32, CategoryTagExportView>
    decreases cats.len(),
{
    if cats.len() == 0 {
        Map::empty()
    } else {
        with_category_tags(category_tags_export(cats.drop_last()), cats.last().1@, cats.last().0.id)
    }
}

/// The export of a board from its stored rows.
pub open spec fn board_export_of(
    board: BoardModel,
    columns_data: Seq<(ColumnModel, Vec<ActivityModel>)>,
    categories_data: Seq<(CategoryModel, Vec<CategoryTagModel>)>,
    other_activities: Seq<ActivityModel>,
) -> BoardExportView {
    BoardExportView {
        name: board.name@,
        columns: columns_export(columns_data),
        activities: column_activities_export(columns_data),
        other_activities: other_activities_export(other_activities),
        categories: categories_export(categories_data),
        category_tags: category_tags_export(categories_data),
        other_tags: Map::empty(),
    }
}

fn activity_ids(acts: &Vec<ActivityModel>) -> (r: Vec<i32>)
    ensures
        r@ == acts@.map_values(|a: ActivityModel| a.id),
{
    let mut r: Vec<i32> = Vec::new();
    for i in 0..acts.len()
        invariant
            r@ == acts@.take(i as int).map_values(|a: ActivityModel| a.id),
    {
        assert(acts@.take(i + 1) == acts@.take(i as int).push(acts@[i as int]));
        r.push(acts[i].id);
    }
    assert(acts@.take(acts.len() as int) == acts@);
    r
}

fn tag_ids(tags: &Vec<CategoryTagModel>) -> (r: Vec<i32>)
    ensures
        r@ == tags@.map_values(|t: CategoryTagModel| t.id),
{
    let mut r: Vec<i32> = Vec::new();
    for i in 0..tags.len()
        invariant
            r@ == tags@.take(i as int).map_values(|t: CategoryTagModel| t.id),
    {
        assert(tags@.take(i + 1) == tags@.take(i as int).push(tags@[i as int]));
        r.push(tags[i].id);
    }
    assert(tags@.take(tags.len() as int) == tags@);
    r
}

fn column_activity_export(a: &ActivityModel) -> (r: ColumnActivityExport)
    ensures
        r@ == column_activity_export_of(*a),
{
    ColumnActivityExport {
        name: a.name.clone(),
        body: copy_opt_string(&a.body),
        ordinal: a.ordinal,
        tags: Vec::new(),
        column_id: match a.column_id {
            Some(c) => c,
            None => 0,
        },
    }
}

fn export_columns(cols: &Vec<(ColumnModel, Vec<ActivityModel>)>) -> (r: (HashMap<i32, ColumnExport>, HashMap<i32, ColumnActivityExport>))
    ensures
        r.0@.map_values(|v: ColumnExport| v@) == columns_export(cols@),
        r.1@.map_values(|v: ColumnActivityExport| v@) == column_activities_export(cols@),
{
    let mut columns: HashMap<i32, ColumnExport> = HashMap::new();
    let mut activities: HashMap<i32, ColumnActivityExport> = HashMap::new();
    assert(columns@.map_values(|v: ColumnExport| v@) =~= Map::empty());
    assert(activities@.map_values(|v: ColumnActivityExport| v@) =~= Map::empty());
    for i in 0..cols.len()
        invariant
            columns@.map_values(|v: ColumnExport| v@) == columns_export(cols@.take(i as int)),
            activities@.map_values(|v: ColumnActivityExport| v@) == column_activities_export(cols@.take(i as int)),
    {
        let ghost before = cols@.take(i as int);
        assert(cols@.take(i + 1).drop_last() == before);
        let column = &cols[i].0;
        let col_activities = &cols[i].1;
        let entry = ColumnExport {
            name: column.name.clone(),
            ordinal: column.ordinal,
            activities: activity_ids(col_activities),
        };
        let ghost old_columns = columns@;
        columns.insert(column.id, entry);
        assert(columns@.map_values(|v: ColumnExport| v@) =~= old_columns.map_values(|v: ColumnExport| v@).insert(
            column.id,
            column_export_of(*column, col_activities@),
        ));
        let n = col_activities.len();
        for j in 0..n
            invariant
                n == col_activities@.len(),
                activities@.map_values(|v: ColumnActivityExport| v@) == with_column_activities(
                    column_activities_export(before),
                    col_activities@.take(j as int),
                ),
        {
            assert(col_activities@.take(j + 1).drop_last() == col_activities@.take(j as int));
            let a = &col_activities[j];
            let ghost old_activities = activities@;
            activities.insert(a.id, column_activity_export(a));
            assert(activities@.map_values(|v: ColumnActivityExport| v@) =~= old_activities.map_values(
                |v: ColumnActivityExport| v@,
            ).insert(a.id, column_activity_export_of(*a)));
        }
        assert(col_activities@.take(n as int) == col_activities@);
    }
    assert(cols@.take(cols.len() as int) == cols@);
    (columns, activities)
}

fn export_other_activities(acts: &Vec<ActivityModel>) -> (r: HashMap<i32, ActivityExport>)
    ensures
        r@.map_values(|v: ActivityExport| v@) == other_activities_export(acts@),
{
    let mut m: HashMap<i32, ActivityExport> = HashMap::new();
    assert(m@.map_values(|v: ActivityExport| v@) =~= Map::empty());
    for i in 0..acts.len()
        invariant
            m@.map_values(|v: ActivityExport| v@) == other_activities_export(acts@.take(i as int)),
    {
        assert(acts@.take(i + 1).drop_last() == acts@.take(i as int));
        let a = &acts[i];
        let entry = ActivityExport {
            name: a.name.clone(),
            body: copy_opt_string(&a.body),
            ordinal: a.ordinal,
            tags: Vec::new(),
        };
        let ghost old_m = m@;
        m.insert(a.id, entry);
        assert(m@.map_values(|v: ActivityExport| v@) =~= old_m.map_values(|v: ActivityExport| v@).insert(
            a.id,
            activity_export_of(*a),
        ));
    }
    assert(acts@.take(acts.len() as int) == acts@);
    m
}

fn export_categories(cats: &Vec<(CategoryModel, Vec<CategoryTagModel>)>) -> (r: (HashMap<i32, CategoryExport>, HashMap<i32, CategoryTagExport>))
    ensures
        r.0@.map_values(|v: CategoryExport| v@) == categories_export(cats@),
        r.1@.map_values(|v: CategoryTagExport| v@) == category_tags_export(cats@),
{
    let mut categories: HashMap<i32, CategoryExport> = HashMap::new();
    let mut tags_map: HashMap<i32, CategoryTagExport> = HashMap::new();
    assert(categories@.map_values(|v: CategoryExport| v@) =~= Map::empty());
    assert(tags_map@.map_values(|v: CategoryTagExport| v@) =~= Map::empty());
    for i in 0..cats.len()
        invariant
            categories@.map_values(|v: CategoryExport| v@) == categories_export(cats@.take(i as int)),
            tags_map@.map_values(|v: CategoryTagExport| v@) == category_tags_export(cats@.take(i as int)),
    {
        let ghost before = cats@.take(i as int);
        assert(cats@.take(i + 1).drop_last() == before);
        let category = &cats[i].0;
        let tags = &cats[i].1;
        let entry = CategoryExport { name: category.name.clone(), ordinal: category.ordinal, tags: tag_ids(tags) };
        let ghost old_categories = categories@;
        categories.insert(category.id, entry);
        assert(categories@.map_values(|v: CategoryExport| v@) =~= old_categories.map_values(|v: CategoryExport| v@).insert(
            category.id,
            category_export_of(*category, tags@),
        ));
        let n = tags.len();
        for j in 0..n
            invariant
                n == tags@.len(),
                tags_map@.map_values(|v: CategoryTagExport| v@) == with_category_tags(
                    category_tags_export(before),
                    tags@.take(j as int),
                    category.id,
                ),
        {
            assert(tags@.take(j + 1).drop_last() == tags@.take(j as int));
            let t = &tags[j];
            let entry = CategoryTagExport {
                name: t.tag_name.clone(),
                color: rgb_int_to_string(t.color),
                ordinal: t.ordinal,
                category_id: category.id,
            };
            let ghost old_tags = tags_map@;
            tags_map.insert(t.id, entry);
            assert(tags_map@.map_values(|v: CategoryTagExport| v@) =~= old_tags.map_values(|v: CategoryTagExport| v@).insert(
                t.id,
                category_tag_export_of(*t, category.id),
            ));
        }
        assert(tags@.take(n as int) == tags@);
    }
    assert(cats@.take(cats.len() as int) == cats@);
    (categories, tags_map)
}

impl Query {
    /// The export of a board, from the board row, its columns each with its
    /// activities, its categories each with its tags, and the activities that sit
    /// in no column. Every part is keyed by its stored id (a later row with the
    /// same id replaces an earlier one); activities and tags carry no tags of
    /// their own; tag colours are written as text; there are no other tags.
    pub fn export_board(
        board: BoardModel,
        columns_data: Vec<(ColumnModel, Vec<ActivityModel>)>,
        categories_data: Vec<(CategoryModel, Vec<CategoryTagModel>)>,
        other_activities: Vec<ActivityModel>,
    ) -> (r: ExportBoardOutput)
        ensures
            r@ == board_export_of(board, columns_data@, categories_data@, other_activities@),
            r.name@ == board.name@,
            r.other_tags@.len() == 0,
    {
        let (columns, activities) = export_columns(&columns_data);
        let other = export_other_activities(&other_activities);
        let (categories, category_tags) = export_categories(&categories_data);
        let other_tags = HashMap::new();
        let r = ExportBoardOutput {
            name: board.name,
            columns,
            activities,
            other_activities: other,
            categories,
            category_tags,
            other_tags,
        };
        assert(r@.other_tags =~= Map::empty());
        r
    }
}

impl Query {
    /// The board that a lookup by id found; a lookup that found nothing is `RowNotFound`.
    pub fn get_board_by_id(found: Option<BoardModel>) -> (r: Result<BoardModel, AppError>)
        ensures
            r == match found {
                Some(b) => Ok::<BoardModel, AppError>(b),
                None => Err(AppError::RowNotFound),
            },
    {
        match found {
            Some(b) => Ok(b),
            None => Err(AppError::RowNotFound),
        }
    }
}

/// The row of a board created with `data` at time `now`.
pub open spec fn new_board_of(data: CreateBoardInput, now: String) -> NewBoard {
    NewBoard { name: data.name, created_at: now, updated_at: now }
}

/// A board after an update at time `now`: a new name if `data` has one, the new
/// update time, everything else as it was.
pub open spec fn updated_board_of(b: BoardModel, data: UpdateBoardInput, now: String) -> BoardModel {
    BoardModel {
        id: b.id,
        name: match data.name {
            Some(n) => n,
            None => b.name,
        },
        created_at: b.created_at,
        updated_at: now,
    }
}

impl Mutation {
    /// The row of a board created with `data` at time `now`: the given name, and
    /// `now` as both its creation and its update time.
    pub fn new_board_row(data: CreateBoardInput, now: String) -> (r: NewBoard)
        ensures
            r == new_board_of(data, now),
    {
        let updated_at = now.clone();
        NewBoard { name: data.name, created_at: now, updated_at }
    }

    /// The row of a board created with `data` now, the time read from the clock;
    /// `ClockUnavailable` when the clock cannot be read.
    pub fn create_board(data: CreateBoardInput) -> (r: Result<NewBoard, AppError>)
        ensures
            match r {
                Ok(b) => b == new_board_of(data, b.created_at) && is_utc_rfc3339_shaped(b.created_at@)
                    && is_clock_text(b.created_at@),
                Err(e) => e == AppError::ClockUnavailable,
            },
    {
        match now_rfc3339() {
            Some(now) => Ok(Self::new_board_row(data, now)),
            None => Err(AppError::ClockUnavailable),
        }
    }

    /// The update of the board that a lookup by `data.id` found, at time `now`;
    /// a lookup that found nothing is `RowNotFound`.
    pub fn apply_board_update(found: Option<BoardModel>, data: UpdateBoardInput, now: String) -> (r: Result<BoardModel, AppError>)
        ensures
            r == match found {
                Some(b) => Ok::<BoardModel, AppError>(updated_board_of(b, data, now)),
                None => Err(AppError::RowNotFound),
            },
    {
        match found {
            Some(b) => {
                let name = match data.name {
                    Some(n) => n,
                    None => b.name,
                };
                Ok(BoardModel { id: b.id, name, created_at: b.created_at, updated_at: now })
            },
            None => Err(AppError::RowNotFound),
        }
    }

    /// The update of the board that a lookup by `data.id` found, at the time read
    /// from the clock; a lookup that found nothing is `RowNotFound`, and a clock
    /// that cannot be read is `ClockUnavailable`.
    pub fn update_board(found: Option<BoardModel>, data: UpdateBoardInput) -> (r: Result<BoardModel, AppError>)
        ensures
            match found {
                Some(b) => match r {
                    Ok(u) => u == updated_board_of(b, data, u.updated_at) && is_utc_rfc3339_shaped(u.updated_at@)
                        && is_clock_text(u.updated_at@),
                    Err(e) => e == AppError::ClockUnavailable,
                },
                None => r == Err::<BoardModel, AppError>(AppError::RowNotFound),
            },
    {
        match found {
            Some(b) => match now_rfc3339() {
                Some(now) => Self::apply_board_update(Some(b), data, now),
                None => Err(AppError::ClockUnavailable),
            },
            None => Err(AppError::RowNotFound),
        }
    }
}

/// One deletion of the rows of a board, each naming the board.
#[derive(Clone, Copy, Debug, PartialEq, Eq)]
pub enum DeletionStep {
    /// The activities whose column belongs to the board.
    ActivitiesOfBoardColumns(i32),
    /// The tags whose category belongs to the board.
    TagsOfBoardCategories(i32),
    /// The columns of the board.
    ColumnsOfBoard(i32),
    /// The categories of the board.
    CategoriesOfBoard(i32),
    /// The board itself.
    Board(i32),
}

/// The deletions of board `board_id`, in the order they are carried out.
pub open spec fn board_deletion_plan(board_id: i32) -> Seq<DeletionStep> {
    seq![
        DeletionStep::ActivitiesOfBoardColumns(board_id),
        DeletionStep::TagsOfBoardCategories(board_id),
        DeletionStep::ColumnsOfBoard(board_id),
        DeletionStep::CategoriesOfBoard(board_id),
        DeletionStep::Board(board_id),
    ]
}

impl Mutation {
    /// The deletions that remove board `board_id` with everything that belongs to it,
    /// carried out in this order within one transaction: the activities of its
    /// columns, the tags of its categories, its columns, its categories, the board.
    pub fn delete_board(board_id: i32) -> (r: Vec<DeletionStep>)
        ensures
            r@ == board_deletion_plan(board_id),
    {
        let r = vec![
            DeletionStep::ActivitiesOfBoardColumns(board_id),
            DeletionStep::TagsOfBoardCategories(board_id),
            DeletionStep::ColumnsOfBoard(board_id),
            DeletionStep::CategoriesOfBoard(board_id),
            DeletionStep::Board(board_id),
        ];
        assert(r@ =~= board_deletion_plan(board_id));
        r
    }
}

/// The rows of the board store, as a model of what the deletions act on.
pub struct StoreRows {
    pub boards: Seq<BoardModel>,
    pub columns: Seq<ColumnModel>,
    pub activities: Seq<ActivityModel>,
    pub categories: Seq<CategoryModel>,
    pub tags: Seq<CategoryTagModel>,
}

/// Holds when `column_id` names a column of `rows` that belongs to board `b`.
pub open spec fn in_board_column(rows: StoreRows, column_id: Option<i32>, b: i32) -> bool {
    match column_id {
        Some(c) => exists|k: int| 0 <= k < rows.columns.len() && #[trigger] rows.columns[k].id == c
            && rows.columns[k].board_id == Some(b),
        None => false,
    }
}

/// Holds when `category_id` names a category of `rows` that belongs to board `b`.
pub open spec fn in_board_category(rows: StoreRows, category_id: Option<i32>, b: i32) -> bool {
    match category_id {
        Some(c) => exists|k: int| 0 <= k < rows.categories.len() && #[trigger] rows.categories[k].id == c
            && rows.categories[k].board_id == Some(b),
        None => false,
    }
}

/// The rows left after one deletion; each deletion selects its rows in the
/// rows as they stand when it runs.
pub open spec fn apply_deletion(rows: StoreRows, step: DeletionStep) -> StoreRows {
    match step {
        DeletionStep::ActivitiesOfBoardColumns(b) => StoreRows {
            activities: rows.activities.filter(|a: ActivityModel| !in_board_column(rows, a.column_id, b)),
            ..rows
        },
        DeletionStep::TagsOfBoardCategories(b) => StoreRows {
            tags: rows.tags.filter(|t: CategoryTagModel| !in_board_category(rows, t.category_id, b)),
            ..rows
        },
        DeletionStep::ColumnsOfBoard(b) => StoreRows {
            columns: rows.columns.filter(|c: ColumnModel| c.board_id != Some(b)),
            ..rows
        },
        DeletionStep::CategoriesOfBoard(b) => StoreRows {
            categories: rows.categories.filter(|c: CategoryModel| c.board_id != Some(b)),
            ..rows
        },
        DeletionStep::Board(b) => StoreRows { boards: rows.boards.filter(|x: BoardModel| x.id != b), ..rows },
    }
}

/// The rows left after the deletions `steps`, carried out in order.
pub open spec fn apply_deletions(rows: StoreRows, steps: Seq<DeletionStep>) -> StoreRows
    decreases steps.len(),
{
    if steps.len() == 0 {
        rows
    } else {
        apply_deletion(apply_deletions(rows, steps.drop_last()), steps.last())
    }
}

proof fn lemma_filter_contains_iff<A>(s: Seq<A>, p: spec_fn(A) -> bool, x: A)
    ensures
        s.filter(p).contains(x) <==> (s.contains(x) && p(x)),
{
    broadcast use vstd::seq_lib::group_filter_ensures;
    if s.filter(p).contains(x) {
        s.lemma_filter_contains_rev(p, x);
        let i = choose|i: int| 0 <= i < s.filter(p).len() && s.filter(p)[i] == x;
        assert(p(s.filter(p)[i]));
    }
    if s.contains(x) && p(x) {
        let i = choose|i: int| 0 <= i < s.len() && s[i] == x;
        assert(s.filter(p).contains(s[i]));
    }
}

/// Deleting a board, by the plan of [`Mutation::delete_board`], removes the board,
/// its columns and categories, the activities in its columns and the tags in its
/// categories, and no other row.
pub proof fn lemma_board_deletion_removes_exactly_its_rows(rows: StoreRows, b: i32)
    ensures
        ({
            let after = apply_deletions(rows, board_deletion_plan(b));
            &&& forall|x: BoardModel| after.boards.contains(x) <==> (rows.boards.contains(x) && x.id != b)
            &&& forall|c: ColumnModel| after.columns.contains(c) <==> (rows.columns.contains(c) && c.board_id != Some(b))
            &&& forall|c: CategoryModel| after.categories.contains(c) <==> (rows.categories.contains(c)
                && c.board_id != Some(b))
            &&& forall|a: ActivityModel| after.activities.contains(a) <==> (rows.activities.contains(a)
                && !in_board_column(rows, a.column_id, b))
            &&& forall|t: CategoryTagModel| after.tags.contains(t) <==> (rows.tags.contains(t)
                && !in_board_category(rows, t.category_id, b))
        }),
{
    let plan = board_deletion_plan(b);
    let s1 = apply_deletion(rows, plan[0]);
    let s2 = apply_deletion(s1, plan[1]);
    let s3 = apply_deletion(s2, plan[2]);
    let s4 = apply_deletion(s3, plan[3]);
    let s5 = apply_deletion(s4, plan[4]);
    assert(plan.take(0).len() == 0);
    assert(plan.take(1).drop_last() == plan.take(0));
    assert(plan.take(2).drop_last() == plan.take(1));
    assert(plan.take(3).drop_last() == plan.take(2));
    assert(plan.take(4).drop_last() == plan.take(3));
    assert(plan.take(5).drop_last() == plan.take(4));
    assert(apply_deletions(rows, plan.take(0)) == rows);
    assert(plan.take(1).last() == plan[0]);
    assert(plan.take(2).last() == plan[1]);
    assert(plan.take(3).last() == plan[2]);
    assert(plan.take(4).last() == plan[3]);
    assert(plan.take(5).last() == plan[4]);
    assert(apply_deletions(rows, plan.take(1)) == s1);
    assert(apply_deletions(rows, plan.take(2)) == s2);
    assert(apply_deletions(rows, plan.take(3)) == s3);
    assert(apply_deletions(rows, plan.take(4)) == s4);
    assert(apply_deletions(rows, plan.take(5)) == s5);
    assert(plan.take(5) == plan);
    assert(s2.columns == rows.columns && s2.categories == rows.categories);
    assert forall|x: BoardModel| s5.boards.contains(x) <==> (rows.boards.contains(x) && x.id != b) by {
        lemma_filter_contains_iff(rows.boards, |x: BoardModel| x.id != b, x);
    }
    assert forall|c: ColumnModel| s5.columns.contains(c) <==> (rows.columns.contains(c) && c.board_id != Some(b)) by {
        lemma_filter_contains_iff(rows.columns, |c: ColumnModel| c.board_id != Some(b), c);
    }
    assert forall|c: CategoryModel| s5.categories.contains(c) <==> (rows.categories.contains(c) && c.board_id != Some(b)) by {
        lemma_filter_contains_iff(rows.categories, |c: CategoryModel| c.board_id != Some(b), c);
    }
    assert forall|a: ActivityModel| s5.activities.contains(a) <==> (rows.activities.contains(a) && !in_board_column(rows, a.column_id, b)) by {
        lemma_filter_contains_iff(rows.activities, |a: ActivityModel| !in_board_column(rows, a.column_id, b), a);
    }
    assert forall|t: CategoryTagModel| s5.tags.contains(t) <==> (rows.tags.contains(t) && !in_board_category(rows, t.category_id, b)) by {
        lemma_filter_contains_iff(rows.tags, |t: CategoryTagModel| !in_board_category(s1, t.category_id, b), t);
    }
}

/// Holds when columns come as the store gives them: no two columns share an id,
/// no two activities share an id, and each activity is listed with its own column.
pub open spec fn columns_data_consistent(cols: Seq<(ColumnModel, Vec<ActivityModel>)>) -> bool {
    &&& forall|i: int, j: int| 0 <= i < j < cols.len() ==> #[trigger] cols[i].0.id != #[trigger] cols[j].0.id
    &&& forall|i: int, j: int|
        0 <= i < cols.len() && 0 <= j < cols[i].1@.len() ==> (#[trigger] cols[i].1@[j]).column_id == Some(cols[i].0.id)
    &&& forall|i1: int, j1: int, i2: int, j2: int|
        0 <= i1 < cols.len() && 0 <= j1 < cols[i1].1@.len() && 0 <= i2 < cols.len() && 0 <= j2 < cols[i2].1@.len() && (
        i1 != i2 || j1 != j2) ==> (#[trigger] cols[i1].1@[j1]).id != (#[trigger] cols[i2].1@[j2]).id
}

/// When no two columns share an id, the exported columns are keyed by exactly
/// the columns' ids, and each id maps to the export of its column.
pub proof fn lemma_columns_export_entries(cols: Seq<(ColumnModel, Vec<ActivityModel>)>)
    requires
        forall|i: int, j: int| 0 <= i < j < cols.len() ==> #[trigger] cols[i].0.id != #[trigger] cols[j].0.id,
    ensures
        forall|k: i32| #[trigger] columns_export(cols).contains_key(k) ==> exists|i: int| 0 <= i < cols.len() && cols[i].0.id == k,
        forall|i: int| 0 <= i < cols.len() ==> #[trigger] columns_export(cols).contains_key(cols[i].0.id)
            && columns_export(cols)[cols[i].0.id] == column_export_of(cols[i].0, cols[i].1@),
    decreases cols.len(),
{
    if cols.len() > 0 {
        let prev = cols.drop_last();
        let n = cols.len() - 1;
        assert forall|i: int, j: int| 0 <= i < j < prev.len() implies #[trigger] prev[i].0.id != #[trigger] prev[j].0.id by {
            assert(prev[i] == cols[i] && prev[j] == cols[j]);
        }
        lemma_columns_export_entries(prev);
        assert(columns_export(cols) == columns_export(prev).insert(cols[n].0.id, column_export_of(cols[n].0, cols[n].1@)));
        assert forall|k: i32| #[trigger] columns_export(cols).contains_key(k) implies exists|i: int| 0 <= i < cols.len() && cols[i].0.id == k by {
            if k != cols[n].0.id {
                assert(columns_export(prev).contains_key(k));
                let i = choose|i: int| 0 <= i < prev.len() && prev[i].0.id == k;
                assert(cols[i] == prev[i]);
            }
        }
        assert forall|i: int| 0 <= i < cols.len() implies #[trigger] columns_export(cols).contains_key(cols[i].0.id)
            && columns_export(cols)[cols[i].0.id] == column_export_of(cols[i].0, cols[i].1@) by {
            if i < n {
                assert(cols[i] == prev[i]);
                assert(cols[i].0.id != cols[n].0.id);
                assert(columns_export(prev).contains_key(prev[i].0.id));
            }
        }
    }
}

/// Adding activities to a map of exported activities adds exactly their ids and
/// keeps every other entry; when no two of them share an id, each maps to its
/// own export.
pub proof fn lemma_with_column_activities_entries(m: Map<i32, ColumnActivityExportView>, acts: Seq<ActivityModel>)
    ensures
        forall|k: i32| #[trigger] with_column_activities(m, acts).contains_key(k) ==> (m.contains_key(k) || exists|j: int| 0 <= j < acts.len() && acts[j].id == k),
        forall|k: i32| m.contains_key(k) && !(exists|j: int| 0 <= j < acts.len() && acts[j].id == k)
            ==> #[trigger] with_column_activities(m, acts).contains_key(k) && with_column_activities(m, acts)[k] == m[k],
        (forall|j1: int, j2: int| 0 <= j1 < j2 < acts.len() ==> #[trigger] acts[j1].id != #[trigger] acts[j2].id) ==> forall|j: int|
            0 <= j < acts.len() ==> #[trigger] with_column_activities(m, acts).contains_key(acts[j].id)
                && with_column_activities(m, acts)[acts[j].id] == column_activity_export_of(acts[j]),
    decreases acts.len(),
{
    if acts.len() > 0 {
        let prev = acts.drop_last();
        lemma_with_column_activities_entries(m, prev);
        let n = acts.len() - 1;
        let w = with_column_activities(m, acts);
        let wp = with_column_activities(m, prev);
        assert forall|k: i32| #[trigger] w.contains_key(k) implies (m.contains_key(k) || exists|j: int| 0 <= j < acts.len() && acts[j].id == k) by {
            if k != acts[n].id {
                assert(wp.contains_key(k));
                if !m.contains_key(k) {
                    let j = choose|j: int| 0 <= j < prev.len() && prev[j].id == k;
                    assert(acts[j] == prev[j]);
                }
            }
        }
        assert forall|k: i32| m.contains_key(k) && !(exists|j: int| 0 <= j < acts.len() && acts[j].id == k)
            implies #[trigger] w.contains_key(k) && w[k] == m[k] by {
            assert(k != acts[n].id);
            if exists|j: int| 0 <= j < prev.len() && prev[j].id == k {
                let j = choose|j: int| 0 <= j < prev.len() && prev[j].id == k;
                assert(acts[j] == prev[j]);
            }
        }
        if forall|j1: int, j2: int| 0 <= j1 < j2 < acts.len() ==> #[trigger] acts[j1].id != #[trigger] acts[j2].id {
            assert forall|j1: int, j2: int| 0 <= j1 < j2 < prev.len() implies #[trigger] prev[j1].id != #[trigger] prev[j2].id by {
                assert(prev[j1] == acts[j1] && prev[j2] == acts[j2]);
            }
            assert forall|j: int| 0 <= j < acts.len() implies #[trigger] w.contains_key(acts[j].id)
                && w[acts[j].id] == column_activity_export_of(acts[j]) by {
                if j < n {
                    assert(acts[j] == prev[j]);
                    assert(acts[j].id != acts[n].id);
                }
            }
        }
    }
}

/// When no two activities share an id, the exported activities of the columns
/// are keyed by exactly those ids, and each id maps to the export of its activity.
pub proof fn lemma_column_activities_export_entries(cols: Seq<(ColumnModel, Vec<ActivityModel>)>)
    requires
        forall|i1: int, j1: int, i2: int, j2: int|
            0 <= i1 < cols.len() && 0 <= j1 < cols[i1].1@.len() && 0 <= i2 < cols.len() && 0 <= j2 < cols[i2].1@.len() && (
            i1 != i2 || j1 != j2) ==> (#[trigger] cols[i1].1@[j1]).id != (#[trigger] cols[i2].1@[j2]).id,
    ensures
        forall|k: i32| #[trigger] column_activities_export(cols).contains_key(k) ==> exists|i: int, j: int|
            0 <= i < cols.len() && 0 <= j < cols[i].1@.len() && cols[i].1@[j].id == k,
        forall|i: int, j: int| 0 <= i < cols.len() && 0 <= j < cols[i].1@.len() ==> #[trigger] column_activities_export(cols).contains_key(cols[i].1@[j].id)
            && column_activities_export(cols)[cols[i].1@[j].id] == column_activity_export_of(cols[i].1@[j]),
    decreases cols.len(),
{
    if cols.len() > 0 {
        let prev = cols.drop_last();
        let n = cols.len() - 1;
        assert forall|i1: int, j1: int, i2: int, j2: int|
            0 <= i1 < prev.len() && 0 <= j1 < prev[i1].1@.len() && 0 <= i2 < prev.len() && 0 <= j2 < prev[i2].1@.len() && (
            i1 != i2 || j1 != j2) implies (#[trigger] prev[i1].1@[j1]).id != (#[trigger] prev[i2].1@[j2]).id by {
            assert(prev[i1] == cols[i1] && prev[i2] == cols[i2]);
            assert(cols[i1].1@[j1].id != cols[i2].1@[j2].id);
        }
        lemma_column_activities_export_entries(prev);
        let mp = column_activities_export(prev);
        let acts = cols[n].1@;
        lemma_with_column_activities_entries(mp, acts);
        assert forall|j1: int, j2: int| 0 <= j1 < j2 < acts.len() implies #[trigger] acts[j1].id != #[trigger] acts[j2].id by {
            assert(cols[n].1@[j1].id != cols[n].1@[j2].id);
        }
        let m = column_activities_export(cols);
        assert(m == with_column_activities(mp, acts));
        assert forall|k: i32| #[trigger] m.contains_key(k) implies exists|i: int, j: int|
            0 <= i < cols.len() && 0 <= j < cols[i].1@.len() && cols[i].1@[j].id == k by {
            if mp.contains_key(k) {
                let (i, j) = choose|i: int, j: int| 0 <= i < prev.len() && 0 <= j < prev[i].1@.len() && prev[i].1@[j].id == k;
                assert(cols[i] == prev[i]);
            } else {
                let j = choose|j: int| 0 <= j < acts.len() && acts[j].id == k;
                assert(cols[n].1@[j].id == k);
            }
        }
        assert forall|i: int, j: int| 0 <= i < cols.len() && 0 <= j < cols[i].1@.len() implies #[trigger] m.contains_key(cols[i].1@[j].id)
            && m[cols[i].1@[j].id] == column_activity_export_of(cols[i].1@[j]) by {
            if i < n {
                assert(cols[i] == prev[i]);
                let k = cols[i].1@[j].id;
                assert(mp.contains_key(prev[i].1@[j].id));
                assert(mp[k] == column_activity_export_of(cols[i].1@[j]));
                if exists|j2: int| 0 <= j2 < acts.len() && acts[j2].id == k {
                    let j2 = choose|j2: int| 0 <= j2 < acts.len() && acts[j2].id == k;
                    assert(cols[n].1@[j2].id != cols[i].1@[j].id);
                }
                assert(with_column_activities(mp, acts).contains_key(k));
            } else {
                assert(acts[j] == cols[i].1@[j]);
                assert(with_column_activities(mp, acts).contains_key(acts[j].id));
            }
        }
    }
}

/// In the export of a board whose rows come as the store gives them, the
/// columns and their activities agree: every exported activity of a column is
/// listed by the column it names, and every activity that a column lists is
/// exported with that column's id.
pub proof fn lemma_export_columns_agree_with_activities(cols: Seq<(ColumnModel, Vec<ActivityModel>)>)
    requires
        columns_data_consistent(cols),
    ensures
        forall|aid: i32| #[trigger] column_activities_export(cols).contains_key(aid) ==> {
            let cid = column_activities_export(cols)[aid].column_id;
            &&& columns_export(cols).contains_key(cid)
            &&& columns_export(cols)[cid].activities.contains(aid)
        },
        forall|cid: i32, aid: i32| #[trigger] columns_export(cols).contains_key(cid)
            && #[trigger] columns_export(cols)[cid].activities.contains(aid) ==> column_activities_export(cols).contains_key(aid)
                && column_activities_export(cols)[aid].column_id == cid,
{
    lemma_columns_export_entries(cols);
    lemma_column_activities_export_entries(cols);
    let cm = columns_export(cols);
    let am = column_activities_export(cols);
    assert forall|aid: i32| #[trigger] am.contains_key(aid) implies cm.contains_key(am[aid].column_id)
        && cm[am[aid].column_id].activities.contains(aid) by {
        let (i, j) = choose|i: int, j: int| 0 <= i < cols.len() && 0 <= j < cols[i].1@.len() && cols[i].1@[j].id == aid;
        assert(cols[i].1@[j].column_id == Some(cols[i].0.id));
        assert(column_activities_export(cols).contains_key(cols[i].1@[j].id));
        assert(am[cols[i].1@[j].id] == column_activity_export_of(cols[i].1@[j]));
        assert(cm.contains_key(cols[i].0.id));
        assert(cm[cols[i].0.id] == column_export_of(cols[i].0, cols[i].1@));
        assert(cm[cols[i].0.id].activities[j] == aid);
        assert(cm[cols[i].0.id].activities.contains(aid));
    }
    assert forall|cid: i32, aid: i32| #[trigger] cm.contains_key(cid) && #[trigger] cm[cid].activities.contains(aid)
        implies am.contains_key(aid) && am[aid].column_id == cid by {
        let i = choose|i: int| 0 <= i < cols.len() && cols[i].0.id == cid;
        assert(cm[cols[i].0.id] == column_export_of(cols[i].0, cols[i].1@));
        let j = choose|j: int| 0 <= j < cm[cid].activities.len() && cm[cid].activities[j] == aid;
        assert(cols[i].1@[j].id == aid);
        assert(cols[i].1@[j].column_id == Some(cols[i].0.id));
        assert(column_activities_export(cols).contains_key(cols[i].1@[j].id));
        assert(am[cols[i].1@[j].id] == column_activity_export_of(cols[i].1@[j]));
    }
}

/// When no two activities outside the columns share an id, their export is
/// keyed by exactly their ids, and the entry of each keeps its name, its body
/// and its position, with no tags.
pub proof fn lemma_other_activities_export_entries(acts: Seq<ActivityModel>)
    requires
        forall|i: int, j: int| 0 <= i < j < acts.len() ==> #[trigger] acts[i].id != #[trigger] acts[j].id,
    ensures
        forall|k: i32| #[trigger] other_activities_export(acts).contains_key(k) ==> exists|i: int| 0 <= i < acts.len() && acts[i].id == k,
        forall|i: int| 0 <= i < acts.len() ==> #[trigger] other_activities_export(acts).contains_key(acts[i].id)
            && other_activities_export(acts)[acts[i].id] == (ActivityExportView {
                name: acts[i].name@,
                body: opt_str_view(acts[i].body),
                ordinal: acts[i].ordinal,
                tags: Seq::empty(),
            }),
    decreases acts.len(),
{
    if acts.len() > 0 {
        let prev = acts.drop_last();
        let n = acts.len() - 1;
        assert forall|i: int, j: int| 0 <= i < j < prev.len() implies #[trigger] prev[i].id != #[trigger] prev[j].id by {
            assert(prev[i] == acts[i] && prev[j] == acts[j]);
        }
        lemma_other_activities_export_entries(prev);
        assert(other_activities_export(acts) == other_activities_export(prev).insert(acts[n].id, activity_export_of(acts[n])));
        assert forall|k: i32| #[trigger] other_activities_export(acts).contains_key(k) implies exists|i: int| 0 <= i < acts.len() && acts[i].id == k by {
            if k != acts[n].id {
                assert(other_activities_export(prev).contains_key(k));
                let i = choose|i: int| 0 <= i < prev.len() && prev[i].id == k;
                assert(acts[i] == prev[i]);
            }
        }
        assert forall|i: int| 0 <= i < acts.len() implies #[trigger] other_activities_export(acts).contains_key(acts[i].id)
            && other_activities_export(acts)[acts[i].id] == (ActivityExportView {
                name: acts[i].name@,
                body: opt_str_view(acts[i].body),
                ordinal: acts[i].ordinal,
                tags: Seq::empty(),
            }) by {
            if i < n {
                assert(acts[i] == prev[i]);
                assert(acts[i].id != acts[n].id);
                assert(other_activities_export(prev).contains_key(prev[i].id));
            }
        }
    }
}

/// Holds when categories come as the store gives them: no two categories share
/// an id, and no two tags share an id.
pub open spec fn categories_data_consistent(cats: Seq<(CategoryModel, Vec<CategoryTagModel>)>) -> bool {
    &&& forall|i: int, j: int| 0 <= i < j < cats.len() ==> #[trigger] cats[i].0.id != #[trigger] cats[j].0.id
    &&& forall|i1: int, j1: int, i2: int, j2: int|
        0 <= i1 < cats.len() && 0 <= j1 < cats[i1].1@.len() && 0 <= i2 < cats.len() && 0 <= j2 < cats[i2].1@.len() && (
        i1 != i2 || j1 != j2) ==> (#[trigger] cats[i1].1@[j1]).id != (#[trigger] cats[i2].1@[j2]).id
}

/// When no two categories share an id, the exported categories are keyed by
/// exactly the categories' ids, and each id maps to the export of its category.
pub proof fn lemma_categories_export_entries(cats: Seq<(CategoryModel, Vec<CategoryTagModel>)>)
    requires
        forall|i: int, j: int| 0 <= i < j < cats.len() ==> #[trigger] cats[i].0.id != #[trigger] cats[j].0.id,
    ensures
        forall|k: i32| #[trigger] categories_export(cats).contains_key(k) ==> exists|i: int| 0 <= i < cats.len() && cats[i].0.id == k,
        forall|i: int| 0 <= i < cats.len() ==> #[trigger] categories_export(cats).contains_key(cats[i].0.id)
            && categories_export(cats)[cats[i].0.id] == category_export_of(cats[i].0, cats[i].1@),
    decreases cats.len(),
{
    if cats.len() > 0 {
        let prev = cats.drop_last();
        let n = cats.len() - 1;
        assert forall|i: int, j: int| 0 <= i < j < prev.len() implies #[trigger] prev[i].0.id != #[trigger] prev[j].0.id by {
            assert(prev[i] == cats[i] && prev[j] == cats[j]);
        }
        lemma_categories_export_entries(prev);
        assert(categories_export(cats) == categories_export(prev).insert(cats[n].0.id, category_export_of(cats[n].0, cats[n].1@)));
        assert forall|k: i32| #[trigger] categories_export(cats).contains_key(k) implies exists|i: int| 0 <= i < cats.len() && cats[i].0.id == k by {
            if k != cats[n].0.id {
                assert(categories_export(prev).contains_key(k));
                let i = choose|i: int| 0 <= i < prev.len() && prev[i].0.id == k;
                assert(cats[i] == prev[i]);
            }
        }
        assert forall|i: int| 0 <= i < cats.len() implies #[trigger] categories_export(cats).contains_key(cats[i].0.id)
            && categories_export(cats)[cats[i].0.id] == category_export_of(cats[i].0, cats[i].1@) by {
            if i < n {
                assert(cats[i] == prev[i]);
                assert(cats[i].0.id != cats[n].0.id);
                assert(categories_export(prev).contains_key(prev[i].0.id));
            }
        }
    }
}

/// Adding the tags of category `c` to a map of exported tags adds exactly their
/// ids and keeps every other entry; when no two of them share an id, each maps
/// to its own export under `c`.
pub proof fn lemma_with_category_tags_entries(m: Map<i32, CategoryTagExportView>, tags: Seq<CategoryTagModel>, c: i32)
    ensures
        forall|k: i32| #[trigger] with_category_tags(m, tags, c).contains_key(k) ==> (m.contains_key(k) || exists|j: int| 0 <= j < tags.len() && tags[j].id == k),
        forall|k: i32| m.contains_key(k) && !(exists|j: int| 0 <= j < tags.len() && tags[j].id == k)
            ==> #[trigger] with_category_tags(m, tags, c).contains_key(k) && with_category_tags(m, tags, c)[k] == m[k],
        (forall|j1: int, j2: int| 0 <= j1 < j2 < tags.len() ==> #[trigger] tags[j1].id != #[trigger] tags[j2].id) ==> forall|j: int|
            0 <= j < tags.len() ==> #[trigger] with_category_tags(m, tags, c).contains_key(tags[j].id)
                && with_category_tags(m, tags, c)[tags[j].id] == category_tag_export_of(tags[j], c),
    decreases tags.len(),
{
    if tags.len() > 0 {
        let prev = tags.drop_last();
        lemma_with_category_tags_entries(m, prev, c);
        let n = tags.len() - 1;
        let w = with_category_tags(m, tags, c);
        let wp = with_category_tags(m, prev, c);
        assert forall|k: i32| #[trigger] w.contains_key(k) implies (m.contains_key(k) || exists|j: int| 0 <= j < tags.len() && tags[j].id == k) by {
            if k != tags[n].id {
                assert(wp.contains_key(k));
                if !m.contains_key(k) {
                    let j = choose|j: int| 0 <= j < prev.len() && prev[j].id == k;
                    assert(tags[j] == prev[j]);
                }
            }
        }
        assert forall|k: i32| m.contains_key(k) && !(exists|j: int| 0 <= j < tags.len() && tags[j].id == k)
            implies #[trigger] w.contains_key(k) && w[k] == m[k] by {
            assert(k != tags[n].id);
            if exists|j: int| 0 <= j < prev.len() && prev[j].id == k {
                let j = choose|j: int| 0 <= j < prev.len() && prev[j].id == k;
                assert(tags[j] == prev[j]);
            }
        }
        if forall|j1: int, j2: int| 0 <= j1 < j2 < tags.len() ==> #[trigger] tags[j1].id != #[trigger] tags[j2].id {
            assert forall|j1: int, j2: int| 0 <= j1 < j2 < prev.len() implies #[trigger] prev[j1].id != #[trigger] prev[j2].id by {
                assert(prev[j1] == tags[j1] && prev[j2] == tags[j2]);
            }
            assert forall|j: int| 0 <= j < tags.len() implies #[trigger] w.contains_key(tags[j].id)
                && w[tags[j].id] == category_tag_export_of(tags[j], c) by {
                if j < n {
                    assert(tags[j] == prev[j]);
                    assert(tags[j].id != tags[n].id);
                }
            }
        }
    }
}

/// When no two tags share an id, the exported tags of the categories are keyed
/// by exactly those ids, and each id maps to the export of its tag under the id
/// of the category it is listed with.
pub proof fn lemma_category_tags_export_entries(cats: Seq<(CategoryModel, Vec<CategoryTagModel>)>)
    requires
        forall|i1: int, j1: int, i2: int, j2: int|
            0 <= i1 < cats.len() && 0 <= j1 < cats[i1].1@.len() && 0 <= i2 < cats.len() && 0 <= j2 < cats[i2].1@.len() && (
            i1 != i2 || j1 != j2) ==> (#[trigger] cats[i1].1@[j1]).id != (#[trigger] cats[i2].1@[j2]).id,
    ensures
        forall|k: i32| #[trigger] category_tags_export(cats).contains_key(k) ==> exists|i: int, j: int|
            0 <= i < cats.len() && 0 <= j < cats[i].1@.len() && cats[i].1@[j].id == k,
        forall|i: int, j: int| 0 <= i < cats.len() && 0 <= j < cats[i].1@.len() ==> #[trigger] category_tags_export(cats).contains_key(cats[i].1@[j].id)
            && category_tags_export(cats)[cats[i].1@[j].id] == category_tag_export_of(cats[i].1@[j], cats[i].0.id),
    decreases cats.len(),
{
    if cats.len() > 0 {
        let prev = cats.drop_last();
        let n = cats.len() - 1;
        assert forall|i1: int, j1: int, i2: int, j2: int|
            0 <= i1 < prev.len() && 0 <= j1 < prev[i1].1@.len() && 0 <= i2 < prev.len() && 0 <= j2 < prev[i2].1@.len() && (
            i1 != i2 || j1 != j2) implies (#[trigger] prev[i1].1@[j1]).id != (#[trigger] prev[i2].1@[j2]).id by {
            assert(prev[i1] == cats[i1] && prev[i2] == cats[i2]);
            assert(cats[i1].1@[j1].id != cats[i2].1@[j2].id);
        }
        lemma_category_tags_export_entries(prev);
        let mp = category_tags_export(prev);
        let tags = cats[n].1@;
        lemma_with_category_tags_entries(mp, tags, cats[n].0.id);
        assert forall|j1: int, j2: int| 0 <= j1 < j2 < tags.len() implies #[trigger] tags[j1].id != #[trigger] tags[j2].id by {
            assert(cats[n].1@[j1].id != cats[n].1@[j2].id);
        }
        let m = category_tags_export(cats);
        assert(m == with_category_tags(mp, tags, cats[n].0.id));
        assert forall|k: i32| #[trigger] m.contains_key(k) implies exists|i: int, j: int|
            0 <= i < cats.len() && 0 <= j < cats[i].1@.len() && cats[i].1@[j].id == k by {
            if mp.contains_key(k) {
                let (i, j) = choose|i: int, j: int| 0 <= i < prev.len() && 0 <= j < prev[i].1@.len() && prev[i].1@[j].id == k;
                assert(cats[i] == prev[i]);
            } else {
                let j = choose|j: int| 0 <= j < tags.len() && tags[j].id == k;
                assert(cats[n].1@[j].id == k);
            }
        }
        assert forall|i: int, j: int| 0 <= i < cats.len() && 0 <= j < cats[i].1@.len() implies #[trigger] m.contains_key(cats[i].1@[j].id)
            && m[cats[i].1@[j].id] == category_tag_export_of(cats[i].1@[j], cats[i].0.id) by {
            if i < n {
                assert(cats[i] == prev[i]);
                let k = cats[i].1@[j].id;
                assert(mp.contains_key(prev[i].1@[j].id));
                assert(mp[k] == category_tag_export_of(cats[i].1@[j], cats[i].0.id));
                if exists|j2: int| 0 <= j2 < tags.len() && tags[j2].id == k {
                    let j2 = choose|j2: int| 0 <= j2 < tags.len() && tags[j2].id == k;
                    assert(cats[n].1@[j2].id != cats[i].1@[j].id);
                }
                assert(with_category_tags(mp, tags, cats[n].0.id).contains_key(k));
            } else {
                assert(tags[j] == cats[i].1@[j]);
                assert(with_category_tags(mp, tags, cats[n].0.id).contains_key(tags[j].id));
            }
        }
    }
}

/// In the export of a board whose rows come as the store gives them, the
/// categories and their tags agree: every exported tag is listed by the
/// category it names, and every tag that a category lists is exported with that
/// category's id.
pub proof fn lemma_export_categories_agree_with_tags(cats: Seq<(CategoryModel, Vec<CategoryTagModel>)>)
    requires
        categories_data_consistent(cats),
    ensures
        forall|tid: i32| #[trigger] category_tags_export(cats).contains_key(tid) ==> {
            let kid = category_tags_export(cats)[tid].category_id;
            &&& categories_export(cats).contains_key(kid)
            &&& categories_export(cats)[kid].tags.contains(tid)
        },
        forall|kid: i32, tid: i32| #[trigger] categories_export(cats).contains_key(kid)
            && #[trigger] categories_export(cats)[kid].tags.contains(tid) ==> category_tags_export(cats).contains_key(tid)
                && category_tags_export(cats)[tid].category_id == kid,
{
    lemma_categories_export_entries(cats);
    lemma_category_tags_export_entries(cats);
    let km = categories_export(cats);
    let tm = category_tags_export(cats);
    assert forall|tid: i32| #[trigger] tm.contains_key(tid) implies km.contains_key(tm[tid].category_id)
        && km[tm[tid].category_id].tags.contains(tid) by {
        let (i, j) = choose|i: int, j: int| 0 <= i < cats.len() && 0 <= j < cats[i].1@.len() && cats[i].1@[j].id == tid;
        assert(category_tags_export(cats).contains_key(cats[i].1@[j].id));
        assert(tm[cats[i].1@[j].id] == category_tag_export_of(cats[i].1@[j], cats[i].0.id));
        assert(km.contains_key(cats[i].0.id));
        assert(km[cats[i].0.id] == category_export_of(cats[i].0, cats[i].1@));
        assert(km[cats[i].0.id].tags[j] == tid);
        assert(km[cats[i].0.id].tags.contains(tid));
    }
    assert forall|kid: i32, tid: i32| #[trigger] km.contains_key(kid) && #[trigger] km[kid].tags.contains(tid)
        implies tm.contains_key(tid) && tm[tid].category_id == kid by {
        let i = choose|i: int| 0 <= i < cats.len() && cats[i].0.id == kid;
        assert(km[cats[i].0.id] == category_export_of(cats[i].0, cats[i].1@));
        let j = choose|j: int| 0 <= j < km[kid].tags.len() && km[kid].tags[j] == tid;
        assert(cats[i].1@[j].id == tid);
        assert(category_tags_export(cats).contains_key(cats[i].1@[j].id));
        assert(tm[cats[i].1@[j].id] == category_tag_export_of(cats[i].1@[j], cats[i].0.id));
    }
}

/// The board with id `id` among `boards`, if there is one.
pub open spec fn find_board(boards: Seq<BoardModel>, id: i32) -> Option<BoardModel> {
    if exists|i: int| 0 <= i < boards.len() && #[trigger] boards[i].id == id {
        Some(boards[choose|i: int| 0 <= i < boards.len() && #[trigger] boards[i].id == id])
    } else {
        None
    }
}

/// The boards after inserting the row `row` under the new id `id`.
pub open spec fn insert_board(boards: Seq<BoardModel>, row: NewBoard, id: i32) -> Seq<BoardModel> {
    boards.push(BoardModel { id, name: row.name, created_at: row.created_at, updated_at: row.updated_at })
}

/// After a board is deleted by the plan of [`Mutation::delete_board`], looking it
/// up finds nothing, so [`Query::get_board_by_id`] answers `RowNotFound`.
pub proof fn lemma_deleted_board_is_not_found(rows: StoreRows, b: i32)
    ensures
        find_board(apply_deletions(rows, board_deletion_plan(b)).boards, b) is None,
{
    lemma_board_deletion_removes_exactly_its_rows(rows, b);
    let after = apply_deletions(rows, board_deletion_plan(b));
    if exists|i: int| 0 <= i < after.boards.len() && #[trigger] after.boards[i].id == b {
        let i = choose|i: int| 0 <= i < after.boards.len() && #[trigger] after.boards[i].id == b;
        assert(after.boards.contains(after.boards[i]));
    }
}

/// A board inserted under an id that no stored board has is found again by that
/// id, with the inserted name and time stamps, so [`Query::get_board_by_id`]
/// gives back exactly the created board.
pub proof fn lemma_created_board_is_found(boards: Seq<BoardModel>, row: NewBoard, id: i32)
    requires
        forall|i: int| 0 <= i < boards.len() ==> #[trigger] boards[i].id != id,
    ensures
        find_board(insert_board(boards, row, id), id) == Some(
            BoardModel { id, name: row.name, created_at: row.created_at, updated_at: row.updated_at },
        ),
{
    let after = insert_board(boards, row, id);
    assert(after[boards.len() as int].id == id);
    let i = choose|i: int| 0 <= i < after.len() && #[trigger] after[i].id == id;
    if i < boards.len() {
        assert(after[i] == boards[i]);
    }
}

} // verus!
