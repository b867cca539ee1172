//! The values that board commands take and give back, and the conversions
//! between stored board rows and what the commands return.

use std::collections::HashMap;
use vstd::prelude::*;
use vstd::std_specs::convert::FromSpecImpl;


use crate::model::{opt_str_view, BoardModel};

verus! {

/// The input of a board creation: the new board's name.
#[derive(Clone, Debug, PartialEq, Eq)]
pub struct CreateBoardInput {
    pub name: String,
}

/// The input of a board update: which board, and its new name if it gets one.
#[derive(Clone, Debug, PartialEq, Eq)]
pub struct UpdateBoardInput {
    pub id: i32,
    pub name: Option<String>,
}

/// A board as the commands report it.
#[derive(Clone, Debug, PartialEq, Eq)]
pub struct BoardOutput {
    pub id: i32,
    pub name: String,
    pub created_at: String,
    pub updated_at: String,
}

impl From<BoardModel> for BoardOutput {
    fn from(model: BoardModel) -> (r: Self) {
        BoardOutput {
            id: model.id,
            name: model.name,
            created_at: model.created_at,
            updated_at: model.updated_at,
        }
    }
}

impl FromSpecImpl<BoardModel> for BoardOutput {
    open spec fn obeys_from_spec() -> bool {
        true
    }

    open spec fn from_spec(v: BoardModel) -> Self {
        board_output_of(v)
    }
}

/// What the commands report of a stored board: the same four fields.
pub open spec fn board_output_of(v: BoardModel) -> BoardOutput {
    BoardOutput { id: v.id, name: v.name, created_at: v.created_at, updated_at: v.updated_at }
}

/// An exported column: its name, its position and the ids of its activities.
#[derive(Clone, Debug, PartialEq, Eq)]
pub struct ColumnExport {
    pub name: String,
    pub ordinal: i32,
    pub activities: Vec<i32>,
}

/// An exported activity that sits in no column.
#[derive(Clone, Debug, PartialEq, Eq)]
pub struct ActivityExport {
    pub name: String,
    pub body: Option<String>,
    pub ordinal: i32,
    pub tags: Vec<i32>,
}

/// An exported activity of a column; `column_id` is the exported id of its column.
#[derive(Clone, Debug, PartialEq, Eq)]
pub struct ColumnActivityExport {
    pub name: String,
    pub body: Option<String>,
    pub ordinal: i32,
    pub tags: Vec<i32>,
    pub column_id: i32,
}

/// An exported tag category: its name, its position and the ids of its tags.
#[derive(Clone, Debug, PartialEq, Eq)]
pub struct CategoryExport {
    pub name: String,
    pub ordinal: i32,
    pub tags: Vec<i32>,
}

/// An exported tag of a category; the colour is written as text.
#[derive(Clone, Debug, PartialEq, Eq)]
pub struct CategoryTagExport {
    pub name: String,
    pub color: String,
    pub ordinal: i32,
    pub category_id: i32,
}

/// An exported tag that belongs to no category.
#[derive(Clone, Debug, PartialEq, Eq)]
pub struct OtherTagExport {
    pub name: String,
    pub color: String,
    pub ordinal: i32,
}

/// A whole board as exported: every part keyed by its exported id.
#[derive(Clone, Debug)]
pub struct ExportBoardOutput {
    pub name: String,
    pub columns: HashMap<i32, ColumnExport>,
    pub activities: HashMap<i32, ColumnActivityExport>,
    pub other_activities: HashMap<i32, ActivityExport>,
    pub categories: HashMap<i32, CategoryExport>,
    pub category_tags: HashMap<i32, CategoryTagExport>,
    pub other_tags: HashMap<i32, OtherTagExport>,
}

/// A board to import, in the form that an export has.
#[derive(Clone, Debug)]
pub struct ImportBoardInput {
    pub name: String,
    pub columns: HashMap<i32, ColumnExport>,
    pub activities: HashMap<i32, ColumnActivityExport>,
    pub other_activities: HashMap<i32, ActivityExport>,
    pub categories: HashMap<i32, CategoryExport>,
    pub category_tags: HashMap<i32, CategoryTagExport>,
    pub other_tags: HashMap<i32, OtherTagExport>,
}

/// The mathematical value of a [`ColumnExport`].
pub struct ColumnExportView {
    pub name: Seq<char>,
    pub ordinal: i32,
    pub activities: Seq<i32>,
}

/// The mathematical value of an [`ActivityExport`].
pub struct ActivityExportView {
    pub name: Seq<char>,
    pub body: Option<Seq<char>>,
    pub ordinal: i32,
    pub tags: Seq<i32>,
}

/// The mathematical value of a [`ColumnActivityExport`].
pub struct ColumnActivityExportView {
    pub name: Seq<char>,
    pub body: Option<Seq<char>>,
    pub ordinal: i32,
    pub tags: Seq<i32>,
    pub column_id: i32,
}

/// The mathematical value of a [`CategoryExport`].
pub struct CategoryExportView {
    pub name: Seq<char>,
    pub ordinal: i32,
    pub tags: Seq<i32>,
}

/// The mathematical value of a [`CategoryTagExport`].
pub struct CategoryTagExportView {
    pub name: Seq<char>,
    pub color: Seq<char>,
    pub ordinal: i32,
    pub category_id: i32,
}

/// The mathematical value of an [`OtherTagExport`].
pub struct OtherTagExportView {
    pub name: Seq<char>,
    pub color: Seq<char>,
    pub ordinal: i32,
}

/// The mathematical value of an [`ExportBoardOutput`] or an [`ImportBoardInput`].
pub struct BoardExportView {
    pub name: Seq<char>,
    pub columns: Map<i32, ColumnExportView>,
    pub activities: Map<i32, ColumnActivityExportView>,
    pub other_activities: Map<i32, ActivityExportView>,
    pub categories: Map<i32, CategoryExportView>,
    pub category_tags: Map<i32, CategoryTagExportView>,
    pub other_tags: Map<i32, OtherTagExportView>,
}

impl View for ColumnExport {
    type V = ColumnExportView;

    open spec fn view(&self) -> ColumnExportView {
        ColumnExportView { name: self.name@, ordinal: self.ordinal, activities: self.activities@ }
    }
}

impl View for ActivityExport {
    type V = ActivityExportView;

    open spec fn view(&self) -> ActivityExportView {
        ActivityExportView {
            name: self.name@,
            body: opt_str_view(self.body),
            ordinal: self.ordinal,
            tags: self.tags@,
        }
    }
}

impl View for ColumnActivityExport {
    type V = ColumnActivityExportView;

    open spec fn view(&self) -> ColumnActivityExportView {
        ColumnActivityExportView {
            name: self.name@,
            body: opt_str_view(self.body),
            ordinal: self.ordinal,
            tags: self.tags@,
            column_id: self.column_id,
        }
    }
}

impl View for CategoryExport {
    type V = CategoryExportView;

    open spec fn view(&self) -> CategoryExportView {
        CategoryExportView { name: self.name@, ordinal: self.ordinal, tags: self.tags@ }
    }
}

impl View for CategoryTagExport {
    type V = CategoryTagExportView;

    open spec fn view(&self) -> CategoryTagExportView {
        CategoryTagExportView {
            name: self.name@,
            color: self.color@,
            ordinal: self.ordinal,
            category_id: self.category_id,
        }
    }
}

impl View for OtherTagExport {
    type V = OtherTagExportView;

    open spec fn view(&self) -> OtherTagExportView {
        OtherTagExportView { name: self.name@, color: self.color@, ordinal: self.ordinal }
    }
}

impl View for ExportBoardOutput {
    type V = BoardExportView;

    open spec fn view(&self) -> BoardExportView {
        BoardExportView {
            name: self.name@,
            columns: self.columns@.map_values(|v: ColumnExport| v@),
            activities: self.activities@.map_values(|v: ColumnActivityExport| v@),
            other_activities: self.other_activities@.map_values(|v: ActivityExport| v@),
            categories: self.categories@.map_values(|v: CategoryExport| v@),
            category_tags: self.category_tags@.map_values(|v: CategoryTagExport| v@),
            other_tags: self.other_tags@.map_values(|v: OtherTagExport| v@),
        }
    }
}

impl View for ImportBoardInput {
    type V = BoardExportView;

    open spec fn view(&self) -> BoardExportView {
        BoardExportView {
            name: self.name@,
            columns: self.columns@.map_values(|v: ColumnExport| v@),
            activities: self.activities@.map_values(|v: ColumnActivityExport| v@),
            other_activities: self.other_activities@.map_values(|v: ActivityExport| v@),
            categories: self.categories@.map_values(|v: CategoryExport| v@),
            category_tags: self.category_tags@.map_values(|v: CategoryTagExport| v@),
            other_tags: self.other_tags@.map_values(|v: OtherTagExport| v@),
        }
    }
}

/// Converts a board row to what the commands report, copying each field.
pub fn board_output(model: &BoardModel) -> (r: BoardOutput)
    ensures
        r == board_output_of(*model),
{
    BoardOutput {
        id: model.id,
        name: model.name.clone(),
        created_at: model.created_at.clone(),
        updated_at: model.updated_at.clone(),
    }
}

/// What listing all boards reports: each stored board, in the order given.
pub fn get_all_boards(boards: Vec<BoardModel>) -> (r: Vec<BoardOutput>)
    ensures
        r.len() == boards.len(),
        forall|i: int| 0 <= i < boards.len() ==> #[trigger] r@[i] == board_output_of(boards@[i]),
{
    let mut r: Vec<BoardOutput> = Vec::new();
    let n = boards.len();
    for i in 0..n
        invariant
            n == boards.len(),
            r.len() == i,
            forall|j: int| 0 <= j < i ==> #[trigger] r@[j] == board_output_of(boards@[j]),
    {
        r.push(board_output(&boards[i]));
    }
    r
}

} // verus!
