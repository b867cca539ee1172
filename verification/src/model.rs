//! Plain records for the rows of the board database: what the library reads
//! from a stored row, and what it hands over to be inserted as a new one.

use vstd::prelude::*;

verus! {

/// A stored board.
#[derive(Clone, Debug, PartialEq, Eq)]
pub struct BoardModel {
    pub id: i32,
    pub name: String,
    pub created_at: String,
    pub updated_at: String,
}

/// A stored column; `board_id` is the board it belongs to.
#[derive(Clone, Debug, PartialEq, Eq)]
pub struct ColumnModel {
    pub id: i32,
    pub name: String,
    pub ordinal: i32,
    pub board_id: Option<i32>,
}

/// A stored activity; `column_id` is `None` for an activity outside any column.
#[derive(Clone, Debug, PartialEq, Eq)]
pub struct ActivityModel {
    pub id: i32,
    pub name: String,
    pub body: Option<String>,
    pub ordinal: i32,
    pub column_id: Option<i32>,
}

/// A stored tag category; `board_id` is the board it belongs to.
#[derive(Clone, Debug, PartialEq, Eq)]
pub struct CategoryModel {
    pub id: i32,
    pub name: String,
    pub ordinal: i32,
    pub board_id: Option<i32>,
}

/// A stored tag; its colour is kept as a packed `0xRRGGBB` integer.
#[derive(Clone, Debug, PartialEq, Eq)]
pub struct CategoryTagModel {
    pub id: i32,
    pub tag_name: String,
    pub color: i32,
    pub ordinal: i32,
    pub category_id: Option<i32>,
}

/// A stored snapshot of the application state.
#[derive(Clone, Debug, PartialEq, Eq)]
pub struct SnapshotModel {
    pub id: i32,
    pub snapshot_data: String,
    pub created_at: String,
}

/// The values of a board row that is about to be inserted (the id is the store's to choose).
#[derive(Clone, Debug, PartialEq, Eq)]
pub struct NewBoard {
    pub name: String,
    pub created_at: String,
    pub updated_at: String,
}

/// The values of a column row that is about to be inserted.
#[derive(Clone, Debug, PartialEq, Eq)]
pub struct NewColumn {
    pub name: String,
    pub ordinal: i32,
    pub board_id: Option<i32>,
}

/// The values of an activity row that is about to be inserted.
#[derive(Clone, Debug, PartialEq, Eq)]
pub struct NewActivity {
    pub name: String,
    pub body: Option<String>,
    pub column_id: Option<i32>,
    pub ordinal: i32,
}

/// The values of a category row that is about to be inserted.
#[derive(Clone, Debug, PartialEq, Eq)]
pub struct NewCategory {
    pub name: String,
    pub ordinal: i32,
    pub board_id: Option<i32>,
}

/// The values of a tag row that is about to be inserted.
#[derive(Clone, Debug, PartialEq, Eq)]
pub struct NewCategoryTag {
    pub tag_name: String,
    pub color: i32,
    pub ordinal: i32,
    pub category_id: Option<i32>,
}

/// The values of a snapshot row that is about to be inserted.
#[derive(Clone, Debug, PartialEq, Eq)]
pub struct NewSnapshot {
    pub snapshot_data: String,
    pub created_at: String,
}

/// The errors that the board and snapshot operations report.
#[derive(Clone, Debug, PartialEq, Eq)]
pub enum AppError {
    /// The requested row does not exist.
    RowNotFound,
    /// The store failed; the message says what was attempted.
    DatabaseError(String),
    /// The system clock could not be read as a time after the Unix epoch.
    ClockUnavailable,
}

/// The view of an optional string: the characters, if there is one.
pub open spec fn opt_str_view(s: Option<String>) -> Option<Seq<char>> {
    match s {
        Some(t) => Some(t@),
        None => None,
    }
}

/// Copies an optional string.
pub fn copy_opt_string(s: &Option<String>) -> (r: Option<String>)
    ensures
        r == *s,
        opt_str_view(r) == opt_str_view(*s),
{
    match s {
        Some(t) => Some(t.clone()),
        None => None,
    }
}

} // verus!
