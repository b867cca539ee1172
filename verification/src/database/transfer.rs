//! Copying a whole board into the store, as an import or a duplication does:
//! the rows to insert, one at a time, with the ids that the store gave the rows
//! inserted before them.

use std::collections::HashMap;
use vstd::prelude::*;
use vstd::std_specs::hash::spec_hash_map_iter;
use vstd::std_specs::iter::IteratorSpec;

use crate::clock::{is_clock_text, is_utc_rfc3339_shaped, now_rfc3339};
use crate::commands::board::{
    ActivityExport, CategoryExport, CategoryTagExport, ColumnActivityExport, ColumnExport,
    CreateBoardInput, ExportBoardOutput, ImportBoardInput,
};
use crate::color::{color_int_of_text, color_text_of_int, lemma_color_write_then_read, string_to_rgb_int};
use crate::database::board::{
    categories_data_consistent, categories_export, category_tags_export, column_activities_export,
    columns_data_consistent, columns_export, lemma_categories_export_entries,
    lemma_category_tags_export_entries, lemma_column_activities_export_entries,
    lemma_columns_export_entries, lemma_other_activities_export_entries, other_activities_export, Mutation,
};
use crate::model::{
    copy_opt_string, opt_str_view, ActivityModel, AppError, CategoryModel, CategoryTagModel,
    ColumnModel, NewActivity, NewBoard, NewCategory, NewCategoryTag, NewColumn,
};

verus! {

broadcast use vstd::std_specs::hash::group_hash_axioms;

/// The export values that can be copied with their view kept.
pub trait ExportCopy: View + Sized {
    /// A copy with the same view.
    fn copy_export(&self) -> (r: Self)
        ensures
            r@ == self@,
    ;
}

fn copy_ids(v: &Vec<i32>) -> (r: Vec<i32>)
    ensures
        r@ == v@,
{
    let mut r: Vec<i32> = Vec::new();
    for i in 0..v.len()
        invariant
            r@ == v@.take(i as int),
    {
        assert(v@.take(i + 1) == v@.take(i as int).push(v@[i as int]));
        r.push(v[i]);
    }
    assert(v@.take(v.len() as int) == v@);
    r
}

impl ExportCopy for ColumnExport {
    fn copy_export(&self) -> (r: Self) {
        ColumnExport { name: self.name.clone(), ordinal: self.ordinal, activities: copy_ids(&self.activities) }
    }
}

impl ExportCopy for ActivityExport {
    fn copy_export(&self) -> (r: Self) {
        ActivityExport {
            name: self.name.clone(),
            body: copy_opt_string(&self.body),
            ordinal: self.ordinal,
            tags: copy_ids(&self.tags),
        }
    }
}

impl ExportCopy for ColumnActivityExport {
    fn copy_export(&self) -> (r: Self) {
        ColumnActivityExport {
            name: self.name.clone(),
            body: copy_opt_string(&self.body),
            ordinal: self.ordinal,
            tags: copy_ids(&self.tags),
            column_id: self.column_id,
        }
    }
}

impl ExportCopy for CategoryExport {
    fn copy_export(&self) -> (r: Self) {
        CategoryExport { name: self.name.clone(), ordinal: self.ordinal, tags: copy_ids(&self.tags) }
    }
}

impl ExportCopy for CategoryTagExport {
    fn copy_export(&self) -> (r: Self) {
        CategoryTagExport {
            name: self.name.clone(),
            color: self.color.clone(),
            ordinal: self.ordinal,
            category_id: self.category_id,
        }
    }
}

/// Holds when `keys` and `vals` list the entries of `m`: every key once, each
/// beside (a copy of) its value.
pub open spec fn lists_entries<V: View>(keys: Seq<i32>, vals: Seq<V>, m: Map<i32, V>) -> bool {
    &&& keys.len() == vals.len()
    &&& keys.len() == m.dom().len()
    &&& keys.no_duplicates()
    &&& forall|i: int| 0 <= i < keys.len() ==> m.contains_key(#[trigger] keys[i]) && m[keys[i]]@ == vals[i]@
    &&& forall|k: i32| m.contains_key(k) ==> keys.contains(k)
}

/// The entries of a map, keys and values side by side, in the order in which it is walked.
pub fn entries_of<V: ExportCopy>(m: &HashMap<i32, V>) -> (r: (Vec<i32>, Vec<V>))
    ensures
        lists_entries(r.0@, r.1@, m@),
{
    let mut keys: Vec<i32> = Vec::new();
    let mut vals: Vec<V> = Vec::new();
    let ghost walk = spec_hash_map_iter(m).remaining();
    for kv in it: m.iter()
        invariant
            it.seq() == walk,
            walk == spec_hash_map_iter(m).remaining(),
            walk.no_duplicates(),
            keys@.len() == it.index(),
            vals@.len() == it.index(),
            forall|i: int| 0 <= i < keys@.len() ==> #[trigger] keys@[i] == *walk[i].0,
            forall|i: int| 0 <= i < vals@.len() ==> #[trigger] vals@[i]@ == (*walk[i].1)@,
    {
        let ghost idx = keys@.len() as int;
        assert(kv == walk[idx]);
        let (k, v) = kv;
        keys.push(*k);
        vals.push(v.copy_export());
    }
    assert(keys@.len() == walk.len());
    assert forall|i: int, j: int| 0 <= i < keys@.len() && 0 <= j < keys@.len() && i != j implies keys@[i] != keys@[j] by {
        if keys@[i] == keys@[j] {
            assert(m@.contains_key(*walk[i].0) && m@[*walk[i].0] == *walk[i].1);
            assert(m@.contains_key(*walk[j].0) && m@[*walk[j].0] == *walk[j].1);
            assert(walk[i] == walk[j]);
        }
    }
    assert forall|i: int| 0 <= i < keys@.len() implies m@.contains_key(#[trigger] keys@[i]) && m@[keys@[i]]@ == vals@[i]@ by {
        assert(m@.contains_key(*walk[i].0));
    }
    assert forall|k: i32| m@.contains_key(k) implies keys@.contains(k) by {
        assert(walk.contains((&k, &m@[k])));
        let i = choose|i: int| 0 <= i < walk.len() && walk[i] == (&k, &m@[k]);
        assert(keys@[i] == k);
    }
    (keys, vals)
}

/// One row of a board copy, ready to be inserted.
#[derive(Clone, Debug, PartialEq, Eq)]
pub enum TransferRow {
    Board(NewBoard),
    Category(NewCategory),
    Tag(NewCategoryTag),
    Column(NewColumn),
    Activity(NewActivity),
}

/// The ids given to `ids.len()` copied rows, keyed by the keys of what they copy:
/// row `i` was the copy of the entry with key `keys[i]` and was stored under `ids[i]`.
/// A key that occurs again is mapped to its last row.
pub open spec fn id_map(keys: Seq<i32>, ids: Seq<i32>) -> Map<i32, i32>
    decreases ids.len(),
{
    if ids.len() == 0 {
        Map::empty()
    } else {
        id_map(keys, ids.drop_last()).insert(keys[ids.len() - 1], ids.last())
    }
}

/// The new id that `m` gives to the old id `k`, if it gives one.
pub open spec fn lookup_id(m: Map<i32, i32>, k: i32) -> Option<i32> {
    if m.contains_key(k) {
        Some(m[k])
    } else {
        None
    }
}

/// The state of a board copy: what is copied, in which order, and the ids that
/// the store gave to the rows inserted so far. The rows go in this order: the
/// board, its categories, their tags, its columns, their activities, and the
/// activities outside the columns.
pub struct TransferView {
    pub board: NewBoard,
    /// The ids under which the categories were listed; tags refer to categories by them.
    pub category_entry_ids: Seq<i32>,
    pub categories: Seq<CategoryExport>,
    pub tag_entry_ids: Seq<i32>,
    pub tags: Seq<CategoryTagExport>,
    /// The ids under which the columns were listed; activities refer to columns by them.
    pub column_entry_ids: Seq<i32>,
    pub columns: Seq<ColumnExport>,
    pub activity_entry_ids: Seq<i32>,
    pub activities: Seq<ColumnActivityExport>,
    pub other_entry_ids: Seq<i32>,
    pub other_activities: Seq<ActivityExport>,
    /// The ids of the rows inserted so far, in order.
    pub inserted: Seq<i32>,
}

impl TransferView {
    /// The position of the first tag row.
    pub open spec fn tags_start(self) -> int {
        1 + self.categories.len() as int
    }

    /// The position of the first column row.
    pub open spec fn columns_start(self) -> int {
        self.tags_start() + self.tags.len()
    }

    /// The position of the first row of an activity of a column.
    pub open spec fn activities_start(self) -> int {
        self.columns_start() + self.columns.len()
    }

    /// The position of the first row of an activity outside the columns.
    pub open spec fn others_start(self) -> int {
        self.activities_start() + self.activities.len()
    }

    /// How many rows the copy inserts.
    pub open spec fn total(self) -> int {
        self.others_start() + self.other_activities.len()
    }

    /// The id of the new board.
    pub open spec fn board_id(self) -> i32 {
        self.inserted[0]
    }

    /// The new id of each copied category, by the id that tags refer to it with.
    pub open spec fn category_ids(self) -> Map<i32, i32> {
        id_map(self.category_entry_ids, self.inserted.subrange(1, self.tags_start()))
    }

    /// The new id of each copied column, by the id that activities refer to it with.
    pub open spec fn column_ids(self) -> Map<i32, i32> {
        id_map(self.column_entry_ids, self.inserted.subrange(self.columns_start(), self.activities_start()))
    }

    /// Row `k` of the copy, given the ids of the rows before it.
    pub open spec fn row_at(self, k: int) -> TransferRow {
        if k == 0 {
            TransferRow::Board(self.board)
        } else if k < self.tags_start() {
            let c = self.categories[k - 1];
            TransferRow::Category(NewCategory { name: c.name, ordinal: c.ordinal, board_id: Some(self.board_id()) })
        } else if k < self.columns_start() {
            let t = self.tags[k - self.tags_start()];
            TransferRow::Tag(
                NewCategoryTag {
                    tag_name: t.name,
                    color: color_int_of_text(t.color@),
                    ordinal: t.ordinal,
                    category_id: lookup_id(self.category_ids(), t.category_id),
                },
            )
        } else if k < self.activities_start() {
            let c = self.columns[k - self.columns_start()];
            TransferRow::Column(NewColumn { name: c.name, ordinal: c.ordinal, board_id: Some(self.board_id()) })
        } else if k < self.others_start() {
            let a = self.activities[k - self.activities_start()];
            TransferRow::Activity(
                NewActivity {
                    name: a.name,
                    body: a.body,
                    column_id: lookup_id(self.column_ids(), a.column_id),
                    ordinal: a.ordinal,
                },
            )
        } else {
            let a = self.other_activities[k - self.others_start()];
            TransferRow::Activity(NewActivity { name: a.name, body: a.body, column_id: None, ordinal: a.ordinal })
        }
    }
}

/// The smaller of two integers.
pub open spec fn min(a: int, b: int) -> int {
    if a < b {
        a
    } else {
        b
    }
}

/// A board copy in progress.
pub struct BoardTransfer {
    board: NewBoard,
    category_entry_ids: Vec<i32>,
    categories: Vec<CategoryExport>,
    tag_entry_ids: Vec<i32>,
    tags: Vec<CategoryTagExport>,
    column_entry_ids: Vec<i32>,
    columns: Vec<ColumnExport>,
    activity_entry_ids: Vec<i32>,
    activities: Vec<ColumnActivityExport>,
    other_entry_ids: Vec<i32>,
    other_activities: Vec<ActivityExport>,
    inserted: Vec<i32>,
    category_ids: HashMap<i32, i32>,
    column_ids: HashMap<i32, i32>,
}

impl View for BoardTransfer {
    type V = TransferView;

    closed spec fn view(&self) -> TransferView {
        TransferView {
            board: self.board,
            category_entry_ids: self.category_entry_ids@,
            categories: self.categories@,
            tag_entry_ids: self.tag_entry_ids@,
            tags: self.tags@,
            column_entry_ids: self.column_entry_ids@,
            columns: self.columns@,
            activity_entry_ids: self.activity_entry_ids@,
            activities: self.activities@,
            other_entry_ids: self.other_entry_ids@,
            other_activities: self.other_activities@,
            inserted: self.inserted@,
        }
    }
}

/// The new id that `m` gives to the old id `k`, if it gives one.
fn lookup(m: &HashMap<i32, i32>, k: i32) -> (r: Option<i32>)
    ensures
        r == lookup_id(m@, k),
{
    match m.get(&k) {
        Some(v) => Some(*v),
        None => None,
    }
}

fn copy_new_board(b: &NewBoard) -> (r: NewBoard)
    ensures
        r == *b,
{
    NewBoard { name: b.name.clone(), created_at: b.created_at.clone(), updated_at: b.updated_at.clone() }
}

proof fn lemma_id_map_push(keys: Seq<i32>, ids: Seq<i32>, id: i32)
    ensures
        id_map(keys, ids.push(id)) == id_map(keys, ids).insert(keys[ids.len() as int], id),
{
    assert(ids.push(id).drop_last() == ids);
}

impl BoardTransfer {
    /// The copy's inner bookkeeping agrees with its view.
    pub closed spec fn wf(&self) -> bool {
        let v = self@;
        &&& v.category_entry_ids.len() == v.categories.len()
        &&& v.column_entry_ids.len() == v.columns.len()
        &&& v.inserted.len() <= v.total()
        &&& self.category_ids@ == (if v.inserted.len() <= 1 {
            Map::empty()
        } else {
            id_map(v.category_entry_ids, v.inserted.subrange(1, min(v.inserted.len() as int, v.tags_start())))
        })
        &&& self.column_ids@ == (if v.inserted.len() <= v.columns_start() {
            Map::empty()
        } else {
            id_map(v.column_entry_ids, v.inserted.subrange(v.columns_start(), min(v.inserted.len() as int, v.activities_start())))
        })
    }

    /// The next row to insert, given the ids of the rows inserted so far; `None`
    /// once every row has been inserted.
    pub fn next_row(&self) -> (r: Option<TransferRow>)
        requires
            self.wf(),
        ensures
            self@.inserted.len() < self@.total() ==> r == Some(self@.row_at(self@.inserted.len() as int)),
            self@.inserted.len() >= self@.total() ==> r is None,
    {
        let ghost v = self@;
        let k = self.inserted.len() as u128;
        let ts = 1 + self.categories.len() as u128;
        let cs = ts + self.tags.len() as u128;
        let acs = cs + self.columns.len() as u128;
        let os = acs + self.activities.len() as u128;
        let total = os + self.other_activities.len() as u128;
        if k >= total {
            return None;
        }
        if k == 0 {
            return Some(TransferRow::Board(copy_new_board(&self.board)));
        }
        let board_id = self.inserted[0];
        if k < ts {
            let c = &self.categories[(k - 1) as usize];
            Some(TransferRow::Category(NewCategory { name: c.name.clone(), ordinal: c.ordinal, board_id: Some(board_id) }))
        } else if k < cs {
            assert(min(k as int, v.tags_start()) == v.tags_start());
            let t = &self.tags[(k - ts) as usize];
            Some(
                TransferRow::Tag(
                    NewCategoryTag {
                        tag_name: t.name.clone(),
                        color: string_to_rgb_int(t.color.as_str()),
                        ordinal: t.ordinal,
                        category_id: lookup(&self.category_ids, t.category_id),
                    },
                ),
            )
        } else if k < acs {
            let c = &self.columns[(k - cs) as usize];
            Some(TransferRow::Column(NewColumn { name: c.name.clone(), ordinal: c.ordinal, board_id: Some(board_id) }))
        } else if k < os {
            assert(min(k as int, v.activities_start()) == v.activities_start());
            let a = &self.activities[(k - acs) as usize];
            Some(
                TransferRow::Activity(
                    NewActivity {
                        name: a.name.clone(),
                        body: copy_opt_string(&a.body),
                        column_id: lookup(&self.column_ids, a.column_id),
                        ordinal: a.ordinal,
                    },
                ),
            )
        } else {
            let a = &self.other_activities[(k - os) as usize];
            Some(
                TransferRow::Activity(
                    NewActivity { name: a.name.clone(), body: copy_opt_string(&a.body), column_id: None, ordinal: a.ordinal },
                ),
            )
        }
    }

    /// Records the id that the store gave to the row that [`Self::next_row`] returned.
    pub fn record_inserted(&mut self, id: i32)
        requires
            old(self).wf(),
            old(self)@.inserted.len() < old(self)@.total(),
        ensures
            final(self).wf(),
            final(self)@ == (TransferView { inserted: old(self)@.inserted.push(id), ..old(self)@ }),
    {
        let ghost v = self@;
        let k = self.inserted.len() as u128;
        let ts = 1 + self.categories.len() as u128;
        let cs = ts + self.tags.len() as u128;
        let acs = cs + self.columns.len() as u128;
        let ghost ins = v.inserted;
        let ghost ins2 = ins.push(id);
        if 1 <= k && k < ts {
            let key = self.category_entry_ids[(k - 1) as usize];
            self.category_ids.insert(key, id);
            proof {
                assert(ins2.subrange(1, k + 1) == ins.subrange(1, k as int).push(id));
                lemma_id_map_push(v.category_entry_ids, ins.subrange(1, k as int), id);
                if k == 1 {
                    assert(ins.subrange(1, 1) == Seq::<i32>::empty());
                }
            }
        } else if cs <= k && k < acs {
            let key = self.column_entry_ids[(k - cs) as usize];
            self.column_ids.insert(key, id);
            proof {
                assert(ins2.subrange(cs as int, k + 1) == ins.subrange(cs as int, k as int).push(id));
                lemma_id_map_push(v.column_entry_ids, ins.subrange(cs as int, k as int), id);
                if k == cs {
                    assert(ins.subrange(cs as int, cs as int) == Seq::<i32>::empty());
                }
            }
        }
        self.inserted.push(id);
        proof {
            if !(1 <= k && k < ts) && ins2.len() > 1 {
                assert(ins2.subrange(1, min(ins2.len() as int, v.tags_start())) == ins.subrange(
                    1,
                    min(ins.len() as int, v.tags_start()),
                ));
            }
            if !(cs <= k && k < acs) && ins2.len() > v.columns_start() {
                assert(ins2.subrange(v.columns_start(), min(ins2.len() as int, v.activities_start()))
                    == ins.subrange(v.columns_start(), min(ins.len() as int, v.activities_start())));
            }
        }
    }
}

/// The name of an imported board: the given one, or `Imported Board` if it is empty.
pub open spec fn imported_board_name(name: Seq<char>) -> Seq<char> {
    if name.len() == 0 {
        "Imported Board"@
    } else {
        name
    }
}

/// The name of a duplicated board: the new name, or the source's name followed by
/// ` (Copy)` if the new name is empty.
pub open spec fn duplicate_board_name(source_name: Seq<char>, new_name: Seq<char>) -> Seq<char> {
    if new_name.len() == 0 {
        source_name + " (Copy)"@
    } else {
        new_name
    }
}

impl Mutation {
    /// The name of an imported board: the given one, or `Imported Board` if it is empty.
    pub fn import_board_name(name: String) -> (r: String)
        ensures
            r@ == imported_board_name(name@),
    {
        if name.as_str().is_empty() {
            String::from_str("Imported Board")
        } else {
            name
        }
    }

    /// The name of a duplicated board: `new_name`, or the source's name followed
    /// by ` (Copy)` if `new_name` is empty.
    pub fn duplicate_board_name(source_name: &String, new_name: String) -> (r: String)
        ensures
            r@ == duplicate_board_name(source_name@, new_name@),
    {
        if new_name.as_str().is_empty() {
            let mut n = source_name.clone();
            n.append(" (Copy)");
            n
        } else {
            new_name
        }
    }

    /// The copy that imports `data` as a new board created at time `now`: each
    /// part of `data` in the order in which its map is walked, the parts that
    /// refer to a category or a column by the id under which it is listed.
    pub fn import_board_at(data: ImportBoardInput, now: String) -> (t: BoardTransfer)
        ensures
            t.wf(),
            t@.inserted == Seq::<i32>::empty(),
            t@.board.name@ == imported_board_name(data.name@),
            t@.board.created_at == now,
            t@.board.updated_at == now,
            lists_entries(t@.category_entry_ids, t@.categories, data.categories@),
            lists_entries(t@.tag_entry_ids, t@.tags, data.category_tags@),
            lists_entries(t@.column_entry_ids, t@.columns, data.columns@),
            lists_entries(t@.activity_entry_ids, t@.activities, data.activities@),
            lists_entries(t@.other_entry_ids, t@.other_activities, data.other_activities@),
    {
        let (category_entry_ids, categories) = entries_of(&data.categories);
        let (tag_entry_ids, tags) = entries_of(&data.category_tags);
        let (column_entry_ids, columns) = entries_of(&data.columns);
        let (activity_entry_ids, activities) = entries_of(&data.activities);
        let (other_entry_ids, other_activities) = entries_of(&data.other_activities);
        let name = Self::import_board_name(data.name);
        let board = Self::new_board_row(CreateBoardInput { name }, now);
        BoardTransfer {
            board,
            category_entry_ids,
            categories,
            tag_entry_ids,
            tags,
            column_entry_ids,
            columns,
            activity_entry_ids,
            activities,
            other_entry_ids,
            other_activities,
            inserted: Vec::new(),
            category_ids: HashMap::new(),
            column_ids: HashMap::new(),
        }
    }

    /// The copy that imports `data` as a new board, created now (the time read
    /// from the clock): [`Self::import_board_at`] at that time, and
    /// `ClockUnavailable` when the clock cannot be read.
    pub fn import_board(data: ImportBoardInput) -> (r: Result<BoardTransfer, AppError>)
        ensures
            match r {
                Ok(t) => {
                    &&& t.wf()
                    &&& t@.inserted == Seq::<i32>::empty()
                    &&& t@.board.name@ == imported_board_name(data.name@)
                    &&& t@.board.updated_at == t@.board.created_at
                    &&& is_utc_rfc3339_shaped(t@.board.created_at@)
                    &&& is_clock_text(t@.board.created_at@)
                    &&& lists_entries(t@.category_entry_ids, t@.categories, data.categories@)
                    &&& lists_entries(t@.tag_entry_ids, t@.tags, data.category_tags@)
                    &&& lists_entries(t@.column_entry_ids, t@.columns, data.columns@)
                    &&& lists_entries(t@.activity_entry_ids, t@.activities, data.activities@)
                    &&& lists_entries(t@.other_entry_ids, t@.other_activities, data.other_activities@)
                },
                Err(e) => e == AppError::ClockUnavailable,
            },
    {
        match now_rfc3339() {
            Some(now) => Ok(Self::import_board_at(data, now)),
            None => Err(AppError::ClockUnavailable),
        }
    }

    /// The copy that duplicates an exported board as a new board created at time
    /// `now` and named by [`Self::duplicate_board_name`]: each part of the export
    /// in the order in which its map is walked, the parts that refer to a
    /// category or a column by the id under which it is listed.
    pub fn duplicate_board_at(exported: ExportBoardOutput, new_name: String, now: String) -> (t: BoardTransfer)
        ensures
            t.wf(),
            t@.inserted == Seq::<i32>::empty(),
            t@.board.name@ == duplicate_board_name(exported.name@, new_name@),
            t@.board.created_at == now,
            t@.board.updated_at == now,
            lists_entries(t@.category_entry_ids, t@.categories, exported.categories@),
            lists_entries(t@.tag_entry_ids, t@.tags, exported.category_tags@),
            lists_entries(t@.column_entry_ids, t@.columns, exported.columns@),
            lists_entries(t@.activity_entry_ids, t@.activities, exported.activities@),
            lists_entries(t@.other_entry_ids, t@.other_activities, exported.other_activities@),
    {
        let (category_entry_ids, categories) = entries_of(&exported.categories);
        let (tag_entry_ids, tags) = entries_of(&exported.category_tags);
        let (column_entry_ids, columns) = entries_of(&exported.columns);
        let (activity_entry_ids, activities) = entries_of(&exported.activities);
        let (other_entry_ids, other_activities) = entries_of(&exported.other_activities);
        let name = Self::duplicate_board_name(&exported.name, new_name);
        let board = Self::new_board_row(CreateBoardInput { name }, now);
        BoardTransfer {
            board,
            category_entry_ids,
            categories,
            tag_entry_ids,
            tags,
            column_entry_ids,
            columns,
            activity_entry_ids,
            activities,
            other_entry_ids,
            other_activities,
            inserted: Vec::new(),
            category_ids: HashMap::new(),
            column_ids: HashMap::new(),
        }
    }

    /// The copy that duplicates an exported board as a new board, created now
    /// (the time read from the clock): [`Self::duplicate_board_at`] at that time,
    /// and `ClockUnavailable` when the clock cannot be read.
    pub fn duplicate_board(exported: ExportBoardOutput, new_name: String) -> (r: Result<BoardTransfer, AppError>)
        ensures
            match r {
                Ok(t) => {
                    &&& t.wf()
                    &&& t@.inserted == Seq::<i32>::empty()
                    &&& t@.board.name@ == duplicate_board_name(exported.name@, new_name@)
                    &&& t@.board.updated_at == t@.board.created_at
                    &&& is_utc_rfc3339_shaped(t@.board.created_at@)
                    &&& is_clock_text(t@.board.created_at@)
                    &&& lists_entries(t@.category_entry_ids, t@.categories, exported.categories@)
                    &&& lists_entries(t@.tag_entry_ids, t@.tags, exported.category_tags@)
                    &&& lists_entries(t@.column_entry_ids, t@.columns, exported.columns@)
                    &&& lists_entries(t@.activity_entry_ids, t@.activities, exported.activities@)
                    &&& lists_entries(t@.other_entry_ids, t@.other_activities, exported.other_activities@)
                },
                Err(e) => e == AppError::ClockUnavailable,
            },
    {
        match now_rfc3339() {
            Some(now) => Ok(Self::duplicate_board_at(exported, new_name, now)),
            None => Err(AppError::ClockUnavailable),
        }
    }
}

proof fn lemma_id_map_distinct(keys: Seq<i32>, ids: Seq<i32>)
    requires
        keys.no_duplicates(),
        ids.len() <= keys.len(),
    ensures
        forall|i: int| 0 <= i < ids.len() ==> #[trigger] lookup_id(id_map(keys, ids), keys[i]) == Some(ids[i]),
        forall|k: i32| !keys.take(ids.len() as int).contains(k) ==> lookup_id(id_map(keys, ids), k) is None,
    decreases ids.len(),
{
    if ids.len() > 0 {
        let prev = ids.drop_last();
        lemma_id_map_distinct(keys, prev);
        let n = ids.len() - 1;
        assert forall|i: int| 0 <= i < ids.len() implies #[trigger] lookup_id(id_map(keys, ids), keys[i]) == Some(ids[i]) by {
            if i < n {
                assert(keys[i] != keys[n]);
                assert(lookup_id(id_map(keys, prev), keys[i]) == Some(prev[i]));
            }
        }
        assert forall|k: i32| !keys.take(ids.len() as int).contains(k) implies lookup_id(id_map(keys, ids), k) is None by {
            assert(keys.take(ids.len() as int)[n] == keys[n]);
            if keys.take(n).contains(k) {
                let j = choose|j: int| 0 <= j < n && keys.take(n)[j] == k;
                assert(keys.take(ids.len() as int)[j] == k);
            }
        }
    } else {
        assert(id_map(keys, ids) == Map::<i32, i32>::empty());
    }
}

/// A finished copy points every reference at the copy of what it referred to:
/// when no two categories are listed under one id, and no two columns, a
/// tag that refers to the id of the `i`-th category is stored with the new id
/// of that category, and a tag that refers to no listed category with none;
/// likewise an activity of a column gets the new id of its column, or none; an
/// activity outside the columns gets no column; and every category and column
/// goes to the new board.
pub proof fn lemma_copy_remaps_references(v: TransferView)
    requires
        v.category_entry_ids.len() == v.categories.len(),
        v.column_entry_ids.len() == v.columns.len(),
        v.category_entry_ids.no_duplicates(),
        v.column_entry_ids.no_duplicates(),
        v.inserted.len() == v.total(),
    ensures
        forall|t: int, i: int|
            #![trigger v.tags[t], v.category_entry_ids[i]]
            0 <= t < v.tags.len() && 0 <= i < v.categories.len() && v.tags[t].category_id == v.category_entry_ids[i]
                ==> v.row_at(v.tags_start() + t) == TransferRow::Tag(
                NewCategoryTag {
                    tag_name: v.tags[t].name,
                    color: color_int_of_text(v.tags[t].color@),
                    ordinal: v.tags[t].ordinal,
                    category_id: Some(v.inserted[1 + i]),
                },
            ),
        forall|t: int|
            #![trigger v.tags[t]]
            0 <= t < v.tags.len() && !v.category_entry_ids.contains(v.tags[t].category_id) ==> v.row_at(
                v.tags_start() + t,
            ) == TransferRow::Tag(
                NewCategoryTag {
                    tag_name: v.tags[t].name,
                    color: color_int_of_text(v.tags[t].color@),
                    ordinal: v.tags[t].ordinal,
                    category_id: None,
                },
            ),
        forall|a: int, i: int|
            #![trigger v.activities[a], v.column_entry_ids[i]]
            0 <= a < v.activities.len() && 0 <= i < v.columns.len() && v.activities[a].column_id == v.column_entry_ids[i]
                ==> v.row_at(v.activities_start() + a) == TransferRow::Activity(
                NewActivity {
                    name: v.activities[a].name,
                    body: v.activities[a].body,
                    column_id: Some(v.inserted[v.columns_start() + i]),
                    ordinal: v.activities[a].ordinal,
                },
            ),
        forall|a: int|
            #![trigger v.activities[a]]
            0 <= a < v.activities.len() && !v.column_entry_ids.contains(v.activities[a].column_id) ==> v.row_at(
                v.activities_start() + a,
            ) == TransferRow::Activity(
                NewActivity {
                    name: v.activities[a].name,
                    body: v.activities[a].body,
                    column_id: None,
                    ordinal: v.activities[a].ordinal,
                },
            ),
        forall|a: int|
            #![trigger v.other_activities[a]]
            0 <= a < v.other_activities.len() ==> v.row_at(v.others_start() + a) == TransferRow::Activity(
                NewActivity {
                    name: v.other_activities[a].name,
                    body: v.other_activities[a].body,
                    column_id: None,
                    ordinal: v.other_activities[a].ordinal,
                },
            ),
        forall|i: int|
            #![trigger v.categories[i]]
            0 <= i < v.categories.len() ==> v.row_at(1 + i) == TransferRow::Category(
                NewCategory { name: v.categories[i].name, ordinal: v.categories[i].ordinal, board_id: Some(v.inserted[0]) },
            ),
        forall|i: int|
            #![trigger v.columns[i]]
            0 <= i < v.columns.len() ==> v.row_at(v.columns_start() + i) == TransferRow::Column(
                NewColumn { name: v.columns[i].name, ordinal: v.columns[i].ordinal, board_id: Some(v.inserted[0]) },
            ),
{
    let cat_ids = v.inserted.subrange(1, v.tags_start());
    let col_ids = v.inserted.subrange(v.columns_start(), v.activities_start());
    lemma_id_map_distinct(v.category_entry_ids, cat_ids);
    lemma_id_map_distinct(v.column_entry_ids, col_ids);
    assert(v.category_entry_ids.take(cat_ids.len() as int) == v.category_entry_ids);
    assert(v.column_entry_ids.take(col_ids.len() as int) == v.column_entry_ids);
    assert forall|t: int, i: int|
        #![trigger v.tags[t], v.category_entry_ids[i]]
        0 <= t < v.tags.len() && 0 <= i < v.categories.len() && v.tags[t].category_id == v.category_entry_ids[i]
        implies v.row_at(v.tags_start() + t) == TransferRow::Tag(
            NewCategoryTag {
                tag_name: v.tags[t].name,
                color: color_int_of_text(v.tags[t].color@),
                ordinal: v.tags[t].ordinal,
                category_id: Some(v.inserted[1 + i]),
            },
        ) by {
        assert(lookup_id(id_map(v.category_entry_ids, cat_ids), v.category_entry_ids[i]) == Some(cat_ids[i]));
    }
    assert forall|a: int, i: int|
        #![trigger v.activities[a], v.column_entry_ids[i]]
        0 <= a < v.activities.len() && 0 <= i < v.columns.len() && v.activities[a].column_id == v.column_entry_ids[i]
        implies v.row_at(v.activities_start() + a) == TransferRow::Activity(
            NewActivity {
                name: v.activities[a].name,
                body: v.activities[a].body,
                column_id: Some(v.inserted[v.columns_start() + i]),
                ordinal: v.activities[a].ordinal,
            },
        ) by {
        assert(lookup_id(id_map(v.column_entry_ids, col_ids), v.column_entry_ids[i]) == Some(col_ids[i]));
    }
}

/// A copy of listed categories and columns (an import, or a duplication of an
/// export) records, for every listed id of a category, the new id of the row
/// that copied that category, and for no other id; likewise for columns. So a
/// tag or an activity that refers to a listed category or column is stored
/// with the new id of its copy, and one that refers to none is stored with none.
pub proof fn lemma_copy_maps_each_listed_id_to_its_copy(
    v: TransferView,
    categories: Map<i32, CategoryExport>,
    columns: Map<i32, ColumnExport>,
)
    requires
        v.inserted.len() == v.total(),
        lists_entries(v.category_entry_ids, v.categories, categories),
        lists_entries(v.column_entry_ids, v.columns, columns),
    ensures
        v.category_ids().dom() == categories.dom(),
        forall|k: i32|
            #[trigger] categories.contains_key(k) ==> exists|i: int|
                0 <= i < v.categories.len() && v.category_entry_ids[i] == k && v.category_ids()[k] == v.inserted[1 + i]
                    && v.categories[i]@ == categories[k]@,
        v.column_ids().dom() == columns.dom(),
        forall|k: i32|
            #[trigger] columns.contains_key(k) ==> exists|i: int|
                0 <= i < v.columns.len() && v.column_entry_ids[i] == k && v.column_ids()[k] == v.inserted[v.columns_start() + i]
                    && v.columns[i]@ == columns[k]@,
{
    let cat_ids = v.inserted.subrange(1, v.tags_start());
    let col_ids = v.inserted.subrange(v.columns_start(), v.activities_start());
    lemma_id_map_distinct(v.category_entry_ids, cat_ids);
    lemma_id_map_distinct(v.column_entry_ids, col_ids);
    assert(v.category_entry_ids.take(cat_ids.len() as int) == v.category_entry_ids);
    assert(v.column_entry_ids.take(col_ids.len() as int) == v.column_entry_ids);
    assert forall|k: i32| #[trigger] v.category_ids().dom().contains(k) <==> categories.dom().contains(k) by {
        if categories.contains_key(k) {
            assert(v.category_entry_ids.contains(k));
            let i = choose|i: int| 0 <= i < v.category_entry_ids.len() && v.category_entry_ids[i] == k;
            assert(lookup_id(v.category_ids(), v.category_entry_ids[i]) == Some(cat_ids[i]));
        }
        if v.category_ids().contains_key(k) && !categories.contains_key(k) {
            if v.category_entry_ids.contains(k) {
                let i = choose|i: int| 0 <= i < v.category_entry_ids.len() && v.category_entry_ids[i] == k;
                assert(categories.contains_key(v.category_entry_ids[i]));
            }
        }
    }
    assert(v.category_ids().dom() =~= categories.dom());
    assert forall|k: i32| #[trigger] categories.contains_key(k) implies exists|i: int|
        0 <= i < v.categories.len() && v.category_entry_ids[i] == k && v.category_ids()[k] == v.inserted[1 + i]
            && v.categories[i]@ == categories[k]@ by {
        assert(v.category_entry_ids.contains(k));
        let i = choose|i: int| 0 <= i < v.category_entry_ids.len() && v.category_entry_ids[i] == k;
        assert(lookup_id(v.category_ids(), v.category_entry_ids[i]) == Some(cat_ids[i]));
        assert(categories.contains_key(v.category_entry_ids[i]));
    }
    assert forall|k: i32| #[trigger] v.column_ids().dom().contains(k) <==> columns.dom().contains(k) by {
        if columns.contains_key(k) {
            assert(v.column_entry_ids.contains(k));
            let i = choose|i: int| 0 <= i < v.column_entry_ids.len() && v.column_entry_ids[i] == k;
            assert(lookup_id(v.column_ids(), v.column_entry_ids[i]) == Some(col_ids[i]));
        }
        if v.column_ids().contains_key(k) && !columns.contains_key(k) {
            if v.column_entry_ids.contains(k) {
                let i = choose|i: int| 0 <= i < v.column_entry_ids.len() && v.column_entry_ids[i] == k;
                assert(columns.contains_key(v.column_entry_ids[i]));
            }
        }
    }
    assert(v.column_ids().dom() =~= columns.dom());
    assert forall|k: i32| #[trigger] columns.contains_key(k) implies exists|i: int|
        0 <= i < v.columns.len() && v.column_entry_ids[i] == k && v.column_ids()[k] == v.inserted[v.columns_start() + i]
            && v.columns[i]@ == columns[k]@ by {
        assert(v.column_entry_ids.contains(k));
        let i = choose|i: int| 0 <= i < v.column_entry_ids.len() && v.column_entry_ids[i] == k;
        assert(lookup_id(v.column_ids(), v.column_entry_ids[i]) == Some(col_ids[i]));
        assert(columns.contains_key(v.column_entry_ids[i]));
    }
}

/// Holds when the copy `v` has inserted every row and copies the export of the
/// rows `cols` and `cats`: its columns, activities, categories and tags list the
/// maps `columns`, `activities`, `categories` and `category_tags`, whose views
/// are that export.
pub open spec fn copies_export_of(
    v: TransferView,
    cols: Seq<(ColumnModel, Vec<ActivityModel>)>,
    cats: Seq<(CategoryModel, Vec<CategoryTagModel>)>,
    columns: Map<i32, ColumnExport>,
    activities: Map<i32, ColumnActivityExport>,
    categories: Map<i32, CategoryExport>,
    category_tags: Map<i32, CategoryTagExport>,
) -> bool {
    &&& columns.map_values(|c: ColumnExport| c@) == columns_export(cols)
    &&& activities.map_values(|a: ColumnActivityExport| a@) == column_activities_export(cols)
    &&& categories.map_values(|c: CategoryExport| c@) == categories_export(cats)
    &&& category_tags.map_values(|t: CategoryTagExport| t@) == category_tags_export(cats)
    &&& lists_entries(v.column_entry_ids, v.columns, columns)
    &&& lists_entries(v.activity_entry_ids, v.activities, activities)
    &&& lists_entries(v.category_entry_ids, v.categories, categories)
    &&& lists_entries(v.tag_entry_ids, v.tags, category_tags)
    &&& v.inserted.len() == v.total()
}

proof fn lemma_column_copy(
    v: TransferView,
    cols: Seq<(ColumnModel, Vec<ActivityModel>)>,
    cats: Seq<(CategoryModel, Vec<CategoryTagModel>)>,
    columns: Map<i32, ColumnExport>,
    activities: Map<i32, ColumnActivityExport>,
    categories: Map<i32, CategoryExport>,
    category_tags: Map<i32, CategoryTagExport>,
    i: int,
) -> (c: int)
    requires
        columns_data_consistent(cols),
        copies_export_of(v, cols, cats, columns, activities, categories, category_tags),
        0 <= i < cols.len(),
    ensures
        0 <= c < v.columns.len(),
        v.column_entry_ids[c] == cols[i].0.id,
        v.column_ids().contains_key(cols[i].0.id),
        v.column_ids()[cols[i].0.id] == v.inserted[v.columns_start() + c],
        v.row_at(v.columns_start() + c) == TransferRow::Column(
            NewColumn { name: v.columns[c].name, ordinal: cols[i].0.ordinal, board_id: Some(v.board_id()) },
        ),
        v.columns[c].name@ == cols[i].0.name@,
{
    lemma_columns_export_entries(cols);
    let k = cols[i].0.id;
    assert(columns_export(cols).contains_key(k));
    assert(columns.map_values(|c: ColumnExport| c@).contains_key(k));
    assert(columns.contains_key(k));
    assert(columns[k]@ == columns_export(cols)[k]);
    assert(v.column_entry_ids.contains(k));
    let c = choose|c: int| 0 <= c < v.column_entry_ids.len() && v.column_entry_ids[c] == k;
    assert(columns.contains_key(v.column_entry_ids[c]) && columns[v.column_entry_ids[c]]@ == v.columns[c]@);
    let col_ids = v.inserted.subrange(v.columns_start(), v.activities_start());
    lemma_id_map_distinct(v.column_entry_ids, col_ids);
    assert(lookup_id(id_map(v.column_entry_ids, col_ids), v.column_entry_ids[c]) == Some(col_ids[c]));
    c
}

proof fn lemma_category_copy(
    v: TransferView,
    cols: Seq<(ColumnModel, Vec<ActivityModel>)>,
    cats: Seq<(CategoryModel, Vec<CategoryTagModel>)>,
    columns: Map<i32, ColumnExport>,
    activities: Map<i32, ColumnActivityExport>,
    categories: Map<i32, CategoryExport>,
    category_tags: Map<i32, CategoryTagExport>,
    i: int,
) -> (c: int)
    requires
        categories_data_consistent(cats),
        copies_export_of(v, cols, cats, columns, activities, categories, category_tags),
        0 <= i < cats.len(),
    ensures
        0 <= c < v.categories.len(),
        v.category_entry_ids[c] == cats[i].0.id,
        v.category_ids().contains_key(cats[i].0.id),
        v.category_ids()[cats[i].0.id] == v.inserted[1 + c],
        v.row_at(1 + c) == TransferRow::Category(
            NewCategory { name: v.categories[c].name, ordinal: cats[i].0.ordinal, board_id: Some(v.board_id()) },
        ),
        v.categories[c].name@ == cats[i].0.name@,
{
    lemma_categories_export_entries(cats);
    let k = cats[i].0.id;
    assert(categories_export(cats).contains_key(k));
    assert(categories.map_values(|c: CategoryExport| c@).contains_key(k));
    assert(categories.contains_key(k));
    assert(categories[k]@ == categories_export(cats)[k]);
    assert(v.category_entry_ids.contains(k));
    let c = choose|c: int| 0 <= c < v.category_entry_ids.len() && v.category_entry_ids[c] == k;
    assert(categories.contains_key(v.category_entry_ids[c]) && categories[v.category_entry_ids[c]]@ == v.categories[c]@);
    let cat_ids = v.inserted.subrange(1, v.tags_start());
    lemma_id_map_distinct(v.category_entry_ids, cat_ids);
    assert(lookup_id(id_map(v.category_entry_ids, cat_ids), v.category_entry_ids[c]) == Some(cat_ids[c]));
    c
}

proof fn lemma_activity_copy(
    v: TransferView,
    cols: Seq<(ColumnModel, Vec<ActivityModel>)>,
    cats: Seq<(CategoryModel, Vec<CategoryTagModel>)>,
    columns: Map<i32, ColumnExport>,
    activities: Map<i32, ColumnActivityExport>,
    categories: Map<i32, CategoryExport>,
    category_tags: Map<i32, CategoryTagExport>,
    i: int,
    j: int,
) -> (a: int)
    requires
        columns_data_consistent(cols),
        copies_export_of(v, cols, cats, columns, activities, categories, category_tags),
        0 <= i < cols.len(),
        0 <= j < cols[i].1@.len(),
    ensures
        0 <= a < v.activities.len(),
        v.activity_entry_ids[a] == cols[i].1@[j].id,
        v.column_ids().contains_key(cols[i].0.id),
        v.row_at(v.activities_start() + a) == TransferRow::Activity(
            NewActivity {
                name: v.activities[a].name,
                body: v.activities[a].body,
                column_id: Some(v.column_ids()[cols[i].0.id]),
                ordinal: cols[i].1@[j].ordinal,
            },
        ),
        v.activities[a].name@ == cols[i].1@[j].name@,
        opt_str_view(v.activities[a].body) == opt_str_view(cols[i].1@[j].body),
{
    let _ = lemma_column_copy(v, cols, cats, columns, activities, categories, category_tags, i);
    lemma_column_activities_export_entries(cols);
    let act = cols[i].1@[j];
    let k = act.id;
    assert(act.column_id == Some(cols[i].0.id));
    assert(column_activities_export(cols).contains_key(cols[i].1@[j].id));
    assert(activities.map_values(|a: ColumnActivityExport| a@).contains_key(k));
    assert(activities.contains_key(k));
    assert(activities[k]@ == column_activities_export(cols)[k]);
    assert(v.activity_entry_ids.contains(k));
    let a = choose|a: int| 0 <= a < v.activity_entry_ids.len() && v.activity_entry_ids[a] == k;
    assert(activities.contains_key(v.activity_entry_ids[a]) && activities[v.activity_entry_ids[a]]@ == v.activities[a]@);
    assert(v.activities[a].column_id == cols[i].0.id);
    a
}

proof fn lemma_tag_copy(
    v: TransferView,
    cols: Seq<(ColumnModel, Vec<ActivityModel>)>,
    cats: Seq<(CategoryModel, Vec<CategoryTagModel>)>,
    columns: Map<i32, ColumnExport>,
    activities: Map<i32, ColumnActivityExport>,
    categories: Map<i32, CategoryExport>,
    category_tags: Map<i32, CategoryTagExport>,
    i: int,
    j: int,
) -> (x: int)
    requires
        categories_data_consistent(cats),
        copies_export_of(v, cols, cats, columns, activities, categories, category_tags),
        0 <= i < cats.len(),
        0 <= j < cats[i].1@.len(),
    ensures
        0 <= x < v.tags.len(),
        v.tag_entry_ids[x] == cats[i].1@[j].id,
        v.category_ids().contains_key(cats[i].0.id),
        v.row_at(v.tags_start() + x) == TransferRow::Tag(
            NewCategoryTag {
                tag_name: v.tags[x].name,
                color: color_int_of_text(color_text_of_int(cats[i].1@[j].color)),
                ordinal: cats[i].1@[j].ordinal,
                category_id: Some(v.category_ids()[cats[i].0.id]),
            },
        ),
        v.tags[x].name@ == cats[i].1@[j].tag_name@,
{
    let _ = lemma_category_copy(v, cols, cats, columns, activities, categories, category_tags, i);
    lemma_category_tags_export_entries(cats);
    let tag = cats[i].1@[j];
    let k = tag.id;
    assert(category_tags_export(cats).contains_key(cats[i].1@[j].id));
    assert(category_tags.map_values(|t: CategoryTagExport| t@).contains_key(k));
    assert(category_tags.contains_key(k));
    assert(category_tags[k]@ == category_tags_export(cats)[k]);
    assert(v.tag_entry_ids.contains(k));
    let x = choose|x: int| 0 <= x < v.tag_entry_ids.len() && v.tag_entry_ids[x] == k;
    assert(category_tags.contains_key(v.tag_entry_ids[x]) && category_tags[v.tag_entry_ids[x]]@ == v.tags[x]@);
    assert(v.tags[x].category_id == cats[i].0.id);
    x
}

/// Copying the export of a board (by an import of it, or a duplication)
/// reproduces the board's rows under new ids. When the rows come as the store
/// gives them and the copy has inserted every row, each column is copied once
/// onto the new board with its name and position; each activity of a column is
/// copied with its name, body and position into the copy of its column; each
/// category is copied once onto the new board; and each tag is copied with its
/// name and position into the copy of its category, with its colour kept
/// whenever it lies in `0..=0xFFFFFF`. The copy of a column or category is the
/// row whose new id the copy records under the old id.
#[verifier::spinoff_prover]
#[verifier::rlimit(40)]
pub proof fn lemma_copy_of_export_reproduces_the_rows(
    v: TransferView,
    cols: Seq<(ColumnModel, Vec<ActivityModel>)>,
    cats: Seq<(CategoryModel, Vec<CategoryTagModel>)>,
    columns: Map<i32, ColumnExport>,
    activities: Map<i32, ColumnActivityExport>,
    categories: Map<i32, CategoryExport>,
    category_tags: Map<i32, CategoryTagExport>,
)
    requires
        columns_data_consistent(cols),
        categories_data_consistent(cats),
        copies_export_of(v, cols, cats, columns, activities, categories, category_tags),
    ensures
        forall|i: int| #![trigger cols[i]] 0 <= i < cols.len() ==> exists|c: int|
            0 <= c < v.columns.len() && v.column_entry_ids[c] == cols[i].0.id
                && v.column_ids()[cols[i].0.id] == v.inserted[v.columns_start() + c]
                && v.row_at(v.columns_start() + c) == TransferRow::Column(
                NewColumn { name: v.columns[c].name, ordinal: cols[i].0.ordinal, board_id: Some(v.board_id()) },
            ) && v.columns[c].name@ == cols[i].0.name@,
        forall|i: int, j: int| #![trigger cols[i].1@[j]] 0 <= i < cols.len() && 0 <= j < cols[i].1@.len() ==> exists|a: int|
            0 <= a < v.activities.len() && v.activity_entry_ids[a] == cols[i].1@[j].id
                && v.row_at(v.activities_start() + a) == TransferRow::Activity(
                NewActivity {
                    name: v.activities[a].name,
                    body: v.activities[a].body,
                    column_id: Some(v.column_ids()[cols[i].0.id]),
                    ordinal: cols[i].1@[j].ordinal,
                },
            ) && v.activities[a].name@ == cols[i].1@[j].name@ && opt_str_view(v.activities[a].body) == opt_str_view(
                cols[i].1@[j].body,
            ),
        forall|i: int| #![trigger cats[i]] 0 <= i < cats.len() ==> exists|c: int|
            0 <= c < v.categories.len() && v.category_entry_ids[c] == cats[i].0.id
                && v.category_ids()[cats[i].0.id] == v.inserted[1 + c]
                && v.row_at(1 + c) == TransferRow::Category(
                NewCategory { name: v.categories[c].name, ordinal: cats[i].0.ordinal, board_id: Some(v.board_id()) },
            ) && v.categories[c].name@ == cats[i].0.name@,
        forall|i: int, j: int| #![trigger cats[i].1@[j]] 0 <= i < cats.len() && 0 <= j < cats[i].1@.len() ==> exists|x: int|
            0 <= x < v.tags.len() && v.tag_entry_ids[x] == cats[i].1@[j].id
                && v.row_at(v.tags_start() + x) == TransferRow::Tag(
                NewCategoryTag {
                    tag_name: v.tags[x].name,
                    color: color_int_of_text(color_text_of_int(cats[i].1@[j].color)),
                    ordinal: cats[i].1@[j].ordinal,
                    category_id: Some(v.category_ids()[cats[i].0.id]),
                },
            ) && v.tags[x].name@ == cats[i].1@[j].tag_name@,
        forall|c: i32| 0 <= c < 0x1000000 ==> #[trigger] color_int_of_text(color_text_of_int(c)) == c,
{
    assert forall|i: int| #![trigger cols[i]] 0 <= i < cols.len() implies exists|c: int|
        0 <= c < v.columns.len() && v.column_entry_ids[c] == cols[i].0.id
            && v.column_ids()[cols[i].0.id] == v.inserted[v.columns_start() + c]
            && v.row_at(v.columns_start() + c) == TransferRow::Column(
            NewColumn { name: v.columns[c].name, ordinal: cols[i].0.ordinal, board_id: Some(v.board_id()) },
        ) && v.columns[c].name@ == cols[i].0.name@ by {
        let c = lemma_column_copy(v, cols, cats, columns, activities, categories, category_tags, i);
    }
    assert forall|i: int, j: int| #![trigger cols[i].1@[j]] 0 <= i < cols.len() && 0 <= j < cols[i].1@.len() implies exists|a: int|
        0 <= a < v.activities.len() && v.activity_entry_ids[a] == cols[i].1@[j].id
            && v.row_at(v.activities_start() + a) == TransferRow::Activity(
            NewActivity {
                name: v.activities[a].name,
                body: v.activities[a].body,
                column_id: Some(v.column_ids()[cols[i].0.id]),
                ordinal: cols[i].1@[j].ordinal,
            },
        ) && v.activities[a].name@ == cols[i].1@[j].name@ && opt_str_view(v.activities[a].body) == opt_str_view(
            cols[i].1@[j].body,
        ) by {
        let a = lemma_activity_copy(v, cols, cats, columns, activities, categories, category_tags, i, j);
    }
    assert forall|i: int| #![trigger cats[i]] 0 <= i < cats.len() implies exists|c: int|
        0 <= c < v.categories.len() && v.category_entry_ids[c] == cats[i].0.id
            && v.category_ids()[cats[i].0.id] == v.inserted[1 + c]
            && v.row_at(1 + c) == TransferRow::Category(
            NewCategory { name: v.categories[c].name, ordinal: cats[i].0.ordinal, board_id: Some(v.board_id()) },
        ) && v.categories[c].name@ == cats[i].0.name@ by {
        let c = lemma_category_copy(v, cols, cats, columns, activities, categories, category_tags, i);
    }
    assert forall|i: int, j: int| #![trigger cats[i].1@[j]] 0 <= i < cats.len() && 0 <= j < cats[i].1@.len() implies exists|x: int|
        0 <= x < v.tags.len() && v.tag_entry_ids[x] == cats[i].1@[j].id
            && v.row_at(v.tags_start() + x) == TransferRow::Tag(
            NewCategoryTag {
                tag_name: v.tags[x].name,
                color: color_int_of_text(color_text_of_int(cats[i].1@[j].color)),
                ordinal: cats[i].1@[j].ordinal,
                category_id: Some(v.category_ids()[cats[i].0.id]),
            },
        ) && v.tags[x].name@ == cats[i].1@[j].tag_name@ by {
        let x = lemma_tag_copy(v, cols, cats, columns, activities, categories, category_tags, i, j);
    }
    assert forall|c: i32| 0 <= c < 0x1000000 implies #[trigger] color_int_of_text(color_text_of_int(c)) == c by {
        lemma_color_write_then_read(c);
    }
}

/// Copying the export of a board (by an import of it, or a duplication)
/// reproduces each activity that sits in no column: when no two such
/// activities share an id, each is copied once, with its name, its body and its
/// position, into no column.
pub proof fn lemma_copy_of_export_reproduces_loose_activities(
    v: TransferView,
    others: Seq<ActivityModel>,
    other_activities: Map<i32, ActivityExport>,
)
    requires
        forall|i: int, j: int| 0 <= i < j < others.len() ==> #[trigger] others[i].id != #[trigger] others[j].id,
        other_activities.map_values(|a: ActivityExport| a@) == other_activities_export(others),
        lists_entries(v.other_entry_ids, v.other_activities, other_activities),
    ensures
        forall|i: int| #![trigger others[i]] 0 <= i < others.len() ==> exists|a: int|
            0 <= a < v.other_activities.len() && v.other_entry_ids[a] == others[i].id
                && v.row_at(v.others_start() + a) == TransferRow::Activity(
                NewActivity {
                    name: v.other_activities[a].name,
                    body: v.other_activities[a].body,
                    column_id: None,
                    ordinal: others[i].ordinal,
                },
            ) && v.other_activities[a].name@ == others[i].name@ && opt_str_view(v.other_activities[a].body)
                == opt_str_view(others[i].body),
{
    lemma_other_activities_export_entries(others);
    assert forall|i: int| #![trigger others[i]] 0 <= i < others.len() implies exists|a: int|
        0 <= a < v.other_activities.len() && v.other_entry_ids[a] == others[i].id
            && v.row_at(v.others_start() + a) == TransferRow::Activity(
            NewActivity {
                name: v.other_activities[a].name,
                body: v.other_activities[a].body,
                column_id: None,
                ordinal: others[i].ordinal,
            },
        ) && v.other_activities[a].name@ == others[i].name@ && opt_str_view(v.other_activities[a].body)
            == opt_str_view(others[i].body) by {
        let k = others[i].id;
        assert(other_activities_export(others).contains_key(k));
        assert(other_activities.map_values(|a: ActivityExport| a@).contains_key(k));
        assert(other_activities.contains_key(k));
        assert(other_activities[k]@ == other_activities_export(others)[k]);
        assert(v.other_entry_ids.contains(k));
        let a = choose|a: int| 0 <= a < v.other_entry_ids.len() && v.other_entry_ids[a] == k;
        assert(other_activities.contains_key(v.other_entry_ids[a])
            && other_activities[v.other_entry_ids[a]]@ == v.other_activities[a]@);
    }
}

} // verus!
