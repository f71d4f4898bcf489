//! The columns of the eight CSV tables, and how a row of typed cells is
//! written as CSV fields and read back.
use vstd::prelude::*;

use crate::db::csv_bundle::{table_at, table_index, TABLE_COUNT, WorldflowCsvTable};
use crate::db::csv_codec::{
    encode_opt_str, json_opt_text, opt_str, opt_str_spec, opt_uuid_cell, opt_view, parse_i64,
    parse_opt_uuid, parse_uuid, uuid_cell,
};
use crate::error::{Result, WorldflowError};
use crate::ids::{opt_uuid_text, opt_uuid_to_string, uuid_text, uuid_to_string, Id};
use crate::text::{i64_to_string, int_text, parse_i64_spec, lemma_parse_int_text};

verus! {

broadcast use vstd::string::group_string_axioms;

/// How a column is encoded.
#[derive(Debug, Clone, Copy, PartialEq, Eq, Structural)]
pub enum CellKind {
    /// A UUID, as its hyphenated text.
    Uuid,
    /// An optional UUID; `None` is the empty text.
    OptUuid,
    /// Text as is.
    Text,
    /// Optional text, as a JSON scalar.
    OptText,
    /// An integer, in decimal.
    Int,
}

/// A typed cell of a row.
#[derive(Debug, Clone, PartialEq, Eq)]
pub enum Cell {
    Uuid(Id),
    OptUuid(Option<Id>),
    Text(String),
    OptText(Option<String>),
    Int(i64),
}

/// The value of a cell, with texts as character sequences.
pub enum CellValue {
    Uuid(Id),
    OptUuid(Option<Id>),
    Text(Seq<char>),
    OptText(Option<Seq<char>>),
    Int(i64),
}

/// The kind of a cell.
pub open spec fn cell_kind(c: Cell) -> CellKind {
    match c {
        Cell::Uuid(_) => CellKind::Uuid,
        Cell::OptUuid(_) => CellKind::OptUuid,
        Cell::Text(_) => CellKind::Text,
        Cell::OptText(_) => CellKind::OptText,
        Cell::Int(_) => CellKind::Int,
    }
}

/// The value of a cell.
pub open spec fn cell_value(c: Cell) -> CellValue {
    match c {
        Cell::Uuid(x) => CellValue::Uuid(x),
        Cell::OptUuid(x) => CellValue::OptUuid(x),
        Cell::Text(s) => CellValue::Text(s@),
        Cell::OptText(s) => CellValue::OptText(opt_view(s)),
        Cell::Int(n) => CellValue::Int(n),
    }
}

/// The CSV field written for a cell.
pub open spec fn cell_text(c: Cell) -> Seq<char> {
    match c {
        Cell::Uuid(x) => uuid_text(x),
        Cell::OptUuid(x) => opt_uuid_text(x),
        Cell::Text(s) => s@,
        Cell::OptText(s) => json_opt_text(opt_view(s)),
        Cell::Int(n) => int_text(n as int),
    }
}

/// What reading a field as a cell of some kind gives; `None` when the field
/// is refused.
pub open spec fn decode_cell_spec(kind: CellKind, s: Seq<char>) -> Option<CellValue> {
    match kind {
        CellKind::Uuid => match uuid_cell(s) {
            Some(x) => Some(CellValue::Uuid(x)),
            None => None,
        },
        CellKind::OptUuid => match opt_uuid_cell(s) {
            Some(x) => Some(CellValue::OptUuid(x)),
            None => None,
        },
        CellKind::Text => Some(CellValue::Text(s)),
        CellKind::OptText => match opt_str_spec(s) {
            Some(x) => Some(CellValue::OptText(x)),
            None => None,
        },
        CellKind::Int => match parse_i64_spec(s) {
            Some(n) => Some(CellValue::Int(n)),
            None => None,
        },
    }
}

/// The CSV field of a cell.
pub fn encode_cell(c: &Cell) -> (r: String)
    ensures
        r@ == cell_text(*c),
{
    match c {
        Cell::Uuid(x) => uuid_to_string(*x),
        Cell::OptUuid(x) => opt_uuid_to_string(*x),
        Cell::Text(s) => s.clone(),
        Cell::OptText(s) => {
            let r = encode_opt_str(s.clone());
            match r {
                Ok(t) => t,
                Err(_) => String::new(),
            }
        },
        Cell::Int(n) => i64_to_string(*n),
    }
}

/// Reads a field as a cell of the given kind. A field that `encode_cell`
/// wrote for a cell of that kind reads back as the same value.
pub fn decode_cell(kind: CellKind, s: &str) -> (r: Result<Cell>)
    ensures
        r is Ok <==> decode_cell_spec(kind, s@) is Some,
        r matches Ok(c) ==> cell_kind(c) == kind && decode_cell_spec(kind, s@) == Some(cell_value(c)),
        r matches Err(e) ==> (kind == CellKind::OptText ==> e is Serialization) && (kind
            != CellKind::OptText ==> e is InvalidInput),
        forall|c: Cell|
            cell_kind(c) == kind && s@ == cell_text(c) ==> (r is Ok && cell_value(r->Ok_0)
                == cell_value(c)),
{
    match kind {
        CellKind::Uuid => {
            let x = parse_uuid(s)?;
            Ok(Cell::Uuid(x))
        },
        CellKind::OptUuid => {
            let x = parse_opt_uuid(s)?;
            Ok(Cell::OptUuid(x))
        },
        CellKind::Text => Ok(Cell::Text(String::from_str(s))),
        CellKind::OptText => {
            let x = opt_str(s)?;
            Ok(Cell::OptText(x))
        },
        CellKind::Int => {
            let n = parse_i64(s)?;
            Ok(Cell::Int(n))
        },
    }
}


// ─────────────────────────────── table schemas ───────────────────────────────

/// The column names of a table, in the order they are written.
pub open spec fn table_header(t: WorldflowCsvTable) -> Seq<Seq<char>> {
    match t {
        WorldflowCsvTable::Projects => seq!["id"@, "name"@, "description"@, "cover_image"@, "created_at"@, "updated_at"@],
        WorldflowCsvTable::Categories => seq!["id"@, "project_id"@, "parent_id"@, "name"@, "sort_order"@, "created_at"@, "updated_at"@],
        WorldflowCsvTable::TagSchemas => seq!["id"@, "project_id"@, "name"@, "description"@, "type"@, "target"@, "default_val"@, "range_min"@, "range_max"@, "sort_order"@, "created_at"@, "updated_at"@],
        WorldflowCsvTable::EntryTypes => seq!["id"@, "project_id"@, "name"@, "description"@, "icon"@, "color"@, "created_at"@, "updated_at"@],
        WorldflowCsvTable::Entries => seq!["id"@, "project_id"@, "category_id"@, "title"@, "summary"@, "content"@, "type"@, "tags"@, "images"@, "cover_path"@, "created_at"@, "updated_at"@],
        WorldflowCsvTable::EntryRelations => seq!["id"@, "project_id"@, "a_id"@, "b_id"@, "relation"@, "content"@, "created_at"@, "updated_at"@],
        WorldflowCsvTable::EntryLinks => seq!["id"@, "project_id"@, "a_id"@, "b_id"@, "created_at"@],
        WorldflowCsvTable::IdeaNotes => seq!["id"@, "project_id"@, "content"@, "title"@, "status"@, "pinned"@, "created_at"@, "updated_at"@, "last_reviewed_at"@, "converted_entry_id"@],
    }
}

/// The encoding of each column of a table.
pub open spec fn table_kinds(t: WorldflowCsvTable) -> Seq<CellKind> {
    match t {
        WorldflowCsvTable::Projects => seq![CellKind::Uuid, CellKind::Text, CellKind::OptText, CellKind::OptText, CellKind::Text, CellKind::Text],
        WorldflowCsvTable::Categories => seq![CellKind::Uuid, CellKind::Uuid, CellKind::OptUuid, CellKind::Text, CellKind::Int, CellKind::Text, CellKind::Text],
        WorldflowCsvTable::TagSchemas => seq![CellKind::Uuid, CellKind::Uuid, CellKind::Text, CellKind::OptText, CellKind::Text, CellKind::Text, CellKind::OptText, CellKind::Text, CellKind::Text, CellKind::Int, CellKind::Text, CellKind::Text],
        WorldflowCsvTable::EntryTypes => seq![CellKind::Uuid, CellKind::Uuid, CellKind::Text, CellKind::OptText, CellKind::OptText, CellKind::OptText, CellKind::Text, CellKind::Text],
        WorldflowCsvTable::Entries => seq![CellKind::Uuid, CellKind::Uuid, CellKind::OptUuid, CellKind::Text, CellKind::OptText, CellKind::Text, CellKind::OptText, CellKind::Text, CellKind::Text, CellKind::OptText, CellKind::Text, CellKind::Text],
        WorldflowCsvTable::EntryRelations => seq![CellKind::Uuid, CellKind::Uuid, CellKind::Uuid, CellKind::Uuid, CellKind::Text, CellKind::Text, CellKind::Text, CellKind::Text],
        WorldflowCsvTable::EntryLinks => seq![CellKind::Uuid, CellKind::Uuid, CellKind::Uuid, CellKind::Uuid, CellKind::Text],
        WorldflowCsvTable::IdeaNotes => seq![CellKind::Uuid, CellKind::OptUuid, CellKind::Text, CellKind::OptText, CellKind::Text, CellKind::Int, CellKind::Text, CellKind::Text, CellKind::OptText, CellKind::OptUuid],
    }
}

/// The order in which the columns of a row are checked on import; the
/// first refused column decides the error.
pub open spec fn table_check_order(t: WorldflowCsvTable) -> Seq<int> {
    match t {
        WorldflowCsvTable::Projects => seq![0, 1, 2, 3, 4, 5],
        WorldflowCsvTable::Categories => seq![0, 1, 2, 3, 4, 5, 6],
        WorldflowCsvTable::TagSchemas => seq![0, 1, 9, 3, 6, 2, 4, 5, 7, 8, 10, 11],
        WorldflowCsvTable::EntryTypes => seq![0, 1, 2, 3, 4, 5, 6, 7],
        WorldflowCsvTable::Entries => seq![0, 1, 2, 3, 4, 5, 6, 7, 8, 9, 10, 11],
        WorldflowCsvTable::EntryRelations => seq![0, 1, 2, 3, 4, 5, 6, 7],
        WorldflowCsvTable::EntryLinks => seq![0, 1, 2, 3, 4],
        WorldflowCsvTable::IdeaNotes => seq![0, 1, 9, 5, 3, 8, 2, 4, 6, 7],
    }
}

/// The column names of a table.
pub fn table_header_strings(t: WorldflowCsvTable) -> (r: Vec<String>)
    ensures
        r@.map_values(|f: String| f@) == table_header(t),
{
    let mut v: Vec<String> = Vec::new();
    match t {
        WorldflowCsvTable::Projects => {
            v.push(String::from_str("id"));
            v.push(String::from_str("name"));
            v.push(String::from_str("description"));
            v.push(String::from_str("cover_image"));
            v.push(String::from_str("created_at"));
            v.push(String::from_str("updated_at"));
        },
        WorldflowCsvTable::Categories => {
            v.push(String::from_str("id"));
            v.push(String::from_str("project_id"));
            v.push(String::from_str("parent_id"));
            v.push(String::from_str("name"));
            v.push(String::from_str("sort_order"));
            v.push(String::from_str("created_at"));
            v.push(String::from_str("updated_at"));
        },
        WorldflowCsvTable::TagSchemas => {
            v.push(String::from_str("id"));
            v.push(String::from_str("project_id"));
            v.push(String::from_str("name"));
            v.push(String::from_str("description"));
            v.push(String::from_str("type"));
            v.push(String::from_str("target"));
            v.push(String::from_str("default_val"));
            v.push(String::from_str("range_min"));
            v.push(String::from_str("range_max"));
            v.push(String::from_str("sort_order"));
            v.push(String::from_str("created_at"));
            v.push(String::from_str("updated_at"));
        },
        WorldflowCsvTable::EntryTypes => {
            v.push(String::from_str("id"));
            v.push(String::from_str("project_id"));
            v.push(String::from_str("name"));
            v.push(String::from_str("description"));
            v.push(String::from_str("icon"));
            v.push(String::from_str("color"));
            v.push(String::from_str("created_at"));
            v.push(String::from_str("updated_at"));
        },
        WorldflowCsvTable::Entries => {
            v.push(String::from_str("id"));
            v.push(String::from_str("project_id"));
            v.push(String::from_str("category_id"));
            v.push(String::from_str("title"));
            v.push(String::from_str("summary"));
            v.push(String::from_str("content"));
            v.push(String::from_str("type"));
            v.push(String::from_str("tags"));
            v.push(String::from_str("images"));
            v.push(String::from_str("cover_path"));
            v.push(String::from_str("created_at"));
            v.push(String::from_str("updated_at"));
        },
        WorldflowCsvTable::EntryRelations => {
            v.push(String::from_str("id"));
            v.push(String::from_str("project_id"));
            v.push(String::from_str("a_id"));
            v.push(String::from_str("b_id"));
            v.push(String::from_str("relation"));
            v.push(String::from_str("content"));
            v.push(String::from_str("created_at"));
            v.push(String::from_str("updated_at"));
        },
        WorldflowCsvTable::EntryLinks => {
            v.push(String::from_str("id"));
            v.push(String::from_str("project_id"));
            v.push(String::from_str("a_id"));
            v.push(String::from_str("b_id"));
            v.push(String::from_str("created_at"));
        },
        WorldflowCsvTable::IdeaNotes => {
            v.push(String::from_str("id"));
            v.push(String::from_str("project_id"));
            v.push(String::from_str("content"));
            v.push(String::from_str("title"));
            v.push(String::from_str("status"));
            v.push(String::from_str("pinned"));
            v.push(String::from_str("created_at"));
            v.push(String::from_str("updated_at"));
            v.push(String::from_str("last_reviewed_at"));
            v.push(String::from_str("converted_entry_id"));
        },
    }
    v
}

/// The column kinds of a table.
pub fn table_kind_list(t: WorldflowCsvTable) -> (r: Vec<CellKind>)
    ensures
        r@ == table_kinds(t),
{
    let mut v: Vec<CellKind> = Vec::new();
    match t {
        WorldflowCsvTable::Projects => {
            v.push(CellKind::Uuid);
            v.push(CellKind::Text);
            v.push(CellKind::OptText);
            v.push(CellKind::OptText);
            v.push(CellKind::Text);
            v.push(CellKind::Text);
        },
        WorldflowCsvTable::Categories => {
            v.push(CellKind::Uuid);
            v.push(CellKind::Uuid);
            v.push(CellKind::OptUuid);
            v.push(CellKind::Text);
            v.push(CellKind::Int);
            v.push(CellKind::Text);
            v.push(CellKind::Text);
        },
        WorldflowCsvTable::TagSchemas => {
            v.push(CellKind::Uuid);
            v.push(CellKind::Uuid);
            v.push(CellKind::Text);
            v.push(CellKind::OptText);
            v.push(CellKind::Text);
            v.push(CellKind::Text);
            v.push(CellKind::OptText);
            v.push(CellKind::Text);
            v.push(CellKind::Text);
            v.push(CellKind::Int);
            v.push(CellKind::Text);
            v.push(CellKind::Text);
        },
        WorldflowCsvTable::EntryTypes => {
            v.push(CellKind::Uuid);
            v.push(CellKind::Uuid);
            v.push(CellKind::Text);
            v.push(CellKind::OptText);
            v.push(CellKind::OptText);
            v.push(CellKind::OptText);
            v.push(CellKind::Text);
            v.push(CellKind::Text);
        },
        WorldflowCsvTable::Entries => {
            v.push(CellKind::Uuid);
            v.push(CellKind::Uuid);
            v.push(CellKind::OptUuid);
            v.push(CellKind::Text);
            v.push(CellKind::OptText);
            v.push(CellKind::Text);
            v.push(CellKind::OptText);
            v.push(CellKind::Text);
            v.push(CellKind::Text);
            v.push(CellKind::OptText);
            v.push(CellKind::Text);
            v.push(CellKind::Text);
        },
        WorldflowCsvTable::EntryRelations => {
            v.push(CellKind::Uuid);
            v.push(CellKind::Uuid);
            v.push(CellKind::Uuid);
            v.push(CellKind::Uuid);
            v.push(CellKind::Text);
            v.push(CellKind::Text);
            v.push(CellKind::Text);
            v.push(CellKind::Text);
        },
        WorldflowCsvTable::EntryLinks => {
            v.push(CellKind::Uuid);
            v.push(CellKind::Uuid);
            v.push(CellKind::Uuid);
            v.push(CellKind::Uuid);
            v.push(CellKind::Text);
        },
        WorldflowCsvTable::IdeaNotes => {
            v.push(CellKind::Uuid);
            v.push(CellKind::OptUuid);
            v.push(CellKind::Text);
            v.push(CellKind::OptText);
            v.push(CellKind::Text);
            v.push(CellKind::Int);
            v.push(CellKind::Text);
            v.push(CellKind::Text);
            v.push(CellKind::OptText);
            v.push(CellKind::OptUuid);
        },
    }
    v
}

/// The check order of a table's columns.
pub fn table_check_order_list(t: WorldflowCsvTable) -> (r: Vec<usize>)
    ensures
        r@.map_values(|i: usize| i as int) == table_check_order(t),
{
    let mut v: Vec<usize> = Vec::new();
    match t {
        WorldflowCsvTable::Projects => {
            v.push(0);
            v.push(1);
            v.push(2);
            v.push(3);
            v.push(4);
            v.push(5);
        },
        WorldflowCsvTable::Categories => {
            v.push(0);
            v.push(1);
            v.push(2);
            v.push(3);
            v.push(4);
            v.push(5);
            v.push(6);
        },
        WorldflowCsvTable::TagSchemas => {
            v.push(0);
            v.push(1);
            v.push(9);
            v.push(3);
            v.push(6);
            v.push(2);
            v.push(4);
            v.push(5);
            v.push(7);
            v.push(8);
            v.push(10);
            v.push(11);
        },
        WorldflowCsvTable::EntryTypes => {
            v.push(0);
            v.push(1);
            v.push(2);
            v.push(3);
            v.push(4);
            v.push(5);
            v.push(6);
            v.push(7);
        },
        WorldflowCsvTable::Entries => {
            v.push(0);
            v.push(1);
            v.push(2);
            v.push(3);
            v.push(4);
            v.push(5);
            v.push(6);
            v.push(7);
            v.push(8);
            v.push(9);
            v.push(10);
            v.push(11);
        },
        WorldflowCsvTable::EntryRelations => {
            v.push(0);
            v.push(1);
            v.push(2);
            v.push(3);
            v.push(4);
            v.push(5);
            v.push(6);
            v.push(7);
        },
        WorldflowCsvTable::EntryLinks => {
            v.push(0);
            v.push(1);
            v.push(2);
            v.push(3);
            v.push(4);
        },
        WorldflowCsvTable::IdeaNotes => {
            v.push(0);
            v.push(1);
            v.push(9);
            v.push(5);
            v.push(3);
            v.push(8);
            v.push(2);
            v.push(4);
            v.push(6);
            v.push(7);
        },
    }
    v
}


proof fn lemma_projects_names_distinct()
    ensures
        forall|i: int, j: int|
            0 <= i < j < table_header(WorldflowCsvTable::Projects).len() ==> table_header(WorldflowCsvTable::Projects)[i] != table_header(WorldflowCsvTable::Projects)[j],
{
    reveal_strlit("id");
    reveal_strlit("name");
    reveal_strlit("description");
    reveal_strlit("cover_image");
    reveal_strlit("created_at");
    reveal_strlit("updated_at");
    assert("id"@.len() != "name"@.len());
    assert(table_header(WorldflowCsvTable::Projects)[0] != table_header(WorldflowCsvTable::Projects)[1]);
    assert("id"@.len() != "description"@.len());
    assert(table_header(WorldflowCsvTable::Projects)[0] != table_header(WorldflowCsvTable::Projects)[2]);
    assert("id"@.len() != "cover_image"@.len());
    assert(table_header(WorldflowCsvTable::Projects)[0] != table_header(WorldflowCsvTable::Projects)[3]);
    assert("id"@.len() != "created_at"@.len());
    assert(table_header(WorldflowCsvTable::Projects)[0] != table_header(WorldflowCsvTable::Projects)[4]);
    assert("id"@.len() != "updated_at"@.len());
    assert(table_header(WorldflowCsvTable::Projects)[0] != table_header(WorldflowCsvTable::Projects)[5]);
    assert("name"@.len() != "description"@.len());
    assert(table_header(WorldflowCsvTable::Projects)[1] != table_header(WorldflowCsvTable::Projects)[2]);
    assert("name"@.len() != "cover_image"@.len());
    assert(table_header(WorldflowCsvTable::Projects)[1] != table_header(WorldflowCsvTable::Projects)[3]);
    assert("name"@.len() != "created_at"@.len());
    assert(table_header(WorldflowCsvTable::Projects)[1] != table_header(WorldflowCsvTable::Projects)[4]);
    assert("name"@.len() != "updated_at"@.len());
    assert(table_header(WorldflowCsvTable::Projects)[1] != table_header(WorldflowCsvTable::Projects)[5]);
    assert("description"@[0] != "cover_image"@[0]);
    assert(table_header(WorldflowCsvTable::Projects)[2] != table_header(WorldflowCsvTable::Projects)[3]);
    assert("description"@.len() != "created_at"@.len());
    assert(table_header(WorldflowCsvTable::Projects)[2] != table_header(WorldflowCsvTable::Projects)[4]);
    assert("description"@.len() != "updated_at"@.len());
    assert(table_header(WorldflowCsvTable::Projects)[2] != table_header(WorldflowCsvTable::Projects)[5]);
    assert("cover_image"@.len() != "created_at"@.len());
    assert(table_header(WorldflowCsvTable::Projects)[3] != table_header(WorldflowCsvTable::Projects)[4]);
    assert("cover_image"@.len() != "updated_at"@.len());
    assert(table_header(WorldflowCsvTable::Projects)[3] != table_header(WorldflowCsvTable::Projects)[5]);
    assert("created_at"@[0] != "updated_at"@[0]);
    assert(table_header(WorldflowCsvTable::Projects)[4] != table_header(WorldflowCsvTable::Projects)[5]);
    assert forall|i: int, j: int| 0 <= i < j < table_header(WorldflowCsvTable::Projects).len() implies table_header(WorldflowCsvTable::Projects)[i] != table_header(WorldflowCsvTable::Projects)[j] by {
        assert(i == 0 || i == 1 || i == 2 || i == 3 || i == 4 || i == 5);
        assert(j == 0 || j == 1 || j == 2 || j == 3 || j == 4 || j == 5);
    }
}

proof fn lemma_categories_names_distinct()
    ensures
        forall|i: int, j: int|
            0 <= i < j < table_header(WorldflowCsvTable::Categories).len() ==> table_header(WorldflowCsvTable::Categories)[i] != table_header(WorldflowCsvTable::Categories)[j],
{
    reveal_strlit("id");
    reveal_strlit("project_id");
    reveal_strlit("parent_id");
    reveal_strlit("name");
    reveal_strlit("sort_order");
    reveal_strlit("created_at");
    reveal_strlit("updated_at");
    assert("id"@.len() != "project_id"@.len());
    assert(table_header(WorldflowCsvTable::Categories)[0] != table_header(WorldflowCsvTable::Categories)[1]);
    assert("id"@.len() != "parent_id"@.len());
    assert(table_header(WorldflowCsvTable::Categories)[0] != table_header(WorldflowCsvTable::Categories)[2]);
    assert("id"@.len() != "name"@.len());
    assert(table_header(WorldflowCsvTable::Categories)[0] != table_header(WorldflowCsvTable::Categories)[3]);
    assert("id"@.len() != "sort_order"@.len());
    assert(table_header(WorldflowCsvTable::Categories)[0] != table_header(WorldflowCsvTable::Categories)[4]);
    assert("id"@.len() != "created_at"@.len());
    assert(table_header(WorldflowCsvTable::Categories)[0] != table_header(WorldflowCsvTable::Categories)[5]);
    assert("id"@.len() != "updated_at"@.len());
    assert(table_header(WorldflowCsvTable::Categories)[0] != table_header(WorldflowCsvTable::Categories)[6]);
    assert("project_id"@.len() != "parent_id"@.len());
    assert(table_header(WorldflowCsvTable::Categories)[1] != table_header(WorldflowCsvTable::Categories)[2]);
    assert("project_id"@.len() != "name"@.len());
    assert(table_header(WorldflowCsvTable::Categories)[1] != table_header(WorldflowCsvTable::Categories)[3]);
    assert("project_id"@[0] != "sort_order"@[0]);
    assert(table_header(WorldflowCsvTable::Categories)[1] != table_header(WorldflowCsvTable::Categories)[4]);
    assert("project_id"@[0] != "created_at"@[0]);
    assert(table_header(WorldflowCsvTable::Categories)[1] != table_header(WorldflowCsvTable::Categories)[5]);
    assert("project_id"@[0] != "updated_at"@[0]);
    assert(table_header(WorldflowCsvTable::Categories)[1] != table_header(WorldflowCsvTable::Categories)[6]);
    assert("parent_id"@.len() != "name"@.len());
    assert(table_header(WorldflowCsvTable::Categories)[2] != table_header(WorldflowCsvTable::Categories)[3]);
    assert("parent_id"@.len() != "sort_order"@.len());
    assert(table_header(WorldflowCsvTable::Categories)[2] != table_header(WorldflowCsvTable::Categories)[4]);
    assert("parent_id"@.len() != "created_at"@.len());
    assert(table_header(WorldflowCsvTable::Categories)[2] != table_header(WorldflowCsvTable::Categories)[5]);
    assert("parent_id"@.len() != "updated_at"@.len());
    assert(table_header(WorldflowCsvTable::Categories)[2] != table_header(WorldflowCsvTable::Categories)[6]);
    assert("name"@.len() != "sort_order"@.len());
    assert(table_header(WorldflowCsvTable::Categories)[3] != table_header(WorldflowCsvTable::Categories)[4]);
    assert("name"@.len() != "created_at"@.len());
    assert(table_header(WorldflowCsvTable::Categories)[3] != table_header(WorldflowCsvTable::Categories)[5]);
    assert("name"@.len() != "updated_at"@.len());
    assert(table_header(WorldflowCsvTable::Categories)[3] != table_header(WorldflowCsvTable::Categories)[6]);
    assert("sort_order"@[0] != "created_at"@[0]);
    assert(table_header(WorldflowCsvTable::Categories)[4] != table_header(WorldflowCsvTable::Categories)[5]);
    assert("sort_order"@[0] != "updated_at"@[0]);
    assert(table_header(WorldflowCsvTable::Categories)[4] != table_header(WorldflowCsvTable::Categories)[6]);
    assert("created_at"@[0] != "updated_at"@[0]);
    assert(table_header(WorldflowCsvTable::Categories)[5] != table_header(WorldflowCsvTable::Categories)[6]);
    assert forall|i: int, j: int| 0 <= i < j < table_header(WorldflowCsvTable::Categories).len() implies table_header(WorldflowCsvTable::Categories)[i] != table_header(WorldflowCsvTable::Categories)[j] by {
        assert(i == 0 || i == 1 || i == 2 || i == 3 || i == 4 || i == 5 || i == 6);
        assert(j == 0 || j == 1 || j == 2 || j == 3 || j == 4 || j == 5 || j == 6);
    }
}

proof fn lemma_tag_schemas_names_distinct()
    ensures
        forall|i: int, j: int|
            0 <= i < j < table_header(WorldflowCsvTable::TagSchemas).len() ==> table_header(WorldflowCsvTable::TagSchemas)[i] != table_header(WorldflowCsvTable::TagSchemas)[j],
{
    reveal_strlit("id");
    reveal_strlit("project_id");
    reveal_strlit("name");
    reveal_strlit("description");
    reveal_strlit("type");
    reveal_strlit("target");
    reveal_strlit("default_val");
    reveal_strlit("range_min");
    reveal_strlit("range_max");
    reveal_strlit("sort_order");
    reveal_strlit("created_at");
    reveal_strlit("updated_at");
    assert("id"@.len() != "project_id"@.len());
    assert(table_header(WorldflowCsvTable::TagSchemas)[0] != table_header(WorldflowCsvTable::TagSchemas)[1]);
    assert("id"@.len() != "name"@.len());
    assert(table_header(WorldflowCsvTable::TagSchemas)[0] != table_header(WorldflowCsvTable::TagSchemas)[2]);
    assert("id"@.len() != "description"@.len());
    assert(table_header(WorldflowCsvTable::TagSchemas)[0] != table_header(WorldflowCsvTable::TagSchemas)[3]);
    assert("id"@.len() != "type"@.len());
    assert(table_header(WorldflowCsvTable::TagSchemas)[0] != table_header(WorldflowCsvTable::TagSchemas)[4]);
    assert("id"@.len() != "target"@.len());
    assert(table_header(WorldflowCsvTable::TagSchemas)[0] != table_header(WorldflowCsvTable::TagSchemas)[5]);
    assert("id"@.len() != "default_val"@.len());
    assert(table_header(WorldflowCsvTable::TagSchemas)[0] != table_header(WorldflowCsvTable::TagSchemas)[6]);
    assert("id"@.len() != "range_min"@.len());
    assert(table_header(WorldflowCsvTable::TagSchemas)[0] != table_header(WorldflowCsvTable::TagSchemas)[7]);
    assert("id"@.len() != "range_max"@.len());
    assert(table_header(WorldflowCsvTable::TagSchemas)[0] != table_header(WorldflowCsvTable::TagSchemas)[8]);
    assert("id"@.len() != "sort_order"@.len());
    assert(table_header(WorldflowCsvTable::TagSchemas)[0] != table_header(WorldflowCsvTable::TagSchemas)[9]);
    assert("id"@.len() != "created_at"@.len());
    assert(table_header(WorldflowCsvTable::TagSchemas)[0] != table_header(WorldflowCsvTable::TagSchemas)[10]);
    assert("id"@.len() != "updated_at"@.len());
    assert(table_header(WorldflowCsvTable::TagSchemas)[0] != table_header(WorldflowCsvTable::TagSchemas)[11]);
    assert("project_id"@.len() != "name"@.len());
    assert(table_header(WorldflowCsvTable::TagSchemas)[1] != table_header(WorldflowCsvTable::TagSchemas)[2]);
    assert("project_id"@.len() != "description"@.len());
    assert(table_header(WorldflowCsvTable::TagSchemas)[1] != table_header(WorldflowCsvTable::TagSchemas)[3]);
    assert("project_id"@.len() != "type"@.len());
    assert(table_header(WorldflowCsvTable::TagSchemas)[1] != table_header(WorldflowCsvTable::TagSchemas)[4]);
    assert("project_id"@.len() != "target"@.len());
    assert(table_header(WorldflowCsvTable::TagSchemas)[1] != table_header(WorldflowCsvTable::TagSchemas)[5]);
    assert("project_id"@.len() != "default_val"@.len());
    assert(table_header(WorldflowCsvTable::TagSchemas)[1] != table_header(WorldflowCsvTable::TagSchemas)[6]);
    assert("project_id"@.len() != "range_min"@.len());
    assert(table_header(WorldflowCsvTable::TagSchemas)[1] != table_header(WorldflowCsvTable::TagSchemas)[7]);
    assert("project_id"@.len() != "range_max"@.len());
    assert(table_header(WorldflowCsvTable::TagSchemas)[1] != table_header(WorldflowCsvTable::TagSchemas)[8]);
    assert("project_id"@[0] != "sort_order"@[0]);
    assert(table_header(WorldflowCsvTable::TagSchemas)[1] != table_header(WorldflowCsvTable::TagSchemas)[9]);
    assert("project_id"@[0] != "created_at"@[0]);
    assert(table_header(WorldflowCsvTable::TagSchemas)[1] != table_header(WorldflowCsvTable::TagSchemas)[10]);
    assert("project_id"@[0] != "updated_at"@[0]);
    assert(table_header(WorldflowCsvTable::TagSchemas)[1] != table_header(WorldflowCsvTable::TagSchemas)[11]);
    assert("name"@.len() != "description"@.len());
    assert(table_header(WorldflowCsvTable::TagSchemas)[2] != table_header(WorldflowCsvTable::TagSchemas)[3]);
    assert("name"@[0] != "type"@[0]);
    assert(table_header(WorldflowCsvTable::TagSchemas)[2] != table_header(WorldflowCsvTable::TagSchemas)[4]);
    assert("name"@.len() != "target"@.len());
    assert(table_header(WorldflowCsvTable::TagSchemas)[2] != table_header(WorldflowCsvTable::TagSchemas)[5]);
    assert("name"@.len() != "default_val"@.len());
    assert(table_header(WorldflowCsvTable::TagSchemas)[2] != table_header(WorldflowCsvTable::TagSchemas)[6]);
    assert("name"@.len() != "range_min"@.len());
    assert(table_header(WorldflowCsvTable::TagSchemas)[2] != table_header(WorldflowCsvTable::TagSchemas)[7]);
    assert("name"@.len() != "range_max"@.len());
    assert(table_header(WorldflowCsvTable::TagSchemas)[2] != table_header(WorldflowCsvTable::TagSchemas)[8]);
    assert("name"@.len() != "sort_order"@.len());
    assert(table_header(WorldflowCsvTable::TagSchemas)[2] != table_header(WorldflowCsvTable::TagSchemas)[9]);
    assert("name"@.len() != "created_at"@.len());
    assert(table_header(WorldflowCsvTable::TagSchemas)[2] != table_header(WorldflowCsvTable::TagSchemas)[10]);
    assert("name"@.len() != "updated_at"@.len());
    assert(table_header(WorldflowCsvTable::TagSchemas)[2] != table_header(WorldflowCsvTable::TagSchemas)[11]);
    assert("description"@.len() != "type"@.len());
    assert(table_header(WorldflowCsvTable::TagSchemas)[3] != table_header(WorldflowCsvTable::TagSchemas)[4]);
    assert("description"@.len() != "target"@.len());
    assert(table_header(WorldflowCsvTable::TagSchemas)[3] != table_header(WorldflowCsvTable::TagSchemas)[5]);
    assert("description"@[2] != "default_val"@[2]);
    assert(table_header(WorldflowCsvTable::TagSchemas)[3] != table_header(WorldflowCsvTable::TagSchemas)[6]);
    assert("description"@.len() != "range_min"@.len());
    assert(table_header(WorldflowCsvTable::TagSchemas)[3] != table_header(WorldflowCsvTable::TagSchemas)[7]);
    assert("description"@.len() != "range_max"@.len());
    assert(table_header(WorldflowCsvTable::TagSchemas)[3] != table_header(WorldflowCsvTable::TagSchemas)[8]);
    assert("description"@.len() != "sort_order"@.len());
    assert(table_header(WorldflowCsvTable::TagSchemas)[3] != table_header(WorldflowCsvTable::TagSchemas)[9]);
    assert("description"@.len() != "created_at"@.len());
    assert(table_header(WorldflowCsvTable::TagSchemas)[3] != table_header(WorldflowCsvTable::TagSchemas)[10]);
    assert("description"@.len() != "updated_at"@.len());
    assert(table_header(WorldflowCsvTable::TagSchemas)[3] != table_header(WorldflowCsvTable::TagSchemas)[11]);
    assert("type"@.len() != "target"@.len());
    assert(table_header(WorldflowCsvTable::TagSchemas)[4] != table_header(WorldflowCsvTable::TagSchemas)[5]);
    assert("type"@.len() != "default_val"@.len());
    assert(table_header(WorldflowCsvTable::TagSchemas)[4] != table_header(WorldflowCsvTable::TagSchemas)[6]);
    assert("type"@.len() != "range_min"@.len());
    assert(table_header(WorldflowCsvTable::TagSchemas)[4] != table_header(WorldflowCsvTable::TagSchemas)[7]);
    assert("type"@.len() != "range_max"@.len());
    assert(table_header(WorldflowCsvTable::TagSchemas)[4] != table_header(WorldflowCsvTable::TagSchemas)[8]);
    assert("type"@.len() != "sort_order"@.len());
    assert(table_header(WorldflowCsvTable::TagSchemas)[4] != table_header(WorldflowCsvTable::TagSchemas)[9]);
    assert("type"@.len() != "created_at"@.len());
    assert(table_header(WorldflowCsvTable::TagSchemas)[4] != table_header(WorldflowCsvTable::TagSchemas)[10]);
    assert("type"@.len() != "updated_at"@.len());
    assert(table_header(WorldflowCsvTable::TagSchemas)[4] != table_header(WorldflowCsvTable::TagSchemas)[11]);
    assert("target"@.len() != "default_val"@.len());
    assert(table_header(WorldflowCsvTable::TagSchemas)[5] != table_header(WorldflowCsvTable::TagSchemas)[6]);
    assert("target"@.len() != "range_min"@.len());
    assert(table_header(WorldflowCsvTable::TagSchemas)[5] != table_header(WorldflowCsvTable::TagSchemas)[7]);
    assert("target"@.len() != "range_max"@.len());
    assert(table_header(WorldflowCsvTable::TagSchemas)[5] != table_header(WorldflowCsvTable::TagSchemas)[8]);
    assert("target"@.len() != "sort_order"@.len());
    assert(table_header(WorldflowCsvTable::TagSchemas)[5] != table_header(WorldflowCsvTable::TagSchemas)[9]);
    assert("target"@.len() != "created_at"@.len());
    assert(table_header(WorldflowCsvTable::TagSchemas)[5] != table_header(WorldflowCsvTable::TagSchemas)[10]);
    assert("target"@.len() != "updated_at"@.len());
    assert(table_header(WorldflowCsvTable::TagSchemas)[5] != table_header(WorldflowCsvTable::TagSchemas)[11]);
    assert("default_val"@.len() != "range_min"@.len());
    assert(table_header(WorldflowCsvTable::TagSchemas)[6] != table_header(WorldflowCsvTable::TagSchemas)[7]);
    assert("default_val"@.len() != "range_max"@.len());
    assert(table_header(WorldflowCsvTable::TagSchemas)[6] != table_header(WorldflowCsvTable::TagSchemas)[8]);
    assert("default_val"@.len() != "sort_order"@.len());
    assert(table_header(WorldflowCsvTable::TagSchemas)[6] != table_header(WorldflowCsvTable::TagSchemas)[9]);
    assert("default_val"@.len() != "created_at"@.len());
    assert(table_header(WorldflowCsvTable::TagSchemas)[6] != table_header(WorldflowCsvTable::TagSchemas)[10]);
    assert("default_val"@.len() != "updated_at"@.len());
    assert(table_header(WorldflowCsvTable::TagSchemas)[6] != table_header(WorldflowCsvTable::TagSchemas)[11]);
    assert("range_min"@[7] != "range_max"@[7]);
    assert(table_header(WorldflowCsvTable::TagSchemas)[7] != table_header(WorldflowCsvTable::TagSchemas)[8]);
    assert("range_min"@.len() != "sort_order"@.len());
    assert(table_header(WorldflowCsvTable::TagSchemas)[7] != table_header(WorldflowCsvTable::TagSchemas)[9]);
    assert("range_min"@.len() != "created_at"@.len());
    assert(table_header(WorldflowCsvTable::TagSchemas)[7] != table_header(WorldflowCsvTable::TagSchemas)[10]);
    assert("range_min"@.len() != "updated_at"@.len());
    assert(table_header(WorldflowCsvTable::TagSchemas)[7] != table_header(WorldflowCsvTable::TagSchemas)[11]);
    assert("range_max"@.len() != "sort_order"@.len());
    assert(table_header(WorldflowCsvTable::TagSchemas)[8] != table_header(WorldflowCsvTable::TagSchemas)[9]);
    assert("range_max"@.len() != "created_at"@.len());
    assert(table_header(WorldflowCsvTable::TagSchemas)[8] != table_header(WorldflowCsvTable::TagSchemas)[10]);
    assert("range_max"@.len() != "updated_at"@.len());
    assert(table_header(WorldflowCsvTable::TagSchemas)[8] != table_header(WorldflowCsvTable::TagSchemas)[11]);
    assert("sort_order"@[0] != "created_at"@[0]);
    assert(table_header(WorldflowCsvTable::TagSchemas)[9] != table_header(WorldflowCsvTable::TagSchemas)[10]);
    assert("sort_order"@[0] != "updated_at"@[0]);
    assert(table_header(WorldflowCsvTable::TagSchemas)[9] != table_header(WorldflowCsvTable::TagSchemas)[11]);
    assert("created_at"@[0] != "updated_at"@[0]);
    assert(table_header(WorldflowCsvTable::TagSchemas)[10] != table_header(WorldflowCsvTable::TagSchemas)[11]);
    assert forall|i: int, j: int| 0 <= i < j < table_header(WorldflowCsvTable::TagSchemas).len() implies table_header(WorldflowCsvTable::TagSchemas)[i] != table_header(WorldflowCsvTable::TagSchemas)[j] by {
        assert(i == 0 || i == 1 || i == 2 || i == 3 || i == 4 || i == 5 || i == 6 || i == 7 || i == 8 || i == 9 || i == 10 || i == 11);
        assert(j == 0 || j == 1 || j == 2 || j == 3 || j == 4 || j == 5 || j == 6 || j == 7 || j == 8 || j == 9 || j == 10 || j == 11);
    }
}

proof fn lemma_entry_types_names_distinct()
    ensures
        forall|i: int, j: int|
            0 <= i < j < table_header(WorldflowCsvTable::EntryTypes).len() ==> table_header(WorldflowCsvTable::EntryTypes)[i] != table_header(WorldflowCsvTable::EntryTypes)[j],
{
    reveal_strlit("id");
    reveal_strlit("project_id");
    reveal_strlit("name");
    reveal_strlit("description");
    reveal_strlit("icon");
    reveal_strlit("color");
    reveal_strlit("created_at");
    reveal_strlit("updated_at");
    assert("id"@.len() != "project_id"@.len());
    assert(table_header(WorldflowCsvTable::EntryTypes)[0] != table_header(WorldflowCsvTable::EntryTypes)[1]);
    assert("id"@.len() != "name"@.len());
    assert(table_header(WorldflowCsvTable::EntryTypes)[0] != table_header(WorldflowCsvTable::EntryTypes)[2]);
    assert("id"@.len() != "description"@.len());
    assert(table_header(WorldflowCsvTable::EntryTypes)[0] != table_header(WorldflowCsvTable::EntryTypes)[3]);
    assert("id"@.len() != "icon"@.len());
    assert(table_header(WorldflowCsvTable::EntryTypes)[0] != table_header(WorldflowCsvTable::EntryTypes)[4]);
    assert("id"@.len() != "color"@.len());
    assert(table_header(WorldflowCsvTable::EntryTypes)[0] != table_header(WorldflowCsvTable::EntryTypes)[5]);
    assert("id"@.len() != "created_at"@.len());
    assert(table_header(WorldflowCsvTable::EntryTypes)[0] != table_header(WorldflowCsvTable::EntryTypes)[6]);
    assert("id"@.len() != "updated_at"@.len());
    assert(table_header(WorldflowCsvTable::EntryTypes)[0] != table_header(WorldflowCsvTable::EntryTypes)[7]);
    assert("project_id"@.len() != "name"@.len());
    assert(table_header(WorldflowCsvTable::EntryTypes)[1] != table_header(WorldflowCsvTable::EntryTypes)[2]);
    assert("project_id"@.len() != "description"@.len());
    assert(table_header(WorldflowCsvTable::EntryTypes)[1] != table_header(WorldflowCsvTable::EntryTypes)[3]);
    assert("project_id"@.len() != "icon"@.len());
    assert(table_header(WorldflowCsvTable::EntryTypes)[1] != table_header(WorldflowCsvTable::EntryTypes)[4]);
    assert("project_id"@.len() != "color"@.len());
    assert(table_header(WorldflowCsvTable::EntryTypes)[1] != table_header(WorldflowCsvTable::EntryTypes)[5]);
    assert("project_id"@[0] != "created_at"@[0]);
    assert(table_header(WorldflowCsvTable::EntryTypes)[1] != table_header(WorldflowCsvTable::EntryTypes)[6]);
    assert("project_id"@[0] != "updated_at"@[0]);
    assert(table_header(WorldflowCsvTable::EntryTypes)[1] != table_header(WorldflowCsvTable::EntryTypes)[7]);
    assert("name"@.len() != "description"@.len());
    assert(table_header(WorldflowCsvTable::EntryTypes)[2] != table_header(WorldflowCsvTable::EntryTypes)[3]);
    assert("name"@[0] != "icon"@[0]);
    assert(table_header(WorldflowCsvTable::EntryTypes)[2] != table_header(WorldflowCsvTable::EntryTypes)[4]);
    assert("name"@.len() != "color"@.len());
    assert(table_header(WorldflowCsvTable::EntryTypes)[2] != table_header(WorldflowCsvTable::EntryTypes)[5]);
    assert("name"@.len() != "created_at"@.len());
    assert(table_header(WorldflowCsvTable::EntryTypes)[2] != table_header(WorldflowCsvTable::EntryTypes)[6]);
    assert("name"@.len() != "updated_at"@.len());
    assert(table_header(WorldflowCsvTable::EntryTypes)[2] != table_header(WorldflowCsvTable::EntryTypes)[7]);
    assert("description"@.len() != "icon"@.len());
    assert(table_header(WorldflowCsvTable::EntryTypes)[3] != table_header(WorldflowCsvTable::EntryTypes)[4]);
    assert("description"@.len() != "color"@.len());
    assert(table_header(WorldflowCsvTable::EntryTypes)[3] != table_header(WorldflowCsvTable::EntryTypes)[5]);
    assert("description"@.len() != "created_at"@.len());
    assert(table_header(WorldflowCsvTable::EntryTypes)[3] != table_header(WorldflowCsvTable::EntryTypes)[6]);
    assert("description"@.len() != "updated_at"@.len());
    assert(table_header(WorldflowCsvTable::EntryTypes)[3] != table_header(WorldflowCsvTable::EntryTypes)[7]);
    assert("icon"@.len() != "color"@.len());
    assert(table_header(WorldflowCsvTable::EntryTypes)[4] != table_header(WorldflowCsvTable::EntryTypes)[5]);
    assert("icon"@.len() != "created_at"@.len());
    assert(table_header(WorldflowCsvTable::EntryTypes)[4] != table_header(WorldflowCsvTable::EntryTypes)[6]);
    assert("icon"@.len() != "updated_at"@.len());
    assert(table_header(WorldflowCsvTable::EntryTypes)[4] != table_header(WorldflowCsvTable::EntryTypes)[7]);
    assert("color"@.len() != "created_at"@.len());
    assert(table_header(WorldflowCsvTable::EntryTypes)[5] != table_header(WorldflowCsvTable::EntryTypes)[6]);
    assert("color"@.len() != "updated_at"@.len());
    assert(table_header(WorldflowCsvTable::EntryTypes)[5] != table_header(WorldflowCsvTable::EntryTypes)[7]);
    assert("created_at"@[0] != "updated_at"@[0]);
    assert(table_header(WorldflowCsvTable::EntryTypes)[6] != table_header(WorldflowCsvTable::EntryTypes)[7]);
    assert forall|i: int, j: int| 0 <= i < j < table_header(WorldflowCsvTable::EntryTypes).len() implies table_header(WorldflowCsvTable::EntryTypes)[i] != table_header(WorldflowCsvTable::EntryTypes)[j] by {
        assert(i == 0 || i == 1 || i == 2 || i == 3 || i == 4 || i == 5 || i == 6 || i == 7);
        assert(j == 0 || j == 1 || j == 2 || j == 3 || j == 4 || j == 5 || j == 6 || j == 7);
    }
}

proof fn lemma_entries_names_distinct()
    ensures
        forall|i: int, j: int|
            0 <= i < j < table_header(WorldflowCsvTable::Entries).len() ==> table_header(WorldflowCsvTable::Entries)[i] != table_header(WorldflowCsvTable::Entries)[j],
{
    reveal_strlit("id");
    reveal_strlit("project_id");
    reveal_strlit("category_id");
    reveal_strlit("title");
    reveal_strlit("summary");
    reveal_strlit("content");
    reveal_strlit("type");
    reveal_strlit("tags");
    reveal_strlit("images");
    reveal_strlit("cover_path");
    reveal_strlit("created_at");
    reveal_strlit("updated_at");
    assert("id"@.len() != "project_id"@.len());
    assert(table_header(WorldflowCsvTable::Entries)[0] != table_header(WorldflowCsvTable::Entries)[1]);
    assert("id"@.len() != "category_id"@.len());
    assert(table_header(WorldflowCsvTable::Entries)[0] != table_header(WorldflowCsvTable::Entries)[2]);
    assert("id"@.len() != "title"@.len());
    assert(table_header(WorldflowCsvTable::Entries)[0] != table_header(WorldflowCsvTable::Entries)[3]);
    assert("id"@.len() != "summary"@.len());
    assert(table_header(WorldflowCsvTable::Entries)[0] != table_header(WorldflowCsvTable::Entries)[4]);
    assert("id"@.len() != "content"@.len());
    assert(table_header(WorldflowCsvTable::Entries)[0] != table_header(WorldflowCsvTable::Entries)[5]);
    assert("id"@.len() != "type"@.len());
    assert(table_header(WorldflowCsvTable::Entries)[0] != table_header(WorldflowCsvTable::Entries)[6]);
    assert("id"@.len() != "tags"@.len());
    assert(table_header(WorldflowCsvTable::Entries)[0] != table_header(WorldflowCsvTable::Entries)[7]);
    assert("id"@.len() != "images"@.len());
    assert(table_header(WorldflowCsvTable::Entries)[0] != table_header(WorldflowCsvTable::Entries)[8]);
    assert("id"@.len() != "cover_path"@.len());
    assert(table_header(WorldflowCsvTable::Entries)[0] != table_header(WorldflowCsvTable::Entries)[9]);
    assert("id"@.len() != "created_at"@.len());
    assert(table_header(WorldflowCsvTable::Entries)[0] != table_header(WorldflowCsvTable::Entries)[10]);
    assert("id"@.len() != "updated_at"@.len());
    assert(table_header(WorldflowCsvTable::Entries)[0] != table_header(WorldflowCsvTable::Entries)[11]);
    assert("project_id"@.len() != "category_id"@.len());
    assert(table_header(WorldflowCsvTable::Entries)[1] != table_header(WorldflowCsvTable::Entries)[2]);
    assert("project_id"@.len() != "title"@.len());
    assert(table_header(WorldflowCsvTable::Entries)[1] != table_header(WorldflowCsvTable::Entries)[3]);
    assert("project_id"@.len() != "summary"@.len());
    assert(table_header(WorldflowCsvTable::Entries)[1] != table_header(WorldflowCsvTable::Entries)[4]);
    assert("project_id"@.len() != "content"@.len());
    assert(table_header(WorldflowCsvTable::Entries)[1] != table_header(WorldflowCsvTable::Entries)[5]);
    assert("project_id"@.len() != "type"@.len());
    assert(table_header(WorldflowCsvTable::Entries)[1] != table_header(WorldflowCsvTable::Entries)[6]);
    assert("project_id"@.len() != "tags"@.len());
    assert(table_header(WorldflowCsvTable::Entries)[1] != table_header(WorldflowCsvTable::Entries)[7]);
    assert("project_id"@.len() != "images"@.len());
    assert(table_header(WorldflowCsvTable::Entries)[1] != table_header(WorldflowCsvTable::Entries)[8]);
    assert("project_id"@[0] != "cover_path"@[0]);
    assert(table_header(WorldflowCsvTable::Entries)[1] != table_header(WorldflowCsvTable::Entries)[9]);
    assert("project_id"@[0] != "created_at"@[0]);
    assert(table_header(WorldflowCsvTable::Entries)[1] != table_header(WorldflowCsvTable::Entries)[10]);
    assert("project_id"@[0] != "updated_at"@[0]);
    assert(table_header(WorldflowCsvTable::Entries)[1] != table_header(WorldflowCsvTable::Entries)[11]);
    assert("category_id"@.len() != "title"@.len());
    assert(table_header(WorldflowCsvTable::Entries)[2] != table_header(WorldflowCsvTable::Entries)[3]);
    assert("category_id"@.len() != "summary"@.len());
    assert(table_header(WorldflowCsvTable::Entries)[2] != table_header(WorldflowCsvTable::Entries)[4]);
    assert("category_id"@.len() != "content"@.len());
    assert(table_header(WorldflowCsvTable::Entries)[2] != table_header(WorldflowCsvTable::Entries)[5]);
    assert("category_id"@.len() != "type"@.len());
    assert(table_header(WorldflowCsvTable::Entries)[2] != table_header(WorldflowCsvTable::Entries)[6]);
    assert("category_id"@.len() != "tags"@.len());
    assert(table_header(WorldflowCsvTable::Entries)[2] != table_header(WorldflowCsvTable::Entries)[7]);
    assert("category_id"@.len() != "images"@.len());
    assert(table_header(WorldflowCsvTable::Entries)[2] != table_header(WorldflowCsvTable::Entries)[8]);
    assert("category_id"@.len() != "cover_path"@.len());
    assert(table_header(WorldflowCsvTable::Entries)[2] != table_header(WorldflowCsvTable::Entries)[9]);
    assert("category_id"@.len() != "created_at"@.len());
    assert(table_header(WorldflowCsvTable::Entries)[2] != table_header(WorldflowCsvTable::Entries)[10]);
    assert("category_id"@.len() != "updated_at"@.len());
    assert(table_header(WorldflowCsvTable::Entries)[2] != table_header(WorldflowCsvTable::Entries)[11]);
    assert("title"@.len() != "summary"@.len());
    assert(table_header(WorldflowCsvTable::Entries)[3] != table_header(WorldflowCsvTable::Entries)[4]);
    assert("title"@.len() != "content"@.len());
    assert(table_header(WorldflowCsvTable::Entries)[3] != table_header(WorldflowCsvTable::Entries)[5]);
    assert("title"@.len() != "type"@.len());
    assert(table_header(WorldflowCsvTable::Entries)[3] != table_header(WorldflowCsvTable::Entries)[6]);
    assert("title"@.len() != "tags"@.len());
    assert(table_header(WorldflowCsvTable::Entries)[3] != table_header(WorldflowCsvTable::Entries)[7]);
    assert("title"@.len() != "images"@.len());
    assert(table_header(WorldflowCsvTable::Entries)[3] != table_header(WorldflowCsvTable::Entries)[8]);
    assert("title"@.len() != "cover_path"@.len());
    assert(table_header(WorldflowCsvTable::Entries)[3] != table_header(WorldflowCsvTable::Entries)[9]);
    assert("title"@.len() != "created_at"@.len());
    assert(table_header(WorldflowCsvTable::Entries)[3] != table_header(WorldflowCsvTable::Entries)[10]);
    assert("title"@.len() != "updated_at"@.len());
    assert(table_header(WorldflowCsvTable::Entries)[3] != table_header(WorldflowCsvTable::Entries)[11]);
    assert("summary"@[0] != "content"@[0]);
    assert(table_header(WorldflowCsvTable::Entries)[4] != table_header(WorldflowCsvTable::Entries)[5]);
    assert("summary"@.len() != "type"@.len());
    assert(table_header(WorldflowCsvTable::Entries)[4] != table_header(WorldflowCsvTable::Entries)[6]);
    assert("summary"@.len() != "tags"@.len());
    assert(table_header(WorldflowCsvTable::Entries)[4] != table_header(WorldflowCsvTable::Entries)[7]);
    assert("summary"@.len() != "images"@.len());
    assert(table_header(WorldflowCsvTable::Entries)[4] != table_header(WorldflowCsvTable::Entries)[8]);
    assert("summary"@.len() != "cover_path"@.len());
    assert(table_header(WorldflowCsvTable::Entries)[4] != table_header(WorldflowCsvTable::Entries)[9]);
    assert("summary"@.len() != "created_at"@.len());
    assert(table_header(WorldflowCsvTable::Entries)[4] != table_header(WorldflowCsvTable::Entries)[10]);
    assert("summary"@.len() != "updated_at"@.len());
    assert(table_header(WorldflowCsvTable::Entries)[4] != table_header(WorldflowCsvTable::Entries)[11]);
    assert("content"@.len() != "type"@.len());
    assert(table_header(WorldflowCsvTable::Entries)[5] != table_header(WorldflowCsvTable::Entries)[6]);
    assert("content"@.len() != "tags"@.len());
    assert(table_header(WorldflowCsvTable::Entries)[5] != table_header(WorldflowCsvTable::Entries)[7]);
    assert("content"@.len() != "images"@.len());
    assert(table_header(WorldflowCsvTable::Entries)[5] != table_header(WorldflowCsvTable::Entries)[8]);
    assert("content"@.len() != "cover_path"@.len());
    assert(table_header(WorldflowCsvTable::Entries)[5] != table_header(WorldflowCsvTable::Entries)[9]);
    assert("content"@.len() != "created_at"@.len());
    assert(table_header(WorldflowCsvTable::Entries)[5] != table_header(WorldflowCsvTable::Entries)[10]);
    assert("content"@.len() != "updated_at"@.len());
    assert(table_header(WorldflowCsvTable::Entries)[5] != table_header(WorldflowCsvTable::Entries)[11]);
    assert("type"@[1] != "tags"@[1]);
    assert(table_header(WorldflowCsvTable::Entries)[6] != table_header(WorldflowCsvTable::Entries)[7]);
    assert("type"@.len() != "images"@.len());
    assert(table_header(WorldflowCsvTable::Entries)[6] != table_header(WorldflowCsvTable::Entries)[8]);
    assert("type"@.len() != "cover_path"@.len());
    assert(table_header(WorldflowCsvTable::Entries)[6] != table_header(WorldflowCsvTable::Entries)[9]);
    assert("type"@.len() != "created_at"@.len());
    assert(table_header(WorldflowCsvTable::Entries)[6] != table_header(WorldflowCsvTable::Entries)[10]);
    assert("type"@.len() != "updated_at"@.len());
    assert(table_header(WorldflowCsvTable::Entries)[6] != table_header(WorldflowCsvTable::Entries)[11]);
    assert("tags"@.len() != "images"@.len());
    assert(table_header(WorldflowCsvTable::Entries)[7] != table_header(WorldflowCsvTable::Entries)[8]);
    assert("tags"@.len() != "cover_path"@.len());
    assert(table_header(WorldflowCsvTable::Entries)[7] != table_header(WorldflowCsvTable::Entries)[9]);
    assert("tags"@.len() != "created_at"@.len());
    assert(table_header(WorldflowCsvTable::Entries)[7] != table_header(WorldflowCsvTable::Entries)[10]);
    assert("tags"@.len() != "updated_at"@.len());
    assert(table_header(WorldflowCsvTable::Entries)[7] != table_header(WorldflowCsvTable::Entries)[11]);
    assert("images"@.len() != "cover_path"@.len());
    assert(table_header(WorldflowCsvTable::Entries)[8] != table_header(WorldflowCsvTable::Entries)[9]);
    assert("images"@.len() != "created_at"@.len());
    assert(table_header(WorldflowCsvTable::Entries)[8] != table_header(WorldflowCsvTable::Entries)[10]);
    assert("images"@.len() != "updated_at"@.len());
    assert(table_header(WorldflowCsvTable::Entries)[8] != table_header(WorldflowCsvTable::Entries)[11]);
    assert("cover_path"@[1] != "created_at"@[1]);
    assert(table_header(WorldflowCsvTable::Entries)[9] != table_header(WorldflowCsvTable::Entries)[10]);
    assert("cover_path"@[0] != "updated_at"@[0]);
    assert(table_header(WorldflowCsvTable::Entries)[9] != table_header(WorldflowCsvTable::Entries)[11]);
    assert("created_at"@[0] != "updated_at"@[0]);
    assert(table_header(WorldflowCsvTable::Entries)[10] != table_header(WorldflowCsvTable::Entries)[11]);
    assert forall|i: int, j: int| 0 <= i < j < table_header(WorldflowCsvTable::Entries).len() implies table_header(WorldflowCsvTable::Entries)[i] != table_header(WorldflowCsvTable::Entries)[j] by {
        assert(i == 0 || i == 1 || i == 2 || i == 3 || i == 4 || i == 5 || i == 6 || i == 7 || i == 8 || i == 9 || i == 10 || i == 11);
        assert(j == 0 || j == 1 || j == 2 || j == 3 || j == 4 || j == 5 || j == 6 || j == 7 || j == 8 || j == 9 || j == 10 || j == 11);
    }
}

proof fn lemma_entry_relations_names_distinct()
    ensures
        forall|i: int, j: int|
            0 <= i < j < table_header(WorldflowCsvTable::EntryRelations).len() ==> table_header(WorldflowCsvTable::EntryRelations)[i] != table_header(WorldflowCsvTable::EntryRelations)[j],
{
    reveal_strlit("id");
    reveal_strlit("project_id");
    reveal_strlit("a_id");
    reveal_strlit("b_id");
    reveal_strlit("relation");
    reveal_strlit("content");
    reveal_strlit("created_at");
    reveal_strlit("updated_at");
    assert("id"@.len() != "project_id"@.len());
    assert(table_header(WorldflowCsvTable::EntryRelations)[0] != table_header(WorldflowCsvTable::EntryRelations)[1]);
    assert("id"@.len() != "a_id"@.len());
    assert(table_header(WorldflowCsvTable::EntryRelations)[0] != table_header(WorldflowCsvTable::EntryRelations)[2]);
    assert("id"@.len() != "b_id"@.len());
    assert(table_header(WorldflowCsvTable::EntryRelations)[0] != table_header(WorldflowCsvTable::EntryRelations)[3]);
    assert("id"@.len() != "relation"@.len());
    assert(table_header(WorldflowCsvTable::EntryRelations)[0] != table_header(WorldflowCsvTable::EntryRelations)[4]);
    assert("id"@.len() != "content"@.len());
    assert(table_header(WorldflowCsvTable::EntryRelations)[0] != table_header(WorldflowCsvTable::EntryRelations)[5]);
    assert("id"@.len() != "created_at"@.len());
    assert(table_header(WorldflowCsvTable::EntryRelations)[0] != table_header(WorldflowCsvTable::EntryRelations)[6]);
    assert("id"@.len() != "updated_at"@.len());
    assert(table_header(WorldflowCsvTable::EntryRelations)[0] != table_header(WorldflowCsvTable::EntryRelations)[7]);
    assert("project_id"@.len() != "a_id"@.len());
    assert(table_header(WorldflowCsvTable::EntryRelations)[1] != table_header(WorldflowCsvTable::EntryRelations)[2]);
    assert("project_id"@.len() != "b_id"@.len());
    assert(table_header(WorldflowCsvTable::EntryRelations)[1] != table_header(WorldflowCsvTable::EntryRelations)[3]);
    assert("project_id"@.len() != "relation"@.len());
    assert(table_header(WorldflowCsvTable::EntryRelations)[1] != table_header(WorldflowCsvTable::EntryRelations)[4]);
    assert("project_id"@.len() != "content"@.len());
    assert(table_header(WorldflowCsvTable::EntryRelations)[1] != table_header(WorldflowCsvTable::EntryRelations)[5]);
    assert("project_id"@[0] != "created_at"@[0]);
    assert(table_header(WorldflowCsvTable::EntryRelations)[1] != table_header(WorldflowCsvTable::EntryRelations)[6]);
    assert("project_id"@[0] != "updated_at"@[0]);
    assert(table_header(WorldflowCsvTable::EntryRelations)[1] != table_header(WorldflowCsvTable::EntryRelations)[7]);
    assert("a_id"@[0] != "b_id"@[0]);
    assert(table_header(WorldflowCsvTable::EntryRelations)[2] != table_header(WorldflowCsvTable::EntryRelations)[3]);
    assert("a_id"@.len() != "relation"@.len());
    assert(table_header(WorldflowCsvTable::EntryRelations)[2] != table_header(WorldflowCsvTable::EntryRelations)[4]);
    assert("a_id"@.len() != "content"@.len());
    assert(table_header(WorldflowCsvTable::EntryRelations)[2] != table_header(WorldflowCsvTable::EntryRelations)[5]);
    assert("a_id"@.len() != "created_at"@.len());
    assert(table_header(WorldflowCsvTable::EntryRelations)[2] != table_header(WorldflowCsvTable::EntryRelations)[6]);
    assert("a_id"@.len() != "updated_at"@.len());
    assert(table_header(WorldflowCsvTable::EntryRelations)[2] != table_header(WorldflowCsvTable::EntryRelations)[7]);
    assert("b_id"@.len() != "relation"@.len());
    assert(table_header(WorldflowCsvTable::EntryRelations)[3] != table_header(WorldflowCsvTable::EntryRelations)[4]);
    assert("b_id"@.len() != "content"@.len());
    assert(table_header(WorldflowCsvTable::EntryRelations)[3] != table_header(WorldflowCsvTable::EntryRelations)[5]);
    assert("b_id"@.len() != "created_at"@.len());
    assert(table_header(WorldflowCsvTable::EntryRelations)[3] != table_header(WorldflowCsvTable::EntryRelations)[6]);
    assert("b_id"@.len() != "updated_at"@.len());
    assert(table_header(WorldflowCsvTable::EntryRelations)[3] != table_header(WorldflowCsvTable::EntryRelations)[7]);
    assert("relation"@.len() != "content"@.len());
    assert(table_header(WorldflowCsvTable::EntryRelations)[4] != table_header(WorldflowCsvTable::EntryRelations)[5]);
    assert("relation"@.len() != "created_at"@.len());
    assert(table_header(WorldflowCsvTable::EntryRelations)[4] != table_header(WorldflowCsvTable::EntryRelations)[6]);
    assert("relation"@.len() != "updated_at"@.len());
    assert(table_header(WorldflowCsvTable::EntryRelations)[4] != table_header(WorldflowCsvTable::EntryRelations)[7]);
    assert("content"@.len() != "created_at"@.len());
    assert(table_header(WorldflowCsvTable::EntryRelations)[5] != table_header(WorldflowCsvTable::EntryRelations)[6]);
    assert("content"@.len() != "updated_at"@.len());
    assert(table_header(WorldflowCsvTable::EntryRelations)[5] != table_header(WorldflowCsvTable::EntryRelations)[7]);
    assert("created_at"@[0] != "updated_at"@[0]);
    assert(table_header(WorldflowCsvTable::EntryRelations)[6] != table_header(WorldflowCsvTable::EntryRelations)[7]);
    assert forall|i: int, j: int| 0 <= i < j < table_header(WorldflowCsvTable::EntryRelations).len() implies table_header(WorldflowCsvTable::EntryRelations)[i] != table_header(WorldflowCsvTable::EntryRelations)[j] by {
        assert(i == 0 || i == 1 || i == 2 || i == 3 || i == 4 || i == 5 || i == 6 || i == 7);
        assert(j == 0 || j == 1 || j == 2 || j == 3 || j == 4 || j == 5 || j == 6 || j == 7);
    }
}

proof fn lemma_entry_links_names_distinct()
    ensures
        forall|i: int, j: int|
            0 <= i < j < table_header(WorldflowCsvTable::EntryLinks).len() ==> table_header(WorldflowCsvTable::EntryLinks)[i] != table_header(WorldflowCsvTable::EntryLinks)[j],
{
    reveal_strlit("id");
    reveal_strlit("project_id");
    reveal_strlit("a_id");
    reveal_strlit("b_id");
    reveal_strlit("created_at");
    assert("id"@.len() != "project_id"@.len());
    assert(table_header(WorldflowCsvTable::EntryLinks)[0] != table_header(WorldflowCsvTable::EntryLinks)[1]);
    assert("id"@.len() != "a_id"@.len());
    assert(table_header(WorldflowCsvTable::EntryLinks)[0] != table_header(WorldflowCsvTable::EntryLinks)[2]);
    assert("id"@.len() != "b_id"@.len());
    assert(table_header(WorldflowCsvTable::EntryLinks)[0] != table_header(WorldflowCsvTable::EntryLinks)[3]);
    assert("id"@.len() != "created_at"@.len());
    assert(table_header(WorldflowCsvTable::EntryLinks)[0] != table_header(WorldflowCsvTable::EntryLinks)[4]);
    assert("project_id"@.len() != "a_id"@.len());
    assert(table_header(WorldflowCsvTable::EntryLinks)[1] != table_header(WorldflowCsvTable::EntryLinks)[2]);
    assert("project_id"@.len() != "b_id"@.len());
    assert(table_header(WorldflowCsvTable::EntryLinks)[1] != table_header(WorldflowCsvTable::EntryLinks)[3]);
    assert("project_id"@[0] != "created_at"@[0]);
    assert(table_header(WorldflowCsvTable::EntryLinks)[1] != table_header(WorldflowCsvTable::EntryLinks)[4]);
    assert("a_id"@[0] != "b_id"@[0]);
    assert(table_header(WorldflowCsvTable::EntryLinks)[2] != table_header(WorldflowCsvTable::EntryLinks)[3]);
    assert("a_id"@.len() != "created_at"@.len());
    assert(table_header(WorldflowCsvTable::EntryLinks)[2] != table_header(WorldflowCsvTable::EntryLinks)[4]);
    assert("b_id"@.len() != "created_at"@.len());
    assert(table_header(WorldflowCsvTable::EntryLinks)[3] != table_header(WorldflowCsvTable::EntryLinks)[4]);
    assert forall|i: int, j: int| 0 <= i < j < table_header(WorldflowCsvTable::EntryLinks).len() implies table_header(WorldflowCsvTable::EntryLinks)[i] != table_header(WorldflowCsvTable::EntryLinks)[j] by {
        assert(i == 0 || i == 1 || i == 2 || i == 3 || i == 4);
        assert(j == 0 || j == 1 || j == 2 || j == 3 || j == 4);
    }
}

proof fn lemma_idea_notes_names_distinct()
    ensures
        forall|i: int, j: int|
            0 <= i < j < table_header(WorldflowCsvTable::IdeaNotes).len() ==> table_header(WorldflowCsvTable::IdeaNotes)[i] != table_header(WorldflowCsvTable::IdeaNotes)[j],
{
    reveal_strlit("id");
    reveal_strlit("project_id");
    reveal_strlit("content");
    reveal_strlit("title");
    reveal_strlit("status");
    reveal_strlit("pinned");
    reveal_strlit("created_at");
    reveal_strlit("updated_at");
    reveal_strlit("last_reviewed_at");
    reveal_strlit("converted_entry_id");
    assert("id"@.len() != "project_id"@.len());
    assert(table_header(WorldflowCsvTable::IdeaNotes)[0] != table_header(WorldflowCsvTable::IdeaNotes)[1]);
    assert("id"@.len() != "content"@.len());
    assert(table_header(WorldflowCsvTable::IdeaNotes)[0] != table_header(WorldflowCsvTable::IdeaNotes)[2]);
    assert("id"@.len() != "title"@.len());
    assert(table_header(WorldflowCsvTable::IdeaNotes)[0] != table_header(WorldflowCsvTable::IdeaNotes)[3]);
    assert("id"@.len() != "status"@.len());
    assert(table_header(WorldflowCsvTable::IdeaNotes)[0] != table_header(WorldflowCsvTable::IdeaNotes)[4]);
    assert("id"@.len() != "pinned"@.len());
    assert(table_header(WorldflowCsvTable::IdeaNotes)[0] != table_header(WorldflowCsvTable::IdeaNotes)[5]);
    assert("id"@.len() != "created_at"@.len());
    assert(table_header(WorldflowCsvTable::IdeaNotes)[0] != table_header(WorldflowCsvTable::IdeaNotes)[6]);
    assert("id"@.len() != "updated_at"@.len());
    assert(table_header(WorldflowCsvTable::IdeaNotes)[0] != table_header(WorldflowCsvTable::IdeaNotes)[7]);
    assert("id"@.len() != "last_reviewed_at"@.len());
    assert(table_header(WorldflowCsvTable::IdeaNotes)[0] != table_header(WorldflowCsvTable::IdeaNotes)[8]);
    assert("id"@.len() != "converted_entry_id"@.len());
    assert(table_header(WorldflowCsvTable::IdeaNotes)[0] != table_header(WorldflowCsvTable::IdeaNotes)[9]);
    assert("project_id"@.len() != "content"@.len());
    assert(table_header(WorldflowCsvTable::IdeaNotes)[1] != table_header(WorldflowCsvTable::IdeaNotes)[2]);
    assert("project_id"@.len() != "title"@.len());
    assert(table_header(WorldflowCsvTable::IdeaNotes)[1] != table_header(WorldflowCsvTable::IdeaNotes)[3]);
    assert("project_id"@.len() != "status"@.len());
    assert(table_header(WorldflowCsvTable::IdeaNotes)[1] != table_header(WorldflowCsvTable::IdeaNotes)[4]);
    assert("project_id"@.len() != "pinned"@.len());
    assert(table_header(WorldflowCsvTable::IdeaNotes)[1] != table_header(WorldflowCsvTable::IdeaNotes)[5]);
    assert("project_id"@[0] != "created_at"@[0]);
    assert(table_header(WorldflowCsvTable::IdeaNotes)[1] != table_header(WorldflowCsvTable::IdeaNotes)[6]);
    assert("project_id"@[0] != "updated_at"@[0]);
    assert(table_header(WorldflowCsvTable::IdeaNotes)[1] != table_header(WorldflowCsvTable::IdeaNotes)[7]);
    assert("project_id"@.len() != "last_reviewed_at"@.len());
    assert(table_header(WorldflowCsvTable::IdeaNotes)[1] != table_header(WorldflowCsvTable::IdeaNotes)[8]);
    assert("project_id"@.len() != "converted_entry_id"@.len());
    assert(table_header(WorldflowCsvTable::IdeaNotes)[1] != table_header(WorldflowCsvTable::IdeaNotes)[9]);
    assert("content"@.len() != "title"@.len());
    assert(table_header(WorldflowCsvTable::IdeaNotes)[2] != table_header(WorldflowCsvTable::IdeaNotes)[3]);
    assert("content"@.len() != "status"@.len());
    assert(table_header(WorldflowCsvTable::IdeaNotes)[2] != table_header(WorldflowCsvTable::IdeaNotes)[4]);
    assert("content"@.len() != "pinned"@.len());
    assert(table_header(WorldflowCsvTable::IdeaNotes)[2] != table_header(WorldflowCsvTable::IdeaNotes)[5]);
    assert("content"@.len() != "created_at"@.len());
    assert(table_header(WorldflowCsvTable::IdeaNotes)[2] != table_header(WorldflowCsvTable::IdeaNotes)[6]);
    assert("content"@.len() != "updated_at"@.len());
    assert(table_header(WorldflowCsvTable::IdeaNotes)[2] != table_header(WorldflowCsvTable::IdeaNotes)[7]);
    assert("content"@.len() != "last_reviewed_at"@.len());
    assert(table_header(WorldflowCsvTable::IdeaNotes)[2] != table_header(WorldflowCsvTable::IdeaNotes)[8]);
    assert("content"@.len() != "converted_entry_id"@.len());
    assert(table_header(WorldflowCsvTable::IdeaNotes)[2] != table_header(WorldflowCsvTable::IdeaNotes)[9]);
    assert("title"@.len() != "status"@.len());
    assert(table_header(WorldflowCsvTable::IdeaNotes)[3] != table_header(WorldflowCsvTable::IdeaNotes)[4]);
    assert("title"@.len() != "pinned"@.len());
    assert(table_header(WorldflowCsvTable::IdeaNotes)[3] != table_header(WorldflowCsvTable::IdeaNotes)[5]);
    assert("title"@.len() != "created_at"@.len());
    assert(table_header(WorldflowCsvTable::IdeaNotes)[3] != table_header(WorldflowCsvTable::IdeaNotes)[6]);
    assert("title"@.len() != "updated_at"@.len());
    assert(table_header(WorldflowCsvTable::IdeaNotes)[3] != table_header(WorldflowCsvTable::IdeaNotes)[7]);
    assert("title"@.len() != "last_reviewed_at"@.len());
    assert(table_header(WorldflowCsvTable::IdeaNotes)[3] != table_header(WorldflowCsvTable::IdeaNotes)[8]);
    assert("title"@.len() != "converted_entry_id"@.len());
    assert(table_header(WorldflowCsvTable::IdeaNotes)[3] != table_header(WorldflowCsvTable::IdeaNotes)[9]);
    assert("status"@[0] != "pinned"@[0]);
    assert(table_header(WorldflowCsvTable::IdeaNotes)[4] != table_header(WorldflowCsvTable::IdeaNotes)[5]);
    assert("status"@.len() != "created_at"@.len());
    assert(table_header(WorldflowCsvTable::IdeaNotes)[4] != table_header(WorldflowCsvTable::IdeaNotes)[6]);
    assert("status"@.len() != "updated_at"@.len());
    assert(table_header(WorldflowCsvTable::IdeaNotes)[4] != table_header(WorldflowCsvTable::IdeaNotes)[7]);
    assert("status"@.len() != "last_reviewed_at"@.len());
    assert(table_header(WorldflowCsvTable::IdeaNotes)[4] != table_header(WorldflowCsvTable::IdeaNotes)[8]);
    assert("status"@.len() != "converted_entry_id"@.len());
    assert(table_header(WorldflowCsvTable::IdeaNotes)[4] != table_header(WorldflowCsvTable::IdeaNotes)[9]);
    assert("pinned"@.len() != "created_at"@.len());
    assert(table_header(WorldflowCsvTable::IdeaNotes)[5] != table_header(WorldflowCsvTable::IdeaNotes)[6]);
    assert("pinned"@.len() != "updated_at"@.len());
    assert(table_header(WorldflowCsvTable::IdeaNotes)[5] != table_header(WorldflowCsvTable::IdeaNotes)[7]);
    assert("pinned"@.len() != "last_reviewed_at"@.len());
    assert(table_header(WorldflowCsvTable::IdeaNotes)[5] != table_header(WorldflowCsvTable::IdeaNotes)[8]);
    assert("pinned"@.len() != "converted_entry_id"@.len());
    assert(table_header(WorldflowCsvTable::IdeaNotes)[5] != table_header(WorldflowCsvTable::IdeaNotes)[9]);
    assert("created_at"@[0] != "updated_at"@[0]);
    assert(table_header(WorldflowCsvTable::IdeaNotes)[6] != table_header(WorldflowCsvTable::IdeaNotes)[7]);
    assert("created_at"@.len() != "last_reviewed_at"@.len());
    assert(table_header(WorldflowCsvTable::IdeaNotes)[6] != table_header(WorldflowCsvTable::IdeaNotes)[8]);
    assert("created_at"@.len() != "converted_entry_id"@.len());
    assert(table_header(WorldflowCsvTable::IdeaNotes)[6] != table_header(WorldflowCsvTable::IdeaNotes)[9]);
    assert("updated_at"@.len() != "last_reviewed_at"@.len());
    assert(table_header(WorldflowCsvTable::IdeaNotes)[7] != table_header(WorldflowCsvTable::IdeaNotes)[8]);
    assert("updated_at"@.len() != "converted_entry_id"@.len());
    assert(table_header(WorldflowCsvTable::IdeaNotes)[7] != table_header(WorldflowCsvTable::IdeaNotes)[9]);
    assert("last_reviewed_at"@.len() != "converted_entry_id"@.len());
    assert(table_header(WorldflowCsvTable::IdeaNotes)[8] != table_header(WorldflowCsvTable::IdeaNotes)[9]);
    assert forall|i: int, j: int| 0 <= i < j < table_header(WorldflowCsvTable::IdeaNotes).len() implies table_header(WorldflowCsvTable::IdeaNotes)[i] != table_header(WorldflowCsvTable::IdeaNotes)[j] by {
        assert(i == 0 || i == 1 || i == 2 || i == 3 || i == 4 || i == 5 || i == 6 || i == 7 || i == 8 || i == 9);
        assert(j == 0 || j == 1 || j == 2 || j == 3 || j == 4 || j == 5 || j == 6 || j == 7 || j == 8 || j == 9);
    }
}

/// The column names of a table are distinct, there are at least two, and
/// the first is `id`.
pub proof fn lemma_table_header_names(t: WorldflowCsvTable)
    ensures
        table_header(t).len() >= 2,
        table_header(t)[0] == "id"@,
        "id"@[0] == 'i',
        forall|i: int, j: int|
            0 <= i < j < table_header(t).len() ==> table_header(t)[i] != table_header(t)[j],
{
    reveal_strlit("id");
    match t {
        WorldflowCsvTable::Projects => lemma_projects_names_distinct(),
        WorldflowCsvTable::Categories => lemma_categories_names_distinct(),
        WorldflowCsvTable::TagSchemas => lemma_tag_schemas_names_distinct(),
        WorldflowCsvTable::EntryTypes => lemma_entry_types_names_distinct(),
        WorldflowCsvTable::Entries => lemma_entries_names_distinct(),
        WorldflowCsvTable::EntryRelations => lemma_entry_relations_names_distinct(),
        WorldflowCsvTable::EntryLinks => lemma_entry_links_names_distinct(),
        WorldflowCsvTable::IdeaNotes => lemma_idea_notes_names_distinct(),
    }
}

/// Whether `order` lists each position below `n` exactly once.
pub open spec fn is_order_of(order: Seq<int>, n: int) -> bool {
    &&& order.len() == n
    &&& forall|i: int| 0 <= i < n ==> 0 <= #[trigger] order[i] < n
    &&& forall|i: int, j: int| 0 <= i < j < n ==> order[i] != order[j]
}

/// Every table has as many kinds as columns, and checks each column once.
pub proof fn lemma_table_schemas_consistent(t: WorldflowCsvTable)
    ensures
        table_kinds(t).len() == table_header(t).len(),
        is_order_of(table_check_order(t), table_header(t).len() as int),
{
}

/// The texts of the fields of a row.
pub open spec fn fields_view(fields: Seq<String>) -> Seq<Seq<char>> {
    fields.map_values(|f: String| f@)
}

/// The fields written for a row of cells.
pub open spec fn row_text(cells: Seq<Cell>) -> Seq<Seq<char>> {
    cells.map_values(|c: Cell| cell_text(c))
}

/// The values of a row of cells.
pub open spec fn row_value(cells: Seq<Cell>) -> Seq<CellValue> {
    cells.map_values(|c: Cell| cell_value(c))
}

/// Whether a row of cells has the given column kinds.
pub open spec fn row_has_kinds(cells: Seq<Cell>, kinds: Seq<CellKind>) -> bool {
    cells.len() == kinds.len() && forall|i: int| 0 <= i < kinds.len() ==> cell_kind(#[trigger] cells[i]) == kinds[i]
}

/// Whether every field of a row reads as its column's kind.
pub open spec fn row_decodes(kinds: Seq<CellKind>, fields: Seq<Seq<char>>) -> bool {
    forall|i: int| 0 <= i < kinds.len() ==> (#[trigger] decode_cell_spec(kinds[i], fields[i])) is Some
}

/// The error for a row that does not read: the first column, in check order,
/// whose field is refused; optional text that is not a JSON string is a
/// serialization error, any other refused field is invalid input.
pub open spec fn row_refusal(
    kinds: Seq<CellKind>,
    order: Seq<int>,
    fields: Seq<Seq<char>>,
    e: WorldflowError,
) -> bool {
    exists|k: int|
        0 <= k < order.len() && decode_cell_spec(kinds[order[k]], fields[order[k]]) is None && (
        forall|j: int| 0 <= j < k ==> decode_cell_spec(kinds[order[j]], fields[order[j]]) is Some)
            && (kinds[order[k]] == CellKind::OptText ==> e is Serialization) && (kinds[order[k]]
            != CellKind::OptText ==> e is InvalidInput)
}

/// Writes a row of cells as CSV fields.
pub fn encode_row(cells: &Vec<Cell>) -> (r: Vec<String>)
    ensures
        fields_view(r@) == row_text(cells@),
{
    let mut out: Vec<String> = Vec::new();
    let mut i: usize = 0;
    while i < cells.len()
        invariant
            0 <= i <= cells@.len(),
            out@.len() == i,
            forall|k: int| 0 <= k < i ==> (#[trigger] out@[k])@ == cell_text(cells@[k]),
        decreases cells@.len() - i,
    {
        out.push(encode_cell(&cells[i]));
        i = i + 1;
    }
    assert(fields_view(out@) =~= row_text(cells@));
    out
}

/// Reads the fields of a row as cells of the given kinds. The columns are
/// checked in `order`, and the first refused one is the error. Fields that
/// `encode_row` wrote for cells of these kinds read back as the same values.
pub fn decode_row(kinds: &Vec<CellKind>, order: &Vec<usize>, fields: &Vec<String>) -> (r: Result<
    Vec<Cell>,
>)
    requires
        fields@.len() == kinds@.len(),
        is_order_of(order@.map_values(|i: usize| i as int), kinds@.len() as int),
    ensures
        r is Ok <==> row_decodes(kinds@, fields_view(fields@)),
        r matches Ok(cells) ==> row_has_kinds(cells@, kinds@) && forall|i: int|
            0 <= i < kinds@.len() ==> decode_cell_spec(kinds@[i], fields@[i]@) == Some(
                cell_value(#[trigger] cells@[i]),
            ),
        r matches Err(e) ==> row_refusal(
            kinds@,
            order@.map_values(|i: usize| i as int),
            fields_view(fields@),
            e,
        ),
        forall|cells: Seq<Cell>|
            row_has_kinds(cells, kinds@) && fields_view(fields@) == row_text(cells) ==> (r is Ok
                && row_value(r->Ok_0@) == row_value(cells)),
{
    let n = kinds.len();
    let ghost ord = order@.map_values(|i: usize| i as int);
    let mut k: usize = 0;
    while k < n
        invariant
            0 <= k <= n == kinds@.len() == fields@.len() == order@.len(),
            ord == order@.map_values(|i: usize| i as int),
            is_order_of(ord, n as int),
            forall|j: int|
                0 <= j < k ==> decode_cell_spec(kinds@[order@[j] as int], fields@[order@[j] as int]@)
                    is Some,
        decreases n - k,
    {
        let idx = order[k];
        assert(ord[k as int] == idx as int);
        match decode_cell(kinds[idx], fields[idx].as_str()) {
            Ok(_) => {},
            Err(e) => {
                proof {
                    let ii = idx as int;
                    assert(fields_view(fields@)[ii] == fields@[ii]@);
                    assert forall|j: int| 0 <= j < k implies decode_cell_spec(kinds@[ord[j]], fields_view(fields@)[ord[j]]) is Some by {
                        assert(ord[j] == order@[j] as int);
                        assert(fields_view(fields@)[ord[j]] == fields@[ord[j]]@);
                    }
                    assert(ord[k as int] == ii);
                    assert(row_refusal(kinds@, ord, fields_view(fields@), e));
                    assert(!row_decodes(kinds@, fields_view(fields@)));
                    assert forall|cs: Seq<Cell>|
                        row_has_kinds(cs, kinds@) && fields_view(fields@) == row_text(cs) implies false by {
                        assert(fields_view(fields@)[ii] == row_text(cs)[ii]);
                        assert(cell_kind(cs[ii]) == kinds@[ii]);
                    }
                }
                return Err(e);
            },
        }
        k = k + 1;
    }
    assert(row_decodes(kinds@, fields_view(fields@))) by {
        assert forall|i: int| 0 <= i < kinds@.len() implies (#[trigger] decode_cell_spec(
            kinds@[i],
            fields_view(fields@)[i],
        )) is Some by {
            // every position occurs in the order
            let o = ord;
            let pos = lemma_order_covers(o, n as int, i);
            assert(order@[pos] as int == i);
        }
    }
    let mut cells: Vec<Cell> = Vec::new();
    let mut i: usize = 0;
    while i < n
        invariant
            0 <= i <= n == kinds@.len() == fields@.len(),
            row_decodes(kinds@, fields_view(fields@)),
            cells@.len() == i,
            forall|j: int| 0 <= j < i ==> cell_kind(#[trigger] cells@[j]) == kinds@[j],
            forall|j: int|
                0 <= j < i ==> decode_cell_spec(kinds@[j], fields@[j]@) == Some(
                    cell_value(#[trigger] cells@[j]),
                ),
            forall|j: int, c: Cell|
                #![trigger cells@[j], cell_text(c)]
                0 <= j < i && cell_kind(c) == kinds@[j] && fields@[j]@ == cell_text(c) ==> cell_value(
                    cells@[j],
                ) == cell_value(c),
        decreases n - i,
    {
        assert(decode_cell_spec(kinds@[i as int], fields_view(fields@)[i as int]) is Some);
        match decode_cell(kinds[i], fields[i].as_str()) {
            Ok(c) => {
                let ghost before = cells@;
                cells.push(c);
                assert forall|j: int, c2: Cell|
                    #![trigger cells@[j], cell_text(c2)]
                    0 <= j < i + 1 && cell_kind(c2) == kinds@[j] && fields@[j]@ == cell_text(c2) implies cell_value(
                        cells@[j],
                    ) == cell_value(c2) by {
                    if j < i {
                        assert(cells@[j] == before[j]);
                    }
                }
            },
            Err(e) => {
                return Err(e);
            },
        }
        i = i + 1;
    }
    proof {
        assert forall|cs: Seq<Cell>|
            row_has_kinds(cs, kinds@) && fields_view(fields@) == row_text(cs) implies row_value(
            cells@,
        ) == row_value(cs) by {
            assert forall|j: int| 0 <= j < n implies #[trigger] cell_value(cells@[j]) == cell_value(
                cs[j],
            ) by {
                assert(fields_view(fields@)[j] == row_text(cs)[j]);
                assert(fields@[j]@ == cell_text(cs[j]));
                assert(cell_kind(cs[j]) == kinds@[j]);
            }
            assert(row_value(cells@) =~= row_value(cs));
        }
    }
    Ok(cells)
}

/// Some position of an order holds each index.
proof fn lemma_order_covers(order: Seq<int>, n: int, i: int) -> (pos: int)
    requires
        is_order_of(order, n),
        0 <= i < n,
    ensures
        0 <= pos < n,
        order[pos] == i,
{
    // the values of `order` are n distinct numbers in [0, n)
    let vals = order.to_set();
    assert(order.no_duplicates()) by {
        assert forall|a: int, b: int| 0 <= a < order.len() && 0 <= b < order.len() && a != b implies order[a] != order[b] by {
            if a < b {
            } else {
            }
        }
    }
    order.unique_seq_to_set();
    let range = vstd::set_lib::set_int_range(0, n);
    vstd::set_lib::lemma_int_range(0, n);
    assert forall|x: int| vals.contains(x) implies range.contains(x) by {
        let p = choose|p: int| 0 <= p < order.len() && order[p] == x;
    }
    assert(vals.subset_of(range));
    if !vals.contains(i) {
        assert(vals.subset_of(range.remove(i)));
        vstd::set_lib::lemma_len_subset(vals, range.remove(i));
        assert(false);
    }
    choose|p: int| 0 <= p < order.len() && order[p] == i
}

} // verus!
