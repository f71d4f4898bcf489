//! Writing one table of typed rows as an export item, and the schema
//! version that an export records.
use vstd::prelude::*;

use crate::db::csv_bundle::{table_at, table_at_index, table_file_name, CsvExportItem, WorldflowCsvTable, TABLE_COUNT};
use crate::db::csv_codec::{hex_text, sha256_hex, sha256_of, table_csv_text, write_csv_string};
use crate::db::csv_tables::{
    encode_row, fields_view, row_has_kinds, row_text, table_header, table_header_strings,
    table_kinds, lemma_table_schemas_consistent, Cell,
};
use crate::error::{Result, WorldflowError};
use crate::text::push_str;

verus! {

broadcast use vstd::string::group_string_axioms;

/// The CSV fields written for rows of cells.
pub open spec fn rows_text(rows: Seq<Vec<Cell>>) -> Seq<Seq<Seq<char>>> {
    rows.map_values(|r: Vec<Cell>| row_text(r@))
}

/// The export item of a table: its file name, the number of rows, the CSV
/// text (header and rows; nothing for no rows) and the lowercase hex SHA-256
/// of that text's UTF-8 bytes.
pub fn build_export_item(table: WorldflowCsvTable, rows: &Vec<Vec<Cell>>) -> (r: Result<CsvExportItem>)
    requires
        forall|i: int| 0 <= i < rows@.len() ==> row_has_kinds((#[trigger] rows@[i])@, table_kinds(table)),
    ensures
        r is Ok,
        r matches Ok(item) ==> item.table == table && item.file_name@ == table_file_name(table)
            && item.row_count == rows@.len() && item.content@ == table_csv_text(
            table_header(table),
            rows_text(rows@),
        ) && item.sha256@ == hex_text(sha256_of(vstd::utf8::encode_utf8(item.content@))),
        r matches Err(e) ==> e is Csv,
{
    let header = table_header_strings(table);
    let mut fields: Vec<Vec<String>> = Vec::new();
    let mut i: usize = 0;
    while i < rows.len()
        invariant
            0 <= i <= rows@.len(),
            fields@.len() == i,
            forall|k: int| 0 <= k < i ==> fields_view((#[trigger] fields@[k])@) == row_text(rows@[k]@),
        decreases rows@.len() - i,
    {
        fields.push(encode_row(&rows[i]));
        i = i + 1;
    }
    let ghost fv = fields@;
    proof {
        lemma_table_schemas_consistent(table);
        assert(header@.len() == table_header(table).len());
        assert forall|k: int| 0 <= k < fv.len() implies (#[trigger] fv[k])@.len() == header@.len() by {
            assert(fields_view(fv[k]@).len() == fv[k]@.len());
            assert(row_text(rows@[k]@).len() == rows@[k]@.len());
            assert(row_has_kinds(rows@[k]@, table_kinds(table)));
        }
    }
    let content = write_csv_string(&header, fields)?;
    proof {
        let a = fv.map_values(|r: Vec<String>| r@.map_values(|f: String| f@));
        assert forall|k: int| 0 <= k < a.len() implies a[k] == rows_text(rows@)[k] by {
            assert(fields_view(fv[k]@) == row_text(rows@[k]@));
        }
        assert(a =~= rows_text(rows@));
    }
    let sha256 = sha256_hex(&content);
    Ok(
        CsvExportItem {
            table,
            file_name: String::from_str(table.file_name()),
            row_count: rows.len(),
            content,
            sha256,
        },
    )
}

/// The highest value among `versions` that fits in `u32`, or 0 when none
/// does.
pub open spec fn max_u32_version(versions: Seq<i64>) -> u32
    decreases versions.len(),
{
    if versions.len() == 0 {
        0
    } else {
        let rest = max_u32_version(versions.drop_last());
        let v = versions.last();
        if 0 <= v <= u32::MAX && v > rest {
            v as u32
        } else {
            rest
        }
    }
}

/// The schema version an export records: the highest migration version that
/// fits in `u32`, or 0 when there is none.
pub fn schema_version_from_versions(versions: &[i64]) -> (r: u32)
    ensures
        r == max_u32_version(versions@),
        forall|i: int| 0 <= i < versions@.len() && 0 <= versions@[i] <= u32::MAX ==> versions@[i] <= r,
        r == 0 || exists|i: int| 0 <= i < versions@.len() && versions@[i] == r,
{
    let mut best: u32 = 0;
    let mut i: usize = 0;
    while i < versions.len()
        invariant
            0 <= i <= versions@.len(),
            best == max_u32_version(versions@.subrange(0, i as int)),
            forall|k: int| 0 <= k < i && 0 <= versions@[k] <= u32::MAX ==> versions@[k] <= best,
            best == 0 || exists|k: int| 0 <= k < i && versions@[k] == best,
        decreases versions@.len() - i,
    {
        let v = versions[i];
        assert(versions@.subrange(0, i + 1).drop_last() =~= versions@.subrange(0, i as int));
        if 0 <= v && v <= 4294967295i64 && v > best as i64 {
            best = v as u32;
        }
        i = i + 1;
    }
    assert(versions@.subrange(0, versions@.len() as int) =~= versions@);
    best
}

/// The SQL name of a table.
pub open spec fn table_sql_name(t: WorldflowCsvTable) -> Seq<char> {
    match t {
        WorldflowCsvTable::Projects => "projects"@,
        WorldflowCsvTable::Categories => "categories"@,
        WorldflowCsvTable::TagSchemas => "tag_schemas"@,
        WorldflowCsvTable::EntryTypes => "entry_types"@,
        WorldflowCsvTable::Entries => "entries"@,
        WorldflowCsvTable::EntryRelations => "entry_relations"@,
        WorldflowCsvTable::EntryLinks => "entry_links"@,
        WorldflowCsvTable::IdeaNotes => "idea_notes"@,
    }
}

/// The SQL name of a table.
pub fn sql_table_name(t: WorldflowCsvTable) -> (r: &'static str)
    ensures
        r@ == table_sql_name(t),
{
    match t {
        WorldflowCsvTable::Projects => "projects",
        WorldflowCsvTable::Categories => "categories",
        WorldflowCsvTable::TagSchemas => "tag_schemas",
        WorldflowCsvTable::EntryTypes => "entry_types",
        WorldflowCsvTable::Entries => "entries",
        WorldflowCsvTable::EntryRelations => "entry_relations",
        WorldflowCsvTable::EntryLinks => "entry_links",
        WorldflowCsvTable::IdeaNotes => "idea_notes",
    }
}

/// Column names joined by `, `.
pub open spec fn column_list(cols: Seq<Seq<char>>) -> Seq<char>
    decreases cols.len(),
{
    if cols.len() == 0 {
        Seq::empty()
    } else if cols.len() == 1 {
        cols[0]
    } else {
        column_list(cols.drop_last()) + ", "@ + cols.last()
    }
}

/// The export query of a table: its columns in CSV order, oldest first;
/// limited to one project (its own row for `projects`, rows whose
/// `project_id` is the bound id otherwise) when `scoped`.
pub open spec fn export_query(t: WorldflowCsvTable, scoped: bool) -> Seq<char> {
    "SELECT "@ + column_list(table_header(t)) + " FROM "@ + table_sql_name(t) + (if !scoped {
        Seq::empty()
    } else if t == WorldflowCsvTable::Projects {
        " WHERE id = ?"@
    } else {
        " WHERE project_id = ?"@
    }) + " ORDER BY created_at"@
}

/// A scoped export reads the same columns, in the same order, as the whole
/// table's export, restricted by exactly one condition: the project's own
/// row (`id = ?`) for `projects`, and for every other table the rows whose
/// `project_id` equals the bound id, nothing else.
pub proof fn lemma_scoped_export_query(t: WorldflowCsvTable)
    ensures
        export_query(t, false).len() >= 20,
        export_query(t, false).subrange(export_query(t, false).len() - 20, export_query(t, false).len() as int)
            == " ORDER BY created_at"@,
        export_query(t, true) == export_query(t, false).subrange(0, export_query(t, false).len() - 20) + (if t
            == WorldflowCsvTable::Projects {
            " WHERE id = ?"@
        } else {
            " WHERE project_id = ?"@
        }) + " ORDER BY created_at"@,
{
    reveal_strlit(" ORDER BY created_at");
    let head = "SELECT "@ + column_list(table_header(t)) + " FROM "@ + table_sql_name(t);
    let tail = " ORDER BY created_at"@;
    assert(export_query(t, false) =~= head + tail);
    assert((head + tail).subrange(0, head.len() as int) =~= head);
    assert((head + tail).subrange(head.len() as int, (head + tail).len() as int) =~= tail);
    assert(export_query(t, true) =~= head + (if t == WorldflowCsvTable::Projects {
        " WHERE id = ?"@
    } else {
        " WHERE project_id = ?"@
    }) + tail);
}

/// The query that reads a table for export.
pub fn export_query_sql(t: WorldflowCsvTable, scoped: bool) -> (r: String)
    ensures
        r@ == export_query(t, scoped),
{
    let cols = table_header_strings(t);
    let mut sql = String::from_str("SELECT ");
    let ghost head = sql@;
    let mut i: usize = 0;
    while i < cols.len()
        invariant
            0 <= i <= cols@.len(),
            cols@.map_values(|f: String| f@) == table_header(t),
            sql@ == head + column_list(cols@.map_values(|f: String| f@).subrange(0, i as int)),
        decreases cols@.len() - i,
    {
        if i > 0 {
            push_str(&mut sql, ", ");
        }
        push_str(&mut sql, cols[i].as_str());
        proof {
            let v = cols@.map_values(|f: String| f@);
            assert(v.subrange(0, i + 1).drop_last() =~= v.subrange(0, i as int));
            assert(v[i as int] == cols@[i as int]@);
            if i == 0 {
                assert(column_list(v.subrange(0, 0)) =~= Seq::<char>::empty());
            }
            assert(sql@ =~= head + column_list(v.subrange(0, i + 1)));
        }
        i = i + 1;
    }
    assert(cols@.map_values(|f: String| f@).subrange(0, cols@.len() as int) =~= table_header(t));
    push_str(&mut sql, " FROM ");
    push_str(&mut sql, sql_table_name(t));
    if scoped {
        match t {
            WorldflowCsvTable::Projects => push_str(&mut sql, " WHERE id = ?"),
            _ => push_str(&mut sql, " WHERE project_id = ?"),
        }
    }
    push_str(&mut sql, " ORDER BY created_at");
    sql
}

/// What a replacing import runs first: every table emptied, children before
/// parents (the reverse of export order).
pub fn replace_delete_statements() -> (r: Vec<String>)
    ensures
        r@.len() == TABLE_COUNT,
        forall|k: int|
            0 <= k < TABLE_COUNT ==> (#[trigger] r@[k])@ == "DELETE FROM "@ + table_sql_name(
                table_at(TABLE_COUNT - 1 - k),
            ),
{
    let mut out: Vec<String> = Vec::new();
    let mut k: usize = 0;
    while k < TABLE_COUNT
        invariant
            0 <= k <= TABLE_COUNT,
            out@.len() == k,
            forall|j: int|
                0 <= j < k ==> (#[trigger] out@[j])@ == "DELETE FROM "@ + table_sql_name(
                    table_at(TABLE_COUNT - 1 - j),
                ),
        decreases TABLE_COUNT - k,
    {
        let t = table_at_index(TABLE_COUNT - 1 - k);
        let mut stmt = String::from_str("DELETE FROM ");
        push_str(&mut stmt, sql_table_name(t));
        out.push(stmt);
        k = k + 1;
    }
    out
}

} // verus!
