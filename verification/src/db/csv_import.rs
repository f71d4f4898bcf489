//! Reading a CSV bundle: the named columns of each table are picked out of
//! the parsed records (as deserializing rows by header name does), then
//! every row is read as typed cells, categories parents first.
use vstd::prelude::*;

use crate::db::csv_bundle::{table_at, table_at_index, table_index, AllCsvBytes, TABLE_COUNT, WorldflowCsvTable};
use crate::db::csv_codec::{
    csv_parse, csv_round_trips, csv_text, parse_csv_bytes, records_view, table_csv_text,
};
use crate::db::csv_bundle::{sort_categories_topological, topo_order, CategoryRow};
use crate::db::csv_tables::{
    decode_row, fields_view, lemma_table_header_names, lemma_table_schemas_consistent, row_decodes,
    row_has_kinds, row_refusal, row_text, row_value, table_check_order, table_check_order_list,
    table_header, table_header_strings, table_kind_list, table_kinds, Cell, decode_cell_spec,
    cell_value,
};
use crate::error::{Result, WorldflowError};
use crate::text::push_str;

verus! {

broadcast use vstd::string::group_string_axioms;

/// Whether position `p` of the header repeats a wanted name seen before it.
pub open spec fn dup_at(header: Seq<Seq<char>>, wanted: Seq<Seq<char>>, p: int) -> bool {
    &&& 0 <= p < header.len()
    &&& wanted.contains(header[p])
    &&& exists|q: int| 0 <= q < p && header[q] == header[p]
}

/// Whether some wanted name occurs twice in the header.
pub open spec fn has_dup(header: Seq<Seq<char>>, wanted: Seq<Seq<char>>) -> bool {
    exists|p: int| #[trigger] dup_at(header, wanted, p)
}

/// The error for a header that names a field twice.
pub open spec fn duplicate_field_text(name: Seq<char>) -> Seq<char> {
    "duplicate field `"@ + name + "`"@
}

/// The error for a header that lacks a field.
pub open spec fn missing_field_text(name: Seq<char>) -> Seq<char> {
    "missing field `"@ + name + "`"@
}

/// The error for picking `wanted` out of records under `header`: the first
/// wanted name that the header repeats, in header order; else the first
/// wanted name it lacks.
pub open spec fn select_error(header: Seq<Seq<char>>, wanted: Seq<Seq<char>>, m: Seq<char>) -> bool {
    ||| exists|p: int|
        dup_at(header, wanted, p) && (forall|q: int| 0 <= q < p ==> !dup_at(header, wanted, q))
            && m == duplicate_field_text(header[p])
    ||| !has_dup(header, wanted) && exists|c: int|
        0 <= c < wanted.len() && !header.contains(wanted[c]) && (forall|d: int|
            0 <= d < c ==> header.contains(wanted[d])) && m == missing_field_text(wanted[c])
}

/// Whether the header names every wanted field.
pub open spec fn all_present(header: Seq<Seq<char>>, wanted: Seq<Seq<char>>) -> bool {
    forall|c: int| 0 <= c < wanted.len() ==> header.contains(#[trigger] wanted[c])
}

/// The position of `name` in the header (the only one, where names are not
/// repeated).
pub open spec fn name_pos(header: Seq<Seq<char>>, name: Seq<char>) -> int {
    choose|p: int| 0 <= p < header.len() && header[p] == name
}

/// The fields of `records` picked by name: row `r`, column `c` is the field
/// of record `r` under the header name `wanted[c]`.
pub open spec fn picked(
    header: Seq<Seq<char>>,
    wanted: Seq<Seq<char>>,
    records: Seq<Seq<Seq<char>>>,
    rows: Seq<Seq<Seq<char>>>,
) -> bool {
    &&& rows.len() == records.len()
    &&& forall|r: int|
        0 <= r < rows.len() ==> (#[trigger] rows[r]).len() == wanted.len() && forall|c: int|
            0 <= c < wanted.len() ==> #[trigger] rows[r][c] == records[r][name_pos(header, wanted[c])]
}

/// The texts of records.
pub open spec fn texts(records: Seq<Vec<String>>) -> Seq<Seq<Seq<char>>> {
    records.map_values(|r: Vec<String>| r@.map_values(|f: String| f@))
}

/// The texts of a list of strings.
pub open spec fn strs(v: Seq<String>) -> Seq<Seq<char>> {
    v.map_values(|f: String| f@)
}

/// Whether `name` is among `names`.
fn contains_name(names: &Vec<String>, name: &String) -> (r: bool)
    ensures
        r == strs(names@).contains(name@),
{
    let mut i: usize = 0;
    while i < names.len()
        invariant
            0 <= i <= names@.len(),
            forall|k: int| 0 <= k < i ==> names@[k]@ != name@,
        decreases names@.len() - i,
    {
        if names[i] == *name {
            assert(strs(names@)[i as int] == name@);
            return true;
        }
        i = i + 1;
    }
    assert forall|k: int| 0 <= k < strs(names@).len() implies strs(names@)[k] != name@ by {
        assert(strs(names@)[k] == names@[k]@);
    }
    false
}

/// The first position of `name` among `names`, if any.
fn position_of(names: &Vec<String>, name: &String) -> (r: Option<usize>)
    ensures
        r is None <==> !strs(names@).contains(name@),
        r matches Some(p) ==> p < names@.len() && names@[p as int]@ == name@ && forall|q: int|
            0 <= q < p ==> names@[q]@ != name@,
{
    let mut i: usize = 0;
    while i < names.len()
        invariant
            0 <= i <= names@.len(),
            forall|k: int| 0 <= k < i ==> names@[k]@ != name@,
        decreases names@.len() - i,
    {
        if names[i] == *name {
            assert(strs(names@)[i as int] == name@);
            return Some(i);
        }
        i = i + 1;
    }
    assert forall|k: int| 0 <= k < strs(names@).len() implies strs(names@)[k] != name@ by {
        assert(strs(names@)[k] == names@[k]@);
    }
    None
}

/// A position before `p` holding the same name as position `p`, if any.
fn earlier_position(names: &Vec<String>, p: usize) -> (r: Option<usize>)
    requires
        p < names@.len(),
    ensures
        r is None <==> forall|q: int| 0 <= q < p ==> names@[q]@ != names@[p as int]@,
        r matches Some(q) ==> q < p && names@[q as int]@ == names@[p as int]@,
{
    let mut q: usize = 0;
    while q < p
        invariant
            0 <= q <= p < names@.len(),
            forall|k: int| 0 <= k < q ==> names@[k]@ != names@[p as int]@,
        decreases p - q,
    {
        if names[q] == names[p] {
            return Some(q);
        }
        q = q + 1;
    }
    None
}

/// Picking by positions `idx` whose names are the wanted ones is picking by
/// name, when no wanted name is repeated in the header.
proof fn lemma_picked(
    hs: Seq<Seq<char>>,
    ws: Seq<Seq<char>>,
    qt: Seq<Seq<Seq<char>>>,
    rt: Seq<Seq<Seq<char>>>,
    idx: Seq<usize>,
)
    requires
        !has_dup(hs, ws),
        rt.len() == qt.len(),
        idx.len() == ws.len(),
        forall|d: int| 0 <= d < ws.len() ==> #[trigger] idx[d] < hs.len() && hs[idx[d] as int] == ws[d],
        forall|i: int|
            0 <= i < rt.len() ==> (#[trigger] rt[i]).len() == ws.len() && forall|d: int|
                0 <= d < ws.len() ==> #[trigger] rt[i][d] == qt[i][idx[d] as int],
    ensures
        picked(hs, ws, qt, rt),
{
    assert forall|d: int| 0 <= d < ws.len() implies #[trigger] name_pos(hs, ws[d]) == idx[d] as int by {
        let p = idx[d] as int;
        assert(0 <= p < hs.len() && hs[p] == ws[d]);
        let q = name_pos(hs, ws[d]);
        assert(0 <= q < hs.len() && hs[q] == ws[d]);
        if q < p {
            assert(ws.contains(hs[p]));
            assert(dup_at(hs, ws, p));
        } else if p < q {
            assert(ws.contains(hs[q]));
            assert(dup_at(hs, ws, q));
        }
    }
}

/// Picks the wanted columns out of CSV records by header name, as reading
/// rows into a struct by field name does. Without records nothing is read
/// and the header is not looked at. Otherwise the header is walked in order
/// and the first wanted name seen a second time is refused; then the first
/// wanted name the header lacks is refused. Other columns are ignored.
pub fn select_columns(header: &Vec<String>, wanted: &Vec<String>, records: &Vec<Vec<String>>) -> (r:
    Result<Vec<Vec<String>>>)
    requires
        forall|i: int| 0 <= i < records@.len() ==> (#[trigger] records@[i])@.len() == header@.len(),
    ensures
        records@.len() == 0 ==> (r matches Ok(rows) && rows@.len() == 0),
        records@.len() > 0 ==> (r is Ok <==> !has_dup(strs(header@), strs(wanted@)) && all_present(
            strs(header@),
            strs(wanted@),
        )),
        r matches Ok(rows) ==> picked(strs(header@), strs(wanted@), texts(records@), texts(rows@)),
        r matches Err(e) ==> e matches WorldflowError::Csv(m) && select_error(
            strs(header@),
            strs(wanted@),
            m@,
        ),
{
    let mut rows: Vec<Vec<String>> = Vec::new();
    if records.len() == 0 {
        return Ok(rows);
    }
    let ghost hs = strs(header@);
    let ghost ws = strs(wanted@);
    // duplicates, in header order
    let mut p: usize = 0;
    while p < header.len()
        invariant
            0 <= p <= header@.len(),
            records@.len() > 0,
            hs == strs(header@),
            ws == strs(wanted@),
            forall|q: int| 0 <= q < p ==> !dup_at(hs, ws, q),
        decreases header@.len() - p,
    {
        if contains_name(wanted, &header[p]) {
            match earlier_position(header, p) {
                Some(q) => {
                    let mut m = String::from_str("duplicate field `");
                    push_str(&mut m, header[p].as_str());
                    push_str(&mut m, "`");
                    proof {
                        assert(hs[q as int] == header@[q as int]@);
                        assert(hs[p as int] == header@[p as int]@);
                        assert(dup_at(hs, ws, p as int));
                    }
                    return Err(WorldflowError::Csv(m));
                },
                None => {
                    assert forall|k: int| 0 <= k < p implies hs[k] != hs[p as int] by {
                        assert(hs[k] == header@[k]@);
                        assert(hs[p as int] == header@[p as int]@);
                    }
                },
            }
        }
        p = p + 1;
    }
    assert(!has_dup(hs, ws));
    // every wanted name, in order
    let mut idx: Vec<usize> = Vec::new();
    let mut c: usize = 0;
    while c < wanted.len()
        invariant
            0 <= c <= wanted@.len(),
            records@.len() > 0,
            hs == strs(header@),
            ws == strs(wanted@),
            !has_dup(hs, ws),
            idx@.len() == c,
            forall|d: int|
                0 <= d < c ==> #[trigger] idx@[d] < header@.len() && header@[idx@[d] as int]@
                    == wanted@[d]@,
            forall|d: int| 0 <= d < c ==> hs.contains(#[trigger] ws[d]),
        decreases wanted@.len() - c,
    {
        match position_of(header, &wanted[c]) {
            Some(pos) => {
                idx.push(pos);
                assert(hs[pos as int] == ws[c as int]);
            },
            None => {
                let mut m = String::from_str("missing field `");
                push_str(&mut m, wanted[c].as_str());
                push_str(&mut m, "`");
                proof {
                    assert forall|d: int| 0 <= d < c implies hs.contains(wanted@[d]@) by {
                        assert(ws[d] == wanted@[d]@);
                    }
                    assert(ws[c as int] == wanted@[c as int]@);
                    assert(!all_present(hs, ws));
                }
                return Err(WorldflowError::Csv(m));
            },
        }
        c = c + 1;
    }
    // pick the fields
    let mut r: usize = 0;
    while r < records.len()
        invariant
            0 <= r <= records@.len(),
            idx@.len() == wanted@.len(),
            forall|d: int|
                0 <= d < wanted@.len() ==> #[trigger] idx@[d] < header@.len() && header@[idx@[d]
                    as int]@ == wanted@[d]@,
            forall|i: int| 0 <= i < records@.len() ==> (#[trigger] records@[i])@.len() == header@.len(),
            rows@.len() == r,
            forall|i: int|
                0 <= i < r ==> (#[trigger] rows@[i])@.len() == wanted@.len() && forall|d: int|
                    0 <= d < wanted@.len() ==> (#[trigger] rows@[i]@[d])@ == records@[i]@[idx@[d]
                        as int]@,
        decreases records@.len() - r,
    {
        let mut row: Vec<String> = Vec::new();
        let mut d: usize = 0;
        while d < idx.len()
            invariant
                0 <= d <= idx@.len() == wanted@.len(),
                r < records@.len(),
                forall|e: int| 0 <= e < wanted@.len() ==> #[trigger] idx@[e] < header@.len(),
                records@[r as int]@.len() == header@.len(),
                row@.len() == d,
                forall|e: int| 0 <= e < d ==> (#[trigger] row@[e])@ == records@[r as int]@[idx@[e] as int]@,
            decreases idx@.len() - d,
        {
            let f = records[r][idx[d]].clone();
            row.push(f);
            d = d + 1;
        }
        rows.push(row);
        r = r + 1;
    }
    proof {
        let rt = texts(rows@);
        let qt = texts(records@);
        assert forall|i: int| 0 <= i < rt.len() implies (#[trigger] rt[i]).len() == ws.len() && forall|d: int|
            0 <= d < ws.len() ==> #[trigger] rt[i][d] == qt[i][idx@[d] as int] by {
            assert(rows@[i]@.len() == wanted@.len());
            assert forall|d: int| 0 <= d < ws.len() implies #[trigger] rt[i][d] == qt[i][idx@[d] as int] by {
                assert(idx@[d] < header@.len());
                assert(records@[i]@.len() == header@.len());
                assert(rows@[i]@[d]@ == records@[i]@[idx@[d] as int]@);
            }
        }
        assert forall|d: int| 0 <= d < ws.len() implies #[trigger] idx@[d] < hs.len() && hs[idx@[d] as int] == ws[d] by {
            assert(idx@[d] < header@.len());
        }
        lemma_picked(hs, ws, qt, rt, idx@);
    }
    Ok(rows)
}

// ─────────────────────────────── one table ───────────────────────────────

/// The rows read from the bytes of a table: `None` when the bytes are not
/// CSV, or when there are records and the header repeats or lacks one of the
/// table's columns; otherwise each record's fields in the table's column
/// order, picked by name.
pub open spec fn table_rows(bytes: Seq<u8>, t: WorldflowCsvTable) -> Option<Seq<Seq<Seq<char>>>> {
    match csv_parse(bytes) {
        None => None,
        Some(parsed) => {
            let h = parsed.0;
            let recs = parsed.1;
            if recs.len() == 0 {
                Some(Seq::empty())
            } else if has_dup(h, table_header(t)) || !all_present(h, table_header(t)) {
                None
            } else {
                Some(
                    recs.map_values(
                        |rec: Seq<Seq<char>>|
                            table_header(t).map_values(|w: Seq<char>| rec[name_pos(h, w)]),
                    ),
                )
            }
        },
    }
}

/// Whether every row has one field per column of the table.
pub open spec fn rows_fit(t: WorldflowCsvTable, rows: Seq<Seq<Seq<char>>>) -> bool {
    forall|i: int| 0 <= i < rows.len() ==> (#[trigger] rows[i]).len() == table_header(t).len()
}

/// Reads the bytes of one table into rows of fields in the table's column
/// order. Bytes written for rows of the table (see `table_csv_text`) read
/// back as those rows.
pub fn parse_table(bytes: &[u8], t: WorldflowCsvTable) -> (r: Result<Vec<Vec<String>>>)
    ensures
        r is Ok <==> table_rows(bytes@, t) is Some,
        r matches Ok(rows) ==> table_rows(bytes@, t) == Some(texts(rows@)),
        r matches Err(e) ==> e matches WorldflowError::Csv(m) && (csv_parse(bytes@) matches Some(
            p,
        ) ==> select_error(p.0, table_header(t), m@)),
        forall|rows: Seq<Seq<Seq<char>>>|
            rows_fit(t, rows) && bytes@ == vstd::utf8::encode_utf8(
                #[trigger] table_csv_text(table_header(t), rows),
            ) ==> (r is Ok && texts(r->Ok_0@) == rows),
{
    let parsed = parse_csv_bytes(bytes);
    let (header, records) = match parsed {
        Ok(v) => v,
        Err(e) => {
            proof {
                lemma_table_header_names(t);
                let ws = table_header(t);
                assert forall|rows: Seq<Seq<Seq<char>>>|
                    rows_fit(t, rows) && bytes@ == vstd::utf8::encode_utf8(
                        #[trigger] table_csv_text(table_header(t), rows),
                    ) implies false by {
                    if rows.len() > 0 {
                        let recs = seq![ws] + rows;
                        assert forall|i: int| 0 <= i < recs.len() implies (#[trigger] recs[i]).len() == recs[0].len() by {
                            if i > 0 {
                                assert(recs[i] == rows[i - 1]);
                            }
                        }
                        assert(csv_round_trips(recs));
                    }
                }
            }
            return Err(e);
        },
    };
    let wanted = table_header_strings(t);
    let ghost h = strs(header@);
    let ghost ws = table_header(t);
    assert(strs(wanted@) == ws);
    assert(h == header@.map_values(|f: String| f@));
    let res = select_columns(&header, &wanted, &records);
    proof {
        assert(texts(records@) == records_view(records@));
        lemma_table_header_names(t);
        if res is Ok {
            let rows = res->Ok_0;
            {
                if records@.len() > 0 {
                    let want = records_view(records@).map_values(
                        |rec: Seq<Seq<char>>| ws.map_values(|w: Seq<char>| rec[name_pos(h, w)]),
                    );
                    assert(texts(rows@) =~= want) by {
                        assert forall|i: int| 0 <= i < want.len() implies texts(rows@)[i] == want[i] by {
                            assert(texts(rows@)[i].len() == ws.len());
                            assert(texts(rows@)[i] =~= want[i]);
                        }
                    }
                } else {
                    assert(texts(rows@) =~= Seq::<Seq<Seq<char>>>::empty());
                }
            }
        }
        assert forall|rows: Seq<Seq<Seq<char>>>|
            rows_fit(t, rows) && bytes@ == vstd::utf8::encode_utf8(
                #[trigger] table_csv_text(table_header(t), rows),
            ) implies (res is Ok && texts(res->Ok_0@) == rows) by {
            if rows.len() == 0 {
                assert(records@.len() == 0);
                assert(texts(res->Ok_0@) =~= rows);
            } else {
                let recs = seq![ws] + rows;
                assert(recs[0] == ws);
                assert forall|i: int| 0 <= i < recs.len() implies (#[trigger] recs[i]).len() == recs[0].len() by {
                    if i > 0 {
                        assert(recs[i] == rows[i - 1]);
                    }
                }
                assert(csv_round_trips(recs));
                assert(recs.drop_first() =~= rows);
                assert(h == ws);
                assert(!has_dup(h, ws)) by {
                    if has_dup(h, ws) {
                        let p = choose|p: int| #[trigger] dup_at(h, ws, p);
                        let q = choose|q: int| 0 <= q < p && h[q] == h[p];
                    }
                }
                assert(all_present(h, ws)) by {
                    assert forall|c: int| 0 <= c < ws.len() implies h.contains(#[trigger] ws[c]) by {
                        assert(h[c] == ws[c]);
                    }
                }
                let out = res->Ok_0;
                assert forall|i: int| 0 <= i < rows.len() implies texts(out@)[i] == rows[i] by {
                    assert(texts(out@)[i].len() == ws.len());
                    assert forall|c: int| 0 <= c < ws.len() implies #[trigger] texts(out@)[i][c] == rows[i][c] by {
                        let q = name_pos(h, ws[c]);
                        assert(h[c] == ws[c]);
                        assert(0 <= q < h.len() && h[q] == ws[c]);
                        assert(q == c);
                        assert(records_view(records@)[i] == rows[i]);
                    }
                    assert(texts(out@)[i] =~= rows[i]);
                }
                assert(texts(out@) =~= rows);
            }
        }
    }
    res
}

// ─────────────────────────────── categories ───────────────────────────────

/// A category row read from fields in the table's column order.
pub open spec fn as_category(f: Seq<String>) -> CategoryRow {
    CategoryRow {
        id: f[0],
        project_id: f[1],
        parent_id: f[2],
        name: f[3],
        sort_order: f[4],
        created_at: f[5],
        updated_at: f[6],
    }
}

/// The fields of a category row, in the table's column order.
pub open spec fn category_fields(c: CategoryRow) -> Seq<String> {
    seq![c.id, c.project_id, c.parent_id, c.name, c.sort_order, c.created_at, c.updated_at]
}

/// The category rows of a table, each as a `CategoryRow`.
pub open spec fn category_rows(rows: Seq<Vec<String>>) -> Seq<CategoryRow> {
    rows.map_values(|v: Vec<String>| as_category(v@))
}

/// The category rows in insertion order: parents before their children (see
/// `topo_order`).
pub open spec fn ordered_category_fields(rows: Seq<Vec<String>>) -> Seq<Seq<String>> {
    topo_order(Seq::empty(), category_rows(rows)).map_values(|c: CategoryRow| category_fields(c))
}

/// Puts category rows (fields in column order) in insertion order, parents
/// before their children.
pub fn order_category_rows(rows: &Vec<Vec<String>>) -> (r: Vec<Vec<String>>)
    requires
        forall|i: int| 0 <= i < rows@.len() ==> (#[trigger] rows@[i])@.len() == 7,
    ensures
        r@.map_values(|v: Vec<String>| v@) == ordered_category_fields(rows@),
{
    let mut cats: Vec<CategoryRow> = Vec::new();
    let mut i: usize = 0;
    while i < rows.len()
        invariant
            0 <= i <= rows@.len(),
            forall|k: int| 0 <= k < rows@.len() ==> (#[trigger] rows@[k])@.len() == 7,
            cats@ == category_rows(rows@.subrange(0, i as int)),
        decreases rows@.len() - i,
    {
        let f = &rows[i];
        let c = CategoryRow {
            id: f[0].clone(),
            project_id: f[1].clone(),
            parent_id: f[2].clone(),
            name: f[3].clone(),
            sort_order: f[4].clone(),
            created_at: f[5].clone(),
            updated_at: f[6].clone(),
        };
        assert(c == as_category(rows@[i as int]@));
        cats.push(c);
        assert(category_rows(rows@.subrange(0, i + 1)) =~= category_rows(rows@.subrange(0, i as int)).push(as_category(rows@[i as int]@)));
        i = i + 1;
    }
    assert(rows@.subrange(0, rows@.len() as int) =~= rows@);
    let sorted = sort_categories_topological(cats);
    let ghost want = ordered_category_fields(rows@);
    let mut out: Vec<Vec<String>> = Vec::new();
    let mut j: usize = 0;
    while j < sorted.len()
        invariant
            0 <= j <= sorted@.len(),
            want == sorted@.map_values(|c: CategoryRow| category_fields(c)),
            out@.len() == j,
            forall|k: int| 0 <= k < j ==> (#[trigger] out@[k])@ == want[k],
        decreases sorted@.len() - j,
    {
        let c = &sorted[j];
        let mut v: Vec<String> = Vec::new();
        v.push(c.id.clone());
        v.push(c.project_id.clone());
        v.push(c.parent_id.clone());
        v.push(c.name.clone());
        v.push(c.sort_order.clone());
        v.push(c.created_at.clone());
        v.push(c.updated_at.clone());
        assert(v@ =~= category_fields(sorted@[j as int]));
        out.push(v);
        j = j + 1;
    }
    assert(out@.map_values(|v: Vec<String>| v@) =~= want);
    out
}

// ─────────────────────────────── typed rows ───────────────────────────────

/// Whether every row of a table reads as typed cells.
pub open spec fn table_decodes(t: WorldflowCsvTable, rows: Seq<Seq<Seq<char>>>) -> bool {
    forall|i: int| 0 <= i < rows.len() ==> row_decodes(table_kinds(t), #[trigger] rows[i])
}

/// Whether `cells` are what the rows of a table read as.
pub open spec fn decoded_as(t: WorldflowCsvTable, rows: Seq<Seq<Seq<char>>>, cells: Seq<Seq<Cell>>) -> bool {
    &&& cells.len() == rows.len()
    &&& forall|i: int|
        0 <= i < rows.len() ==> row_has_kinds(#[trigger] cells[i], table_kinds(t)) && forall|c: int|
            0 <= c < table_kinds(t).len() ==> decode_cell_spec(table_kinds(t)[c], rows[i][c])
                == Some(cell_value(#[trigger] cells[i][c]))
}

/// The error for a table with a row that does not read: the first such row
/// decides it (see `row_refusal`).
pub open spec fn table_refusal(t: WorldflowCsvTable, rows: Seq<Seq<Seq<char>>>, e: WorldflowError) -> bool {
    exists|i: int|
        0 <= i < rows.len() && (forall|k: int| 0 <= k < i ==> row_decodes(table_kinds(t), #[trigger] rows[k]))
            && !row_decodes(table_kinds(t), rows[i]) && row_refusal(
            table_kinds(t),
            table_check_order(t),
            rows[i],
            e,
        )
}

/// Whether `rows` are the fields written for `cells`, rows of the table's
/// column kinds.
pub open spec fn written_from(t: WorldflowCsvTable, rows: Seq<Seq<Seq<char>>>, cells: Seq<Seq<Cell>>) -> bool {
    &&& cells.len() == rows.len()
    &&& forall|i: int|
        0 <= i < cells.len() ==> row_has_kinds(#[trigger] cells[i], table_kinds(t)) && rows[i]
            == row_text(cells[i])
}

/// Whether two tables of cells hold the same values.
pub open spec fn same_values(a: Seq<Seq<Cell>>, b: Seq<Seq<Cell>>) -> bool {
    &&& a.len() == b.len()
    &&& forall|i: int| 0 <= i < a.len() ==> row_value(#[trigger] a[i]) == row_value(b[i])
}

/// The typed cells of rows.
pub open spec fn cell_texts(cells: Seq<Vec<Cell>>) -> Seq<Seq<Cell>> {
    cells.map_values(|v: Vec<Cell>| v@)
}

/// Reads every row of a table as typed cells, in order; the first row that
/// does not read decides the error. Rows written for cells of the table's
/// kinds read back as cells of the same values.
pub fn decode_table(rows: &Vec<Vec<String>>, t: WorldflowCsvTable) -> (r: Result<Vec<Vec<Cell>>>)
    requires
        rows_fit(t, texts(rows@)),
    ensures
        r is Ok <==> table_decodes(t, texts(rows@)),
        r matches Ok(cells) ==> decoded_as(t, texts(rows@), cell_texts(cells@)),
        r matches Err(e) ==> table_refusal(t, texts(rows@), e),
        forall|cells: Seq<Seq<Cell>>|
            #[trigger] written_from(t, texts(rows@), cells) ==> (r is Ok && same_values(
                cell_texts(r->Ok_0@),
                cells,
            )),
{
    let kinds = table_kind_list(t);
    let order = table_check_order_list(t);
    proof {
        lemma_table_schemas_consistent(t);
        assert(kinds@ == table_kinds(t));
        assert(order@.map_values(|i: usize| i as int) == table_check_order(t));
    }
    let ghost rt = texts(rows@);
    let mut out: Vec<Vec<Cell>> = Vec::new();
    let mut i: usize = 0;
    while i < rows.len()
        invariant
            0 <= i <= rows@.len(),
            rt == texts(rows@),
            rows_fit(t, rt),
            kinds@ == table_kinds(t),
            order@.map_values(|i: usize| i as int) == table_check_order(t),
            crate::db::csv_tables::is_order_of(table_check_order(t), table_kinds(t).len() as int),
            table_kinds(t).len() == crate::db::csv_tables::table_header(t).len(),
            out@.len() == i,
            forall|k: int| 0 <= k < i ==> row_decodes(table_kinds(t), #[trigger] rt[k]),
            decoded_as(t, rt.subrange(0, i as int), cell_texts(out@)),
            forall|k: int, cs: Seq<Cell>|
                #![trigger out@[k], row_text(cs)]
                0 <= k < i && row_has_kinds(cs, table_kinds(t)) && rt[k] == row_text(cs) ==> row_value(
                    out@[k]@,
                ) == row_value(cs),
        decreases rows@.len() - i,
    {
        assert(rt[i as int] == fields_view(rows@[i as int]@));
        assert(rt[i as int].len() == table_header(t).len());
        match decode_row(&kinds, &order, &rows[i]) {
            Ok(cells) => {
                let ghost before = out@;
                out.push(cells);
                proof {
                    assert(rt.subrange(0, i + 1) =~= rt.subrange(0, i as int).push(rt[i as int]));
                    assert(cell_texts(out@) =~= cell_texts(before).push(out@[i as int]@));
                    let pre = rt.subrange(0, i + 1);
                    assert forall|k: int| 0 <= k < pre.len() implies row_has_kinds(#[trigger] cell_texts(out@)[k], table_kinds(t)) && forall|c: int|
                        0 <= c < table_kinds(t).len() ==> decode_cell_spec(table_kinds(t)[c], pre[k][c])
                            == Some(cell_value(#[trigger] cell_texts(out@)[k][c])) by {
                        if k < i {
                            assert(cell_texts(out@)[k] == cell_texts(before)[k]);
                            assert(pre[k] == rt.subrange(0, i as int)[k]);
                        } else {
                            assert(pre[k] == fields_view(rows@[i as int]@));
                            assert forall|c: int| 0 <= c < table_kinds(t).len() implies decode_cell_spec(table_kinds(t)[c], pre[k][c])
                                == Some(cell_value(#[trigger] cell_texts(out@)[k][c])) by {
                                assert(pre[k][c] == rows@[i as int]@[c]@);
                            }
                        }
                    }
                    assert forall|k: int, cs: Seq<Cell>|
                        #![trigger out@[k], row_text(cs)]
                        0 <= k < i + 1 && row_has_kinds(cs, table_kinds(t)) && rt[k] == row_text(cs) implies row_value(
                            out@[k]@,
                        ) == row_value(cs) by {
                        if k < i {
                            assert(out@[k] == before[k]);
                        }
                    }
                }
            },
            Err(e) => {
                proof {
                    assert(table_refusal(t, rt, e)) by {
                        assert(!row_decodes(table_kinds(t), rt[i as int]));
                    }
                    assert forall|cells: Seq<Seq<Cell>>|
                        #[trigger] written_from(t, texts(rows@), cells) implies false by {
                        assert(row_has_kinds(cells[i as int], table_kinds(t)));
                        assert(fields_view(rows@[i as int]@) == row_text(cells[i as int]));
                    }
                }
                return Err(e);
            },
        }
        i = i + 1;
    }
    proof {
        assert(rt.subrange(0, rows@.len() as int) =~= rt);
        assert forall|cells: Seq<Seq<Cell>>|
            #[trigger] written_from(t, texts(rows@), cells) implies same_values(
                cell_texts(out@),
                cells,
            ) by {
            assert forall|k: int| 0 <= k < cells.len() implies row_value(#[trigger] cell_texts(out@)[k]) == row_value(
                    cells[k],
                ) by {
                assert(row_has_kinds(cells[k], table_kinds(t)));
                assert(cell_texts(out@)[k] == out@[k]@);
            }
        }
    }
    Ok(out)
}

// ─────────────────────────────── all tables ───────────────────────────────

/// The rows of every table, fields in each table's column order, tables in
/// export order.
pub struct ParsedCsvData {
    pub tables: Vec<Vec<Vec<String>>>,
}

impl ParsedCsvData {
    /// One list of rows per table, each row with one field per column.
    pub open spec fn wf(&self) -> bool {
        &&& self.tables@.len() == TABLE_COUNT
        &&& forall|l: int| 0 <= l < TABLE_COUNT ==> rows_fit(table_at(l), #[trigger] texts(self.tables@[l]@))
    }
}

/// The typed rows of every table, tables in export order, categories parents
/// first: what the import inserts.
pub struct DecodedCsvData {
    pub tables: Vec<Vec<Vec<Cell>>>,
}

/// Whether the bytes of each table are what the export wrote for `rows`
/// (rows of fields, one list per table in export order).
pub open spec fn bundle_written(tables: Seq<Vec<u8>>, rows: Seq<Seq<Seq<Seq<char>>>>) -> bool {
    &&& tables.len() == TABLE_COUNT
    &&& rows.len() == TABLE_COUNT
    &&& forall|l: int|
        0 <= l < TABLE_COUNT ==> rows_fit(table_at(l), #[trigger] rows[l]) && tables[l]@
            == vstd::utf8::encode_utf8(table_csv_text(table_header(table_at(l)), rows[l]))
}

/// Reads the bytes of all tables, in export order; the first table that does
/// not read decides the error.
pub fn parse_all_csv(bytes: &AllCsvBytes) -> (r: Result<ParsedCsvData>)
    requires
        bytes.wf(),
    ensures
        r is Ok <==> forall|l: int| 0 <= l < TABLE_COUNT ==> #[trigger] table_rows(bytes.tables@[l]@, table_at(l)) is Some,
        r matches Ok(p) ==> p.wf() && forall|l: int|
            0 <= l < TABLE_COUNT ==> #[trigger] table_rows(bytes.tables@[l]@, table_at(l)) == Some(
                texts(p.tables@[l]@),
            ),
        r matches Err(e) ==> exists|l: int|
            0 <= l < TABLE_COUNT && (forall|k: int| 0 <= k < l ==> #[trigger] table_rows(bytes.tables@[k]@, table_at(k)) is Some)
                && table_rows(bytes.tables@[l]@, table_at(l)) is None && (e matches WorldflowError::Csv(m)
                && (csv_parse(bytes.tables@[l]@) matches Some(p) ==> select_error(
                p.0,
                table_header(table_at(l)),
                m@,
            ))),
        forall|rows: Seq<Seq<Seq<Seq<char>>>>|
            #[trigger] bundle_written(bytes.tables@, rows) ==> (r is Ok && forall|l: int|
                0 <= l < TABLE_COUNT ==> #[trigger] texts(r->Ok_0.tables@[l]@) == rows[l]),
{
    let mut tables: Vec<Vec<Vec<String>>> = Vec::new();
    let mut l: usize = 0;
    while l < TABLE_COUNT
        invariant
            0 <= l <= TABLE_COUNT,
            bytes.wf(),
            tables@.len() == l,
            forall|k: int| 0 <= k < l ==> #[trigger] table_rows(bytes.tables@[k]@, table_at(k)) == Some(
                texts(tables@[k]@),
            ),
            forall|k: int| 0 <= k < l ==> rows_fit(table_at(k), #[trigger] texts(tables@[k]@)),
            forall|rows: Seq<Seq<Seq<Seq<char>>>>|
                #[trigger] bundle_written(bytes.tables@, rows) ==> forall|k: int|
                    0 <= k < l ==> #[trigger] texts(tables@[k]@) == rows[k],
        decreases TABLE_COUNT - l,
    {
        let t = table_at_index(l);
        match parse_table(bytes.tables[l].as_slice(), t) {
            Ok(rows) => {
                proof {
                    lemma_table_rows_fit(bytes.tables@[l as int]@, t);
                }
                let ghost before = tables@;
                tables.push(rows);
                assert forall|k: int| 0 <= k < l + 1 implies #[trigger] table_rows(bytes.tables@[k]@, table_at(k)) == Some(
                    texts(tables@[k]@)) by {
                    if k < l {
                        assert(tables@[k] == before[k]);
                    }
                }
                assert forall|k: int| 0 <= k < l + 1 implies rows_fit(table_at(k), #[trigger] texts(tables@[k]@)) by {
                    if k < l {
                        assert(tables@[k] == before[k]);
                    }
                }
                assert forall|rows: Seq<Seq<Seq<Seq<char>>>>|
                    #[trigger] bundle_written(bytes.tables@, rows) implies forall|k: int|
                        0 <= k < l + 1 ==> #[trigger] texts(tables@[k]@) == rows[k] by {
                    assert forall|k: int| 0 <= k < l + 1 implies #[trigger] texts(tables@[k]@) == rows[k] by {
                        if k < l {
                            assert(tables@[k] == before[k]);
                        } else {
                            assert(rows_fit(table_at(l as int), rows[l as int]));
                        }
                    }
                }
            },
            Err(e) => {
                proof {
                    assert forall|rows: Seq<Seq<Seq<Seq<char>>>>|
                        #[trigger] bundle_written(bytes.tables@, rows) implies false by {
                        assert(rows_fit(table_at(l as int), rows[l as int]));
                    }
                }
                return Err(e);
            },
        }
        l = l + 1;
    }
    Ok(ParsedCsvData { tables })
}

/// The rows that `table_rows` gives have one field per column.
proof fn lemma_table_rows_fit(bytes: Seq<u8>, t: WorldflowCsvTable)
    requires
        table_rows(bytes, t) is Some,
    ensures
        rows_fit(t, table_rows(bytes, t)->Some_0),
{
}

/// The rows that the import reads for the table at position `l`: as parsed,
/// but categories put parents first.
pub open spec fn import_input(p: ParsedCsvData, l: int) -> Seq<Seq<Seq<char>>> {
    if l == 1 {
        ordered_category_fields(p.tables@[1]@).map_values(|f: Seq<String>| strs(f))
    } else {
        texts(p.tables@[l]@)
    }
}

/// Reads every table as typed rows, in export order, categories parents
/// first; the first row that does not read, in that order, decides the
/// error.
pub fn decode_all(parsed: &ParsedCsvData) -> (r: Result<DecodedCsvData>)
    requires
        parsed.wf(),
    ensures
        r is Ok <==> forall|l: int|
            0 <= l < TABLE_COUNT ==> table_decodes(table_at(l), #[trigger] import_input(*parsed, l)),
        r matches Ok(d) ==> d.tables@.len() == TABLE_COUNT && forall|l: int|
            0 <= l < TABLE_COUNT ==> decoded_as(
                table_at(l),
                #[trigger] import_input(*parsed, l),
                cell_texts(d.tables@[l]@),
            ),
        r matches Err(e) ==> exists|l: int|
            0 <= l < TABLE_COUNT && (forall|k: int|
                0 <= k < l ==> table_decodes(table_at(k), #[trigger] import_input(*parsed, k)))
                && table_refusal(table_at(l), import_input(*parsed, l), e),
{
    let mut out: Vec<Vec<Vec<Cell>>> = Vec::new();
    let mut l: usize = 0;
    while l < TABLE_COUNT
        invariant
            0 <= l <= TABLE_COUNT,
            parsed.wf(),
            out@.len() == l,
            forall|k: int| 0 <= k < l ==> table_decodes(table_at(k), #[trigger] import_input(*parsed, k)),
            forall|k: int|
                0 <= k < l ==> decoded_as(table_at(k), #[trigger] import_input(*parsed, k), cell_texts(out@[k]@)),
        decreases TABLE_COUNT - l,
    {
        let t = table_at_index(l);
        assert(rows_fit(table_at(l as int), texts(parsed.tables@[l as int]@)));
        let res = if l == 1 {
            assert forall|i: int| 0 <= i < parsed.tables@[1]@.len() implies (#[trigger] parsed.tables@[1]@[i])@.len() == 7 by {
                assert(texts(parsed.tables@[1]@)[i] == strs(parsed.tables@[1]@[i]@));
                assert(texts(parsed.tables@[1]@)[i].len() == table_header(t).len());
            }
            let rows = order_category_rows(&parsed.tables[l]);
            proof {
                let a = texts(rows@);
                let b = import_input(*parsed, 1);
                assert(a.len() == b.len());
                assert forall|i: int| 0 <= i < a.len() implies a[i] == b[i] by {
                    assert(rows@[i]@ == ordered_category_fields(parsed.tables@[1]@)[i]);
                }
                assert(a =~= b);
                assert forall|i: int| 0 <= i < a.len() implies (#[trigger] a[i]).len() == table_header(t).len() by {
                    assert(rows@[i]@ == ordered_category_fields(parsed.tables@[1]@)[i]);
                }
            }
            decode_table(&rows, t)
        } else {
            decode_table(&parsed.tables[l], t)
        };
        match res {
            Ok(cells) => {
                let ghost before = out@;
                out.push(cells);
                assert forall|k: int| 0 <= k < l + 1 implies decoded_as(table_at(k), #[trigger] import_input(*parsed, k), cell_texts(out@[k]@)) by {
                    if k < l {
                        assert(out@[k] == before[k]);
                    }
                }
            },
            Err(e) => {
                proof {
                    let inp = import_input(*parsed, l as int);
                    assert(table_refusal(t, inp, e));
                    assert(!table_decodes(t, inp));
                }
                return Err(e);
            },
        }
        l = l + 1;
    }
    Ok(DecodedCsvData { tables: out })
}

} // verus!
