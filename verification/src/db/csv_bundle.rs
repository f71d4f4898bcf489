//! CSV bundles: the eight tables of a world written as CSV text, and the
//! checks and conversions that import such a bundle again.
use vstd::prelude::*;

use crate::error::{Result, WorldflowError};
use crate::ids::Id;

verus! {

broadcast use vstd::string::group_string_axioms;

/// The tables that a bundle holds.
#[derive(Debug, Clone, Copy, PartialEq, Eq, Structural, Hash)]
pub enum WorldflowCsvTable {
    Projects,
    Categories,
    TagSchemas,
    EntryTypes,
    Entries,
    EntryRelations,
    EntryLinks,
    IdeaNotes,
}

/// Number of tables in a bundle.
pub const TABLE_COUNT: usize = 8;

/// Position of a table in the fixed export order.
pub open spec fn table_index(t: WorldflowCsvTable) -> int {
    match t {
        WorldflowCsvTable::Projects => 0,
        WorldflowCsvTable::Categories => 1,
        WorldflowCsvTable::TagSchemas => 2,
        WorldflowCsvTable::EntryTypes => 3,
        WorldflowCsvTable::Entries => 4,
        WorldflowCsvTable::EntryRelations => 5,
        WorldflowCsvTable::EntryLinks => 6,
        WorldflowCsvTable::IdeaNotes => 7,
    }
}

/// The table at a position of the export order.
pub open spec fn table_at(i: int) -> WorldflowCsvTable {
    if i == 0 {
        WorldflowCsvTable::Projects
    } else if i == 1 {
        WorldflowCsvTable::Categories
    } else if i == 2 {
        WorldflowCsvTable::TagSchemas
    } else if i == 3 {
        WorldflowCsvTable::EntryTypes
    } else if i == 4 {
        WorldflowCsvTable::Entries
    } else if i == 5 {
        WorldflowCsvTable::EntryRelations
    } else if i == 6 {
        WorldflowCsvTable::EntryLinks
    } else {
        WorldflowCsvTable::IdeaNotes
    }
}

/// The file name of a table.
pub open spec fn table_file_name(t: WorldflowCsvTable) -> Seq<char> {
    match t {
        WorldflowCsvTable::Projects => "projects.csv"@,
        WorldflowCsvTable::Categories => "categories.csv"@,
        WorldflowCsvTable::TagSchemas => "tag_schemas.csv"@,
        WorldflowCsvTable::EntryTypes => "entry_types.csv"@,
        WorldflowCsvTable::Entries => "entries.csv"@,
        WorldflowCsvTable::EntryRelations => "entry_relations.csv"@,
        WorldflowCsvTable::EntryLinks => "entry_links.csv"@,
        WorldflowCsvTable::IdeaNotes => "idea_notes.csv"@,
    }
}

/// Position and table agree both ways, and every table has one position.
pub proof fn lemma_table_order_bijective()
    ensures
        forall|t: WorldflowCsvTable|
            0 <= #[trigger] table_index(t) < TABLE_COUNT && table_at(table_index(t)) == t,
        forall|i: int| 0 <= i < TABLE_COUNT ==> #[trigger] table_index(table_at(i)) == i,
{
}

impl WorldflowCsvTable {
    /// The tables in export order: projects, categories, tag schemas, entry
    /// types, entries, relations, links, idea notes. Parents come before the
    /// rows that refer to them.
    pub fn ordered() -> (r: Vec<WorldflowCsvTable>)
        ensures
            r@.len() == TABLE_COUNT,
            forall|i: int| 0 <= i < TABLE_COUNT ==> #[trigger] r@[i] == table_at(i),
    {
        let mut v: Vec<WorldflowCsvTable> = Vec::new();
        v.push(WorldflowCsvTable::Projects);
        v.push(WorldflowCsvTable::Categories);
        v.push(WorldflowCsvTable::TagSchemas);
        v.push(WorldflowCsvTable::EntryTypes);
        v.push(WorldflowCsvTable::Entries);
        v.push(WorldflowCsvTable::EntryRelations);
        v.push(WorldflowCsvTable::EntryLinks);
        v.push(WorldflowCsvTable::IdeaNotes);
        v
    }

    /// The file name of the table.
    pub fn file_name(self) -> (r: &'static str)
        ensures
            r@ == table_file_name(self),
    {
        match self {
            WorldflowCsvTable::Projects => "projects.csv",
            WorldflowCsvTable::Categories => "categories.csv",
            WorldflowCsvTable::TagSchemas => "tag_schemas.csv",
            WorldflowCsvTable::EntryTypes => "entry_types.csv",
            WorldflowCsvTable::Entries => "entries.csv",
            WorldflowCsvTable::EntryRelations => "entry_relations.csv",
            WorldflowCsvTable::EntryLinks => "entry_links.csv",
            WorldflowCsvTable::IdeaNotes => "idea_notes.csv",
        }
    }

    /// Position of the table in export order.
    pub fn index(self) -> (r: usize)
        ensures
            r == table_index(self),
    {
        match self {
            WorldflowCsvTable::Projects => 0,
            WorldflowCsvTable::Categories => 1,
            WorldflowCsvTable::TagSchemas => 2,
            WorldflowCsvTable::EntryTypes => 3,
            WorldflowCsvTable::Entries => 4,
            WorldflowCsvTable::EntryRelations => 5,
            WorldflowCsvTable::EntryLinks => 6,
            WorldflowCsvTable::IdeaNotes => 7,
        }
    }
}

/// How an import treats the rows already there.
#[derive(Debug, Clone, Copy, PartialEq, Eq, Structural)]
pub enum CsvImportMode {
    /// Empty the eight tables first.
    Replace,
    /// Keep existing rows; insert only rows whose id is not there yet.
    Merge,
}

/// Rows inserted per table by an import.
#[derive(Debug, Clone, Copy, Default, PartialEq, Eq)]
pub struct CsvImportResult {
    pub projects: usize,
    pub categories: usize,
    pub entries: usize,
    pub tag_schemas: usize,
    pub relations: usize,
    pub links: usize,
    pub entry_types: usize,
    pub idea_notes: usize,
}

/// One exported table.
#[derive(Debug, Clone)]
pub struct CsvExportItem {
    pub table: WorldflowCsvTable,
    pub file_name: String,
    pub row_count: usize,
    pub content: String,
    pub sha256: String,
}

/// Which rows an export covers.
#[derive(Debug, Clone, Copy, PartialEq, Eq)]
pub enum CsvExportScope {
    /// Every project.
    All,
    /// One project and what belongs to it.
    Project { project_id: Id },
}

impl CsvExportScope {
    /// The project the export is limited to, if any.
    pub fn project_id(&self) -> (r: Option<Id>)
        ensures
            r == (match *self {
                CsvExportScope::All => None,
                CsvExportScope::Project { project_id } => Some(project_id),
            }),
    {
        match self {
            CsvExportScope::All => None,
            CsvExportScope::Project { project_id } => Some(*project_id),
        }
    }
}

/// The export of one project: its id, the schema version, one item per
/// table in export order.
#[derive(Debug, Clone)]
pub struct ProjectCsvExport {
    pub project_id: Id,
    pub schema_version: u32,
    pub items: Vec<CsvExportItem>,
}

/// One table to import.
#[derive(Debug, Clone)]
pub struct CsvImportItem {
    pub table: WorldflowCsvTable,
    pub file_name: String,
    pub content: String,
}

impl CsvImportItem {
    /// The import item for an exported table: same table, file name and content.
    pub fn from_export(item: CsvExportItem) -> (r: Self)
        ensures
            r.table == item.table,
            r.file_name == item.file_name,
            r.content == item.content,
    {
        CsvImportItem { table: item.table, file_name: item.file_name, content: item.content }
    }
}

/// The tables to import.
#[derive(Debug, Clone)]
pub struct CsvImportBundle {
    pub items: Vec<CsvImportItem>,
}

impl CsvImportBundle {
    /// The bundle that imports what an export produced, item for item.
    pub fn from_export_items(items: Vec<CsvExportItem>) -> (r: Self)
        ensures
            r.items@.len() == items@.len(),
            forall|i: int|
                0 <= i < items@.len() ==> (#[trigger] r.items@[i]).table == items@[i].table
                    && r.items@[i].file_name == items@[i].file_name && r.items@[i].content
                    == items@[i].content,
    {
        let mut out: Vec<CsvImportItem> = Vec::new();
        for item in it: items
            invariant
                out@.len() == it.history().len(),
                forall|i: int|
                    0 <= i < out@.len() ==> (#[trigger] out@[i]).table == it.history()[i].table
                        && out@[i].file_name == it.history()[i].file_name && out@[i].content
                        == it.history()[i].content,
        {
            out.push(CsvImportItem::from_export(item));
        }
        CsvImportBundle { items: out }
    }
}

// ─────────────────────────────── category order ───────────────────────────────

/// A category as it stands in `categories.csv`: every field as text, the
/// parent as the empty text for a root.
#[derive(Debug, Clone)]
pub struct CategoryRow {
    pub id: String,
    pub project_id: String,
    pub parent_id: String,
    pub name: String,
    pub sort_order: String,
    pub created_at: String,
    pub updated_at: String,
}

impl CategoryRow {
    /// A copy of the row.
    pub fn clone_row(&self) -> (r: Self)
        ensures
            r == *self,
    {
        CategoryRow {
            id: self.id.clone(),
            project_id: self.project_id.clone(),
            parent_id: self.parent_id.clone(),
            name: self.name.clone(),
            sort_order: self.sort_order.clone(),
            created_at: self.created_at.clone(),
            updated_at: self.updated_at.clone(),
        }
    }
}

/// Whether a row can be inserted after `placed`: it is a root, or its parent
/// is among the placed rows.
pub open spec fn parent_placed(r: CategoryRow, placed: Seq<CategoryRow>) -> bool {
    r.parent_id@.len() == 0 || exists|k: int| 0 <= k < placed.len() && #[trigger] placed[k].id@ == r.parent_id@
}

/// The rows of `rows` that can be placed after `placed`, in order.
pub open spec fn keep_ready(rows: Seq<CategoryRow>, placed: Seq<CategoryRow>) -> Seq<CategoryRow>
    decreases rows.len(),
{
    if rows.len() == 0 {
        Seq::empty()
    } else if parent_placed(rows.last(), placed) {
        keep_ready(rows.drop_last(), placed).push(rows.last())
    } else {
        keep_ready(rows.drop_last(), placed)
    }
}

/// The rows of `rows` that cannot be placed after `placed` yet, in order.
pub open spec fn keep_waiting(rows: Seq<CategoryRow>, placed: Seq<CategoryRow>) -> Seq<CategoryRow>
    decreases rows.len(),
{
    if rows.len() == 0 {
        Seq::empty()
    } else if parent_placed(rows.last(), placed) {
        keep_waiting(rows.drop_last(), placed)
    } else {
        keep_waiting(rows.drop_last(), placed).push(rows.last())
    }
}

/// One pass splits the rows into those whose parent is already placed and
/// those still waiting; together they are the rows, each exactly once.
pub proof fn lemma_partition(rows: Seq<CategoryRow>, placed: Seq<CategoryRow>)
    ensures
        keep_ready(rows, placed).len() + keep_waiting(rows, placed).len() == rows.len(),
        (keep_ready(rows, placed) + keep_waiting(rows, placed)).to_multiset() =~= rows.to_multiset(),
        forall|i: int|
            0 <= i < keep_ready(rows, placed).len() ==> parent_placed(
                #[trigger] keep_ready(rows, placed)[i],
                placed,
            ),
        forall|i: int|
            0 <= i < keep_waiting(rows, placed).len() ==> !parent_placed(
                #[trigger] keep_waiting(rows, placed)[i],
                placed,
            ),
    decreases rows.len(),
{
    broadcast use vstd::seq_lib::group_to_multiset_ensures;

    if rows.len() > 0 {
        let d = rows.drop_last();
        let x = rows.last();
        lemma_partition(d, placed);
        let a = keep_ready(d, placed);
        let b = keep_waiting(d, placed);
        vstd::seq_lib::lemma_multiset_commutative(a, b);
        assert(d.push(x) =~= rows);
        if parent_placed(x, placed) {
            vstd::seq_lib::lemma_multiset_commutative(a.push(x), b);
            assert((a.push(x)).to_multiset() =~= a.to_multiset().insert(x));
        } else {
            vstd::seq_lib::lemma_multiset_commutative(a, b.push(x));
            assert((b.push(x)).to_multiset() =~= b.to_multiset().insert(x));
        }
    }
}

/// The order in which categories are inserted: in rounds, every row whose
/// parent is already placed (or that is a root) goes next, in input order;
/// when a round places nothing, the rows left go last, in input order.
pub open spec fn topo_order(sorted: Seq<CategoryRow>, remaining: Seq<CategoryRow>) -> Seq<
    CategoryRow,
>
    decreases remaining.len(),
{
    if remaining.len() == 0 {
        sorted
    } else {
        let can = keep_ready(remaining, sorted);
        let rest = keep_waiting(remaining, sorted);
        proof {
            lemma_partition(remaining, sorted);
        }
        if can.len() == 0 {
            sorted + rest
        } else {
            topo_order(sorted + can, rest)
        }
    }
}

fn parent_is_placed(r: &CategoryRow, placed: &Vec<CategoryRow>) -> (b: bool)
    ensures
        b == parent_placed(*r, placed@),
{
    if r.parent_id.as_str().is_empty() {
        return true;
    }
    let mut k: usize = 0;
    while k < placed.len()
        invariant
            0 <= k <= placed@.len(),
            forall|j: int| 0 <= j < k ==> placed@[j].id@ != r.parent_id@,
        decreases placed@.len() - k,
    {
        if placed[k].id == r.parent_id {
            return true;
        }
        k = k + 1;
    }
    false
}

/// Orders category rows so that each parent comes before its children,
/// keeping input order within each round; rows whose parent never gets
/// placed (missing or cyclic parents) come last instead of being dropped.
pub fn sort_categories_topological(rows: Vec<CategoryRow>) -> (r: Vec<CategoryRow>)
    ensures
        r@ == topo_order(Seq::empty(), rows@),
{
    let mut sorted: Vec<CategoryRow> = Vec::new();
    let mut remaining = rows;
    while remaining.len() > 0
        invariant
            topo_order(sorted@, remaining@) == topo_order(Seq::empty(), rows@),
        decreases remaining@.len(),
    {
        let mut can: Vec<CategoryRow> = Vec::new();
        let mut rest: Vec<CategoryRow> = Vec::new();
        let ghost before = remaining@;
        let mut i: usize = 0;
        while i < remaining.len()
            invariant
                0 <= i <= remaining@.len(),
                remaining@ == before,
                can@ == keep_ready(before.subrange(0, i as int), sorted@),
                rest@ == keep_waiting(before.subrange(0, i as int), sorted@),
            decreases remaining@.len() - i,
        {
            let r = remaining[i].clone_row();
            assert(before.subrange(0, i + 1).drop_last() =~= before.subrange(0, i as int));
            if parent_is_placed(&r, &sorted) {
                can.push(r);
            } else {
                rest.push(r);
            }
            i = i + 1;
        }
        assert(before.subrange(0, before.len() as int) =~= before);
        proof {
            lemma_partition(before, sorted@);
        }
        if can.len() == 0 {
            sorted.append(&mut rest);
            remaining = Vec::new();
        } else {
            sorted.append(&mut can);
            remaining = rest;
        }
    }
    sorted
}

/// Whether every row of `s` comes after its parent (roots need none).
pub open spec fn parents_first(s: Seq<CategoryRow>) -> bool {
    forall|i: int| 0 <= i < s.len() ==> parent_placed(#[trigger] s[i], s.subrange(0, i))
}

proof fn lemma_topo_order_shape(sorted: Seq<CategoryRow>, remaining: Seq<CategoryRow>) -> (b: int)
    requires
        parents_first(sorted),
    ensures
        sorted.len() <= b <= topo_order(sorted, remaining).len(),
        topo_order(sorted, remaining).subrange(0, sorted.len() as int) == sorted,
        parents_first(topo_order(sorted, remaining).subrange(0, b)),
        forall|i: int|
            b <= i < topo_order(sorted, remaining).len() ==> !parent_placed(
                #[trigger] topo_order(sorted, remaining)[i],
                topo_order(sorted, remaining).subrange(0, b),
            ),
        topo_order(sorted, remaining).to_multiset() =~= (sorted + remaining).to_multiset(),
    decreases remaining.len(),
{
    broadcast use vstd::seq_lib::group_to_multiset_ensures;

    let result = topo_order(sorted, remaining);
    if remaining.len() == 0 {
        assert(result.subrange(0, sorted.len() as int) =~= sorted);
        assert(sorted + remaining =~= sorted);
        sorted.len() as int
    } else {
        lemma_partition(remaining, sorted);
        let can = keep_ready(remaining, sorted);
        let rest = keep_waiting(remaining, sorted);
        vstd::seq_lib::lemma_multiset_commutative(sorted, remaining);
        vstd::seq_lib::lemma_multiset_commutative(can, rest);
        if can.len() == 0 {
            assert(result == sorted + rest);
            assert(result.subrange(0, sorted.len() as int) =~= sorted);
            assert forall|i: int| sorted.len() <= i < result.len() implies !parent_placed(
                #[trigger] result[i],
                result.subrange(0, sorted.len() as int),
            ) by {
                assert(result[i] == rest[i - sorted.len()]);
            }
            vstd::seq_lib::lemma_multiset_commutative(sorted, rest);
            assert(can + rest =~= rest);
            sorted.len() as int
        } else {
            let next = sorted + can;
            assert(parents_first(next)) by {
                assert forall|i: int| 0 <= i < next.len() implies parent_placed(
                    #[trigger] next[i],
                    next.subrange(0, i),
                ) by {
                    if i < sorted.len() {
                        assert(next.subrange(0, i) =~= sorted.subrange(0, i));
                        assert(next[i] == sorted[i]);
                    } else {
                        let c = can[i - sorted.len()];
                        assert(next[i] == c);
                        assert(parent_placed(c, sorted));
                        if c.parent_id@.len() != 0 {
                            let k = choose|k: int|
                                0 <= k < sorted.len() && #[trigger] sorted[k].id@ == c.parent_id@;
                            assert(next.subrange(0, i)[k] == sorted[k]);
                        }
                    }
                }
            }
            let b = lemma_topo_order_shape(next, rest);
            assert(result == topo_order(next, rest));
            assert(result.subrange(0, next.len() as int) == next);
            assert(result.subrange(0, sorted.len() as int) =~= next.subrange(
                0,
                sorted.len() as int,
            ));
            assert(next.subrange(0, sorted.len() as int) =~= sorted);
            vstd::seq_lib::lemma_multiset_commutative(sorted, can);
            vstd::seq_lib::lemma_multiset_commutative(next, rest);
            assert((sorted + can) + rest =~= sorted + (can + rest));
            vstd::seq_lib::lemma_multiset_commutative(sorted, can + rest);
            b
        }
    }
}

/// The category order keeps every row exactly once, and splits into a
/// prefix in which every row follows its parent and a tail of rows whose
/// parents do not occur in that prefix (missing or cyclic parents).
pub proof fn lemma_category_order(rows: Seq<CategoryRow>)
    ensures
        topo_order(Seq::empty(), rows).to_multiset() =~= rows.to_multiset(),
        exists|b: int|
            0 <= b <= rows.len() && parents_first(topo_order(Seq::empty(), rows).subrange(0, b))
                && forall|i: int|
                b <= i < rows.len() ==> !parent_placed(
                    #[trigger] topo_order(Seq::empty(), rows)[i],
                    topo_order(Seq::empty(), rows).subrange(0, b),
                ),
{
    broadcast use vstd::seq_lib::group_to_multiset_ensures;

    let e = Seq::<CategoryRow>::empty();
    assert(parents_first(e));
    let b = lemma_topo_order_shape(e, rows);
    assert(e + rows =~= rows);
    vstd::seq_lib::to_multiset_len(topo_order(e, rows));
    vstd::seq_lib::to_multiset_len(rows);
    assert(topo_order(e, rows).len() == rows.len());
}

// ─────────────────────────────── bundle checks ───────────────────────────────

/// The debug name of a table, as error messages show it.
pub open spec fn table_debug_name(t: WorldflowCsvTable) -> Seq<char> {
    match t {
        WorldflowCsvTable::Projects => "Projects"@,
        WorldflowCsvTable::Categories => "Categories"@,
        WorldflowCsvTable::TagSchemas => "TagSchemas"@,
        WorldflowCsvTable::EntryTypes => "EntryTypes"@,
        WorldflowCsvTable::Entries => "Entries"@,
        WorldflowCsvTable::EntryRelations => "EntryRelations"@,
        WorldflowCsvTable::EntryLinks => "EntryLinks"@,
        WorldflowCsvTable::IdeaNotes => "IdeaNotes"@,
    }
}

impl WorldflowCsvTable {
    /// The debug name of the table.
    pub fn debug_name(self) -> (r: &'static str)
        ensures
            r@ == table_debug_name(self),
    {
        match self {
            WorldflowCsvTable::Projects => "Projects",
            WorldflowCsvTable::Categories => "Categories",
            WorldflowCsvTable::TagSchemas => "TagSchemas",
            WorldflowCsvTable::EntryTypes => "EntryTypes",
            WorldflowCsvTable::Entries => "Entries",
            WorldflowCsvTable::EntryRelations => "EntryRelations",
            WorldflowCsvTable::EntryLinks => "EntryLinks",
            WorldflowCsvTable::IdeaNotes => "IdeaNotes",
        }
    }
}

/// The raw bytes of the eight tables, indexed by export position.
#[derive(Debug, Clone)]
pub struct AllCsvBytes {
    pub tables: Vec<Vec<u8>>,
}

impl AllCsvBytes {
    /// Whether it holds one byte string per table.
    pub open spec fn wf(&self) -> bool {
        self.tables@.len() == TABLE_COUNT
    }

    /// The bytes of a table.
    pub open spec fn bytes_of(&self, t: WorldflowCsvTable) -> Seq<u8> {
        self.tables@[table_index(t)]@
    }

    /// The bytes of a table.
    pub fn get(&self, t: WorldflowCsvTable) -> (r: &Vec<u8>)
        requires
            self.wf(),
        ensures
            r@ == self.bytes_of(t),
    {
        &self.tables[t.index()]
    }
}

/// Whether the item at `i` repeats the table of an earlier item.
pub open spec fn repeats_earlier(items: Seq<CsvImportItem>, i: int) -> bool {
    exists|j: int| 0 <= j < i && #[trigger] items[j].table == items[i].table
}

/// Whether some item has table `t`.
pub open spec fn has_table(items: Seq<CsvImportItem>, t: WorldflowCsvTable) -> bool {
    exists|j: int| 0 <= j < items.len() && #[trigger] items[j].table == t
}

/// What turning a bundle into table bytes gives: the first item that
/// repeats a table is refused; otherwise the first table, in export order,
/// that no item has is refused; otherwise each table gets the UTF-8 bytes
/// of the content of the item that has it.
pub open spec fn bundle_bytes_ok(items: Seq<CsvImportItem>, r: AllCsvBytes) -> bool {
    &&& r.wf()
    &&& forall|l: int|
        #![trigger r.tables@[l]]
        0 <= l < TABLE_COUNT ==> exists|j: int|
            0 <= j < items.len() && #[trigger] items[j].table == table_at(l) && r.tables@[l]@
                == vstd::utf8::encode_utf8(items[j].content@)
}

fn utf8_bytes(s: &String) -> (r: Vec<u8>)
    ensures
        r@ == vstd::utf8::encode_utf8(s@),
{
    vstd::slice::slice_to_vec(s.as_str().as_bytes())
}

fn table_error(prefix: &str, t: WorldflowCsvTable) -> (r: WorldflowError)
    ensures
        r matches WorldflowError::InvalidInput(m) && m@ == prefix@ + table_debug_name(t),
{
    let mut m = String::from_str(prefix);
    crate::text::push_str(&mut m, t.debug_name());
    WorldflowError::InvalidInput(m)
}

/// The table at a position of the export order.
pub fn table_at_index(k: usize) -> (r: WorldflowCsvTable)
    requires
        k < TABLE_COUNT,
    ensures
        r == table_at(k as int),
{
    match k {
        0 => WorldflowCsvTable::Projects,
        1 => WorldflowCsvTable::Categories,
        2 => WorldflowCsvTable::TagSchemas,
        3 => WorldflowCsvTable::EntryTypes,
        4 => WorldflowCsvTable::Entries,
        5 => WorldflowCsvTable::EntryRelations,
        6 => WorldflowCsvTable::EntryLinks,
        _ => WorldflowCsvTable::IdeaNotes,
    }
}

/// Where each table occurs among the items, by export position; or the
/// index of the first item that repeats the table of an earlier item.
fn table_positions(items: &Vec<CsvImportItem>) -> (r: core::result::Result<Vec<Option<usize>>, usize>)
    ensures
        r matches Err(i) ==> i < items@.len() && repeats_earlier(items@, i as int) && forall|k: int|
            0 <= k < i ==> !repeats_earlier(items@, k),
        r matches Ok(seen) ==> {
            &&& seen@.len() == TABLE_COUNT
            &&& forall|k: int| 0 <= k < items@.len() ==> !repeats_earlier(items@, k)
            &&& forall|l: int|
                0 <= l < TABLE_COUNT ==> (#[trigger] seen@[l] is Some <==> has_table(items@, table_at(l)))
            &&& forall|l: int|
                0 <= l < TABLE_COUNT && #[trigger] seen@[l] is Some ==> seen@[l]->0 < items@.len()
                    && items@[seen@[l]->0 as int].table == table_at(l)
        },
{
    let n = items.len();
    let mut seen: Vec<Option<usize>> = Vec::new();
    let mut t: usize = 0;
    while t < TABLE_COUNT
        invariant
            0 <= t <= TABLE_COUNT,
            seen@.len() == t,
            forall|k: int| 0 <= k < t ==> seen@[k] is None,
        decreases TABLE_COUNT - t,
    {
        seen.push(None);
        t = t + 1;
    }
    let mut i: usize = 0;
    while i < n
        invariant
            0 <= i <= n == items@.len(),
            seen@.len() == TABLE_COUNT,
            forall|k: int| 0 <= k < i ==> !repeats_earlier(items@, k),
            forall|k: int|
                0 <= k < TABLE_COUNT && #[trigger] seen@[k] is Some ==> seen@[k]->0 < i
                    && table_index(items@[seen@[k]->0 as int].table) == k,
            forall|j: int|
                0 <= j < i ==> #[trigger] seen@[table_index(items@[j].table)] is Some,
        decreases n - i,
    {
        let tbl = items[i].table;
        let idx = tbl.index();
        match seen[idx] {
            Some(j) => {
                assert(items@[j as int].table == items@[i as int].table);
                return Err(i);
            },
            None => {},
        }
        assert(!repeats_earlier(items@, i as int)) by {
            if repeats_earlier(items@, i as int) {
                let j = choose|j: int| 0 <= j < i && #[trigger] items@[j].table == items@[i as int].table;
                assert(seen@[table_index(items@[j].table)] is Some);
            }
        }
        seen.set(idx, Some(i));
        i = i + 1;
    }
    assert forall|k: int| 0 <= k < TABLE_COUNT implies (#[trigger] seen@[k] is Some <==> has_table(
        items@,
        table_at(k),
    )) by {
        if has_table(items@, table_at(k)) {
            let j = choose|j: int| 0 <= j < items@.len() && #[trigger] items@[j].table == table_at(k);
            assert(seen@[table_index(items@[j].table)] is Some);
        }
    }
    Ok(seen)
}

/// Checks that a bundle has each of the eight tables exactly once and
/// returns their bytes.
pub fn all_csv_bytes_from_bundle(bundle: CsvImportBundle) -> (r: Result<AllCsvBytes>)
    ensures
        r is Ok <==> ((forall|i: int| 0 <= i < bundle.items@.len() ==> !repeats_earlier(bundle.items@, i))
            && (forall|t: WorldflowCsvTable| has_table(bundle.items@, t))),
        r matches Err(e) ==> e is InvalidInput,
        (exists|i: int| 0 <= i < bundle.items@.len() && repeats_earlier(bundle.items@, i)) ==> {
            let i = choose|i: int|
                0 <= i < bundle.items@.len() && repeats_earlier(bundle.items@, i) && forall|k: int|
                    0 <= k < i ==> !repeats_earlier(bundle.items@, k);
            (r matches Err(e) && e matches WorldflowError::InvalidInput(m) && m@ == "重复的 CSV 表: "@
                + table_debug_name(bundle.items@[i].table))
        },
        (forall|i: int| 0 <= i < bundle.items@.len() ==> !repeats_earlier(bundle.items@, i)) ==> {
            &&& (forall|t: WorldflowCsvTable| has_table(bundle.items@, t)) ==> (r matches Ok(b)
                && bundle_bytes_ok(bundle.items@, b))
            &&& (exists|k: int| 0 <= k < TABLE_COUNT && !has_table(bundle.items@, table_at(k))) ==> {
                let k = choose|k: int|
                    0 <= k < TABLE_COUNT && !has_table(bundle.items@, table_at(k)) && forall|
                        l: int,
                    |
                        0 <= l < k ==> has_table(bundle.items@, table_at(l));
                (r matches Err(e) && e matches WorldflowError::InvalidInput(m) && m@
                    == "缺少 CSV 表: "@ + table_debug_name(table_at(k)))
            }
        },
{
    let items = bundle.items;
    let seen = match table_positions(&items) {
        Ok(seen) => seen,
        Err(i) => {
            proof {
                let w = choose|w: int|
                    0 <= w < items@.len() && repeats_earlier(items@, w) && forall|k: int|
                        0 <= k < w ==> !repeats_earlier(items@, k);
                if w < i {
                }
                if w > i {
                }
                assert(w == i);
            }
            return Err(table_error("重复的 CSV 表: ", items[i].table));
        },
    };
    let mut tables: Vec<Vec<u8>> = Vec::new();
    let mut k: usize = 0;
    while k < TABLE_COUNT
        invariant
            0 <= k <= TABLE_COUNT,
            items@ == bundle.items@,
            forall|i: int| 0 <= i < items@.len() ==> !repeats_earlier(items@, i),
            seen@.len() == TABLE_COUNT,
            tables@.len() == k,
            forall|l: int| 0 <= l < k ==> has_table(items@, table_at(l)),
            forall|l: int|
                0 <= l < TABLE_COUNT ==> (#[trigger] seen@[l] is Some <==> has_table(items@, table_at(l))),
            forall|l: int|
                0 <= l < TABLE_COUNT && #[trigger] seen@[l] is Some ==> seen@[l]->0 < items@.len()
                    && items@[seen@[l]->0 as int].table == table_at(l),
            forall|l: int|
                #![trigger tables@[l]]
                0 <= l < k ==> exists|j: int|
                    0 <= j < items@.len() && #[trigger] items@[j].table == table_at(l) && tables@[l]@
                        == vstd::utf8::encode_utf8(items@[j].content@),
        decreases TABLE_COUNT - k,
    {
        match seen[k] {
            Some(j) => {
                let b = utf8_bytes(&items[j].content);
                tables.push(b);
            },
            None => {
                proof {
                    let w = choose|w: int|
                        0 <= w < TABLE_COUNT && !has_table(items@, table_at(w)) && forall|l: int|
                            0 <= l < w ==> has_table(items@, table_at(l));
                    assert(!has_table(items@, table_at(k as int)));
                    if w < k {
                    }
                    if w > k {
                    }
                    assert(w == k);
                }
                return Err(table_error("缺少 CSV 表: ", table_at_index(k)));
            },
        }
        k = k + 1;
    }
    proof {
        lemma_table_order_bijective();
        assert forall|t: WorldflowCsvTable| has_table(bundle.items@, t) by {
            assert(has_table(items@, table_at(table_index(t))));
        }
    }
    let out = AllCsvBytes { tables };
    Ok(out)
}

} // verus!
