//! The queries of the PostgreSQL store, whose placeholders are numbered
//! (`$1`, `$2`, ...) in bind order, and how it reads timestamps.
use vstd::prelude::*;

use crate::db::idea_note::pg_param;
use crate::text::{chars_of, push_char, push_decimal, push_str};

verus! {

broadcast use vstd::string::group_string_axioms;

fn push_pg_param(sql: &mut String, n: u64)
    ensures
        final(sql)@ == old(sql)@ + pg_param(n as nat),
{
    push_str(sql, "$");
    push_decimal(sql, n);
    proof {
        reveal_strlit("$");
    }
}

/// The entry filter's conditions with placeholders from `$p` on: category,
/// then type; and the position of the next placeholder.
pub open spec fn pg_entry_filter(has_category: bool, has_type: bool, p: nat) -> (Seq<char>, nat) {
    let (a, p1) = if has_category {
        (" AND category_id = "@ + pg_param(p), p + 1)
    } else {
        (Seq::<char>::empty(), p)
    };
    let (b, p2) = if has_type {
        (" AND type = "@ + pg_param(p1), p1 + 1)
    } else {
        (Seq::<char>::empty(), p1)
    };
    (a + b, p2)
}

fn push_pg_entry_filter(sql: &mut String, has_category: bool, has_type: bool, p: u64) -> (next: u64)
    requires
        p < 1000,
    ensures
        final(sql)@ == old(sql)@ + pg_entry_filter(has_category, has_type, p as nat).0,
        next == pg_entry_filter(has_category, has_type, p as nat).1,
{
    let ghost start = sql@;
    let mut q = p;
    if has_category {
        push_str(sql, " AND category_id = ");
        push_pg_param(sql, q);
        q = q + 1;
    }
    if has_type {
        push_str(sql, " AND type = ");
        push_pg_param(sql, q);
        q = q + 1;
    }
    assert(sql@ =~= start + pg_entry_filter(has_category, has_type, p as nat).0);
    q
}

/// The PostgreSQL query counting a project's entries (`$1` is the project).
pub fn pg_count_entries_sql(has_category: bool, has_type: bool) -> (r: String)
    ensures
        r@ == "SELECT COUNT(*) as cnt FROM entries WHERE project_id = $1"@ + pg_entry_filter(
            has_category,
            has_type,
            2,
        ).0,
{
    let mut sql = String::from_str("SELECT COUNT(*) as cnt FROM entries WHERE project_id = $1");
    push_pg_entry_filter(&mut sql, has_category, has_type, 2);
    sql
}

/// The PostgreSQL query listing a project's entries, newest first, limit
/// and offset bound last.
pub fn pg_list_entries_sql(has_category: bool, has_type: bool) -> (r: String)
    ensures
        r@ == "SELECT id, project_id, category_id, title, summary, type, cover_path, updated_at::TEXT
                       FROM entries WHERE project_id = $1"@ + pg_entry_filter(has_category, has_type, 2).0
            + " ORDER BY updated_at DESC LIMIT "@ + pg_param(pg_entry_filter(has_category, has_type, 2).1)
            + " OFFSET "@ + pg_param(pg_entry_filter(has_category, has_type, 2).1 + 1),
{
    let mut sql = String::from_str(
        "SELECT id, project_id, category_id, title, summary, type, cover_path, updated_at::TEXT
                       FROM entries WHERE project_id = $1",
    );
    let p = push_pg_entry_filter(&mut sql, has_category, has_type, 2);
    push_str(&mut sql, " ORDER BY updated_at DESC LIMIT ");
    push_pg_param(&mut sql, p);
    push_str(&mut sql, " OFFSET ");
    push_pg_param(&mut sql, p + 1);
    sql
}

/// A PostgreSQL full-text search: the query, the number of candidates the
/// inner match keeps, and the result limit (both bound as `i64`).
#[derive(Debug, Clone, PartialEq, Eq)]
pub struct PgEntrySearchPlan {
    pub sql: String,
    pub fts_limit: i64,
    pub limit: i64,
}

/// The number of candidates the inner full-text match keeps: twenty per
/// result, at least 500 and at most 2000.
pub open spec fn pg_fts_limit(limit: int) -> int {
    let scaled = limit * 20;
    let raised = if scaled >= 500 { scaled } else { 500 };
    if raised <= 2000 { raised } else { 2000 }
}

/// Plans a PostgreSQL search: `$1` the project, `$2` the query text, `$3`
/// the candidate limit, then the filter, then the result limit. The result
/// limit is bound as an `i64`, wrapping as an `as` cast does.
pub fn pg_plan_entry_search(has_category: bool, has_type: bool, limit: usize) -> (r: PgEntrySearchPlan)
    requires
        limit * 20 <= usize::MAX,
    ensures
        r.fts_limit == pg_fts_limit(limit as int),
        r.limit == limit as i64,
        r.sql@ == "SELECT id, project_id, category_id, title, summary, type, cover_path, updated_at::TEXT
                       FROM (
                         SELECT id, project_id, category_id, title, summary, type, cover_path, updated_at
                         FROM entries
                         WHERE project_id = $1
                           AND to_tsvector('simple', coalesce(title,'') || ' ' || coalesce(summary,'') || ' ' || coalesce(content,''))
                               @@ plainto_tsquery('simple', $2)
                         LIMIT $3
                       ) _fts
                       WHERE true"@ + pg_entry_filter(has_category, has_type, 4).0 + " ORDER BY updated_at DESC LIMIT "@
            + pg_param(pg_entry_filter(has_category, has_type, 4).1),
{
    let scaled = limit * 20;
    let raised = if scaled >= 500 { scaled } else { 500 };
    let fts = if raised <= 2000 { raised } else { 2000 };
    let mut sql = String::from_str(
        "SELECT id, project_id, category_id, title, summary, type, cover_path, updated_at::TEXT
                       FROM (
                         SELECT id, project_id, category_id, title, summary, type, cover_path, updated_at
                         FROM entries
                         WHERE project_id = $1
                           AND to_tsvector('simple', coalesce(title,'') || ' ' || coalesce(summary,'') || ' ' || coalesce(content,''))
                               @@ plainto_tsquery('simple', $2)
                         LIMIT $3
                       ) _fts
                       WHERE true",
    );
    let p = push_pg_entry_filter(&mut sql, has_category, has_type, 4);
    push_str(&mut sql, " ORDER BY updated_at DESC LIMIT ");
    push_pg_param(&mut sql, p);
    PgEntrySearchPlan { sql, fts_limit: fts as i64, limit: limit as i64 }
}

/// The `SET` clauses of a custom type update, one per given field (name,
/// description, icon, color), numbered from `$2`, joined by `, `.
pub open spec fn pg_type_set_clauses(name: bool, description: bool, icon: bool, color: bool) -> (Seq<char>, nat) {
    let fields = seq![(name, "name = "@), (description, "description = "@), (icon, "icon = "@), (color, "color = "@)];
    pg_set_clauses_from(fields, 2, Seq::empty())
}

/// Joins the clauses of the given fields, numbering from `p`, after `acc`.
pub open spec fn pg_set_clauses_from(fields: Seq<(bool, Seq<char>)>, p: nat, acc: Seq<char>) -> (Seq<char>, nat)
    decreases fields.len(),
{
    if fields.len() == 0 {
        (acc, p)
    } else if fields[0].0 {
        let clause = fields[0].1 + pg_param(p);
        let joined = if acc.len() == 0 { clause } else { acc + ", "@ + clause };
        pg_set_clauses_from(fields.drop_first(), p + 1, joined)
    } else {
        pg_set_clauses_from(fields.drop_first(), p, acc)
    }
}

/// The PostgreSQL update of a custom type: `None` when no field changes
/// (the type is then read back unchanged); otherwise the `SET` clauses of
/// the given fields and the id bound after them.
pub fn pg_update_entry_type_sql(name: bool, description: bool, icon: bool, color: bool) -> (r: Option<String>)
    ensures
        r is None <==> !(name || description || icon || color),
        r matches Some(s) ==> s@ == "UPDATE entry_types SET "@ + pg_type_set_clauses(name, description, icon, color).0
            + " WHERE id = "@ + pg_param(pg_type_set_clauses(name, description, icon, color).1)
            + " RETURNING id, project_id, name, description, icon, color, created_at::TEXT, updated_at::TEXT"@,
{
    if !(name || description || icon || color) {
        return None;
    }
    let mut clauses = String::new();
    let mut p: u64 = 2;
    let ghost fields = seq![(name, "name = "@), (description, "description = "@), (icon, "icon = "@), (color, "color = "@)];
    assert(pg_type_set_clauses(name, description, icon, color) == pg_set_clauses_from(fields, 2, Seq::empty()));
    let flags: [bool; 4] = [name, description, icon, color];
    let labels: [&str; 4] = ["name = ", "description = ", "icon = ", "color = "];
    let mut i: usize = 0;
    let mut first = true;
    assert(fields.subrange(0, 4) =~= fields);
    while i < 4
        invariant
            0 <= i <= 4,
            first <==> clauses@.len() == 0,
            2 <= p <= 2 + i,
            flags@ == seq![name, description, icon, color],
            forall|k: int| 0 <= k < 4 ==> (#[trigger] labels@[k])@ == fields[k].1,
            fields.len() == 4,
            forall|k: int| 0 <= k < 4 ==> (#[trigger] fields[k]).0 == flags@[k],
            pg_set_clauses_from(fields, 2, Seq::empty()) == pg_set_clauses_from(fields.subrange(i as int, 4), p as nat, clauses@),
        decreases 4 - i,
    {
        let ghost rest = fields.subrange(i as int, 4);
        assert(rest.drop_first() =~= fields.subrange(i + 1, 4));
        assert(rest[0] == fields[i as int]);
        if flags[i] {
            let ghost old_c = clauses@;
            let ghost old_p = p;
            if !first {
                push_str(&mut clauses, ", ");
            }
            push_str(&mut clauses, labels[i]);
            push_pg_param(&mut clauses, p);
            first = false;
            p = p + 1;
            assert(clauses@ =~= (if old_c.len() == 0 {
                fields[i as int].1 + pg_param(old_p as nat)
            } else {
                old_c + ", "@ + (fields[i as int].1 + pg_param(old_p as nat))
            }));
        }
        i = i + 1;
    }
    let mut sql = String::from_str("UPDATE entry_types SET ");
    push_str(&mut sql, clauses.as_str());
    push_str(&mut sql, " WHERE id = ");
    push_pg_param(&mut sql, p);
    push_str(&mut sql, " RETURNING id, project_id, name, description, icon, color, created_at::TEXT, updated_at::TEXT");
    Some(sql)
}

/// A PostgreSQL timestamp as stored in a custom type: every `T` made a
/// space, and everything from the first `+` on dropped.
pub open spec fn pg_timestamp(s: Seq<char>) -> Seq<char>
    decreases s.len(),
{
    if s.len() == 0 || s[0] == '+' {
        Seq::empty()
    } else {
        seq![if s[0] == 'T' { ' ' } else { s[0] }] + pg_timestamp(s.drop_first())
    }
}

/// The timestamp text with `T` replaced by a space and the offset after `+`
/// dropped.
pub fn pg_timestamp_text(s: &str) -> (r: String)
    ensures
        r@ == pg_timestamp(s@),
{
    let cs = chars_of(s);
    let n = cs.len();
    let mut out = String::new();
    let mut i: usize = 0;
    assert(cs@.subrange(0, n as int) =~= cs@);
    while i < n
        invariant
            0 <= i <= n == cs@.len(),
            cs@ == s@,
            pg_timestamp(s@) == out@ + pg_timestamp(cs@.subrange(i as int, n as int)),
            decreases n - i,
    {
        let ghost rest = cs@.subrange(i as int, n as int);
        if cs[i] == '+' {
            assert(out@ =~= out@ + Seq::<char>::empty());
            return out;
        }
        assert(rest.drop_first() =~= cs@.subrange(i + 1, n as int));
        if cs[i] == 'T' {
            push_char(&mut out, ' ');
        } else {
            push_char(&mut out, cs[i]);
        }
        i = i + 1;
    }
    assert(out@ =~= out@ + pg_timestamp(Seq::<char>::empty()));
    out
}

} // verus!
