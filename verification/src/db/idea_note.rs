//! Listing idea notes: the filter check and the query each store runs.
use vstd::prelude::*;

use crate::db::checked_pagination;
use crate::error::{Result, WorldflowError};
use crate::models::idea_note::IdeaNoteFilter;
use crate::text::{
    decimal, lemma_occurs_at_left, lemma_occurs_at_right, lemma_placeholder_count_concat, lemma_placeholder_count_none,
    lemma_placeholder_count_one, occurs_at, placeholder_count, push_decimal, push_str,
};

verus! {

broadcast use vstd::string::group_string_axioms;

/// A filter may not ask both for one project and for global notes only.
pub fn check_idea_note_filter(filter: &IdeaNoteFilter) -> (r: Result<()>)
    ensures
        r is Ok <==> !(filter.only_global && filter.project_id is Some),
        r matches Err(e) ==> e matches WorldflowError::InvalidInput(m) && m@
            == "only_global 与 project_id 不能同时使用"@,
{
    if filter.only_global && filter.project_id.is_some() {
        Err(WorldflowError::InvalidInput(String::from_str("only_global 与 project_id 不能同时使用")))
    } else {
        Ok(())
    }
}

/// A note listing: the query and the limit and offset it binds last.
#[derive(Debug, Clone, PartialEq, Eq)]
pub struct IdeaNoteListPlan {
    pub sql: String,
    pub limit: i64,
    pub offset: i64,
}

/// The SQLite listing's conditions, in bind order: project (or global
/// only), status, pinned.
pub open spec fn note_conditions_sql(filter: IdeaNoteFilter) -> Seq<char> {
    (if filter.only_global {
        " AND project_id IS NULL"@
    } else if filter.project_id is Some {
        " AND project_id = ?"@
    } else {
        Seq::empty()
    }) + (if filter.status is Some {
        " AND status = ?"@
    } else {
        Seq::empty()
    }) + (if filter.pinned is Some {
        " AND pinned = ?"@
    } else {
        Seq::empty()
    })
}

/// The listing's conditions come in bind order: a given project's condition
/// opens them (or, for global notes only, a condition that binds nothing),
/// the status condition comes before the pinned one, and there is exactly
/// one placeholder per bound value: project, status and pinned, each when
/// given.
pub proof fn lemma_note_conditions_in_bind_order(filter: IdeaNoteFilter)
    requires
        !(filter.only_global && filter.project_id is Some),
    ensures
        filter.project_id is Some ==> occurs_at(note_conditions_sql(filter), " AND project_id = ?"@, 0),
        filter.only_global ==> occurs_at(note_conditions_sql(filter), " AND project_id IS NULL"@, 0),
        filter.status is Some ==> exists|i: int| occurs_at(note_conditions_sql(filter), " AND status = ?"@, i),
        filter.pinned is Some ==> exists|j: int| occurs_at(note_conditions_sql(filter), " AND pinned = ?"@, j),
        filter.status is Some && filter.pinned is Some ==> exists|i: int, j: int|
            i < j && occurs_at(note_conditions_sql(filter), " AND status = ?"@, i) && occurs_at(
                note_conditions_sql(filter),
                " AND pinned = ?"@,
                j,
            ),
        placeholder_count(note_conditions_sql(filter)) == (if filter.project_id is Some {
            1nat
        } else {
            0nat
        }) + (if filter.status is Some {
            1nat
        } else {
            0nat
        }) + (if filter.pinned is Some {
            1nat
        } else {
            0nat
        }),
{
    let pa = " AND project_id = ?"@;
    let pg = " AND project_id IS NULL"@;
    let st = " AND status = ?"@;
    let pn = " AND pinned = ?"@;
    reveal_strlit(" AND project_id = ?");
    reveal_strlit(" AND project_id IS NULL");
    reveal_strlit(" AND status = ?");
    reveal_strlit(" AND pinned = ?");
    let a = if filter.only_global {
        pg
    } else if filter.project_id is Some {
        pa
    } else {
        Seq::<char>::empty()
    };
    let b = if filter.status is Some {
        st
    } else {
        Seq::<char>::empty()
    };
    let c = if filter.pinned is Some {
        pn
    } else {
        Seq::<char>::empty()
    };
    assert(note_conditions_sql(filter) == a + b + c);
    lemma_placeholder_count_one(pa);
    lemma_placeholder_count_none(pg);
    lemma_placeholder_count_one(st);
    lemma_placeholder_count_one(pn);
    lemma_placeholder_count_none(Seq::<char>::empty());
    lemma_placeholder_count_concat(a, b);
    lemma_placeholder_count_concat(a + b, c);
    assert(occurs_at(st, st, 0)) by {
        assert(st.subrange(0, st.len() as int) =~= st);
    }
    assert(occurs_at(pn, pn, 0)) by {
        assert(pn.subrange(0, pn.len() as int) =~= pn);
    }
    if filter.project_id is Some {
        assert(occurs_at(pa, pa, 0)) by {
            assert(pa.subrange(0, pa.len() as int) =~= pa);
        }
        lemma_occurs_at_left(a, b, pa, 0);
        lemma_occurs_at_left(a + b, c, pa, 0);
    }
    if filter.only_global {
        assert(occurs_at(pg, pg, 0)) by {
            assert(pg.subrange(0, pg.len() as int) =~= pg);
        }
        lemma_occurs_at_left(a, b, pg, 0);
        lemma_occurs_at_left(a + b, c, pg, 0);
    }
    if filter.status is Some {
        lemma_occurs_at_right(a, b, st, 0);
        lemma_occurs_at_left(a + b, c, st, a.len() as int);
    }
    if filter.pinned is Some {
        lemma_occurs_at_right(a + b, c, pn, 0);
    }
    if filter.status is Some && filter.pinned is Some {
        assert(a.len() < (a + b).len());
    }
}

/// The whole listing has exactly one placeholder per bound value, in bind
/// order: those of the conditions, then limit and offset.
pub proof fn lemma_note_listing_placeholders(filter: IdeaNoteFilter)
    requires
        !(filter.only_global && filter.project_id is Some),
    ensures
        placeholder_count("SELECT id, project_id, content, title, status, pinned, created_at, updated_at, last_reviewed_at, converted_entry_id FROM idea_notes WHERE 1=1"@ + note_conditions_sql(filter) + " ORDER BY pinned DESC, updated_at DESC LIMIT ? OFFSET ?"@)
            == (if filter.project_id is Some {
            1nat
        } else {
            0nat
        }) + (if filter.status is Some {
            1nat
        } else {
            0nat
        }) + (if filter.pinned is Some {
            1nat
        } else {
            0nat
        }) + 2,
{
    lemma_note_conditions_in_bind_order(filter);
    reveal_strlit("SELECT id, project_id, content, title, status, pinned, created_at, updated_at, last_reviewed_at, converted_entry_id FROM idea_notes WHERE 1=1");
    reveal_strlit(" ORDER BY pinned DESC, updated_at DESC LIMIT ? OFFSET ?");
    reveal_strlit(" ORDER BY pinned DESC, updated_at DESC LIMIT ?");
    reveal_strlit(" OFFSET ?");
    let head = "SELECT id, project_id, content, title, status, pinned, created_at, updated_at, last_reviewed_at, converted_entry_id FROM idea_notes WHERE 1=1"@;
    let s1 = " ORDER BY pinned DESC, updated_at DESC LIMIT ?"@;
    let s2 = " OFFSET ?"@;
    assert(" ORDER BY pinned DESC, updated_at DESC LIMIT ? OFFSET ?"@ =~= s1 + s2);
    lemma_placeholder_count_none(head);
    lemma_placeholder_count_one(s1);
    lemma_placeholder_count_one(s2);
    lemma_placeholder_count_concat(s1, s2);
    lemma_placeholder_count_concat(head, note_conditions_sql(filter));
    lemma_placeholder_count_concat(head + note_conditions_sql(filter), s1 + s2);
}

/// Plans the SQLite listing of idea notes, pinned first, then most recently
/// updated. It binds the project id (when given), the status text, the
/// pinned flag as 0 or 1, then limit and offset. Limit and offset are bound
/// as `i64` values, wrapping as `as` casts do.
pub fn plan_list_idea_notes(filter: &IdeaNoteFilter, limit: usize, offset: usize) -> (r: Result<IdeaNoteListPlan>)
    ensures
        r is Ok <==> !(filter.only_global && filter.project_id is Some),
        r matches Err(e) ==> e matches WorldflowError::InvalidInput(m) && m@
            == "only_global 与 project_id 不能同时使用"@,
        r matches Ok(p) ==> p.sql@ == "SELECT id, project_id, content, title, status, pinned, created_at, updated_at, last_reviewed_at, converted_entry_id FROM idea_notes WHERE 1=1"@
            + note_conditions_sql(*filter) + " ORDER BY pinned DESC, updated_at DESC LIMIT ? OFFSET ?"@
            && p.limit == limit as i64 && p.offset == offset as i64,
{
    check_idea_note_filter(filter)?;
    let mut sql = String::from_str(
        "SELECT id, project_id, content, title, status, pinned, created_at, updated_at, last_reviewed_at, converted_entry_id FROM idea_notes WHERE 1=1",
    );
    if filter.only_global {
        push_str(&mut sql, " AND project_id IS NULL");
    } else if filter.project_id.is_some() {
        push_str(&mut sql, " AND project_id = ?");
    }
    if filter.status.is_some() {
        push_str(&mut sql, " AND status = ?");
    }
    if filter.pinned.is_some() {
        push_str(&mut sql, " AND pinned = ?");
    }
    push_str(&mut sql, " ORDER BY pinned DESC, updated_at DESC LIMIT ? OFFSET ?");
    Ok(IdeaNoteListPlan { sql, limit: limit as i64, offset: offset as i64 })
}

/// A PostgreSQL placeholder: `$` and the parameter's position.
pub open spec fn pg_param(n: nat) -> Seq<char> {
    seq!['$'] + decimal(n)
}

/// The PostgreSQL listing's conditions, numbering placeholders from `$1` in
/// bind order: project (or global only), status, pinned; and the position
/// of the next placeholder.
pub open spec fn pg_note_conditions(filter: IdeaNoteFilter) -> (Seq<char>, nat) {
    let (a, p1) = if filter.only_global {
        (" AND project_id IS NULL"@, 1nat)
    } else if filter.project_id is Some {
        (" AND project_id = "@ + pg_param(1), 2nat)
    } else {
        (Seq::empty(), 1nat)
    };
    let (b, p2) = if filter.status is Some {
        (" AND status = "@ + pg_param(p1), p1 + 1)
    } else {
        (Seq::<char>::empty(), p1)
    };
    let (c, p3) = if filter.pinned is Some {
        (" AND pinned = "@ + pg_param(p2), p2 + 1)
    } else {
        (Seq::<char>::empty(), p2)
    };
    (a + b + c, p3)
}

/// The pinned condition numbered right after the status condition.
pub open spec fn pg_pinned_after_status(filter: IdeaNoteFilter) -> Seq<char> {
    " AND pinned = "@ + pg_param(pg_first_condition_param(filter) + 1)
}

/// The number of the first placeholder after the project's: 2 when a
/// project is bound as `$1`, else 1.
pub open spec fn pg_first_condition_param(filter: IdeaNoteFilter) -> nat {
    if filter.project_id is Some {
        2
    } else {
        1
    }
}

/// The PostgreSQL listing numbers its placeholders in bind order: `$1` is
/// the project when one is given; the status condition's number comes
/// next, then the pinned condition's, each one more than the one before;
/// limit and offset take the two numbers after the last condition.
pub proof fn lemma_pg_note_conditions_in_bind_order(filter: IdeaNoteFilter)
    requires
        !(filter.only_global && filter.project_id is Some),
    ensures
        filter.project_id is Some ==> occurs_at(pg_note_conditions(filter).0, " AND project_id = "@ + pg_param(1), 0),
        ({
            &&& filter.status is Some ==> exists|i: int|
                occurs_at(pg_note_conditions(filter).0, " AND status = "@ + pg_param(pg_first_condition_param(filter)), i)
            &&& filter.status is Some && filter.pinned is Some ==> exists|i: int, j: int|
                i < j && #[trigger] occurs_at(pg_note_conditions(filter).0, " AND status = "@ + pg_param(pg_first_condition_param(filter)), i)
                    && #[trigger] occurs_at(pg_note_conditions(filter).0, pg_pinned_after_status(filter), j)
            &&& filter.status is None && filter.pinned is Some ==> exists|j: int|
                occurs_at(pg_note_conditions(filter).0, " AND pinned = "@ + pg_param(pg_first_condition_param(filter)), j)
            &&& pg_note_conditions(filter).1 == pg_first_condition_param(filter) + (if filter.status is Some {
                1nat
            } else {
                0nat
            }) + (if filter.pinned is Some {
                1nat
            } else {
                0nat
            })
        }),
{
    let first: nat = if filter.project_id is Some {
        2nat
    } else {
        1nat
    };
    let a = if filter.only_global {
        " AND project_id IS NULL"@
    } else if filter.project_id is Some {
        " AND project_id = "@ + pg_param(1)
    } else {
        Seq::<char>::empty()
    };
    let st = " AND status = "@ + pg_param(pg_first_condition_param(filter));
    let b = if filter.status is Some {
        st
    } else {
        Seq::<char>::empty()
    };
    let p2: nat = if filter.status is Some {
        first + 1
    } else {
        first
    };
    let pn = " AND pinned = "@ + pg_param(p2);
    let c = if filter.pinned is Some {
        pn
    } else {
        Seq::<char>::empty()
    };
    assert(pg_note_conditions(filter).0 == a + b + c);
    assert(occurs_at(st, st, 0)) by {
        assert(st.subrange(0, st.len() as int) =~= st);
    }
    assert(occurs_at(pn, pn, 0)) by {
        assert(pn.subrange(0, pn.len() as int) =~= pn);
    }
    if filter.project_id is Some {
        assert(occurs_at(a, a, 0)) by {
            assert(a.subrange(0, a.len() as int) =~= a);
        }
        lemma_occurs_at_left(a, b, a, 0);
        lemma_occurs_at_left(a + b, c, a, 0);
    }
    if filter.status is Some {
        lemma_occurs_at_right(a, b, st, 0);
        lemma_occurs_at_left(a + b, c, st, a.len() as int);
    }
    let cond = pg_note_conditions(filter).0;
    assert(first == pg_first_condition_param(filter));
    if filter.status is Some {
        assert(occurs_at(cond, " AND status = "@ + pg_param(pg_first_condition_param(filter)), a.len() as int));
    }
    if filter.pinned is Some {
        lemma_occurs_at_right(a + b, c, pn, 0);
        if filter.status is Some {
            assert(st.len() > 0) by {
                reveal_strlit(" AND status = ");
            }
            assert(a.len() < (a + b).len());
            assert(pn == pg_pinned_after_status(filter));
            assert(occurs_at(cond, pg_pinned_after_status(filter), (a + b).len() as int));
        } else {
            assert(occurs_at(cond, " AND pinned = "@ + pg_param(pg_first_condition_param(filter)), (a + b).len() as int));
        }
    }
}

fn push_pg_param(sql: &mut String, n: u64)
    ensures
        final(sql)@ == old(sql)@ + pg_param(n as nat),
{
    push_str(sql, "$");
    push_decimal(sql, n);
    proof {
        reveal_strlit("$");
    }
}

/// Plans the PostgreSQL listing of idea notes: the same filter and order as
/// the SQLite one, placeholders numbered in bind order with limit and offset
/// last; a limit or offset that does not fit `i64` is refused.
pub fn pg_plan_list_idea_notes(filter: &IdeaNoteFilter, limit: usize, offset: usize) -> (r: Result<IdeaNoteListPlan>)
    ensures
        r is Ok <==> !(filter.only_global && filter.project_id is Some) && limit <= i64::MAX && offset
            <= i64::MAX,
        r matches Err(e) ==> e matches WorldflowError::InvalidInput(m) && m@ == (if filter.only_global
            && filter.project_id is Some {
            "only_global 与 project_id 不能同时使用"@
        } else if limit > i64::MAX {
            "limit 过大"@
        } else {
            "offset 过大"@
        }),
        r matches Ok(p) ==> p.sql@ == "SELECT id, project_id, content, title, status, pinned, created_at::TEXT AS created_at, updated_at::TEXT AS updated_at, last_reviewed_at::TEXT AS last_reviewed_at, converted_entry_id FROM idea_notes WHERE 1=1"@
            + pg_note_conditions(*filter).0 + " ORDER BY pinned DESC, updated_at DESC LIMIT "@
            + pg_param(pg_note_conditions(*filter).1) + " OFFSET "@ + pg_param(
            pg_note_conditions(*filter).1 + 1,
        ) && p.limit == limit && p.offset == offset,
{
    check_idea_note_filter(filter)?;
    let (l, o) = checked_pagination(limit, offset)?;
    let mut p: u64 = 1;
    let mut sql = String::from_str(
        "SELECT id, project_id, content, title, status, pinned, created_at::TEXT AS created_at, updated_at::TEXT AS updated_at, last_reviewed_at::TEXT AS last_reviewed_at, converted_entry_id FROM idea_notes WHERE 1=1",
    );
    let ghost base = sql@;
    if filter.only_global {
        push_str(&mut sql, " AND project_id IS NULL");
    } else if filter.project_id.is_some() {
        push_str(&mut sql, " AND project_id = ");
        push_pg_param(&mut sql, p);
        p = p + 1;
    }
    if filter.status.is_some() {
        push_str(&mut sql, " AND status = ");
        push_pg_param(&mut sql, p);
        p = p + 1;
    }
    if filter.pinned.is_some() {
        push_str(&mut sql, " AND pinned = ");
        push_pg_param(&mut sql, p);
        p = p + 1;
    }
    assert(sql@ =~= base + pg_note_conditions(*filter).0);
    assert(p == pg_note_conditions(*filter).1);
    push_str(&mut sql, " ORDER BY pinned DESC, updated_at DESC LIMIT ");
    push_pg_param(&mut sql, p);
    push_str(&mut sql, " OFFSET ");
    push_pg_param(&mut sql, p + 1);
    Ok(IdeaNoteListPlan { sql, limit: l, offset: o })
}

} // verus!
