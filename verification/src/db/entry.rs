//! The decisions of the entry store: how search text is escaped and titles
//! compared, which queries a listing or search runs, and what saving an
//! entry together with its links and relations changes.
use vstd::prelude::*;

use crate::db::{checked_limit, checked_scaled_limit};
use crate::db::entry_link::{lemma_link_targets_exact, normalize_linked_entry_ids, normalized_link_targets};
use crate::error::{not_found, Result, WorldflowError};
use crate::ids::{parse_uuid_text, uuid_parse_result, uuid_text, uuid_to_string, Id};
use crate::models::entry::{CreateEntry, FCImage, SaveEntryLinkTarget, SaveEntryRelationPatch};
use crate::models::entry_relation::{EntryRelation, RelationDirection};
use crate::models::entry_type::{is_builtin_key, validate_builtin_type_key};
use crate::text::{lemma_occurs_at_left, lemma_placeholder_count_concat, lemma_placeholder_count_none, lemma_placeholder_count_one, occurs_at, placeholder_count, chars_of, push_char, push_str, string_of, to_lowercase, trim, trim_chars, unicode_lowercase};

verus! {

broadcast use vstd::string::group_string_axioms;

// ─────────────────────────────── LIKE patterns ───────────────────────────────

/// How one character is written in a `LIKE ... ESCAPE '\'` pattern: the
/// escape character and the two wildcards get a backslash before them.
pub open spec fn like_escape_char(c: char) -> Seq<char> {
    if c == '\\' || c == '%' || c == '_' {
        seq!['\\', c]
    } else {
        seq![c]
    }
}

/// `s` escaped for a `LIKE` pattern with `\` as escape character.
pub open spec fn like_escape(s: Seq<char>) -> Seq<char>
    decreases s.len(),
{
    if s.len() == 0 {
        Seq::empty()
    } else {
        like_escape_char(s[0]) + like_escape(s.drop_first())
    }
}

/// What a `LIKE` pattern with escape character `\` matches literally: an
/// escaped character stands for itself.
pub open spec fn like_unescape(p: Seq<char>) -> Seq<char>
    decreases p.len(),
{
    if p.len() == 0 {
        Seq::empty()
    } else if p.len() >= 2 && p[0] == '\\' {
        seq![p[1]] + like_unescape(p.subrange(2, p.len() as int))
    } else {
        seq![p[0]] + like_unescape(p.drop_first())
    }
}

/// Whether every wildcard of a pattern is escaped: reading left to right, a
/// `%` or `_` only ever follows an escaping backslash.
pub open spec fn wildcards_escaped(p: Seq<char>) -> bool
    decreases p.len(),
{
    if p.len() == 0 {
        true
    } else if p.len() >= 2 && p[0] == '\\' {
        wildcards_escaped(p.subrange(2, p.len() as int))
    } else {
        p[0] != '%' && p[0] != '_' && p[0] != '\\' && wildcards_escaped(p.drop_first())
    }
}

/// An escaped pattern matches the text literally: it reads back as the text
/// and holds no bare wildcard.
pub proof fn lemma_like_escape_literal(s: Seq<char>)
    ensures
        like_unescape(like_escape(s)) == s,
        wildcards_escaped(like_escape(s)),
    decreases s.len(),
{
    if s.len() > 0 {
        lemma_like_escape_literal(s.drop_first());
        let e = like_escape(s);
        let rest = like_escape(s.drop_first());
        let c = s[0];
        if c == '\\' || c == '%' || c == '_' {
            assert(e == seq!['\\', c] + rest);
            assert(e.subrange(2, e.len() as int) =~= rest);
        } else {
            assert(e == seq![c] + rest);
            assert(e.drop_first() =~= rest);
        }
        assert(like_unescape(e) =~= s);
    }
}

/// Escapes `\`, `%` and `_` with a backslash, for a `LIKE` pattern whose
/// escape character is `\`.
pub fn escape_like_pattern(input: &str) -> (r: String)
    ensures
        r@ == like_escape(input@),
{
    let cs = chars_of(input);
    let n = cs.len();
    let mut out = String::new();
    let mut i: usize = 0;
    assert(cs@.subrange(0, n as int) =~= cs@);
    while i < n
        invariant
            0 <= i <= n == cs@.len(),
            cs@ == input@,
            like_escape(input@) == out@ + like_escape(cs@.subrange(i as int, n as int)),
        decreases n - i,
    {
        let c = cs[i];
        let ghost rest = cs@.subrange(i as int, n as int);
        assert(rest.drop_first() =~= cs@.subrange(i + 1, n as int));
        if c == '\\' || c == '%' || c == '_' {
            push_char(&mut out, '\\');
        }
        push_char(&mut out, c);
        i = i + 1;
    }
    assert(out@ =~= out@ + like_escape(Seq::<char>::empty()));
    out
}

// ─────────────────────────────── FTS phrases ───────────────────────────────

/// `s` with every `"` doubled, as inside an FTS5 string.
pub open spec fn fts_quote(s: Seq<char>) -> Seq<char>
    decreases s.len(),
{
    if s.len() == 0 {
        Seq::empty()
    } else if s[0] == '"' {
        seq!['"', '"'] + fts_quote(s.drop_first())
    } else {
        seq![s[0]] + fts_quote(s.drop_first())
    }
}

/// Reads the inside of an FTS5 string: a doubled `"` is one `"`.
pub open spec fn fts_unquote(p: Seq<char>) -> Seq<char>
    decreases p.len(),
{
    if p.len() == 0 {
        Seq::empty()
    } else if p.len() >= 2 && p[0] == '"' && p[1] == '"' {
        seq!['"'] + fts_unquote(p.subrange(2, p.len() as int))
    } else {
        seq![p[0]] + fts_unquote(p.drop_first())
    }
}

/// The FTS5 phrase for a query: `None` when the trimmed query is empty,
/// otherwise the trimmed query in double quotes with inner quotes doubled.
pub open spec fn fts_phrase(q: Seq<char>) -> Option<Seq<char>> {
    if trim(q).len() == 0 {
        None
    } else {
        Some(seq!['"'] + fts_quote(trim(q)) + seq!['"'])
    }
}

/// A quoted phrase reads back as the text it quotes.
pub proof fn lemma_fts_quote_literal(s: Seq<char>)
    ensures
        fts_unquote(fts_quote(s)) == s,
    decreases s.len(),
{
    if s.len() > 0 {
        lemma_fts_quote_literal(s.drop_first());
        let e = fts_quote(s);
        let rest = fts_quote(s.drop_first());
        if s[0] == '"' {
            assert(e.subrange(2, e.len() as int) =~= rest);
        } else {
            assert(e.drop_first() =~= rest);
            if rest.len() > 0 {
                assert(rest[0] == '"' ==> s.drop_first()[0] == '"');
            }
        }
        assert(fts_unquote(e) =~= s);
    }
}

/// Escapes a query as one FTS5 phrase (a quoted string matches its words in
/// order, whatever operators they spell); `None` for a blank query.
pub fn escape_fts5_phrase(input: &str) -> (r: Option<String>)
    ensures
        r matches Some(p) ==> fts_phrase(input@) == Some(p@),
        r is None <==> fts_phrase(input@) is None,
{
    let cs = chars_of(input);
    let t = trim_chars(cs.as_slice());
    if t.len() == 0 {
        return None;
    }
    let n = t.len();
    let mut out = String::new();
    push_char(&mut out, '"');
    let mut i: usize = 0;
    assert(t@.subrange(0, n as int) =~= t@);
    while i < n
        invariant
            0 <= i <= n == t@.len(),
            seq!['"'] + fts_quote(t@) == out@ + fts_quote(t@.subrange(i as int, n as int)),
        decreases n - i,
    {
        let c = t[i];
        let ghost rest = t@.subrange(i as int, n as int);
        assert(rest.drop_first() =~= t@.subrange(i + 1, n as int));
        if c == '"' {
            push_char(&mut out, '"');
        }
        push_char(&mut out, c);
        i = i + 1;
    }
    assert(fts_quote(t@.subrange(n as int, n as int)) =~= Seq::<char>::empty());
    push_char(&mut out, '"');
    Some(out)
}

// ─────────────────────────────── comparing text ───────────────────────────────

/// Line breaks made uniform: `\r\n` and a lone `\r` both become `\n`.
pub open spec fn unify_newlines(s: Seq<char>) -> Seq<char>
    decreases s.len(),
{
    if s.len() == 0 {
        Seq::empty()
    } else if s.len() >= 2 && s[0] == '\r' && s[1] == '\n' {
        seq!['\n'] + unify_newlines(s.subrange(2, s.len() as int))
    } else if s[0] == '\r' {
        seq!['\n'] + unify_newlines(s.drop_first())
    } else {
        seq![s[0]] + unify_newlines(s.drop_first())
    }
}

/// How entry titles and relation texts are compared and stored: line breaks
/// made uniform, then trimmed.
pub open spec fn compare_text(s: Seq<char>) -> Seq<char> {
    trim(unify_newlines(s))
}

/// The text with `\r\n` and lone `\r` turned into `\n`, then trimmed.
pub fn normalize_entry_compare_text(value: &str) -> (r: String)
    ensures
        r@ == compare_text(value@),
{
    let cs = chars_of(value);
    let n = cs.len();
    let mut out: Vec<char> = Vec::new();
    let mut i: usize = 0;
    assert(cs@.subrange(0, n as int) =~= cs@);
    while i < n
        invariant
            0 <= i <= n == cs@.len(),
            cs@ == value@,
            unify_newlines(value@) == out@ + unify_newlines(cs@.subrange(i as int, n as int)),
        decreases n - i,
    {
        let ghost rest = cs@.subrange(i as int, n as int);
        if cs[i] == '\r' && i + 1 < n && cs[i + 1] == '\n' {
            out.push('\n');
            assert(rest.subrange(2, rest.len() as int) =~= cs@.subrange(i + 2, n as int));
            i = i + 2;
        } else {
            if cs[i] == '\r' {
                out.push('\n');
            } else {
                out.push(cs[i]);
            }
            assert(rest.drop_first() =~= cs@.subrange(i + 1, n as int));
            i = i + 1;
        }
    }
    assert(out@ =~= out@ + unify_newlines(Seq::<char>::empty()));
    let t = trim_chars(out.as_slice());
    string_of(t.as_slice())
}

/// How titles are looked up for links: trimmed, then lowercased.
pub open spec fn lookup_title(s: Seq<char>) -> Seq<char> {
    unicode_lowercase(trim(s))
}

/// The title trimmed and lowercased.
pub fn normalize_entry_lookup_title(value: &str) -> (r: String)
    ensures
        r@ == lookup_title(value@),
{
    let cs = chars_of(value);
    let t = trim_chars(cs.as_slice());
    let l = to_lowercase(t.as_slice());
    string_of(l.as_slice())
}

// ─────────────────────────────── entry types ───────────────────────────────

/// The error for a custom entry type that does not exist in the project.
pub fn custom_entry_type_not_found_error() -> (e: WorldflowError)
    ensures
        e matches WorldflowError::InvalidInput(m) && m@ == "自定义词条类型不存在或不属于当前项目"@,
{
    WorldflowError::InvalidInput(String::from_str("自定义词条类型不存在或不属于当前项目"))
}

/// What remains to check of an entry's type once the text is looked at.
#[derive(Debug, Clone, Copy, PartialEq, Eq, Structural)]
pub enum EntryTypeCheck {
    /// Nothing: no type, or a built-in key.
    Accepted,
    /// The custom type with this id must exist in the entry's project.
    NeedsCustomType(Id),
}

/// Checks an entry's type as far as the text goes: no type is fine; text
/// that is not a UUID must be a built-in key; a UUID names a custom type whose
/// existence the database decides.
pub fn check_entry_type(typ: Option<&str>) -> (r: Result<EntryTypeCheck>)
    ensures
        typ is None ==> r == Ok::<EntryTypeCheck, WorldflowError>(EntryTypeCheck::Accepted),
        typ matches Some(s) ==> match uuid_parse_result(s@) {
            Some(x) => r == Ok::<EntryTypeCheck, WorldflowError>(EntryTypeCheck::NeedsCustomType(x)),
            None => (r is Ok <==> is_builtin_key(s@)) && (r is Ok ==> r->Ok_0 == EntryTypeCheck::Accepted)
                && (r matches Err(e) ==> e matches WorldflowError::InvalidInput(m) && m@
                == "Invalid builtin entry type: "@ + s@),
        },
{
    match typ {
        None => Ok(EntryTypeCheck::Accepted),
        Some(s) => match parse_uuid_text(s) {
            Ok(x) => Ok(EntryTypeCheck::NeedsCustomType(x)),
            Err(_) => {
                validate_builtin_type_key(s)?;
                Ok(EntryTypeCheck::Accepted)
            },
        },
    }
}

/// The verdict on a custom type from the number of matching rows: none is an
/// error.
pub fn custom_type_count_verdict(count: i64) -> (r: Result<()>)
    ensures
        r is Ok <==> count != 0,
        r matches Err(e) ==> e matches WorldflowError::InvalidInput(m) && m@
            == "自定义词条类型不存在或不属于当前项目"@,
{
    if count == 0 {
        Err(custom_entry_type_not_found_error())
    } else {
        Ok(())
    }
}

// ─────────────────────────────── saving an entry ───────────────────────────────

/// A save is refused when the entry belongs to another project.
pub fn check_entry_project(entry_project_id: Id, project_id: Id) -> (r: Result<()>)
    ensures
        r is Ok <==> entry_project_id == project_id,
        r matches Err(e) ==> e matches WorldflowError::InvalidInput(m) && m@ == "词条不属于当前项目"@,
{
    if entry_project_id != project_id {
        Err(WorldflowError::InvalidInput(String::from_str("词条不属于当前项目")))
    } else {
        Ok(())
    }
}

/// The first check of a save, made before anything is written: the entry
/// must exist (`entry_project` is its project, `None` when no entry has the
/// id) and belong to the project of the save.
pub fn check_save_target(entry_project: Option<Id>, entry_id: Id, project_id: Id) -> (r: Result<()>)
    ensures
        r is Ok <==> entry_project == Some(project_id),
        entry_project is None ==> (r matches Err(e) && e matches WorldflowError::NotFound(m) && m@ == "entry "@
            + uuid_text(entry_id)),
        entry_project matches Some(p) ==> (p != project_id ==> (r matches Err(e)
            && e matches WorldflowError::InvalidInput(m) && m@ == "词条不属于当前项目"@)),
{
    match entry_project {
        None => Err(not_found("entry ", &uuid_to_string(entry_id))),
        Some(p) => check_entry_project(p, project_id),
    }
}

/// Whether another entry of the same category has the same title, titles
/// compared by `compare_text`.
pub open spec fn title_taken(rows: Seq<(Id, String)>, entry_id: Id, title: Seq<char>) -> bool {
    exists|i: int|
        0 <= i < rows.len() && (#[trigger] rows[i]).0 != entry_id && compare_text(rows[i].1@)
            == compare_text(title)
}

/// Checks that no other entry among `rows` (id and title of the entries of
/// the same category) has the title; gives the title to store, made uniform
/// by `compare_text`.
pub fn check_title_free(rows: &Vec<(Id, String)>, entry_id: Id, title: &str) -> (r: Result<String>)
    ensures
        r is Ok <==> !title_taken(rows@, entry_id, title@),
        r matches Ok(t) ==> t@ == compare_text(title@),
        r matches Err(e) ==> e matches WorldflowError::InvalidInput(m) && m@
            == "当前分类下已存在同名词条，请更换标题。"@,
{
    let normalized = normalize_entry_compare_text(title);
    let mut i: usize = 0;
    while i < rows.len()
        invariant
            0 <= i <= rows@.len(),
            normalized@ == compare_text(title@),
            forall|k: int|
                0 <= k < i ==> !((#[trigger] rows@[k]).0 != entry_id && compare_text(rows@[k].1@)
                    == compare_text(title@)),
        decreases rows@.len() - i,
    {
        let other = normalize_entry_compare_text(rows[i].1.as_str());
        if rows[i].0 != entry_id && other == normalized {
            return Err(
                WorldflowError::InvalidInput(String::from_str("当前分类下已存在同名词条，请更换标题。")),
            );
        }
        i = i + 1;
    }
    Ok(normalized)
}

/// The id of the last row whose title looks up as `key`.
pub open spec fn last_title_match(rows: Seq<(Id, String)>, key: Seq<char>) -> Option<Id>
    decreases rows.len(),
{
    if rows.len() == 0 {
        None
    } else if lookup_title(rows.last().1@) == key {
        Some(rows.last().0)
    } else {
        last_title_match(rows.drop_last(), key)
    }
}

/// Where a link target points: its id when given, else the entry whose title
/// looks up the same (the last such row; rows come newest first, so the
/// least recently updated entry wins).
pub open spec fn target_entry(rows: Seq<(Id, String)>, t: SaveEntryLinkTarget) -> Option<Id> {
    match t.entry_id {
        Some(id) => Some(id),
        None => last_title_match(rows, lookup_title(t.title@)),
    }
}

/// The ids the link targets point to, in order; targets that point nowhere
/// are left out.
pub open spec fn resolved_targets(rows: Seq<(Id, String)>, targets: Seq<SaveEntryLinkTarget>) -> Seq<Id>
    decreases targets.len(),
{
    if targets.len() == 0 {
        Seq::empty()
    } else {
        let rest = resolved_targets(rows, targets.drop_last());
        match target_entry(rows, targets.last()) {
            Some(id) => rest.push(id),
            None => rest,
        }
    }
}

/// The id of the last row whose lookup key (`keys`, one per row) is `key`.
fn find_last_title(rows: &Vec<(Id, String)>, keys: &Vec<String>, key: &String) -> (r: Option<Id>)
    requires
        keys@.len() == rows@.len(),
        forall|m: int| 0 <= m < keys@.len() ==> (#[trigger] keys@[m])@ == lookup_title(rows@[m].1@),
    ensures
        r == last_title_match(rows@, key@),
{
    let mut j: usize = rows.len();
    assert(rows@.subrange(0, j as int) =~= rows@);
    while j > 0
        invariant
            0 <= j <= rows@.len() == keys@.len(),
            forall|m: int| 0 <= m < keys@.len() ==> (#[trigger] keys@[m])@ == lookup_title(rows@[m].1@),
            last_title_match(rows@, key@) == last_title_match(rows@.subrange(0, j as int), key@),
        decreases j,
    {
        let ghost sub = rows@.subrange(0, j as int);
        assert(sub.drop_last() =~= rows@.subrange(0, j - 1));
        if keys[j - 1] == *key {
            return Some(rows[j - 1].0);
        }
        j = j - 1;
    }
    None
}

/// Resolves link targets given by id or by title against the project's
/// entries (`title_rows`: id and title, newest first).
pub fn resolve_link_targets(title_rows: &Vec<(Id, String)>, targets: &Vec<SaveEntryLinkTarget>) -> (r: Vec<Id>)
    ensures
        r@ == resolved_targets(title_rows@, targets@),
{
    let mut keys: Vec<String> = Vec::new();
    let mut k: usize = 0;
    while k < title_rows.len()
        invariant
            0 <= k <= title_rows@.len(),
            keys@.len() == k,
            forall|j: int| 0 <= j < k ==> (#[trigger] keys@[j])@ == lookup_title(title_rows@[j].1@),
        decreases title_rows@.len() - k,
    {
        keys.push(normalize_entry_lookup_title(title_rows[k].1.as_str()));
        k = k + 1;
    }
    let mut out: Vec<Id> = Vec::new();
    let mut i: usize = 0;
    while i < targets.len()
        invariant
            0 <= i <= targets@.len(),
            keys@.len() == title_rows@.len(),
            forall|j: int| 0 <= j < keys@.len() ==> (#[trigger] keys@[j])@ == lookup_title(title_rows@[j].1@),
            out@ == resolved_targets(title_rows@, targets@.subrange(0, i as int)),
        decreases targets@.len() - i,
    {
        let ghost pre = targets@.subrange(0, i + 1);
        assert(pre.drop_last() =~= targets@.subrange(0, i as int));
        match targets[i].entry_id {
            Some(id) => {
                out.push(id);
            },
            None => {
                let key = normalize_entry_lookup_title(targets[i].title.as_str());
                let found = find_last_title(title_rows, &keys, &key);
                match found {
                    Some(id) => out.push(id),
                    None => {},
                }
            },
        }
        i = i + 1;
    }
    assert(targets@.subrange(0, targets@.len() as int) =~= targets@);
    out
}

// ─────────────────────────────── relations ───────────────────────────────

/// The endpoints a relation is stored with: a two-way relation keeps the
/// smaller id first, a one-way relation keeps its direction.
pub open spec fn stored_endpoints(a_id: Id, b_id: Id, relation: RelationDirection) -> (Id, Id) {
    if relation == RelationDirection::TwoWay && a_id > b_id {
        (b_id, a_id)
    } else {
        (a_id, b_id)
    }
}

/// The endpoints a relation is stored with (smaller id first when two-way).
pub fn normalize_relation_endpoints(a_id: Id, b_id: Id, relation: &RelationDirection) -> (r: (Id, Id))
    ensures
        r == stored_endpoints(a_id, b_id, *relation),
{
    if *relation == RelationDirection::TwoWay && a_id > b_id {
        (b_id, a_id)
    } else {
        (a_id, b_id)
    }
}

/// Stored endpoints of a two-way relation are ordered, they are the same two
/// entries, and storing them again changes nothing.
pub proof fn lemma_stored_endpoints(a_id: Id, b_id: Id, relation: RelationDirection)
    ensures
        relation == RelationDirection::TwoWay ==> stored_endpoints(a_id, b_id, relation).0
            <= stored_endpoints(a_id, b_id, relation).1,
        relation == RelationDirection::OneWay ==> stored_endpoints(a_id, b_id, relation) == (a_id, b_id),
        (stored_endpoints(a_id, b_id, relation) == (a_id, b_id)) || (stored_endpoints(
            a_id,
            b_id,
            relation,
        ) == (b_id, a_id)),
        stored_endpoints(
            stored_endpoints(a_id, b_id, relation).0,
            stored_endpoints(a_id, b_id, relation).1,
            relation,
        ) == stored_endpoints(a_id, b_id, relation),
{
}

/// What saving one relation patch does.
#[derive(Debug, Clone, PartialEq, Eq)]
pub enum RelationAction {
    /// A new relation is inserted.
    Insert { a_id: Id, b_id: Id, relation: RelationDirection, content: String },
    /// The existing relation `old_id` is deleted and a new one inserted: its
    /// endpoints changed.
    Replace { old_id: Id, a_id: Id, b_id: Id, relation: RelationDirection, content: String },
    /// The existing relation `id` gets a new direction or text; `swap`
    /// exchanges its endpoints so that a two-way relation keeps the smaller
    /// id first.
    Update { id: Id, relation: RelationDirection, content: String, swap: bool },
    /// The existing relation is left as it is.
    Keep { id: Id },
}

/// The last existing relation with the id.
pub open spec fn find_relation(existing: Seq<EntryRelation>, id: Id) -> Option<EntryRelation>
    decreases existing.len(),
{
    if existing.len() == 0 {
        None
    } else if existing.last().id == id {
        Some(existing.last())
    } else {
        find_relation(existing.drop_last(), id)
    }
}

/// The existing relation a patch edits, if any.
pub open spec fn patched_relation(existing: Seq<EntryRelation>, p: SaveEntryRelationPatch) -> Option<EntryRelation> {
    match p.id {
        Some(id) => find_relation(existing, id),
        None => None,
    }
}

/// Whether `a` is what saving patch `p` does, given the entry's existing
/// relations: a patch without a known relation is inserted; one whose
/// endpoints changed replaces the relation; one whose direction or text
/// (compared by `compare_text`) changed updates it; otherwise it is kept.
/// Texts are stored made uniform by `compare_text`.
pub open spec fn patch_action(existing: Seq<EntryRelation>, p: SaveEntryRelationPatch, a: RelationAction) -> bool {
    let ends = stored_endpoints(p.a_id, p.b_id, p.relation);
    let text = compare_text(p.content@);
    match patched_relation(existing, p) {
        None => a matches RelationAction::Insert { a_id, b_id, relation, content } && a_id == ends.0
            && b_id == ends.1 && relation == p.relation && content@ == text,
        Some(ex) => if ex.a_id != p.a_id || ex.b_id != p.b_id {
            a matches RelationAction::Replace { old_id, a_id, b_id, relation, content } && old_id
                == ex.id && a_id == ends.0 && b_id == ends.1 && relation == p.relation && content@
                == text
        } else if ex.relation != p.relation || compare_text(ex.content@) != text {
            a matches RelationAction::Update { id, relation, content, swap } && id == ex.id
                && relation == p.relation && content@ == text && swap == (p.relation
                == RelationDirection::TwoWay && ex.a_id > ex.b_id)
        } else {
            a == RelationAction::Keep { id: ex.id }
        },
    }
}

/// Whether a relation id is named by some patch.
pub open spec fn patch_names(patches: Seq<SaveEntryRelationPatch>, id: Id) -> bool {
    exists|j: int| 0 <= j < patches.len() && #[trigger] patches[j].id == Some(id)
}

/// The existing relations that no patch names, in order: they are deleted.
pub open spec fn relations_dropped(existing: Seq<EntryRelation>, patches: Seq<SaveEntryRelationPatch>) -> Seq<Id>
    decreases existing.len(),
{
    if existing.len() == 0 {
        Seq::empty()
    } else {
        let rest = relations_dropped(existing.drop_last(), patches);
        if patch_names(patches, existing.last().id) {
            rest
        } else {
            rest.push(existing.last().id)
        }
    }
}

/// What saving an entry does to its relations: one action per patch, in
/// order, then the deletion of the relations no patch names.
pub struct RelationPlan {
    pub actions: Vec<RelationAction>,
    pub deletions: Vec<Id>,
}

fn find_existing(existing: &Vec<EntryRelation>, id: Id) -> (r: Option<usize>)
    ensures
        r is None <==> find_relation(existing@, id) is None,
        r matches Some(k) ==> k < existing@.len() && find_relation(existing@, id) == Some(existing@[k as int]),
{
    let mut j: usize = existing.len();
    assert(existing@.subrange(0, j as int) =~= existing@);
    while j > 0
        invariant
            0 <= j <= existing@.len(),
            find_relation(existing@, id) == find_relation(existing@.subrange(0, j as int), id),
        decreases j,
    {
        let ghost sub = existing@.subrange(0, j as int);
        assert(sub.drop_last() =~= existing@.subrange(0, j - 1));
        if existing[j - 1].id == id {
            return Some(j - 1);
        }
        j = j - 1;
    }
    None
}

fn names_id(patches: &Vec<SaveEntryRelationPatch>, id: Id) -> (r: bool)
    ensures
        r == patch_names(patches@, id),
{
    let mut j: usize = 0;
    while j < patches.len()
        invariant
            0 <= j <= patches@.len(),
            forall|k: int| 0 <= k < j ==> (#[trigger] patches@[k]).id != Some(id),
        decreases patches@.len() - j,
    {
        if patches[j].id == Some(id) {
            return true;
        }
        j = j + 1;
    }
    false
}

/// Plans how saving an entry changes its relations (`existing`: those where
/// the entry is the source, or either end of a two-way relation).
pub fn plan_relation_patches(existing: &Vec<EntryRelation>, patches: &Vec<SaveEntryRelationPatch>) -> (r: RelationPlan)
    ensures
        r.actions@.len() == patches@.len(),
        forall|i: int| 0 <= i < patches@.len() ==> patch_action(existing@, patches@[i], #[trigger] r.actions@[i]),
        r.deletions@ == relations_dropped(existing@, patches@),
{
    let mut actions: Vec<RelationAction> = Vec::new();
    let mut i: usize = 0;
    while i < patches.len()
        invariant
            0 <= i <= patches@.len(),
            actions@.len() == i,
            forall|k: int| 0 <= k < i ==> patch_action(existing@, patches@[k], #[trigger] actions@[k]),
        decreases patches@.len() - i,
    {
        let p = &patches[i];
        let text = normalize_entry_compare_text(p.content.as_str());
        let found = match p.id {
            Some(id) => find_existing(existing, id),
            None => None,
        };
        let action = match found {
            None => {
                let (a_id, b_id) = normalize_relation_endpoints(p.a_id, p.b_id, &p.relation);
                RelationAction::Insert { a_id, b_id, relation: p.relation, content: text }
            },
            Some(k) => {
                let ex = &existing[k];
                if ex.a_id != p.a_id || ex.b_id != p.b_id {
                    let (a_id, b_id) = normalize_relation_endpoints(p.a_id, p.b_id, &p.relation);
                    RelationAction::Replace { old_id: ex.id, a_id, b_id, relation: p.relation, content: text }
                } else {
                    let old_text = normalize_entry_compare_text(ex.content.as_str());
                    if ex.relation != p.relation || old_text != text {
                        let swap = p.relation == RelationDirection::TwoWay && ex.a_id > ex.b_id;
                        RelationAction::Update { id: ex.id, relation: p.relation, content: text, swap }
                    } else {
                        RelationAction::Keep { id: ex.id }
                    }
                }
            },
        };
        assert(patch_action(existing@, patches@[i as int], action));
        actions.push(action);
        i = i + 1;
    }
    let mut deletions: Vec<Id> = Vec::new();
    let mut k: usize = 0;
    while k < existing.len()
        invariant
            0 <= k <= existing@.len(),
            deletions@ == relations_dropped(existing@.subrange(0, k as int), patches@),
        decreases existing@.len() - k,
    {
        let ghost sub = existing@.subrange(0, k + 1);
        assert(sub.drop_last() =~= existing@.subrange(0, k as int));
        if !names_id(patches, existing[k].id) {
            deletions.push(existing[k].id);
        }
        k = k + 1;
    }
    assert(existing@.subrange(0, existing@.len() as int) =~= existing@);
    RelationPlan { actions, deletions }
}

/// Every two-way relation that a save writes has the smaller id first,
/// provided the relation it updates already had: inserted and replacing
/// relations are stored that way, and an update of a two-way relation swaps
/// its ends exactly when they are out of order.
pub proof fn lemma_saved_two_way_ordered(
    existing: Seq<EntryRelation>,
    p: SaveEntryRelationPatch,
    a: RelationAction,
)
    requires
        patch_action(existing, p, a),
    ensures
        a matches RelationAction::Insert { a_id, b_id, relation, .. } ==> (relation
            == RelationDirection::TwoWay ==> a_id <= b_id),
        a matches RelationAction::Replace { a_id, b_id, relation, .. } ==> (relation
            == RelationDirection::TwoWay ==> a_id <= b_id),
        a matches RelationAction::Update { relation, swap, .. } ==> (relation
            == RelationDirection::TwoWay ==> (patched_relation(existing, p) matches Some(ex) && (if swap {
            ex.b_id <= ex.a_id
        } else {
            ex.a_id <= ex.b_id
        }))),
{
}

/// A target resolves to `x` when its id is `x`, or, without an id, when the
/// last row whose title looks up the same has id `x`.
proof fn lemma_resolved_targets_contains(rows: Seq<(Id, String)>, targets: Seq<SaveEntryLinkTarget>, x: Id)
    ensures
        resolved_targets(rows, targets).contains(x) <==> exists|i: int|
            0 <= i < targets.len() && target_entry(rows, #[trigger] targets[i]) == Some(x),
    decreases targets.len(),
{
    if targets.len() > 0 {
        let init = targets.drop_last();
        let rest = resolved_targets(rows, init);
        lemma_resolved_targets_contains(rows, init, x);
        if resolved_targets(rows, targets).contains(x) {
            let k = choose|k: int| 0 <= k < resolved_targets(rows, targets).len() && resolved_targets(rows, targets)[k] == x;
            if k < rest.len() {
                assert(rest[k] == x);
                let i = choose|i: int| 0 <= i < init.len() && target_entry(rows, #[trigger] init[i]) == Some(x);
                assert(targets[i] == init[i]);
            } else {
                assert(target_entry(rows, targets[targets.len() - 1]) == Some(x));
            }
        }
        if exists|i: int| 0 <= i < targets.len() && target_entry(rows, #[trigger] targets[i]) == Some(x) {
            let i = choose|i: int| 0 <= i < targets.len() && target_entry(rows, #[trigger] targets[i]) == Some(x);
            if i < init.len() {
                assert(init[i] == targets[i]);
                assert(rest.contains(x));
                let k = choose|k: int| 0 <= k < rest.len() && rest[k] == x;
                match target_entry(rows, targets.last()) {
                    Some(id) => assert(rest.push(id)[k] == x),
                    None => {},
                }
            } else {
                assert(resolved_targets(rows, targets) == rest.push(x));
                assert(rest.push(x)[rest.len() as int] == x);
            }
        }
    }
}

/// The entries an entry links to after a save: each target's entry (its id,
/// else the entry whose title looks up the same), in order, without the
/// entry itself and without repeats.
pub fn plan_outgoing_links(entry_id: Id, title_rows: &Vec<(Id, String)>, targets: &Vec<SaveEntryLinkTarget>) -> (r: Vec<Id>)
    ensures
        r@ == normalized_link_targets(entry_id, resolved_targets(title_rows@, targets@)),
{
    let ids = resolve_link_targets(title_rows, targets);
    normalize_linked_entry_ids(entry_id, ids.as_slice())
}

/// The saved links never repeat, never point at the entry itself, and point
/// exactly at the entries that some target resolves to, other than the
/// entry.
pub proof fn lemma_saved_link_targets(entry_id: Id, rows: Seq<(Id, String)>, targets: Seq<SaveEntryLinkTarget>)
    ensures
        normalized_link_targets(entry_id, resolved_targets(rows, targets)).no_duplicates(),
        !normalized_link_targets(entry_id, resolved_targets(rows, targets)).contains(entry_id),
        forall|x: Id|
            #[trigger] normalized_link_targets(entry_id, resolved_targets(rows, targets)).contains(x) <==> (x != entry_id
                && exists|i: int| 0 <= i < targets.len() && target_entry(rows, #[trigger] targets[i]) == Some(x)),
{
    lemma_link_targets_exact(entry_id, resolved_targets(rows, targets));
    assert forall|x: Id|
        #[trigger] normalized_link_targets(entry_id, resolved_targets(rows, targets)).contains(x) <==> (x != entry_id
            && exists|i: int| 0 <= i < targets.len() && target_entry(rows, #[trigger] targets[i]) == Some(x)) by {
        lemma_resolved_targets_contains(rows, targets, x);
    }
}

/// The targets of the links from `e`, in row order (a link row is
/// `(a_id, b_id)`).
pub open spec fn links_from(links: Seq<(Id, Id)>, e: Id) -> Seq<Id>
    decreases links.len(),
{
    if links.len() == 0 {
        Seq::empty()
    } else {
        let rest = links_from(links.drop_last(), e);
        if links.last().0 == e {
            rest.push(links.last().1)
        } else {
            rest
        }
    }
}

/// The link rows that do not start at `e`, in order.
pub open spec fn links_not_from(links: Seq<(Id, Id)>, e: Id) -> Seq<(Id, Id)>
    decreases links.len(),
{
    if links.len() == 0 {
        Seq::empty()
    } else {
        let rest = links_not_from(links.drop_last(), e);
        if links.last().0 == e {
            rest
        } else {
            rest.push(links.last())
        }
    }
}

/// The link rows after saving entry `e` with the planned targets: the
/// entry's old links are deleted, then one link per target is inserted.
pub open spec fn links_after_save(links: Seq<(Id, Id)>, e: Id, planned: Seq<Id>) -> Seq<(Id, Id)> {
    links_not_from(links, e) + planned.map_values(|t: Id| (e, t))
}

proof fn lemma_links_concat(a: Seq<(Id, Id)>, b: Seq<(Id, Id)>, e: Id)
    ensures
        links_from(a + b, e) == links_from(a, e) + links_from(b, e),
        links_not_from(a + b, e) == links_not_from(a, e) + links_not_from(b, e),
    decreases b.len(),
{
    if b.len() == 0 {
        assert(a + b =~= a);
        assert(links_from(a, e) + links_from(b, e) =~= links_from(a, e));
        assert(links_not_from(a, e) + links_not_from(b, e) =~= links_not_from(a, e));
    } else {
        lemma_links_concat(a, b.drop_last(), e);
        assert((a + b).drop_last() =~= a + b.drop_last());
        assert((a + b).last() == b.last());
        assert(links_from(a, e) + links_from(b.drop_last(), e).push(b.last().1) =~= (links_from(a, e)
            + links_from(b.drop_last(), e)).push(b.last().1));
        assert(links_not_from(a, e) + links_not_from(b.drop_last(), e).push(b.last()) =~= (
        links_not_from(a, e) + links_not_from(b.drop_last(), e)).push(b.last()));
    }
}

proof fn lemma_links_not_from_none(links: Seq<(Id, Id)>, e: Id)
    ensures
        links_from(links_not_from(links, e), e) == Seq::<Id>::empty(),
        links_not_from(links_not_from(links, e), e) == links_not_from(links, e),
    decreases links.len(),
{
    if links.len() > 0 {
        lemma_links_not_from_none(links.drop_last(), e);
        let rest = links_not_from(links.drop_last(), e);
        if links.last().0 != e {
            assert(rest.push(links.last()).drop_last() =~= rest);
        }
    }
}

proof fn lemma_links_of_targets(e: Id, planned: Seq<Id>)
    ensures
        links_from(planned.map_values(|t: Id| (e, t)), e) == planned,
        links_not_from(planned.map_values(|t: Id| (e, t)), e) == Seq::<(Id, Id)>::empty(),
    decreases planned.len(),
{
    if planned.len() > 0 {
        lemma_links_of_targets(e, planned.drop_last());
        assert(planned.map_values(|t: Id| (e, t)).drop_last() =~= planned.drop_last().map_values(|t: Id| (e, t)));
        assert(planned.drop_last().push(planned.last()) =~= planned);
    } else {
        assert(planned.map_values(|t: Id| (e, t)) =~= Seq::<(Id, Id)>::empty());
    }
}

/// After a save the entry's links are exactly the planned targets, in
/// order (for a plan from `plan_outgoing_links`: each target's entry,
/// without the entry itself and without repeats), and the links of every
/// other entry are as they were.
pub proof fn lemma_links_after_save(links: Seq<(Id, Id)>, e: Id, rows: Seq<(Id, String)>, targets: Seq<SaveEntryLinkTarget>)
    ensures
        links_from(links_after_save(links, e, normalized_link_targets(e, resolved_targets(rows, targets))), e)
            == normalized_link_targets(e, resolved_targets(rows, targets)),
        links_not_from(links_after_save(links, e, normalized_link_targets(e, resolved_targets(rows, targets))), e)
            == links_not_from(links, e),
{
    let planned = normalized_link_targets(e, resolved_targets(rows, targets));
    let added = planned.map_values(|t: Id| (e, t));
    lemma_links_concat(links_not_from(links, e), added, e);
    lemma_links_not_from_none(links, e);
    lemma_links_of_targets(e, planned);
    assert(Seq::<Id>::empty() + planned =~= planned);
    assert(links_not_from(links, e) + Seq::<(Id, Id)>::empty() =~= links_not_from(links, e));
}

/// The relation left in place by a save action: the id it keeps (none for a
/// new row), its ends, direction and text.
pub open spec fn action_outcome(existing: Seq<EntryRelation>, a: RelationAction) -> (Option<Id>, Id, Id, RelationDirection, Seq<char>) {
    match a {
        RelationAction::Insert { a_id, b_id, relation, content } => (None, a_id, b_id, relation, content@),
        RelationAction::Replace { a_id, b_id, relation, content, .. } => (None, a_id, b_id, relation, content@),
        RelationAction::Update { id, relation, content, swap } => {
            let ex = find_relation(existing, id)->Some_0;
            if swap {
                (Some(id), ex.b_id, ex.a_id, relation, content@)
            } else {
                (Some(id), ex.a_id, ex.b_id, relation, content@)
            }
        },
        RelationAction::Keep { id } => {
            let ex = find_relation(existing, id)->Some_0;
            (Some(id), ex.a_id, ex.b_id, ex.relation, ex.content@)
        },
    }
}

proof fn lemma_find_relation_in(existing: Seq<EntryRelation>, id: Id)
    ensures
        find_relation(existing, id) matches Some(ex) ==> ex.id == id && exists|k: int|
            0 <= k < existing.len() && existing[k] == ex,
    decreases existing.len(),
{
    if existing.len() > 0 {
        lemma_find_relation_in(existing.drop_last(), id);
        if existing.last().id != id {
            if find_relation(existing.drop_last(), id) is Some {
                let ex = find_relation(existing.drop_last(), id)->Some_0;
                let k = choose|k: int| 0 <= k < existing.drop_last().len() && existing.drop_last()[k] == ex;
                assert(existing[k] == ex);
            }
        } else {
            assert(existing[existing.len() - 1] == existing.last());
        }
    }
}

/// After a save, each patch has a relation with its direction, its text
/// made uniform, and its ends in stored order (smaller id first for a
/// two-way relation, given that stored two-way relations already are); the
/// relation keeps the id the patch names when the ends did not change, and
/// is a new row otherwise. A relation left as it was has the patch's text up
/// to `compare_text`.
pub proof fn lemma_patch_outcome(existing: Seq<EntryRelation>, p: SaveEntryRelationPatch, a: RelationAction)
    requires
        patch_action(existing, p, a),
        forall|k: int|
            0 <= k < existing.len() && (#[trigger] existing[k]).relation == RelationDirection::TwoWay
                ==> existing[k].a_id <= existing[k].b_id,
    ensures
        (action_outcome(existing, a).1, action_outcome(existing, a).2) == stored_endpoints(p.a_id, p.b_id, p.relation),
        action_outcome(existing, a).3 == p.relation,
        a is Keep ==> compare_text(action_outcome(existing, a).4) == compare_text(p.content@),
        !(a is Keep) ==> action_outcome(existing, a).4 == compare_text(p.content@),
        action_outcome(existing, a).0 == (match patched_relation(existing, p) {
            Some(ex) => if ex.a_id == p.a_id && ex.b_id == p.b_id {
                Some(ex.id)
            } else {
                None
            },
            None => None,
        }),
{
    if let Some(id) = p.id {
        lemma_find_relation_in(existing, id);
    }
}

proof fn lemma_relations_dropped_contains(existing: Seq<EntryRelation>, patches: Seq<SaveEntryRelationPatch>, id: Id)
    ensures
        relations_dropped(existing, patches).contains(id) <==> (!patch_names(patches, id) && exists|k: int|
            0 <= k < existing.len() && (#[trigger] existing[k]).id == id),
    decreases existing.len(),
{
    if existing.len() > 0 {
        let init = existing.drop_last();
        let rest = relations_dropped(init, patches);
        lemma_relations_dropped_contains(init, patches, id);
        if relations_dropped(existing, patches).contains(id) {
            let j = choose|j: int| 0 <= j < relations_dropped(existing, patches).len() && relations_dropped(existing, patches)[j] == id;
            if j < rest.len() {
                assert(rest[j] == id);
                let k = choose|k: int| 0 <= k < init.len() && (#[trigger] init[k]).id == id;
                assert(existing[k] == init[k]);
            } else {
                assert(existing[existing.len() - 1].id == id);
            }
        }
        if !patch_names(patches, id) && exists|k: int| 0 <= k < existing.len() && (#[trigger] existing[k]).id == id {
            let k = choose|k: int| 0 <= k < existing.len() && (#[trigger] existing[k]).id == id;
            if k < init.len() {
                assert(init[k] == existing[k]);
                assert(rest.contains(id));
                let j = choose|j: int| 0 <= j < rest.len() && rest[j] == id;
                if !patch_names(patches, existing.last().id) {
                    assert(rest.push(existing.last().id)[j] == id);
                }
            } else {
                assert(existing.last().id == id);
                assert(rest.push(id)[rest.len() as int] == id);
            }
        }
    }
}

/// The entry's relations after a save, one per patch as its action leaves
/// it: `(kept id, a_id, b_id, direction, text)`, with no id for a new row.
pub open spec fn relations_after_save(existing: Seq<EntryRelation>, actions: Seq<RelationAction>) -> Seq<(Option<Id>, Id, Id, RelationDirection, Seq<char>)> {
    actions.map_values(|a: RelationAction| action_outcome(existing, a))
}

/// Saving an entry's relations with a plan from `plan_relation_patches`
/// leaves one relation per patch, with the patch's direction, its text made
/// uniform (up to `compare_text` for a relation left as it was) and its
/// ends in stored order, keeping the named id exactly when the ends did not
/// change; every relation the entry had that no patch names is deleted, and
/// no kept id is among the deleted ones. (Stored two-way relations are
/// assumed to have the smaller id first, as every save writes them.)
pub proof fn lemma_relations_after_save(
    existing: Seq<EntryRelation>,
    patches: Seq<SaveEntryRelationPatch>,
    actions: Seq<RelationAction>,
    deletions: Seq<Id>,
)
    requires
        actions.len() == patches.len(),
        forall|i: int| 0 <= i < patches.len() ==> patch_action(existing, patches[i], #[trigger] actions[i]),
        deletions == relations_dropped(existing, patches),
        forall|k: int|
            0 <= k < existing.len() && (#[trigger] existing[k]).relation == RelationDirection::TwoWay
                ==> existing[k].a_id <= existing[k].b_id,
    ensures
        relations_after_save(existing, actions).len() == patches.len(),
        forall|i: int|
            0 <= i < patches.len() ==> {
                let o = #[trigger] relations_after_save(existing, actions)[i];
                let p = patches[i];
                &&& (o.1, o.2) == stored_endpoints(p.a_id, p.b_id, p.relation)
                &&& o.3 == p.relation
                &&& (actions[i] is Keep ==> compare_text(o.4) == compare_text(p.content@))
                &&& (!(actions[i] is Keep) ==> o.4 == compare_text(p.content@))
                &&& o.0 == (match patched_relation(existing, p) {
                    Some(ex) => if ex.a_id == p.a_id && ex.b_id == p.b_id {
                        Some(ex.id)
                    } else {
                        None
                    },
                    None => None,
                })
                &&& (o.0 matches Some(id) ==> patch_names(patches, id) && !deletions.contains(id))
            },
        forall|k: int|
            0 <= k < existing.len() && !patch_names(patches, (#[trigger] existing[k]).id) ==> deletions.contains(existing[k].id),
{
    assert forall|i: int| 0 <= i < patches.len() implies {
        let o = #[trigger] relations_after_save(existing, actions)[i];
        let p = patches[i];
        &&& (o.1, o.2) == stored_endpoints(p.a_id, p.b_id, p.relation)
        &&& o.3 == p.relation
        &&& (actions[i] is Keep ==> compare_text(o.4) == compare_text(p.content@))
        &&& (!(actions[i] is Keep) ==> o.4 == compare_text(p.content@))
        &&& o.0 == (match patched_relation(existing, p) {
            Some(ex) => if ex.a_id == p.a_id && ex.b_id == p.b_id {
                Some(ex.id)
            } else {
                None
            },
            None => None,
        })
        &&& (o.0 matches Some(id) ==> patch_names(patches, id) && !deletions.contains(id))
    } by {
        let p = patches[i];
        lemma_patch_outcome(existing, p, actions[i]);
        if let Some(id) = p.id {
            lemma_find_relation_in(existing, id);
            lemma_relations_dropped_contains(existing, patches, id);
            assert(patches[i].id == Some(id));
        }
    }
    assert forall|k: int|
        0 <= k < existing.len() && !patch_names(patches, (#[trigger] existing[k]).id) implies deletions.contains(existing[k].id) by {
        lemma_relations_dropped_contains(existing, patches, existing[k].id);
    }
}

// ─────────────────────────────── covers ───────────────────────────────

/// The path of the first image marked as cover.
pub open spec fn first_cover(images: Seq<FCImage>) -> Option<Seq<char>>
    decreases images.len(),
{
    if images.len() == 0 {
        None
    } else if images[0].is_cover {
        Some(images[0].path@)
    } else {
        first_cover(images.drop_first())
    }
}

/// The first image marked as cover is found: it is marked, no earlier one
/// is, and when none is found no image is marked.
proof fn lemma_first_cover_found(images: Seq<FCImage>)
    ensures
        first_cover(images) matches Some(p) ==> exists|i: int|
            0 <= i < images.len() && (#[trigger] images[i]).is_cover && images[i].path@ == p && forall|k: int|
                0 <= k < i ==> !(#[trigger] images[k]).is_cover,
        first_cover(images) is None ==> forall|i: int| 0 <= i < images.len() ==> !(#[trigger] images[i]).is_cover,
    decreases images.len(),
{
    if images.len() > 0 && !images[0].is_cover {
        let rest = images.drop_first();
        lemma_first_cover_found(rest);
        if first_cover(images) is Some {
            let i = choose|i: int|
                0 <= i < rest.len() && (#[trigger] rest[i]).is_cover && rest[i].path@ == first_cover(images)->0
                    && forall|k: int| 0 <= k < i ==> !(#[trigger] rest[k]).is_cover;
            assert(images[i + 1] == rest[i]);
            assert forall|k: int| 0 <= k < i + 1 implies !(#[trigger] images[k]).is_cover by {
                if k > 0 {
                    assert(images[k] == rest[k - 1]);
                }
            }
        } else {
            assert forall|i: int| 0 <= i < images.len() implies !(#[trigger] images[i]).is_cover by {
                if i > 0 {
                    assert(images[i] == rest[i - 1]);
                }
            }
        }
    } else if images.len() > 0 {
        assert(images[0].is_cover);
    }
}

/// An update's cover change: a given cover change (a new path, or clearing)
/// is taken exactly as given, whatever images come with it; without one,
/// new images set the cover to the first image marked as cover (no earlier
/// image is marked), or clear it when no image is marked; with neither, the
/// cover is left alone.
pub proof fn lemma_cover_change(cover_path: Option<Option<String>>, images: Option<Vec<FCImage>>)
    ensures
        cover_path matches Some(Some(p)) ==> updated_cover(cover_path, images) == Some(Some(p@)),
        cover_path matches Some(None) ==> updated_cover(cover_path, images) == Some(None::<Seq<char>>),
        cover_path is None && images is None ==> updated_cover(cover_path, images) is None,
        cover_path is None && images is Some ==> (updated_cover(cover_path, images) matches Some(c) && (
        c matches Some(q) ==> exists|i: int|
            0 <= i < images->0@.len() && (#[trigger] images->0@[i]).is_cover && images->0@[i].path@ == q
                && forall|k: int| 0 <= k < i ==> !(#[trigger] images->0@[k]).is_cover) && (c is None
            ==> forall|i: int| 0 <= i < images->0@.len() ==> !(#[trigger] images->0@[i]).is_cover)),
{
    if let Some(v) = images {
        lemma_first_cover_found(v@);
    }
}

/// A new entry's cover: the given path exactly, whatever images come with
/// it; without one, the first image marked as cover, or none when no image
/// is marked.
pub proof fn lemma_new_cover(cover_path: Option<String>, images: Option<Vec<FCImage>>)
    ensures
        cover_path matches Some(p) ==> new_entry_cover(cover_path, images) == Some(p@),
        cover_path is None && images is None ==> new_entry_cover(cover_path, images) is None,
        cover_path is None && images is Some ==> (new_entry_cover(cover_path, images) matches Some(q)
            ==> exists|i: int|
            0 <= i < images->0@.len() && (#[trigger] images->0@[i]).is_cover && images->0@[i].path@ == q
                && forall|k: int| 0 <= k < i ==> !(#[trigger] images->0@[k]).is_cover),
        cover_path is None && images is Some ==> (new_entry_cover(cover_path, images) is None ==> forall|i: int|
            0 <= i < images->0@.len() ==> !(#[trigger] images->0@[i]).is_cover),
{
    if let Some(v) = images {
        lemma_first_cover_found(v@);
    }
}

/// The path of the first image marked as cover, if any.
pub fn cover_path_from_images(images: &Vec<FCImage>) -> (r: Option<String>)
    ensures
        r matches Some(p) ==> first_cover(images@) == Some(p@),
        r is None <==> first_cover(images@) is None,
{
    let mut i: usize = 0;
    assert(images@.subrange(0, images@.len() as int) =~= images@);
    while i < images.len()
        invariant
            0 <= i <= images@.len(),
            first_cover(images@) == first_cover(images@.subrange(i as int, images@.len() as int)),
        decreases images@.len() - i,
    {
        let ghost rest = images@.subrange(i as int, images@.len() as int);
        assert(rest.drop_first() =~= images@.subrange(i + 1, images@.len() as int));
        if images[i].is_cover {
            return Some(images[i].path.clone());
        }
        i = i + 1;
    }
    None
}

/// The cover of a new entry: the given path, else the first cover image.
pub open spec fn new_entry_cover(cover_path: Option<String>, images: Option<Vec<FCImage>>) -> Option<Seq<char>> {
    match cover_path {
        Some(p) => Some(p@),
        None => match images {
            Some(v) => first_cover(v@),
            None => None,
        },
    }
}

/// The cover path stored for a new entry: the given path, else the path of
/// the first image marked as cover.
pub fn create_cover_path(cover_path: &Option<String>, images: &Option<Vec<FCImage>>) -> (r: Option<String>)
    ensures
        r matches Some(p) ==> new_entry_cover(*cover_path, *images) == Some(p@),
        r is None <==> new_entry_cover(*cover_path, *images) is None,
{
    match cover_path {
        Some(p) => Some(p.clone()),
        None => match images {
            Some(v) => cover_path_from_images(v),
            None => None,
        },
    }
}

/// The cover change of an update: `None` leaves the cover alone, `Some(c)`
/// sets it to `c`. A given cover change wins; else new images set the cover
/// to their first cover image (clearing it when none is marked).
pub open spec fn updated_cover(cover_path: Option<Option<String>>, images: Option<Vec<FCImage>>) -> Option<Option<Seq<char>>> {
    match cover_path {
        Some(c) => Some(
            match c {
                Some(p) => Some(p@),
                None => None,
            },
        ),
        None => match images {
            Some(v) => Some(first_cover(v@)),
            None => None,
        },
    }
}

/// The cover change an update makes.
pub fn update_cover_path(cover_path: &Option<Option<String>>, images: &Option<Vec<FCImage>>) -> (r: Option<Option<String>>)
    ensures
        r is None <==> updated_cover(*cover_path, *images) is None,
        r matches Some(c) ==> (updated_cover(*cover_path, *images) matches Some(u) && (c is None
            <==> u is None) && (c matches Some(p) ==> u == Some(p@))),
{
    match cover_path {
        Some(c) => match c {
            Some(p) => Some(Some(p.clone())),
            None => Some(None),
        },
        None => match images {
            Some(v) => Some(cover_path_from_images(v)),
            None => None,
        },
    }
}

// ─────────────────────────────── queries ───────────────────────────────

/// The filter conditions of a listing, in bind order: category, then type.
pub open spec fn filter_sql(has_category: bool, has_type: bool) -> Seq<char> {
    (if has_category {
        " AND category_id = ?"@
    } else {
        Seq::empty()
    }) + (if has_type {
        " AND type = ?"@
    } else {
        Seq::empty()
    })
}

fn push_filter_sql(sql: &mut String, has_category: bool, has_type: bool)
    ensures
        final(sql)@ == old(sql)@ + filter_sql(has_category, has_type),
{
    if has_category {
        push_str(sql, " AND category_id = ?");
    }
    if has_type {
        push_str(sql, " AND type = ?");
    }
}

/// The query counting a project's entries: binds the project id, then the
/// category and type the filter has.
pub fn count_entries_sql(has_category: bool, has_type: bool) -> (r: String)
    ensures
        r@ == "SELECT COUNT(*) as cnt FROM entries WHERE project_id = ?"@ + filter_sql(has_category, has_type),
{
    let mut sql = String::from_str("SELECT COUNT(*) as cnt FROM entries WHERE project_id = ?");
    push_filter_sql(&mut sql, has_category, has_type);
    sql
}

/// The query listing a project's entries, newest first: binds the project
/// id, the filter's category and type, then limit and offset.
pub fn list_entries_sql(has_category: bool, has_type: bool) -> (r: String)
    ensures
        r@ == "SELECT id, project_id, category_id, title, summary, type, cover_path, updated_at
                       FROM entries WHERE project_id = ?"@ + filter_sql(has_category, has_type)
            + " ORDER BY updated_at DESC LIMIT ? OFFSET ?"@,
{
    let mut sql = String::from_str(
        "SELECT id, project_id, category_id, title, summary, type, cover_path, updated_at
                       FROM entries WHERE project_id = ?",
    );
    push_filter_sql(&mut sql, has_category, has_type);
    push_str(&mut sql, " ORDER BY updated_at DESC LIMIT ? OFFSET ?");
    sql
}

/// The search over titles, summaries and contents with `LIKE`.
pub open spec fn like_search_sql(has_category: bool, has_type: bool) -> Seq<char> {
    "SELECT id, project_id, category_id, title, summary, type, cover_path, updated_at
                           FROM entries
                           WHERE project_id = ?
                             AND (
                                 title LIKE ? ESCAPE '\\'
                                 OR COALESCE(summary, '') LIKE ? ESCAPE '\\'
                                 OR COALESCE(content, '') LIKE ? ESCAPE '\\'
                             )"@ + filter_sql(has_category, has_type) + " ORDER BY updated_at DESC LIMIT ?"@
}

/// The substring search tests the pattern against each of the title, the
/// summary and the content (a missing summary or content as empty text),
/// so an entry is found by a match in any one of them; the project id is
/// its first placeholder.
pub proof fn lemma_like_search_fields(has_category: bool, has_type: bool)
    ensures
        occurs_at(like_search_sql(has_category, has_type), "WHERE project_id = ?"@, 148),
        occurs_at(like_search_sql(has_category, has_type), "title LIKE ?"@, 237),
        occurs_at(like_search_sql(has_category, has_type), "OR COALESCE(summary, '') LIKE ?"@, 294),
        occurs_at(like_search_sql(has_category, has_type), "OR COALESCE(content, '') LIKE ?"@, 370),
        forall|i: int| 0 <= i < 148 ==> like_search_sql(has_category, has_type)[i] != '?',
{
    let head = "SELECT id, project_id, category_id, title, summary, type, cover_path, updated_at
                           FROM entries
                           WHERE project_id = ?
                             AND (
                                 title LIKE ? ESCAPE '\\'
                                 OR COALESCE(summary, '') LIKE ? ESCAPE '\\'
                                 OR COALESCE(content, '') LIKE ? ESCAPE '\\'
                             )"@;
    reveal_strlit("SELECT id, project_id, category_id, title, summary, type, cover_path, updated_at
                           FROM entries
                           WHERE project_id = ?
                             AND (
                                 title LIKE ? ESCAPE '\\'
                                 OR COALESCE(summary, '') LIKE ? ESCAPE '\\'
                                 OR COALESCE(content, '') LIKE ? ESCAPE '\\'
                             )");
    reveal_strlit("WHERE project_id = ?");
    reveal_strlit("title LIKE ?");
    reveal_strlit("OR COALESCE(summary, '') LIKE ?");
    reveal_strlit("OR COALESCE(content, '') LIKE ?");
    let rest = filter_sql(has_category, has_type) + " ORDER BY updated_at DESC LIMIT ?"@;
    assert(like_search_sql(has_category, has_type) == head + rest);
    assert(head.subrange(148, 168) =~= "WHERE project_id = ?"@);
    assert(head.subrange(237, 249) =~= "title LIKE ?"@);
    assert(head.subrange(294, 325) =~= "OR COALESCE(summary, '') LIKE ?"@);
    assert(head.subrange(370, 401) =~= "OR COALESCE(content, '') LIKE ?"@);
    lemma_occurs_at_left(head, rest, "WHERE project_id = ?"@, 148);
    lemma_occurs_at_left(head, rest, "title LIKE ?"@, 237);
    lemma_occurs_at_left(head, rest, "OR COALESCE(summary, '') LIKE ?"@, 294);
    lemma_occurs_at_left(head, rest, "OR COALESCE(content, '') LIKE ?"@, 370);
    assert forall|i: int| 0 <= i < 148 implies like_search_sql(has_category, has_type)[i] != '?' by {
        assert(like_search_sql(has_category, has_type)[i] == head[i]);
    }
}

/// The substring search has exactly one placeholder per bound value: the
/// project id, the pattern for each of the three fields, the category and
/// type the filter has, then the limit.
pub proof fn lemma_like_search_placeholders(has_category: bool, has_type: bool)
    ensures
        placeholder_count(like_search_sql(has_category, has_type)) == 5 + (if has_category {
            1nat
        } else {
            0nat
        }) + (if has_type {
            1nat
        } else {
            0nat
        }),
{
    reveal_strlit("SELECT id, project_id, category_id, title, summary, type, cover_path, updated_at
                           FROM entries
                           WHERE project_id = ?
                             AND (
                                 title LIKE ? ESCAPE '\\'
                                 OR COALESCE(summary, '') LIKE ? ESCAPE '\\'
                                 OR COALESCE(content, '') LIKE ? ESCAPE '\\'
                             )");
    reveal_strlit("SELECT id, project_id, category_id, title, summary, type, cover_path, updated_at
                           FROM entries
                           WHERE project_id = ?");
    reveal_strlit("
                             AND (
                                 title LIKE ?");
    reveal_strlit(" ESCAPE '\\'
                                 OR COALESCE(summary, '') LIKE ?");
    reveal_strlit(" ESCAPE '\\'
                                 OR COALESCE(content, '') LIKE ?");
    reveal_strlit(" ESCAPE '\\'
                             )");
    reveal_strlit(" AND category_id = ?");
    reveal_strlit(" AND type = ?");
    reveal_strlit(" ORDER BY updated_at DESC LIMIT ?");
    let p0 = "SELECT id, project_id, category_id, title, summary, type, cover_path, updated_at
                           FROM entries
                           WHERE project_id = ?"@;
    let p1 = "
                             AND (
                                 title LIKE ?"@;
    let p2 = " ESCAPE '\\'
                                 OR COALESCE(summary, '') LIKE ?"@;
    let p3 = " ESCAPE '\\'
                                 OR COALESCE(content, '') LIKE ?"@;
    let p4 = " ESCAPE '\\'
                             )"@;
    assert("SELECT id, project_id, category_id, title, summary, type, cover_path, updated_at
                           FROM entries
                           WHERE project_id = ?
                             AND (
                                 title LIKE ? ESCAPE '\\'
                                 OR COALESCE(summary, '') LIKE ? ESCAPE '\\'
                                 OR COALESCE(content, '') LIKE ? ESCAPE '\\'
                             )"@ =~= p0 + p1 + p2 + p3 + p4);
    lemma_placeholder_count_one(p0);
    lemma_placeholder_count_one(p1);
    lemma_placeholder_count_one(p2);
    lemma_placeholder_count_one(p3);
    lemma_placeholder_count_none(p4);
    lemma_placeholder_count_concat(p0, p1);
    lemma_placeholder_count_concat(p0 + p1, p2);
    lemma_placeholder_count_concat(p0 + p1 + p2, p3);
    lemma_placeholder_count_concat(p0 + p1 + p2 + p3, p4);
    let c = " AND category_id = ?"@;
    let ty = " AND type = ?"@;
    let e = Seq::<char>::empty();
    lemma_placeholder_count_one(c);
    lemma_placeholder_count_one(ty);
    lemma_placeholder_count_none(e);
    let fc = if has_category { c } else { e };
    let ft = if has_type { ty } else { e };
    assert(filter_sql(has_category, has_type) == fc + ft);
    lemma_placeholder_count_concat(fc, ft);
    let tail = " ORDER BY updated_at DESC LIMIT ?"@;
    lemma_placeholder_count_one(tail);
    let head = p0 + p1 + p2 + p3 + p4;
    lemma_placeholder_count_concat(head, fc + ft);
    lemma_placeholder_count_concat(head + (fc + ft), tail);
}

/// The search through the full-text index: the index is asked for a bounded
/// number of candidates, the project filter applies outside.
pub open spec fn fts_search_sql(has_category: bool, has_type: bool) -> Seq<char> {
    "SELECT id, project_id, category_id, title, summary, type, cover_path, updated_at
                       FROM entries
                       WHERE project_id = ?
                         AND rowid IN (SELECT rowid FROM entries_fts WHERE entries_fts MATCH ? LIMIT ?)"@
        + filter_sql(has_category, has_type) + " ORDER BY updated_at DESC LIMIT ?"@
}

/// How a search runs.
#[derive(Debug, Clone, PartialEq, Eq)]
pub enum EntrySearchPlan {
    /// `sql` binds the project id, `pattern` three times, the filter, then
    /// `limit`.
    Like { sql: String, pattern: String, limit: i64 },
    /// `sql` binds the project id, `phrase`, `fts_limit`, the filter, then
    /// `limit`.
    Fts { sql: String, phrase: String, fts_limit: i64, limit: i64 },
    /// Nothing can match.
    Nothing,
}

/// Plans a search: the query is trimmed; under three characters it is a
/// substring search with `LIKE`, otherwise a phrase search in the full-text
/// index that asks for four times the limit, at most 500, candidates. A
/// limit that does not fit `i64` is refused first.
pub fn plan_entry_search(query: &str, has_category: bool, has_type: bool, limit: usize) -> (r: Result<EntrySearchPlan>)
    ensures
        r is Ok <==> limit <= i64::MAX && (trim(query@).len() >= 3 ==> 4 * limit <= usize::MAX && 4
            * limit <= i64::MAX),
        r matches Err(e) ==> e matches WorldflowError::InvalidInput(m) && m@ == "limit 过大"@,
        r matches Ok(plan) ==> if trim(query@).len() < 3 {
            plan matches EntrySearchPlan::Like { sql, pattern, limit: l } && sql@ == like_search_sql(
                has_category,
                has_type,
            ) && pattern@ == seq!['%'] + like_escape(trim(query@)) + seq!['%'] && l == limit
        } else {
            plan matches EntrySearchPlan::Fts { sql, phrase, fts_limit, limit: l } && sql@
                == fts_search_sql(has_category, has_type) && fts_phrase(query@) == Some(phrase@)
                && fts_limit == (if 4 * limit <= 500 { 4 * limit } else { 500 }) && l == limit
        },
{
    let cs = chars_of(query);
    let t = trim_chars(cs.as_slice());
    let trimmed = string_of(t.as_slice());
    let result_limit = checked_limit(limit)?;
    if t.len() < 3 {
        let mut pattern = String::from_str("%");
        let escaped = escape_like_pattern(trimmed.as_str());
        push_str(&mut pattern, escaped.as_str());
        push_str(&mut pattern, "%");
        proof {
            reveal_strlit("%");
        }
        let mut sql = String::from_str(
            "SELECT id, project_id, category_id, title, summary, type, cover_path, updated_at
                           FROM entries
                           WHERE project_id = ?
                             AND (
                                 title LIKE ? ESCAPE '\\'
                                 OR COALESCE(summary, '') LIKE ? ESCAPE '\\'
                                 OR COALESCE(content, '') LIKE ? ESCAPE '\\'
                             )",
        );
        push_filter_sql(&mut sql, has_category, has_type);
        push_str(&mut sql, " ORDER BY updated_at DESC LIMIT ?");
        return Ok(EntrySearchPlan::Like { sql, pattern, limit: result_limit });
    }
    proof {
        crate::text::lemma_trim_idempotent(query@);
    }
    let phrase = match escape_fts5_phrase(trimmed.as_str()) {
        Some(p) => p,
        None => {
            return Ok(EntrySearchPlan::Nothing);
        },
    };
    let fts_limit = checked_scaled_limit(limit, 4, 0, 500)?;
    let mut sql = String::from_str(
        "SELECT id, project_id, category_id, title, summary, type, cover_path, updated_at
                       FROM entries
                       WHERE project_id = ?
                         AND rowid IN (SELECT rowid FROM entries_fts WHERE entries_fts MATCH ? LIMIT ?)",
    );
    push_filter_sql(&mut sql, has_category, has_type);
    push_str(&mut sql, " ORDER BY updated_at DESC LIMIT ?");
    Ok(EntrySearchPlan::Fts { sql, phrase, fts_limit, limit: result_limit })
}

// ─────────────────────────────── bulk type checks ───────────────────────────────

/// How many (project, type) pairs one query checks.
pub const MAX_ENTRY_TYPE_VALIDATION_PAIRS_PER_QUERY: usize = 400;

/// The custom type an input names: its project and the UUID of its type.
pub open spec fn custom_pair(e: CreateEntry) -> Option<(Id, Id)> {
    match e.entry_type {
        Some(t) => match uuid_parse_result(t@) {
            Some(x) => Some((e.project_id, x)),
            None => None,
        },
        None => None,
    }
}

/// Whether an input names a type that is neither a UUID nor a built-in key.
pub open spec fn bad_builtin(e: CreateEntry) -> bool {
    e.entry_type matches Some(t) && uuid_parse_result(t@) is None && !is_builtin_key(t@)
}

/// The distinct custom type pairs the inputs name, in order of first mention.
pub open spec fn custom_pairs(inputs: Seq<CreateEntry>) -> Seq<(Id, Id)>
    decreases inputs.len(),
{
    if inputs.len() == 0 {
        Seq::empty()
    } else {
        let rest = custom_pairs(inputs.drop_last());
        match custom_pair(inputs.last()) {
            Some(p) => if rest.contains(p) {
                rest
            } else {
                rest.push(p)
            },
            None => rest,
        }
    }
}

/// Checks the types of inputs before a bulk insert, as far as the text goes:
/// the first input whose type is neither a UUID nor a built-in key is
/// refused; otherwise gives the distinct custom types to look up.
pub fn collect_custom_type_pairs(inputs: &Vec<CreateEntry>) -> (r: Result<Vec<(Id, Id)>>)
    ensures
        r is Ok <==> forall|i: int| 0 <= i < inputs@.len() ==> !bad_builtin(#[trigger] inputs@[i]),
        r matches Ok(pairs) ==> pairs@ == custom_pairs(inputs@),
        r matches Err(e) ==> exists|i: int|
            0 <= i < inputs@.len() && bad_builtin(inputs@[i]) && (forall|k: int|
                0 <= k < i ==> !bad_builtin(#[trigger] inputs@[k])) && (e matches WorldflowError::InvalidInput(
                m,
            ) && m@ == "Invalid builtin entry type: "@ + inputs@[i].entry_type->Some_0@),
{
    let mut pairs: Vec<(Id, Id)> = Vec::new();
    let mut i: usize = 0;
    while i < inputs.len()
        invariant
            0 <= i <= inputs@.len(),
            forall|k: int| 0 <= k < i ==> !bad_builtin(#[trigger] inputs@[k]),
            pairs@ == custom_pairs(inputs@.subrange(0, i as int)),
        decreases inputs@.len() - i,
    {
        let ghost pre = inputs@.subrange(0, i + 1);
        assert(pre.drop_last() =~= inputs@.subrange(0, i as int));
        let input = &inputs[i];
        match &input.entry_type {
            None => {},
            Some(t) => match parse_uuid_text(t.as_str()) {
                Ok(x) => {
                    let pair = (input.project_id, x);
                    let mut seen = false;
                    let mut j: usize = 0;
                    while j < pairs.len()
                        invariant
                            0 <= j <= pairs@.len(),
                            seen == exists|k: int| 0 <= k < j && pairs@[k] == pair,
                        decreases pairs@.len() - j,
                    {
                        if pairs[j].0 == pair.0 && pairs[j].1 == pair.1 {
                            seen = true;
                        }
                        j = j + 1;
                    }
                    if !seen {
                        pairs.push(pair);
                    }
                },
                Err(_) => {
                    match validate_builtin_type_key(t.as_str()) {
                        Ok(()) => {},
                        Err(e) => {
                            return Err(e);
                        },
                    }
                },
            },
        }
        i = i + 1;
    }
    assert(inputs@.subrange(0, inputs@.len() as int) =~= inputs@);
    Ok(pairs)
}

/// The condition matching one (project, type) pair, `n` times, joined by `OR`.
pub open spec fn pair_conditions(n: nat) -> Seq<char>
    decreases n,
{
    if n == 0 {
        Seq::empty()
    } else if n == 1 {
        "(project_id = ? AND id = ?)"@
    } else {
        pair_conditions((n - 1) as nat) + " OR "@ + "(project_id = ? AND id = ?)"@
    }
}

/// The query finding which of `n` (project, type) pairs exist; it binds the
/// project id and the type id of each pair in turn.
pub fn type_pairs_sql(n: usize) -> (r: String)
    ensures
        r@ == "SELECT project_id, id FROM entry_types WHERE "@ + pair_conditions(n as nat),
{
    let mut sql = String::from_str("SELECT project_id, id FROM entry_types WHERE ");
    let ghost head = "SELECT project_id, id FROM entry_types WHERE "@;
    let mut index: usize = 0;
    while index < n
        invariant
            0 <= index <= n,
            sql@ == head + pair_conditions(index as nat),
        decreases n - index,
    {
        if index > 0 {
            push_str(&mut sql, " OR ");
        }
        push_str(&mut sql, "(project_id = ? AND id = ?)");
        assert(sql@ =~= head + pair_conditions((index + 1) as nat));
        index = index + 1;
    }
    sql
}

/// Where the group that starts at pair `start` ends: 400 pairs later, or at
/// the end of the pairs.
pub open spec fn chunk_end(start: int, len: int) -> int {
    if start + MAX_ENTRY_TYPE_VALIDATION_PAIRS_PER_QUERY < len {
        start + MAX_ENTRY_TYPE_VALIDATION_PAIRS_PER_QUERY
    } else {
        len
    }
}

/// The pairs split into consecutive groups of at most 400, one query each:
/// group `c` holds the pairs from `400 * c` on, 400 of them except in the
/// last group, which holds the rest.
pub fn type_pair_chunks(pairs: &Vec<(Id, Id)>) -> (r: Vec<Vec<(Id, Id)>>)
    ensures
        r@.len() == (pairs@.len() + MAX_ENTRY_TYPE_VALIDATION_PAIRS_PER_QUERY - 1) / (
        MAX_ENTRY_TYPE_VALIDATION_PAIRS_PER_QUERY as int),
        forall|c: int|
            0 <= c < r@.len() ==> (#[trigger] r@[c])@ == pairs@.subrange(
                MAX_ENTRY_TYPE_VALIDATION_PAIRS_PER_QUERY * c,
                chunk_end(MAX_ENTRY_TYPE_VALIDATION_PAIRS_PER_QUERY * c, pairs@.len() as int),
            ),
        forall|c: int| 0 <= c < r@.len() ==> 0 < (#[trigger] r@[c])@.len() <= MAX_ENTRY_TYPE_VALIDATION_PAIRS_PER_QUERY,
        forall|c: int| 0 <= c < r@.len() - 1 ==> (#[trigger] r@[c])@.len() == MAX_ENTRY_TYPE_VALIDATION_PAIRS_PER_QUERY,
        r@.map_values(|v: Vec<(Id, Id)>| v@).flatten() == pairs@,
{
    let mut out: Vec<Vec<(Id, Id)>> = Vec::new();
    let mut i: usize = 0;
    while i < pairs.len()
        invariant
            0 <= i <= pairs@.len(),
            i == MAX_ENTRY_TYPE_VALIDATION_PAIRS_PER_QUERY * out@.len() || (i == pairs@.len() && out@.len() > 0
                && MAX_ENTRY_TYPE_VALIDATION_PAIRS_PER_QUERY * (out@.len() - 1) < i
                < MAX_ENTRY_TYPE_VALIDATION_PAIRS_PER_QUERY * out@.len()),
            forall|c: int|
                0 <= c < out@.len() ==> (#[trigger] out@[c])@ == pairs@.subrange(
                    MAX_ENTRY_TYPE_VALIDATION_PAIRS_PER_QUERY * c,
                    chunk_end(MAX_ENTRY_TYPE_VALIDATION_PAIRS_PER_QUERY * c, pairs@.len() as int),
                ),
            forall|c: int| 0 <= c < out@.len() ==> 0 < (#[trigger] out@[c])@.len() <= MAX_ENTRY_TYPE_VALIDATION_PAIRS_PER_QUERY,
            forall|c: int| 0 <= c < out@.len() - 1 ==> (#[trigger] out@[c])@.len() == MAX_ENTRY_TYPE_VALIDATION_PAIRS_PER_QUERY,
            out@.map_values(|v: Vec<(Id, Id)>| v@).flatten() == pairs@.subrange(0, i as int),
        decreases pairs@.len() - i,
    {
        let end = if pairs.len() - i > MAX_ENTRY_TYPE_VALIDATION_PAIRS_PER_QUERY {
            i + MAX_ENTRY_TYPE_VALIDATION_PAIRS_PER_QUERY
        } else {
            pairs.len()
        };
        assert(end == chunk_end(i as int, pairs@.len() as int));
        let mut chunk: Vec<(Id, Id)> = Vec::new();
        let mut j: usize = i;
        while j < end
            invariant
                i <= j <= end <= pairs@.len(),
                chunk@ == pairs@.subrange(i as int, j as int),
            decreases end - j,
        {
            chunk.push(pairs[j]);
            assert(pairs@.subrange(i as int, j + 1) =~= pairs@.subrange(i as int, j as int).push(pairs@[j as int]));
            j = j + 1;
        }
        let ghost before = out@;
        out.push(chunk);
        proof {
            let f = |v: Vec<(Id, Id)>| v@;
            assert(out@.map_values(f) =~= before.map_values(f).push(pairs@.subrange(i as int, end as int)));
            before.map_values(f).lemma_flatten_push(pairs@.subrange(i as int, end as int));
            assert(pairs@.subrange(0, i as int) + pairs@.subrange(i as int, end as int) =~= pairs@.subrange(0, end as int));
            assert(out@[before.len() as int]@ == pairs@.subrange(i as int, end as int));
            assert(forall|c: int| 0 <= c < before.len() ==> out@[c] == before[c]);
        }
        i = end;
    }
    assert(pairs@.subrange(0, pairs@.len() as int) =~= pairs@);
    proof {
        let n = out@.len() as int;
        let len = pairs@.len() as int;
        assert(len == MAX_ENTRY_TYPE_VALIDATION_PAIRS_PER_QUERY * n || (MAX_ENTRY_TYPE_VALIDATION_PAIRS_PER_QUERY * (n - 1) < len
            < MAX_ENTRY_TYPE_VALIDATION_PAIRS_PER_QUERY * n));
        assert(n == (len + 399) / 400) by (nonlinear_arith)
            requires
                len == 400 * n || (400 * (n - 1) < len < 400 * n),
                0 <= n,
        ;
    }
    out
}

/// The bulk check passes when as many distinct pairs were found as were
/// asked for.
pub fn custom_types_verdict(requested: usize, found: &Vec<(Id, Id)>) -> (r: Result<()>)
    ensures
        r is Ok <==> found@.to_set().len() == requested,
        r matches Err(e) ==> e matches WorldflowError::InvalidInput(m) && m@
            == "自定义词条类型不存在或不属于当前项目"@,
{
    let mut distinct: Vec<(Id, Id)> = Vec::new();
    let mut i: usize = 0;
    while i < found.len()
        invariant
            0 <= i <= found@.len(),
            distinct@.no_duplicates(),
            distinct@.to_set() == found@.subrange(0, i as int).to_set(),
        decreases found@.len() - i,
    {
        let p = found[i];
        let mut seen = false;
        let mut j: usize = 0;
        while j < distinct.len()
            invariant
                0 <= j <= distinct@.len(),
                seen == exists|k: int| 0 <= k < j && distinct@[k] == p,
            decreases distinct@.len() - j,
        {
            if distinct[j].0 == p.0 && distinct[j].1 == p.1 {
                seen = true;
            }
            j = j + 1;
        }
        proof {
            let pre = found@.subrange(0, i + 1);
            assert(pre =~= found@.subrange(0, i as int).push(p));
            found@.subrange(0, i as int).lemma_push_to_set_commute(p);
        }
        if !seen {
            proof {
                distinct@.lemma_push_to_set_commute(p);
            }
            distinct.push(p);
        } else {
            assert(distinct@.contains(p));
        }
        i = i + 1;
    }
    proof {
        assert(found@.subrange(0, found@.len() as int) =~= found@);
        distinct@.unique_seq_to_set();
    }
    if distinct.len() != requested {
        Err(custom_entry_type_not_found_error())
    } else {
        Ok(())
    }
}

} // verus!
