//! What a partial update writes. A field of an update is either left alone
//! (`None`), or, for a clearable column, cleared (`Some(None)`) or set
//! (`Some(Some(v))`). The stores write each clearable column as
//! `CASE WHEN set THEN value ELSE column END` and every other column as
//! `COALESCE(value, column)`; the values below are what they bind.
use vstd::prelude::*;

use crate::db::csv_codec::opt_view;
use crate::db::entry::{update_cover_path, updated_cover};
use crate::ids::Id;
use crate::models::entry::UpdateEntry;
use crate::models::idea_note::{status_text, UpdateIdeaNote};
use crate::models::project::UpdateProject;

verus! {

/// The value a clearable field writes when it is set: the inner value.
pub open spec fn cleared_or_set<T>(v: Option<Option<T>>) -> Option<T> {
    match v {
        Some(inner) => inner,
        None => None,
    }
}

/// The text a clearable text field writes when it is set.
pub open spec fn cleared_or_set_text(v: Option<Option<String>>) -> Option<Seq<char>> {
    opt_view(cleared_or_set(v))
}

/// Whether a clearable text field is written, and with what.
pub fn three_state_text(v: &Option<Option<String>>) -> (r: (bool, Option<String>))
    ensures
        r.0 == v is Some,
        opt_view(r.1) == cleared_or_set_text(*v),
{
    match v {
        Some(Some(s)) => (true, Some(s.clone())),
        Some(None) => (true, None),
        None => (false, None),
    }
}

/// A copy of an optional text.
fn copy_opt_text(v: &Option<String>) -> (r: Option<String>)
    ensures
        opt_view(r) == opt_view(*v),
{
    match v {
        Some(s) => Some(s.clone()),
        None => None,
    }
}

/// What an entry update writes besides its tags and images.
#[derive(Debug, Clone)]
pub struct EntryUpdateValues {
    /// Kept when `None`.
    pub title: Option<String>,
    pub set_summary: bool,
    pub summary: Option<String>,
    /// Kept when `None`.
    pub content: Option<String>,
    pub set_category: bool,
    pub category_id: Option<Id>,
    pub set_type: bool,
    pub entry_type: Option<String>,
    pub set_cover: bool,
    pub cover_path: Option<String>,
}

/// The values of an entry update: title and content when given; summary,
/// category and type with their three states; the cover set when a cover
/// path is given, or else when images are given (their first cover, or
/// none).
pub fn plan_entry_update(input: &UpdateEntry) -> (r: EntryUpdateValues)
    ensures
        opt_view(r.title) == opt_view(input.title),
        r.set_summary == input.summary is Some,
        opt_view(r.summary) == cleared_or_set_text(input.summary),
        opt_view(r.content) == opt_view(input.content),
        r.set_category == input.category_id is Some,
        r.category_id == cleared_or_set(input.category_id),
        r.set_type == input.entry_type is Some,
        opt_view(r.entry_type) == cleared_or_set_text(input.entry_type),
        r.set_cover == updated_cover(input.cover_path, input.images) is Some,
        opt_view(r.cover_path) == cleared_or_set(updated_cover(input.cover_path, input.images)),
{
    let (set_summary, summary) = three_state_text(&input.summary);
    let (set_type, entry_type) = three_state_text(&input.entry_type);
    let (set_category, category_id) = match input.category_id {
        Some(c) => (true, c),
        None => (false, None),
    };
    let cover = update_cover_path(&input.cover_path, &input.images);
    let (set_cover, cover_path) = match cover {
        Some(c) => (true, c),
        None => (false, None),
    };
    EntryUpdateValues {
        title: copy_opt_text(&input.title),
        set_summary,
        summary,
        content: copy_opt_text(&input.content),
        set_category,
        category_id,
        set_type,
        entry_type,
        set_cover,
        cover_path,
    }
}

/// What an idea note update writes.
#[derive(Debug, Clone)]
pub struct IdeaNoteUpdateValues {
    pub set_title: bool,
    pub title: Option<String>,
    /// Kept when `None`.
    pub content: Option<String>,
    /// The stored text of the new status; kept when `None`.
    pub status: Option<&'static str>,
    /// Kept when `None`.
    pub pinned: Option<bool>,
    pub set_last_reviewed_at: bool,
    pub last_reviewed_at: Option<String>,
    pub set_converted_entry_id: bool,
    pub converted_entry_id: Option<Id>,
}

/// The values of an idea note update: content, status (as its stored text)
/// and pinned when given; title, review time and converted entry with their
/// three states.
pub fn plan_idea_note_update(input: &UpdateIdeaNote) -> (r: IdeaNoteUpdateValues)
    ensures
        r.set_title == input.title is Some,
        opt_view(r.title) == cleared_or_set_text(input.title),
        opt_view(r.content) == opt_view(input.content),
        r.status is Some == input.status is Some,
        r.status matches Some(s) ==> s@ == status_text(input.status->Some_0),
        r.pinned == input.pinned,
        r.set_last_reviewed_at == input.last_reviewed_at is Some,
        opt_view(r.last_reviewed_at) == cleared_or_set_text(input.last_reviewed_at),
        r.set_converted_entry_id == input.converted_entry_id is Some,
        r.converted_entry_id == cleared_or_set(input.converted_entry_id),
{
    let (set_title, title) = three_state_text(&input.title);
    let (set_last_reviewed_at, last_reviewed_at) = three_state_text(&input.last_reviewed_at);
    let (set_converted_entry_id, converted_entry_id) = match input.converted_entry_id {
        Some(c) => (true, c),
        None => (false, None),
    };
    let status = match input.status {
        Some(s) => Some(s.as_str()),
        None => None,
    };
    IdeaNoteUpdateValues {
        set_title,
        title,
        content: copy_opt_text(&input.content),
        status,
        pinned: input.pinned,
        set_last_reviewed_at,
        last_reviewed_at,
        set_converted_entry_id,
        converted_entry_id,
    }
}

/// What a project update writes.
#[derive(Debug, Clone)]
pub struct ProjectUpdateValues {
    /// Kept when `None`.
    pub name: Option<String>,
    pub set_description: bool,
    pub description: Option<String>,
    pub set_cover_image: bool,
    pub cover_image: Option<String>,
}

/// The values of a project update: the name when given; description and
/// cover image with their three states.
pub fn plan_project_update(input: &UpdateProject) -> (r: ProjectUpdateValues)
    ensures
        opt_view(r.name) == opt_view(input.name),
        r.set_description == input.description is Some,
        opt_view(r.description) == cleared_or_set_text(input.description),
        r.set_cover_image == input.cover_image is Some,
        opt_view(r.cover_image) == cleared_or_set_text(input.cover_image),
{
    let (set_description, description) = three_state_text(&input.description);
    let (set_cover_image, cover_image) = three_state_text(&input.cover_image);
    ProjectUpdateValues { name: copy_opt_text(&input.name), set_description, description, set_cover_image, cover_image }
}

} // verus!
