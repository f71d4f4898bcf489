//! Idea notes: quick, unstructured notes.
use vstd::prelude::*;

use crate::error::{Result, WorldflowError};
use crate::ids::Id;
use crate::text::{chars_eq_str, chars_of, push_str};

verus! {

broadcast use vstd::string::group_string_axioms;

/// State of an idea note.
#[derive(Debug, Clone, Copy, PartialEq, Eq, Structural)]
pub enum IdeaNoteStatus {
    /// New notes start here.
    Inbox,
    /// Filed or turned into an entry.
    Processed,
    /// Put aside.
    Archived,
}

/// The stored text of a status.
pub open spec fn status_text(s: IdeaNoteStatus) -> Seq<char> {
    match s {
        IdeaNoteStatus::Inbox => "inbox"@,
        IdeaNoteStatus::Processed => "processed"@,
        IdeaNoteStatus::Archived => "archived"@,
    }
}

impl IdeaNoteStatus {
    /// The stored text of the status.
    pub fn as_str(&self) -> (r: &'static str)
        ensures
            r@ == status_text(*self),
    {
        match self {
            IdeaNoteStatus::Inbox => "inbox",
            IdeaNoteStatus::Processed => "processed",
            IdeaNoteStatus::Archived => "archived",
        }
    }

    /// The status whose stored text is `s`; any other text is refused.
    pub fn from_str(s: &str) -> (r: Result<Self>)
        ensures
            r matches Ok(st) ==> status_text(st) == s@,
            r is Err <==> (s@ != status_text(IdeaNoteStatus::Inbox) && s@ != status_text(
                IdeaNoteStatus::Processed,
            ) && s@ != status_text(IdeaNoteStatus::Archived)),
            r matches Err(e) ==> e matches WorldflowError::InvalidInput(m) && m@ == "未知便签状态: "@
                + s@,
    {
        let cs = chars_of(s);
        if chars_eq_str(cs.as_slice(), "inbox") {
            Ok(IdeaNoteStatus::Inbox)
        } else if chars_eq_str(cs.as_slice(), "processed") {
            Ok(IdeaNoteStatus::Processed)
        } else if chars_eq_str(cs.as_slice(), "archived") {
            Ok(IdeaNoteStatus::Archived)
        } else {
            let mut m = String::from_str("未知便签状态: ");
            push_str(&mut m, s);
            Err(WorldflowError::InvalidInput(m))
        }
    }
}

/// Reading back the stored text of a status gives the same status.
pub proof fn lemma_status_text_roundtrip(a: IdeaNoteStatus, b: IdeaNoteStatus)
    ensures
        status_text(a) == status_text(b) ==> a == b,
{
    reveal_strlit("inbox");
    reveal_strlit("processed");
    reveal_strlit("archived");
    if status_text(a) == status_text(b) && a != b {
        assert(status_text(a)[0] == status_text(b)[0]);
    }
}

/// An idea note.
#[derive(Debug, Clone)]
pub struct IdeaNote {
    pub id: Id,
    /// `None` for a note that belongs to no project.
    pub project_id: Option<Id>,
    pub content: String,
    pub title: Option<String>,
    pub status: IdeaNoteStatus,
    pub pinned: bool,
    pub created_at: String,
    pub updated_at: String,
    pub last_reviewed_at: Option<String>,
    pub converted_entry_id: Option<Id>,
}

/// Input for creating an idea note.
#[derive(Debug, Clone)]
pub struct CreateIdeaNote {
    pub project_id: Option<Id>,
    pub content: String,
    pub title: Option<String>,
    pub pinned: Option<bool>,
}

/// Changes to an idea note: `None` leaves a field alone, `Some(None)` clears
/// an optional one.
#[derive(Debug, Clone)]
pub struct UpdateIdeaNote {
    pub title: Option<Option<String>>,
    pub content: Option<String>,
    pub status: Option<IdeaNoteStatus>,
    pub pinned: Option<bool>,
    pub last_reviewed_at: Option<Option<String>>,
    pub converted_entry_id: Option<Option<Id>>,
}

impl UpdateIdeaNote {
    /// A change that changes nothing.
    pub fn none() -> (r: Self)
        ensures
            r.title is None && r.content is None && r.status is None && r.pinned is None
                && r.last_reviewed_at is None && r.converted_entry_id is None,
    {
        UpdateIdeaNote {
            title: None,
            content: None,
            status: None,
            pinned: None,
            last_reviewed_at: None,
            converted_entry_id: None,
        }
    }
}

/// List filter. `project_id` and `only_global` exclude each other; with
/// neither, notes of every project and the global ones are listed.
#[derive(Debug, Clone, Copy)]
pub struct IdeaNoteFilter {
    pub project_id: Option<Id>,
    pub only_global: bool,
    pub status: Option<IdeaNoteStatus>,
    pub pinned: Option<bool>,
}

impl IdeaNoteFilter {
    /// The filter that keeps every note.
    pub fn all() -> (r: Self)
        ensures
            r.project_id is None && !r.only_global && r.status is None && r.pinned is None,
    {
        IdeaNoteFilter { project_id: None, only_global: false, status: None, pinned: None }
    }
}

/// The stored value of a pinned flag.
pub fn pinned_flag(pinned: bool) -> (r: i64)
    ensures
        r == (if pinned { 1i64 } else { 0i64 }),
{
    if pinned { 1 } else { 0 }
}

/// The stored value of a note's pinned flag as given at creation (`false` when absent).
pub fn create_pinned_flag(pinned: Option<bool>) -> (r: i64)
    ensures
        r == (if pinned == Some(true) { 1i64 } else { 0i64 }),
{
    match pinned {
        Some(true) => 1,
        _ => 0,
    }
}

/// Assembles a note from the values of a stored row; the status text must
/// be a known status, and any non-zero pinned value means pinned.
pub fn idea_note_from_row(
    id: Id,
    project_id: Option<Id>,
    content: String,
    title: Option<String>,
    status: &str,
    pinned: i64,
    created_at: String,
    updated_at: String,
    last_reviewed_at: Option<String>,
    converted_entry_id: Option<Id>,
) -> (r: Result<IdeaNote>)
    ensures
        r is Err <==> (status@ != status_text(IdeaNoteStatus::Inbox) && status@ != status_text(
            IdeaNoteStatus::Processed,
        ) && status@ != status_text(IdeaNoteStatus::Archived)),
        r matches Ok(n) ==> {
            &&& n.id == id
            &&& n.project_id == project_id
            &&& n.content == content
            &&& n.title == title
            &&& status_text(n.status) == status@
            &&& n.pinned == (pinned != 0)
            &&& n.created_at == created_at
            &&& n.updated_at == updated_at
            &&& n.last_reviewed_at == last_reviewed_at
            &&& n.converted_entry_id == converted_entry_id
        },
{
    let st = IdeaNoteStatus::from_str(status)?;
    Ok(
        IdeaNote {
            id,
            project_id,
            content,
            title,
            status: st,
            pinned: pinned != 0,
            created_at,
            updated_at,
            last_reviewed_at,
            converted_entry_id,
        },
    )
}

} // verus!
