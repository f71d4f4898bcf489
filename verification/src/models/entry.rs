//! Entries and the inputs that create, change and save them.
use vstd::prelude::*;

use crate::ids::Id;
use crate::models::entry_link::EntryLink;
use crate::models::entry_relation::{EntryRelation, RelationDirection};

verus! {

/// An image attached to an entry.
#[derive(Debug, Clone)]
pub struct FCImage {
    /// Path of the image file.
    pub path: String,
    /// Whether this image is the entry's cover.
    pub is_cover: bool,
    /// Optional caption.
    pub caption: Option<String>,
}

/// A tag value on an entry; the value is kept as its JSON text.
#[derive(Debug, Clone)]
pub struct EntryTag {
    pub schema_id: Id,
    pub value_json: String,
}

/// An entry.
#[derive(Debug, Clone)]
pub struct Entry {
    pub id: Id,
    pub project_id: Id,
    pub category_id: Option<Id>,
    pub title: String,
    pub summary: Option<String>,
    pub content: String,
    pub entry_type: Option<String>,
    pub tags: Vec<EntryTag>,
    pub images: Vec<FCImage>,
    pub cover_path: Option<String>,
    pub created_at: String,
    pub updated_at: String,
}

/// The short form of an entry used in lists.
#[derive(Debug, Clone)]
pub struct EntryBrief {
    pub id: Id,
    pub project_id: Id,
    pub category_id: Option<Id>,
    pub title: String,
    pub summary: Option<String>,
    pub entry_type: Option<String>,
    pub cover: Option<String>,
    pub updated_at: String,
}

/// Input for creating an entry. Without a `cover_path`, the cover is the
/// first image marked as cover.
#[derive(Debug, Clone)]
pub struct CreateEntry {
    pub project_id: Id,
    pub category_id: Option<Id>,
    pub title: String,
    pub summary: Option<String>,
    pub content: Option<String>,
    pub entry_type: Option<String>,
    pub tags: Option<Vec<EntryTag>>,
    pub images: Option<Vec<FCImage>>,
    pub cover_path: Option<String>,
}

/// List and count filter.
#[derive(Debug, Clone)]
pub struct EntryFilter {
    pub category_id: Option<Id>,
    pub entry_type: Option<String>,
}

/// Changes to an entry: `None` leaves a field alone, `Some(None)` clears an
/// optional field.
#[derive(Debug, Clone)]
pub struct UpdateEntry {
    pub category_id: Option<Option<Id>>,
    pub title: Option<String>,
    pub summary: Option<Option<String>>,
    pub content: Option<String>,
    pub entry_type: Option<Option<String>>,
    pub tags: Option<Vec<EntryTag>>,
    pub images: Option<Vec<FCImage>>,
    pub cover_path: Option<Option<String>>,
}

/// A relation as edited together with an entry; `id` is `None` for a new one.
#[derive(Debug, Clone)]
pub struct SaveEntryRelationPatch {
    pub id: Option<Id>,
    pub a_id: Id,
    pub b_id: Id,
    pub relation: RelationDirection,
    pub content: String,
}

/// An outgoing link target, by id or by title.
#[derive(Debug, Clone)]
pub struct SaveEntryLinkTarget {
    pub entry_id: Option<Id>,
    pub title: String,
}

/// Everything saved together with an entry.
#[derive(Debug, Clone)]
pub struct SaveEntryBundle {
    pub project_id: Id,
    pub entry_id: Id,
    pub category_id: Option<Id>,
    pub title: String,
    pub summary: Option<String>,
    pub content: String,
    pub entry_type: Option<String>,
    pub tags: Option<Vec<EntryTag>>,
    pub images: Option<Vec<FCImage>>,
    pub cover_path: Option<Option<String>>,
    pub outgoing_link_targets: Vec<SaveEntryLinkTarget>,
    pub relation_patches: Vec<SaveEntryRelationPatch>,
}

/// The entry, its links and its relations after a save.
#[derive(Debug, Clone)]
pub struct SaveEntryBundleResult {
    pub entry: Entry,
    pub outgoing_links: Vec<EntryLink>,
    pub incoming_links: Vec<EntryLink>,
    pub relations: Vec<EntryRelation>,
}

} // verus!
