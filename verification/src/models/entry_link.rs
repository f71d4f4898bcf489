//! Directed links between entries.
use vstd::prelude::*;

use crate::ids::Id;

verus! {

/// A link from entry `a_id` to entry `b_id`.
#[derive(Debug, Clone, Copy, PartialEq, Eq, Structural)]
pub struct EntryLink {
    pub id: Id,
    pub project_id: Id,
    pub a_id: Id,
    pub b_id: Id,
}

/// Input for creating a link.
#[derive(Debug, Clone, Copy, PartialEq, Eq, Structural)]
pub struct CreateEntryLink {
    pub project_id: Id,
    pub a_id: Id,
    pub b_id: Id,
}

} // verus!
