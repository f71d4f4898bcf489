//! Projects (worlds).
use vstd::prelude::*;

use crate::ids::Id;

verus! {

/// A project.
#[derive(Debug, Clone)]
pub struct Project {
    pub id: Id,
    pub name: String,
    pub description: Option<String>,
    pub cover_image: Option<String>,
    pub created_at: String,
    pub updated_at: String,
}

/// Input for creating a project.
#[derive(Debug, Clone)]
pub struct CreateProject {
    pub name: String,
    pub description: Option<String>,
    pub cover_image: Option<String>,
}

/// Changes to a project: `None` leaves a field alone, `Some(None)` clears an
/// optional field, `Some(Some(v))` sets it.
#[derive(Debug, Clone)]
pub struct UpdateProject {
    pub name: Option<String>,
    pub description: Option<Option<String>>,
    pub cover_image: Option<Option<String>>,
}

} // verus!
