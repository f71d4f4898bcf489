//! Category tree nodes.
use vstd::prelude::*;

use crate::ids::Id;

verus! {

/// A node of a project's category tree.
#[derive(Debug, Clone)]
pub struct Category {
    pub id: Id,
    pub project_id: Id,
    pub parent_id: Option<Id>,
    pub name: String,
    pub sort_order: i64,
    pub created_at: String,
    pub updated_at: String,
}

/// Input for creating a category.
#[derive(Debug, Clone)]
pub struct CreateCategory {
    pub project_id: Id,
    pub parent_id: Option<Id>,
    pub name: String,
    pub sort_order: Option<i64>,
}

/// Changes to a category: `parent_id` is `None` to keep the parent,
/// `Some(None)` to move to the root.
#[derive(Debug, Clone)]
pub struct UpdateCategory {
    pub parent_id: Option<Option<Id>>,
    pub name: Option<String>,
    pub sort_order: Option<i64>,
}

/// Counts of a category deleted with everything under it.
#[derive(Debug, Clone, Copy, PartialEq, Eq)]
pub struct CascadeDeleteCategoryResult {
    pub deleted_entries: usize,
    pub deleted_categories: usize,
}

/// Counts of a category deleted after moving its children to its parent.
#[derive(Debug, Clone, Copy, PartialEq, Eq)]
pub struct DeleteCategoryMoveToParentResult {
    pub moved_categories: usize,
    pub moved_entries: usize,
}

} // verus!
