//! Relation decisions: reading a stored direction, and keeping two-way
//! relations ordered when one is created or changed.
use vstd::prelude::*;

use crate::db::entry::{normalize_relation_endpoints, stored_endpoints};
use crate::error::{Result, WorldflowError};
use crate::ids::Id;
use crate::models::entry_relation::{relation_text, CreateEntryRelation, EntryRelation, RelationDirection};
use crate::text::push_str;

verus! {

broadcast use vstd::string::group_string_axioms;

/// Reads a stored direction; an unknown text is refused.
pub fn relation_from_stored(text: &str) -> (r: Result<RelationDirection>)
    ensures
        r matches Ok(d) ==> relation_text(d) == text@,
        r is Err <==> (text@ != relation_text(RelationDirection::OneWay) && text@ != relation_text(
            RelationDirection::TwoWay,
        )),
        r matches Err(e) ==> e matches WorldflowError::InvalidInput(m) && m@ == "未知的关系类型: "@ + text@,
{
    match RelationDirection::from_str(text) {
        Some(d) => Ok(d),
        None => {
            let mut m = String::from_str("未知的关系类型: ");
            push_str(&mut m, text);
            Err(WorldflowError::InvalidInput(m))
        },
    }
}

/// The endpoints a new relation is stored with.
pub fn create_relation_endpoints(input: &CreateEntryRelation) -> (r: (Id, Id))
    ensures
        r == stored_endpoints(input.a_id, input.b_id, input.relation),
{
    normalize_relation_endpoints(input.a_id, input.b_id, &input.relation)
}

/// Whether an update swaps a relation's ends: when it ends up two-way (the
/// new direction, or the old one when none is given) with the larger id
/// first.
pub fn update_needs_swap(new_relation: Option<RelationDirection>, existing: &EntryRelation) -> (r: bool)
    ensures
        r == ((match new_relation {
            Some(d) => d,
            None => existing.relation,
        }) == RelationDirection::TwoWay && existing.a_id > existing.b_id),
{
    let rel = match new_relation {
        Some(d) => d,
        None => existing.relation,
    };
    rel == RelationDirection::TwoWay && existing.a_id > existing.b_id
}

/// After an update a two-way relation has the smaller id first: the ends are
/// swapped exactly when they were out of order.
pub proof fn lemma_update_keeps_two_way_ordered(new_relation: Option<RelationDirection>, existing: EntryRelation, swap: bool)
    requires
        swap == ((match new_relation {
            Some(d) => d,
            None => existing.relation,
        }) == RelationDirection::TwoWay && existing.a_id > existing.b_id),
        (match new_relation {
            Some(d) => d,
            None => existing.relation,
        }) == RelationDirection::TwoWay,
    ensures
        (if swap { existing.b_id } else { existing.a_id }) <= (if swap { existing.a_id } else { existing.b_id }),
{
}

} // verus!
