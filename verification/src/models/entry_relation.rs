//! Relations between entries.
use vstd::prelude::*;

use crate::ids::Id;
use crate::text::{chars_eq_str, chars_of};

verus! {

broadcast use vstd::string::group_string_axioms;

/// Direction of a relation.
#[derive(Debug, Clone, Copy, PartialEq, Eq, Structural)]
pub enum RelationDirection {
    OneWay,
    TwoWay,
}

/// The stored text of a direction.
pub open spec fn relation_text(d: RelationDirection) -> Seq<char> {
    match d {
        RelationDirection::OneWay => "one_way"@,
        RelationDirection::TwoWay => "two_way"@,
    }
}

impl RelationDirection {
    /// The stored text of the direction.
    pub fn as_str(&self) -> (r: &'static str)
        ensures
            r@ == relation_text(*self),
    {
        match self {
            RelationDirection::OneWay => "one_way",
            RelationDirection::TwoWay => "two_way",
        }
    }

    /// The direction whose stored text is `s`, if any.
    pub fn from_str(s: &str) -> (r: Option<Self>)
        ensures
            r matches Some(d) ==> relation_text(d) == s@,
            r is None ==> s@ != relation_text(RelationDirection::OneWay) && s@ != relation_text(
                RelationDirection::TwoWay,
            ),
    {
        let cs = chars_of(s);
        if chars_eq_str(cs.as_slice(), "one_way") {
            Some(RelationDirection::OneWay)
        } else if chars_eq_str(cs.as_slice(), "two_way") {
            Some(RelationDirection::TwoWay)
        } else {
            None
        }
    }
}

/// Reading back the stored text of a direction gives the same direction.
pub proof fn lemma_relation_text_roundtrip(d: RelationDirection, e: RelationDirection)
    ensures
        relation_text(d) == relation_text(e) ==> d == e,
{
    reveal_strlit("one_way");
    reveal_strlit("two_way");
    if relation_text(d) == relation_text(e) && d != e {
        assert(relation_text(d)[0] == relation_text(e)[0]);
    }
}

/// A relation between two entries.
#[derive(Debug, Clone)]
pub struct EntryRelation {
    pub id: Id,
    pub project_id: Id,
    pub a_id: Id,
    pub b_id: Id,
    pub relation: RelationDirection,
    pub content: String,
    pub created_at: String,
    pub updated_at: String,
}

/// Input for creating a relation.
#[derive(Debug, Clone)]
pub struct CreateEntryRelation {
    pub project_id: Id,
    pub a_id: Id,
    pub b_id: Id,
    pub relation: RelationDirection,
    pub content: String,
}

/// Changes to a relation; `None` leaves a field alone.
#[derive(Debug, Clone)]
pub struct UpdateEntryRelation {
    pub relation: Option<RelationDirection>,
    pub content: Option<String>,
}

} // verus!
