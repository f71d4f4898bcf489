//! Custom entry type decisions.
use vstd::prelude::*;

use crate::error::{Result, WorldflowError};

verus! {

broadcast use vstd::string::group_string_axioms;

/// A custom type that entries still use cannot be deleted.
pub fn entry_type_deletable(in_use: bool) -> (r: Result<()>)
    ensures
        r is Ok <==> !in_use,
        r matches Err(e) ==> e matches WorldflowError::InvalidInput(m) && m@
            == "Cannot delete entry type that is in use"@,
{
    if in_use {
        Err(WorldflowError::InvalidInput(String::from_str("Cannot delete entry type that is in use")))
    } else {
        Ok(())
    }
}

} // verus!
