//! Application-wide settings.
use vstd::prelude::*;

verus! {

/// One global setting.
#[derive(Debug, Clone)]
pub struct AppSetting {
    pub key: String,
    pub value: String,
    pub updated_at: String,
}

} // verus!
