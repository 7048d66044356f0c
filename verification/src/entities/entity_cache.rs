//! A cached entity: one tag found in one file.

use vstd::prelude::*;

verus! {

/// One tag found in one file, cached for lookup.
#[derive(Clone, Debug, PartialEq)]
pub struct EntityCache {
    pub id: String,
    pub file_path: String,
    pub tag_text: String,
    pub prefix: Option<String>,
    pub entity_name: String,
    pub display_text: Option<String>,
    pub lock_is_global: Option<bool>,
}

} // verus!
