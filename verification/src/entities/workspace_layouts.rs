//! A saved workspace layout.

use vstd::prelude::*;

verus! {

/// A workspace layout saved under a name, with its tree as JSON text.
#[derive(Clone, Debug, PartialEq)]
pub struct WorkspaceLayout {
    pub id: String,
    pub name: String,
    pub tree_json: String,
    pub saved_at: i64,
}

} // verus!
