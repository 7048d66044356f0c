//! A file of a Flight, as the index records it.

use vstd::prelude::*;

verus! {

/// A file of a Flight, as the index records it.
#[derive(Clone, Debug, PartialEq)]
pub struct ProjectFile {
    /// The file's UUID, as text.
    pub id: String,
    /// The path relative to the Flight directory.
    pub path: String,
    /// The title of the file.
    pub title: String,
    /// The entity type, if the file belongs to one.
    pub entity_type: Option<String>,
    /// The number of words in the file.
    pub word_count: u32,
    /// When the file was last modified, in seconds since the epoch.
    pub last_modified: i64,
    /// Whether the file is a native `.rachis` file.
    pub is_native: bool,
}

} // verus!
