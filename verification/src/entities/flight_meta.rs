//! The metadata of a Flight.

use vstd::prelude::*;
use crate::entities::files::ProjectFile;

verus! {

/// The metadata of a Flight: its id and name, when it was created and last
/// updated, and its files.
#[derive(Clone, Debug, PartialEq)]
pub struct FlightMetadata {
    pub id: String,
    pub name: String,
    pub created_at: i64,
    pub updated_at: i64,
    pub files: Vec<ProjectFile>,
}

impl FlightMetadata {
    /// The metadata made of the given parts.
    pub fn new(id: String, name: String, created_at: i64, updated_at: i64, files: Vec<ProjectFile>) -> (r: FlightMetadata)
        ensures
            r.id@ == id@,
            r.name@ == name@,
            r.created_at == created_at,
            r.updated_at == updated_at,
            r.files@ == files@,
    {
        FlightMetadata { id, name, created_at, updated_at, files }
    }
}

} // verus!
