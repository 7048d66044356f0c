//! The Flight: the top-level container of one writing project.

use vstd::prelude::*;
use crate::time::Timestamp;

verus! {

/// A Flight is the top-level container — the folder that contains everything
/// related to one specific writing project.
#[derive(Debug, Clone)]
pub struct Flight {
    /// Unique identifier for the Flight
    pub id: u128,
    /// A name given by the user to the Flight
    pub name: String,
    /// The time the Flight was created
    pub created_at: Timestamp,
    /// The time the Flight was last updated
    pub updated_at: Timestamp,
    /// Whether this Flight is favourited by the user
    pub is_favorite: bool,
}

} // verus!
