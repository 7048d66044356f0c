//! The records that a Flight's database holds.

pub mod entity_cache;
pub mod files;
pub mod flight_meta;
pub mod workspace_layouts;
