//! Rachis: the verified core of a writing application — tag parsing, the
//! workspace layout tree, the Flight registry and the pure decisions behind
//! file indexing.

pub mod text;
pub mod io;
pub mod tag;
pub mod ids;
pub mod time;
pub mod errors;
pub mod tree;
pub mod registry;
pub mod domain;
pub mod z_domain;
pub mod entities;
pub mod storage;
