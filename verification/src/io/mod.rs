//! The pure decisions of the Flight I/O layer: file types, filename
//! derivation, file-walk filters and region grammars. Reading and writing
//! files happens outside the library.

pub mod context;
pub mod content;
pub mod paths;
pub mod pattern;
pub mod parser;
pub mod finder;
