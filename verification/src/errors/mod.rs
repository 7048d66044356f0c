//! Error types of the tree operations and of the region parser.

pub mod tree;
pub mod parser;
