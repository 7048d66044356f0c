//! Errors of the workspace tree operations.

use vstd::prelude::*;
use crate::ids::{id_to_string, uuid_text};
use crate::tree::{node_text, TreeNode};

verus! {

/// Why a tree operation did not apply.
#[derive(Debug, Clone, PartialEq, Eq)]
pub enum TreeError {
    /// The node was not found in the tree
    NodeNotFound(u128),
    /// The Branch was not found in the tree
    BranchNotFound(u128),
    /// The Leaf was not found in the tree
    LeafNotFound(u128),
    /// The node was not found among the children of the current node
    ChildNodeNotFound(u128),
    /// The node has no children (it is the wrong kind of node for the operation)
    NoChildren(TreeNode),
    /// The node is not of the expected kind
    WrongNodeKind { expected: String, actual: String },
}

/// The text that describes a tree error.
pub open spec fn tree_error_text(e: TreeError) -> Seq<char> {
    match e {
        TreeError::NodeNotFound(id) => "Node not found: "@ + uuid_text(id),
        TreeError::BranchNotFound(id) => "Branch not found: "@ + uuid_text(id),
        TreeError::LeafNotFound(id) => "Leaf not found: "@ + uuid_text(id),
        TreeError::ChildNodeNotFound(id) => "Child not found: "@ + uuid_text(id),
        TreeError::WrongNodeKind { expected, actual } => "Wrong node kind: expected "@ + expected@
            + ", actual "@ + actual@,
        TreeError::NoChildren(n) => "No children: "@ + node_text(n@),
    }
}

impl TreeError {
    /// The text that describes this error.
    pub fn message(&self) -> (r: String)
        ensures
            r@ == tree_error_text(*self),
    {
        let (head, id): (&str, u128) = match self {
            TreeError::NodeNotFound(id) => ("Node not found: ", *id),
            TreeError::BranchNotFound(id) => ("Branch not found: ", *id),
            TreeError::LeafNotFound(id) => ("Leaf not found: ", *id),
            TreeError::ChildNodeNotFound(id) => ("Child not found: ", *id),
            TreeError::WrongNodeKind { expected, actual } => {
                let mut m: String = String::from_str("Wrong node kind: expected ");
                m.append(expected.as_str());
                m.append(", actual ");
                m.append(actual.as_str());
                return m;
            },
            TreeError::NoChildren(n) => {
                let mut m: String = String::from_str("No children: ");
                let text: String = n.to_string();
                m.append(text.as_str());
                return m;
            },
        };
        let mut m: String = String::from_str(head);
        let text: String = id_to_string(id);
        m.append(text.as_str());
        m
    }
}

} // verus!
