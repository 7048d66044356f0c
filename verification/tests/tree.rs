use rachis::errors::tree::TreeError;
use rachis::tree::{Branch, Direction, Leaf, Tree, TreeNode, WidgetType};

fn new_id() -> u128 {
    uuid::Uuid::new_v4().as_u128()
}

fn parse_id(s: &str) -> Result<u128, uuid::Error> {
    uuid::Uuid::try_parse(s).map(|u| u.as_u128())
}

#[test]
fn test_widget_type_default() {
    let widget_type: WidgetType = Default::default();
    println!("Default WidgetType: {widget_type:#?}");
    assert_eq!(widget_type, WidgetType::Picker);
}

#[test]
fn test_direction_default() {
    let dir: Direction = Default::default();
    println!("Default Direction: {dir:#?}");
    assert_eq!(dir, Direction::Horizontal);
}

#[test]
fn test_tree_node_creates_branch() {
    let node: TreeNode = TreeNode::Branch(Default::default());
    println!("TreeNode: {node:#?}");
    assert!(matches!(node, TreeNode::Branch(_)));
}

#[test]
fn test_tree_node_creates_leaf() {
    let node: TreeNode = TreeNode::Leaf(Default::default());
    println!("TreeNode: {node:#?}");
    assert!(matches!(node, TreeNode::Leaf(_)));
}

#[test]
fn test_find_branch_in_tree_with_no_branches() {
    let tree: Tree = Default::default();
    println!("Tree: {tree:#?}");
    let branch_id: u128 = new_id();
    println!("Random Branch ID: {branch_id:#?}");
    let result: Result<&Branch, TreeError> = tree.find_branch(branch_id);
    println!("Result: {result:#?}");
    assert!(result.is_err());
}

#[test]
fn test_find_leaf_in_tree_with_no_leaves() {
    let tree: Tree = Tree { root: TreeNode::Branch(Default::default()) };
    println!("Tree: {tree:#?}");
    let leaf_id: u128 = new_id();
    println!("Random Leaf ID: {leaf_id:#?}");
    let result: Result<&Leaf, TreeError> = tree.find_leaf(leaf_id);
    println!("Result: {result:#?}");
    assert!(result.is_err());
}

#[test]
fn test_find_branch_in_tree_with_one_branch() {
    let tree: Tree = Tree { root: TreeNode::Branch(Default::default()) };
    println!("Tree: {tree:#?}");
    let branches: Vec<&Branch> = tree.root.get_branches();
    println!("Branches: {branches:#?}");
    assert!(branches.len() == 1);
    let tree_first_branch: &Branch = tree.find_branch(branches[0].id).unwrap();
    println!("First branch: {tree_first_branch:#?}");
    assert!(branches[0].id == tree_first_branch.id);
}

#[test]
fn test_find_leaf_in_tree_with_one_leaf() {
    let tree: Tree = Default::default();
    println!("Tree: {tree:#?}");
    let leaves: Vec<&Leaf> = tree.root.get_leaves();
    println!("Leaves: {leaves:#?}");
    assert!(leaves.len() == 1);
    let tree_first_leaf: &Leaf = tree.find_leaf(leaves[0].id).unwrap();
    println!("First leaf: {tree_first_leaf:#?}");
    assert!(leaves[0].id == tree_first_leaf.id);
}

#[test]
fn test_find_branch_in_tree_with_many_branches() {
    let branch: Branch = Default::default();
    println!("Branch to find: {branch:#?}");
    let tree: Tree = Tree {
        root: TreeNode::Branch(Branch {
            children: vec![
                TreeNode::Leaf(Default::default()),
                TreeNode::Branch(branch.clone()),
                TreeNode::Branch(Branch { children: vec![TreeNode::Leaf(Default::default())], ..Default::default() }),
                TreeNode::Branch(Branch {
                    children: vec![
                        TreeNode::Leaf(Default::default()),
                        TreeNode::Leaf(Default::default()),
                        TreeNode::Leaf(Default::default()),
                    ],
                    ..Default::default()
                }),
            ],
            ..Default::default()
        }),
    };
    let branches: Vec<&Branch> = tree.root.get_branches();
    println!("Branch count: {:?}", branches.len());
    assert!(branches.len() == 4);
    let found_branch: &Branch = tree.find_branch(branch.id).unwrap();
    println!("Found Branch: {found_branch:#?}");
    assert_eq!(found_branch.id, branch.id);
}

#[test]
fn test_find_leaf_in_tree_with_many_leaves() {
    let leaf: Leaf = Default::default();
    println!("Leaf to find: {leaf:#?}");
    let tree: Tree = Tree {
        root: TreeNode::Branch(Branch {
            children: vec![
                TreeNode::Leaf(leaf.clone()),
                TreeNode::Branch(Default::default()),
                TreeNode::Branch(Branch { children: vec![TreeNode::Leaf(Default::default())], ..Default::default() }),
                TreeNode::Branch(Branch {
                    children: vec![
                        TreeNode::Leaf(Default::default()),
                        TreeNode::Leaf(Default::default()),
                        TreeNode::Leaf(Default::default()),
                    ],
                    ..Default::default()
                }),
            ],
            ..Default::default()
        }),
    };
    let leaves: Vec<&Leaf> = tree.root.get_leaves();
    println!("Leaves: {leaves:#?}");
    println!("Leaf count: {:?}", leaves.len());
    assert!(leaves.len() == 5);
    let found_leaf: &Leaf = tree.find_leaf(leaf.id).unwrap();
    println!("Found Branch: {found_leaf:#?}");
    assert_eq!(found_leaf.id, leaf.id);
}

#[test]
fn test_add_leaf_to_tree_with_leaf_as_root() {
    let mut tree: Tree = Default::default();
    println!("Tree: {tree:#?}");
    let leaf_to_add: Leaf = Default::default();
    println!("Leaf: {leaf_to_add:#?}");
    let leaves_before: Vec<u128> = tree.root.get_leaves().iter().map(|l| l.id).collect::<Vec<u128>>();
    println!("Leaves before addition: {leaves_before:#?}");
    assert_eq!(leaves_before.len(), 1);
    let target_id: u128 = leaves_before[0];
    println!("Target Leaf: {target_id:#?}");
    tree.add_child(target_id, leaf_to_add.as_node(), None).unwrap();
    println!("Tree after addition: {tree:#?}");
    let branches: Vec<&Branch> = tree.root.get_branches();
    println!("Branch count: {:?}", branches.len());
    assert_eq!(branches.len(), 1);
    let leaves: Vec<&Leaf> = tree.root.get_leaves();
    println!("Leaves: {leaves:#?}");
    println!("Leaf count: {:?}", leaves.len());
    assert_eq!(leaves.len(), 2);
}

#[test]
fn test_add_multiple_leaves_to_tree_with_empty_branch_as_root() {
    let mut tree: Tree = Tree { root: TreeNode::Branch(Default::default()) };
    println!("Tree: {tree:#?}");
    let leaf_a: TreeNode = Leaf::default().as_node();
    let leaf_b: TreeNode = Leaf::default().as_node();
    println!("Leaf a: {leaf_a:#?}");
    println!("Leaf b: {leaf_b:#?}");
    let branch_id: u128 = tree.root.get_id();
    println!("Branch ID: {branch_id:#?}");
    tree.add_child(branch_id, leaf_a, None).unwrap();
    tree.add_child(branch_id, leaf_b, None).unwrap();
    println!("Tree after additions: {tree:#?}");
    let leaves: Vec<&Leaf> = tree.root.get_leaves();
    println!("Leaves: {leaves:#?}");
    assert_eq!(leaves.len(), 2);
}

#[test]
fn test_add_child_to_branch_at_index() {
    let mut tree: Tree = Tree { root: TreeNode::Branch(Default::default()) };
    println!("Tree: {tree:#?}");
    let branch_id: u128 = tree.root.get_id();
    println!("Branch ID: {branch_id:#?}");
    let leaf_a: TreeNode = TreeNode::default();
    let leaf_b: TreeNode = TreeNode::default();
    let leaf_c: TreeNode = TreeNode::default();
    println!("Leaf A: {leaf_a:#?}");
    println!("Leaf B: {leaf_b:#?}");
    println!("Leaf C: {leaf_c:#?}");
    tree.add_child(branch_id, leaf_a.clone(), None).unwrap();
    tree.add_child(branch_id, leaf_b.clone(), None).unwrap();
    tree.add_child(branch_id, leaf_c.clone(), Some(1)).unwrap();
    let branch: &Branch = tree.find_branch(branch_id).unwrap();
    println!("Branch: {branch:#?}");
    assert_eq!(branch.children.len(), 3);
    let child_at_1: &TreeNode = &branch.children[1];
    println!("Child at index 1: {child_at_1:#?}");
    assert_eq!(child_at_1.get_id(), leaf_c.get_id());
}

#[test]
fn test_add_child_target_not_found() {
    let mut tree: Tree = Default::default();
    println!("Tree before add: {tree:#?}");
    let leaf: TreeNode = Default::default();
    println!("Leaf to add: {leaf:#?}");
    let result = tree.add_child(new_id(), leaf, None);
    println!("Result: {result:#?}");
    assert!(result.is_err());
    println!("Tree after add: {tree:#?}");
}

#[test]
fn test_add_child_wraps_leaf() {
    let mut tree: Tree = Default::default();
    println!("Tree before add: {tree:#?}");
    let original_leaf_id: u128 = tree.root.get_leaves()[0].id;
    println!("Original leaf id: {original_leaf_id:#?}");
    let new_leaf: TreeNode = Default::default();
    println!("New leaf: {new_leaf:#?}");
    tree.add_child(original_leaf_id, new_leaf, None).unwrap();
    println!("Tree after add: {tree:#?}");
    match &tree.root {
        TreeNode::Branch(b) => {
            println!("Root node is a Branch");
            println!("Branch children count: {:?}", b.children.len());
            assert_eq!(b.children.len(), 2);
            println!("Branch children: {:?}", b.children);
            assert!(b.children.iter().any(|c| c.get_id() == original_leaf_id));
        }
        TreeNode::Leaf(_) => panic!("Expected root to be a Branch after wrapping Leaf"),
    }
}

#[test]
fn test_remove_child() {
    let mut tree: Tree = Tree { root: TreeNode::Branch(Default::default()) };
    println!("Tree: {tree:#?}");
    let branch_id: u128 = tree.root.get_branches()[0].id;
    println!("Branch ID: {branch_id:#?}");
    let leaf: TreeNode = TreeNode::Leaf(Leaf {
        id: parse_id("00000000-0000-0000-0000-111111111111").unwrap(),
        ..Default::default()
    });
    println!("Leaf: {leaf:#?}");
    tree.add_child(branch_id, leaf, None).unwrap();
    println!("Tree after add: {tree:#?}");
    let child_id: u128 = tree.root.get_leaves()[0].id;
    println!("Child ID: {child_id:#?}");
    let removed: TreeNode = tree.remove_child(branch_id, child_id).unwrap();
    println!("Tree after remove: {tree:#?}");
    assert_eq!(removed.get_id(), child_id);
    let leaves: Vec<&Leaf> = tree.root.get_leaves();
    assert_eq!(leaves.len(), 1);
    assert_eq!(leaves[0].widget_type, WidgetType::default());
}

#[test]
fn test_remove_child_nonexistent() {
    let mut tree: Tree = Tree { root: TreeNode::Branch(Default::default()) };
    let branch_id = tree.root.get_branches()[0].id;
    let result: Result<TreeNode, TreeError> = tree.remove_child(branch_id, new_id());
    assert!(result.is_err());
}

#[test]
fn test_remove_child_from_leaf() {
    let mut tree: Tree = Default::default();
    let leaf_id: u128 = tree.root.get_leaves()[0].id;
    let result: Result<TreeNode, TreeError> = tree.remove_child(leaf_id, new_id());
    assert!(result.is_err());
}

#[test]
fn test_split_leaf() {
    let editor_leaf: Leaf = Leaf { widget_type: WidgetType::Editor, ..Default::default() };
    let mut tree: Tree = Tree { root: TreeNode::Leaf(editor_leaf) };
    let leaf_id: u128 = tree.root.get_leaves()[0].id;
    tree.split_leaf(leaf_id, Direction::Horizontal).unwrap();
    match &tree.root {
        TreeNode::Branch(b) => {
            assert_eq!(b.children.len(), 2);
            assert_eq!(b.direction, Direction::Horizontal);
            let editor_count: usize = b
                .children
                .iter()
                .filter(|c| c.as_leaf().map_or(false, |l| l.widget_type == WidgetType::Editor))
                .count();
            assert_eq!(editor_count, 1);
            let picker_count: usize = b
                .children
                .iter()
                .filter(|c| c.as_leaf().map_or(false, |l| l.widget_type == WidgetType::Picker))
                .count();
            assert_eq!(picker_count, 1);
        }
        TreeNode::Leaf(_) => panic!("Expected root to be a Branch after split"),
    }
}

#[test]
fn test_split_leaf_vertical() {
    let mut tree: Tree = Default::default();
    let leaf_id: u128 = tree.root.get_leaves()[0].id;
    tree.split_leaf(leaf_id, Direction::Vertical).unwrap();
    match &tree.root {
        TreeNode::Branch(b) => {
            assert_eq!(b.direction, Direction::Vertical);
            assert_eq!(b.children.len(), 2);
        }
        TreeNode::Leaf(_) => panic!("Expected root to be a Branch after split"),
    }
}

#[test]
fn test_split_branch_errors() {
    let mut tree: Tree = Tree { root: TreeNode::Branch(Default::default()) };
    let branch_id = tree.root.get_branches()[0].id;
    let result = tree.split_leaf(branch_id, Direction::Horizontal);
    assert!(result.is_err());
}

#[test]
fn test_split_leaf_nonexistent() {
    let mut tree: Tree = Default::default();
    let result = tree.split_leaf(new_id(), Direction::Horizontal);
    assert!(result.is_err());
}

#[test]
fn test_collapse_empty_branch_removed() {
    let mut tree: Tree = Tree { root: TreeNode::Branch(Default::default()) };
    tree.collapse();
    match &tree.root {
        TreeNode::Leaf(l) => assert_eq!(l.widget_type, WidgetType::default()),
        TreeNode::Branch(_) => panic!("Expected empty Branch to be collapsed"),
    }
}

#[test]
fn test_collapse_singleton_branch_chain() {
    let (id1, id2) = (new_id(), new_id());
    let leaf: Leaf = Default::default();
    let inner_branch: TreeNode = TreeNode::Branch(Branch {
        id: id1,
        direction: Direction::Vertical,
        children: vec![leaf.as_node()],
        ..Default::default()
    });
    let mut tree: Tree = Tree {
        root: TreeNode::Branch(Branch { id: id2, children: vec![inner_branch], ..Default::default() }),
    };
    tree.collapse();
    match &tree.root {
        TreeNode::Branch(b) => {
            assert_eq!(b.id, id1);
            assert_eq!(b.direction, Direction::Vertical);
            assert_eq!(b.children.len(), 1);
            assert!(b.children[0].as_leaf().is_ok());
            assert_eq!(b.children[0].get_id(), leaf.id);
        }
        _ => panic!("Expected root to remain a Branch"),
    }
}

#[test]
fn test_collapse_singleton_leaf_kept() {
    let mut tree: Tree = Tree {
        root: TreeNode::Branch(Branch { children: vec![TreeNode::default()], ..Default::default() }),
    };
    tree.collapse();
    match &tree.root {
        TreeNode::Branch(b) => {
            assert_eq!(b.children.len(), 1);
            assert!(b.children[0].is_leaf());
        }
        _ => panic!("Expected root to remain a Branch"),
    }
}

#[test]
fn test_collapse_multi_child_branch_kept() {
    let (leaf_a, leaf_b) = (TreeNode::default(), TreeNode::default());
    let mut tree: Tree = Tree {
        root: TreeNode::Branch(Branch {
            id: parse_id("00000000-0000-0000-0000-000000000001").unwrap(),
            direction: Direction::Horizontal,
            children: vec![leaf_a, leaf_b],
            ratios: vec![],
        }),
    };
    tree.collapse();
    match &tree.root {
        TreeNode::Branch(b) => {
            assert_eq!(b.children.len(), 2);
        }
        _ => panic!("Expected root to remain a Branch"),
    }
}

#[test]
fn test_add_then_remove_returns_to_singleton_branch() {
    let mut tree: Tree = Default::default();
    let original_id = tree.root.get_leaves()[0].id;
    let new_leaf: TreeNode = Default::default();
    tree.add_child(original_id, new_leaf, None).unwrap();
    let branch_id: u128 = tree.root.get_branches()[0].id;
    let child_id: u128 = tree.root.get_leaves().iter().find(|l| l.id != original_id).unwrap().id;
    let _ = tree.remove_child(branch_id, child_id).unwrap();
    match &tree.root {
        TreeNode::Branch(b) => {
            assert_eq!(b.children.len(), 1);
            assert!(b.children[0].is_leaf());
            assert_eq!(b.children[0].get_id(), original_id);
        }
        _ => panic!("Expected a Branch with singleton Leaf root"),
    }
}

#[test]
fn test_complex_tree_add_remove() {
    let leaf_a: TreeNode = Default::default();
    let leaf_b: TreeNode = Default::default();
    let leaf_c: TreeNode = Default::default();
    let inner_branch_id: u128 = new_id();
    println!("{inner_branch_id}");
    let inner_branch: TreeNode = TreeNode::Branch(Branch {
        id: inner_branch_id,
        direction: Direction::Vertical,
        children: vec![leaf_b.clone(), leaf_c],
        ..Default::default()
    });
    let outer_branch_id: u128 = new_id();
    println!("{inner_branch_id}");
    let mut tree: Tree = Tree {
        root: TreeNode::Branch(Branch {
            id: outer_branch_id,
            direction: Direction::Horizontal,
            children: vec![leaf_a, inner_branch],
            ..Default::default()
        }),
    };
    println!("{tree:?}");
    assert_eq!(tree.root.get_leaves().len(), 3);
    assert_eq!(tree.root.get_branches().len(), 2);
    let removed: Result<TreeNode, TreeError> = tree.remove_child(inner_branch_id, leaf_b.get_id());
    assert!(removed.is_ok());
    assert_eq!(removed.unwrap().get_id(), leaf_b.get_id());
    assert_eq!(tree.root.get_leaves().len(), 2);
    assert_eq!(tree.root.get_branches().len(), 2);
}

#[test]
fn test_remove_cascades_upward() {
    let leaf: TreeNode = Default::default();
    let inner_branch_id: u128 = new_id();
    let inner_branch: TreeNode = TreeNode::Branch(Branch {
        id: inner_branch_id,
        direction: Direction::Vertical,
        children: vec![leaf.clone()],
        ..Default::default()
    });
    let outer_branch_id: u128 = new_id();
    let mut tree: Tree = Tree {
        root: TreeNode::Branch(Branch {
            id: outer_branch_id,
            direction: Direction::Horizontal,
            children: vec![inner_branch],
            ..Default::default()
        }),
    };
    tree.remove_child(inner_branch_id, leaf.get_id()).unwrap();
    match &tree.root {
        TreeNode::Leaf(l) => assert_eq!(l.widget_type, WidgetType::default()),
        TreeNode::Branch(_) => panic!("Expected full tree to collapse to a single Leaf"),
    }
}

#[test]
fn test_remove_branch_child_then_remaining_leaf_persists() {
    let leaf_a: TreeNode = Default::default();
    let leaf_b: TreeNode = Default::default();
    let branch_id: u128 = new_id();
    let mut tree: Tree = Tree {
        root: TreeNode::Branch(Branch { id: branch_id, children: vec![leaf_a.clone(), leaf_b], ..Default::default() }),
    };
    tree.remove_child(branch_id, leaf_a.get_id()).unwrap();
    match &tree.root {
        TreeNode::Branch(b) => {
            assert_eq!(b.children.len(), 1);
            assert!(b.children[0].is_leaf());
        }
        _ => panic!("Expected a Branch with singleton Leaf"),
    }
}

#[test]
fn set_widget_type_changes_only_that_leaf() {
    let mut tree: Tree = Default::default();
    let leaf_id: u128 = tree.root.get_id();
    let leaf: Leaf = *tree.set_widget_type(leaf_id, WidgetType::Story).unwrap();
    assert_eq!(leaf.id, leaf_id);
    assert_eq!(leaf.widget_type, WidgetType::Story);
    assert_eq!(tree.find_leaf(leaf_id).unwrap().widget_type, WidgetType::Story);
}

#[test]
fn set_widget_type_on_missing_leaf_fails() {
    let mut tree: Tree = Default::default();
    let missing: u128 = new_id();
    let result = tree.set_widget_type(missing, WidgetType::Editor);
    assert_eq!(result.unwrap_err(), TreeError::NodeNotFound(missing));
}

#[test]
fn find_node_and_find_leaf_search_at_any_depth() {
    let deep: Leaf = Default::default();
    let inner: Branch = Branch { children: vec![deep.as_node()], ..Default::default() };
    let inner_id: u128 = inner.id;
    let tree: Tree = Tree { root: TreeNode::Branch(Branch { children: vec![TreeNode::Branch(inner)], ..Default::default() }) };
    assert!(tree.find_node(inner_id).is_ok());
    assert_eq!(tree.find_node(deep.id).unwrap().get_id(), deep.id);
    let missing: u128 = new_id();
    assert_eq!(tree.find_node(missing).unwrap_err(), TreeError::NodeNotFound(missing));
    assert_eq!(tree.find_leaf(deep.id).unwrap().id, deep.id);
}

#[test]
fn get_nodes_lists_node_then_direct_children() {
    let a: TreeNode = TreeNode::default();
    let b: TreeNode = TreeNode::default();
    let branch: Branch = Branch { children: vec![a.clone(), b.clone()], ..Default::default() };
    let node: TreeNode = branch.as_node();
    let nodes: Vec<&TreeNode> = node.get_nodes();
    assert_eq!(nodes.len(), 3);
    assert_eq!(nodes[0].get_id(), branch.id);
    assert_eq!(nodes[1].get_id(), a.get_id());
    assert_eq!(nodes[2].get_id(), b.get_id());
}

#[test]
fn add_child_to_missing_target_reports_the_id() {
    let mut tree: Tree = Default::default();
    let missing: u128 = new_id();
    let result = tree.add_child(missing, TreeNode::default(), None);
    assert_eq!(result.unwrap_err(), TreeError::NodeNotFound(missing));
}

#[test]
fn set_widget_type_hands_back_the_leaf_to_change() {
    let mut tree: Tree = Default::default();
    let leaf_id: u128 = tree.root.get_id();
    let leaf: &mut Leaf = tree.set_widget_type(leaf_id, WidgetType::Editor).unwrap();
    leaf.widget_instance_id = Some(9);
    let found: &Leaf = tree.find_leaf(leaf_id).unwrap();
    assert_eq!(found.widget_type, WidgetType::Editor);
    assert_eq!(found.widget_instance_id, Some(9));
}

#[test]
fn add_child_chains() {
    let mut tree: Tree = Tree { root: TreeNode::Branch(Default::default()) };
    let branch_id: u128 = tree.root.get_id();
    tree.add_child(branch_id, TreeNode::default(), None)
        .unwrap()
        .add_child(branch_id, TreeNode::default(), Some(0))
        .unwrap();
    assert_eq!(tree.root.get_leaves().len(), 2);
}

#[test]
fn split_leaf_hands_back_the_new_branch() {
    let mut tree: Tree = Default::default();
    let leaf_id: u128 = tree.root.get_id();
    let node: &mut TreeNode = tree.split_leaf(leaf_id, Direction::Vertical).unwrap();
    let branch: &mut Branch = node.as_branch_mut().unwrap();
    assert_eq!(branch.children.len(), 2);
    assert_eq!(branch.children[0].get_id(), leaf_id);
    branch.ratios = vec![1, 3];
    match &tree.root {
        TreeNode::Branch(b) => assert_eq!(b.ratios, vec![1, 3]),
        _ => panic!("Expected a Branch"),
    }
}

#[test]
fn find_node_mut_reaches_deep_nodes() {
    let deep: Leaf = Default::default();
    let inner: Branch = Branch { children: vec![deep.as_node()], ..Default::default() };
    let mut root: TreeNode = TreeNode::Branch(Branch { children: vec![TreeNode::Branch(inner)], ..Default::default() });
    let found: &mut TreeNode = Tree::find_node_mut(&mut root, deep.id).unwrap();
    found.as_leaf_mut().unwrap().widget_type = WidgetType::Tags;
    assert_eq!(root.get_leaves()[0].widget_type, WidgetType::Tags);
    let missing: u128 = new_id();
    assert_eq!(Tree::find_node_mut(&mut root, missing).unwrap_err(), TreeError::NodeNotFound(missing));
}

#[test]
fn get_nodes_mut_gives_the_children() {
    let mut leaf: TreeNode = TreeNode::default();
    assert!(leaf.get_nodes_mut().is_empty());
    let mut node: TreeNode = Branch { children: vec![TreeNode::default(), TreeNode::default()], ..Default::default() }.as_node();
    let children: &mut [TreeNode] = node.get_nodes_mut();
    assert_eq!(children.len(), 2);
    children[1] = TreeNode::Branch(Default::default());
    assert_eq!(node.get_branches().len(), 2);
}

#[test]
fn names_of_widget_types_and_directions() {
    assert_eq!(WidgetType::Editor.to_string(), "Editor");
    assert_eq!(WidgetType::Picker.to_string(), "Picker");
    assert_eq!(WidgetType::Empty.to_string(), "Empty");
    assert_eq!(Direction::Horizontal.to_string(), "Horizontal");
    assert_eq!(Direction::Vertical.to_string(), "Vertical");
}

#[test]
fn tree_error_messages() {
    let id: u128 = parse_id("67e55044-10b1-426f-9247-bb680e5fe0c8").unwrap();
    assert_eq!(TreeError::NodeNotFound(id).message(), "Node not found: 67e55044-10b1-426f-9247-bb680e5fe0c8");
    assert_eq!(TreeError::BranchNotFound(id).message(), "Branch not found: 67e55044-10b1-426f-9247-bb680e5fe0c8");
    assert_eq!(TreeError::LeafNotFound(id).message(), "Leaf not found: 67e55044-10b1-426f-9247-bb680e5fe0c8");
    assert_eq!(TreeError::ChildNodeNotFound(id).message(), "Child not found: 67e55044-10b1-426f-9247-bb680e5fe0c8");
    assert_eq!(
        TreeError::WrongNodeKind { expected: "Leaf".to_string(), actual: "Branch".to_string() }.message(),
        "Wrong node kind: expected Leaf, actual Branch"
    );
}

#[test]
fn node_kinds() {
    let leaf: TreeNode = TreeNode::default();
    let branch: TreeNode = TreeNode::Branch(Default::default());
    assert!(leaf.is_leaf() && !leaf.is_branch());
    assert!(branch.is_branch() && !branch.is_leaf());
    assert!(branch.as_branch().unwrap().children.is_empty());
    assert_eq!(leaf.as_leaf().unwrap().widget_type, WidgetType::Picker);
}

#[test]
fn remove_child_errors_by_case() {
    let mut empty: Tree = Tree { root: TreeNode::Branch(Default::default()) };
    let before: TreeNode = empty.root.clone();
    let branch_id: u128 = empty.root.get_id();
    match empty.remove_child(branch_id, new_id()).unwrap_err() {
        TreeError::NoChildren(n) => assert_eq!(n, before),
        e => panic!("expected NoChildren, got {e:?}"),
    }
    assert_eq!(empty.root, before);

    let leaf: Leaf = Default::default();
    let mut one: Tree = Tree { root: TreeNode::Branch(Branch { children: vec![leaf.as_node()], ..Default::default() }) };
    let before: TreeNode = one.root.clone();
    let branch_id: u128 = one.root.get_id();
    let stranger: u128 = new_id();
    assert_eq!(one.remove_child(branch_id, stranger).unwrap_err(), TreeError::ChildNodeNotFound(stranger));
    assert_eq!(one.root, before);

    let missing: u128 = new_id();
    assert_eq!(one.remove_child(missing, leaf.id).unwrap_err(), TreeError::NodeNotFound(missing));
    assert_eq!(one.root, before);
}

#[test]
fn wrong_node_kind_names_the_node() {
    let id: u128 = parse_id("67e55044-10b1-426f-9247-bb680e5fe0c8").unwrap();
    let branch: TreeNode = TreeNode::Branch(Branch { id, ..Default::default() });
    assert_eq!(branch.to_string(), "Branch 67e55044-10b1-426f-9247-bb680e5fe0c8");
    assert_eq!(
        branch.as_leaf().unwrap_err(),
        TreeError::WrongNodeKind { expected: "Leaf".to_string(), actual: "Branch 67e55044-10b1-426f-9247-bb680e5fe0c8".to_string() }
    );
    let leaf: TreeNode = TreeNode::Leaf(Leaf { id, ..Default::default() });
    assert_eq!(
        leaf.as_branch().unwrap_err(),
        TreeError::WrongNodeKind { expected: "Branch".to_string(), actual: "Leaf 67e55044-10b1-426f-9247-bb680e5fe0c8".to_string() }
    );
    assert_eq!(TreeError::NoChildren(leaf.clone()).message(), "No children: Leaf 67e55044-10b1-426f-9247-bb680e5fe0c8");

    let mut tree: Tree = Tree { root: branch.clone() };
    let before: TreeNode = tree.root.clone();
    assert_eq!(
        tree.set_widget_type(id, WidgetType::Editor).unwrap_err(),
        TreeError::WrongNodeKind { expected: "Leaf".to_string(), actual: "Branch 67e55044-10b1-426f-9247-bb680e5fe0c8".to_string() }
    );
    assert_eq!(tree.root, before);
    let mut node: TreeNode = branch.clone();
    assert!(node.as_leaf_mut().is_err());
    assert_eq!(node, branch);
}
