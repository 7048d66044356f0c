//! The workspace layout tree: Branches split their area among children along a
//! direction, Leaves hold one widget each.

pub mod laws;
pub mod ops;

use vstd::prelude::*;
use crate::errors::tree::TreeError;
use crate::ids::{new_id, uuid_text};

verus! {

/// The type of widget displayed inside a [`Leaf`].
#[derive(Debug, Clone, Copy, PartialEq, Eq, Structural)]
pub enum WidgetType {
    /// The area in which users may write their story
    Editor,
    /// A document structure view
    Outline,
    /// Author annotations and notes attached to the Flight and/or its Rachises
    Notes,
    /// High-level story metadata and progress tracking
    Story,
    /// An overview of all tags present in the Flight
    Tags,
    /// A placeholder that displays a picker menu for the user to choose a widget type
    Picker,
    /// A debug placeholder; never created by normal user interaction
    Empty,
}

impl Default for WidgetType {
    fn default() -> (r: Self)
        ensures
            r == WidgetType::Picker,
    {
        WidgetType::Picker
    }
}

/// The direction along which a [`Branch`] lays out its children.
#[derive(Debug, Clone, Copy, PartialEq, Eq, Structural)]
pub enum Direction {
    /// Children are laid out side-by-side, left to right
    Horizontal,
    /// Children are laid out top-to-bottom
    Vertical,
}

/// The name of each widget type.
pub open spec fn widget_type_text(w: WidgetType) -> Seq<char> {
    match w {
        WidgetType::Editor => "Editor"@,
        WidgetType::Outline => "Outline"@,
        WidgetType::Notes => "Notes"@,
        WidgetType::Story => "Story"@,
        WidgetType::Tags => "Tags"@,
        WidgetType::Picker => "Picker"@,
        WidgetType::Empty => "Empty"@,
    }
}

impl WidgetType {
    /// The name of this widget type.
    pub fn to_string(&self) -> (r: String)
        ensures
            r@ == widget_type_text(*self),
    {
        let t: &str = match self {
            WidgetType::Editor => "Editor",
            WidgetType::Outline => "Outline",
            WidgetType::Notes => "Notes",
            WidgetType::Story => "Story",
            WidgetType::Tags => "Tags",
            WidgetType::Picker => "Picker",
            WidgetType::Empty => "Empty",
        };
        t.to_owned()
    }
}

impl Default for Direction {
    fn default() -> (r: Self)
        ensures
            r == Direction::Horizontal,
    {
        Direction::Horizontal
    }
}

impl Direction {
    /// The name of this direction.
    pub fn to_string(&self) -> (r: String)
        ensures
            r@ == (match *self {
                Direction::Horizontal => "Horizontal"@,
                Direction::Vertical => "Vertical"@,
            }),
    {
        match self {
            Direction::Horizontal => "Horizontal".to_owned(),
            Direction::Vertical => "Vertical".to_owned(),
        }
    }
}

/// A leaf node: a widget instance at a position in the tree.
#[derive(Debug, Clone, Copy, PartialEq, Eq, Structural)]
pub struct Leaf {
    /// Unique identifier for this Leaf
    pub id: u128,
    /// The type of widget this leaf holds
    pub widget_type: WidgetType,
    /// Which specific document or context this widget displays
    pub widget_instance_id: Option<u128>,
}

/// A container node that splits its space among children.
#[derive(Debug, PartialEq, Eq)]
pub struct Branch {
    /// Unique identifier for this Branch
    pub id: u128,
    /// The direction along which children are laid out
    pub direction: Direction,
    /// Child nodes in order. 0..N children
    pub children: Vec<TreeNode>,
    /// Relative sizes for each child
    pub ratios: Vec<u32>,
}

/// A node in the tree, either a [`Branch`] or a [`Leaf`].
#[derive(Debug, PartialEq, Eq)]
pub enum TreeNode {
    /// A container that splits space among its children
    Branch(Branch),
    /// A widget instance at a position in the tree
    Leaf(Leaf),
}

/// The root of a workspace tree. Always has exactly one root node.
#[derive(Debug)]
pub struct Tree {
    /// The root of the workspace tree.
    pub root: TreeNode,
}

/// The mathematical value of a [`Branch`].
#[verifier::ext_equal]
pub struct BranchView {
    pub id: u128,
    pub direction: Direction,
    pub children: Seq<NodeView>,
    pub ratios: Seq<u32>,
}

/// The mathematical value of a [`TreeNode`].
#[verifier::ext_equal]
pub enum NodeView {
    Branch(BranchView),
    Leaf(Leaf),
}

/// The value of a node.
pub open spec fn node_view(n: TreeNode) -> NodeView
    decreases n,
{
    match n {
        TreeNode::Branch(b) => NodeView::Branch(branch_view(b)),
        TreeNode::Leaf(l) => NodeView::Leaf(l),
    }
}

/// The value of a branch.
pub open spec fn branch_view(b: Branch) -> BranchView
    decreases b,
{
    BranchView {
        id: b.id,
        direction: b.direction,
        children: nodes_view(b.children@),
        ratios: b.ratios@,
    }
}

/// The values of a sequence of nodes.
pub open spec fn nodes_view(cs: Seq<TreeNode>) -> Seq<NodeView>
    decreases cs,
{
    if cs.len() == 0 {
        Seq::empty()
    } else {
        seq![node_view(cs[0])] + nodes_view(cs.drop_first())
    }
}

impl View for TreeNode {
    type V = NodeView;

    open spec fn view(&self) -> NodeView {
        node_view(*self)
    }
}

impl View for Branch {
    type V = BranchView;

    open spec fn view(&self) -> BranchView {
        branch_view(*self)
    }
}


/// `nodes_view` is the pointwise value of the nodes.
pub proof fn lemma_nodes_view(cs: Seq<TreeNode>)
    ensures
        nodes_view(cs).len() == cs.len(),
        forall|i: int| 0 <= i < cs.len() ==> #[trigger] nodes_view(cs)[i] == node_view(cs[i]),
    decreases cs.len(),
{
    if cs.len() > 0 {
        lemma_nodes_view(cs.drop_first());
        assert forall|i: int| 0 <= i < cs.len() implies #[trigger] nodes_view(cs)[i] == node_view(
            cs[i],
        ) by {
            if i > 0 {
                assert(nodes_view(cs)[i] == nodes_view(cs.drop_first())[i - 1]);
            }
        }
    }
}

/// Two node sequences with pointwise equal values have equal values.
pub proof fn lemma_nodes_view_ext(a: Seq<TreeNode>, b: Seq<NodeView>)
    requires
        a.len() == b.len(),
        forall|i: int| 0 <= i < a.len() ==> node_view(#[trigger] a[i]) == b[i],
    ensures
        nodes_view(a) == b,
{
    lemma_nodes_view(a);
    assert(nodes_view(a) =~= b);
}

/// The identifier of a node.
pub open spec fn nid(n: NodeView) -> u128 {
    match n {
        NodeView::Branch(b) => b.id,
        NodeView::Leaf(l) => l.id,
    }
}

/// The concise text that names a node in messages: its kind and its
/// identifier, such as `Branch 67e55044-10b1-426f-9247-bb680e5fe0c8`.
pub open spec fn node_text(n: NodeView) -> Seq<char> {
    match n {
        NodeView::Branch(b) => "Branch "@ + uuid_text(b.id),
        NodeView::Leaf(l) => "Leaf "@ + uuid_text(l.id),
    }
}

/// The path (child indices from the root) of the first node in pre-order
/// whose identifier is `id`.
pub open spec fn find_path(n: NodeView, id: u128) -> Option<Seq<int>>
    decreases n, 0int,
{
    if nid(n) == id {
        Some(Seq::empty())
    } else {
        match n {
            NodeView::Leaf(_) => None,
            NodeView::Branch(b) => find_path_in(b.children, 0, id),
        }
    }
}

/// The first match among `cs[i..]`, its path starting with the child index.
pub open spec fn find_path_in(cs: Seq<NodeView>, i: int, id: u128) -> Option<Seq<int>>
    decreases cs, cs.len() - i,
{
    if 0 <= i < cs.len() {
        match find_path(cs[i], id) {
            Some(p) => Some(seq![i] + p),
            None => find_path_in(cs, i + 1, id),
        }
    } else {
        None
    }
}

/// Whether `p` leads from `n` to a node.
pub open spec fn valid_path(n: NodeView, p: Seq<int>) -> bool
    decreases p.len(),
{
    if p.len() == 0 {
        true
    } else {
        match n {
            NodeView::Branch(b) => 0 <= p[0] < b.children.len() && valid_path(
                b.children[p[0]],
                p.drop_first(),
            ),
            NodeView::Leaf(_) => false,
        }
    }
}

/// The node that `p` leads to.
pub open spec fn node_at(n: NodeView, p: Seq<int>) -> NodeView
    decreases p.len(),
{
    if p.len() == 0 {
        n
    } else {
        match n {
            NodeView::Branch(b) => if 0 <= p[0] < b.children.len() {
                node_at(b.children[p[0]], p.drop_first())
            } else {
                n
            },
            NodeView::Leaf(_) => n,
        }
    }
}

/// `n` with the node that `p` leads to replaced by `x`.
pub open spec fn replace_at(n: NodeView, p: Seq<int>, x: NodeView) -> NodeView
    decreases p.len(),
{
    if p.len() == 0 {
        x
    } else {
        match n {
            NodeView::Branch(b) => if 0 <= p[0] < b.children.len() {
                NodeView::Branch(
                    BranchView {
                        children: b.children.update(
                            p[0],
                            replace_at(b.children[p[0]], p.drop_first(), x),
                        ),
                        ..b
                    },
                )
            } else {
                n
            },
            NodeView::Leaf(_) => n,
        }
    }
}

/// A found path leads to a node with the identifier searched for.
pub proof fn lemma_find_path(n: NodeView, id: u128)
    ensures
        find_path(n, id) matches Some(p) ==> valid_path(n, p) && nid(node_at(n, p)) == id,
    decreases n, 0int,
{
    if nid(n) != id {
        if let NodeView::Branch(b) = n {
            lemma_find_path_in(b.children, 0, id);
            if let Some(p) = find_path_in(b.children, 0, id) {
                assert(p.drop_first() =~= p.subrange(1, p.len() as int));
            }
        }
    }
}

/// A path found among children starts with a valid child index.
pub proof fn lemma_find_path_in(cs: Seq<NodeView>, i: int, id: u128)
    ensures
        find_path_in(cs, i, id) matches Some(p) ==> p.len() >= 1 && 0 <= p[0] < cs.len()
            && valid_path(cs[p[0]], p.drop_first()) && nid(node_at(cs[p[0]], p.drop_first()))
            == id,
    decreases cs, cs.len() - i,
{
    if 0 <= i < cs.len() {
        lemma_find_path(cs[i], id);
        match find_path(cs[i], id) {
            Some(p) => {
                assert((seq![i] + p).drop_first() =~= p);
            },
            None => {
                lemma_find_path_in(cs, i + 1, id);
            },
        }
    }
}

/// Replacing along a valid path keeps it valid and puts `x` at its end.
pub proof fn lemma_replace_at(n: NodeView, p: Seq<int>, x: NodeView, y: NodeView)
    requires
        valid_path(n, p),
    ensures
        valid_path(replace_at(n, p, x), p),
        node_at(replace_at(n, p, x), p) == x,
        replace_at(replace_at(n, p, x), p, y) == replace_at(n, p, y),
        replace_at(n, p, node_at(n, p)) == n,
    decreases p.len(),
{
    if p.len() > 0 {
        if let NodeView::Branch(b) = n {
            let c = b.children[p[0]];
            lemma_replace_at(c, p.drop_first(), x, y);
            let b1 = BranchView {
                children: b.children.update(p[0], replace_at(c, p.drop_first(), x)),
                ..b
            };
            assert(b1.children.update(p[0], replace_at(b1.children[p[0]], p.drop_first(), y))
                =~= b.children.update(p[0], replace_at(c, p.drop_first(), y)));
            assert(b.children.update(p[0], replace_at(c, p.drop_first(), node_at(c, p.drop_first())))
                =~= b.children);
        }
    }
}

/// The placeholder node that stands in a position while its node is taken out.
pub open spec fn placeholder_view() -> NodeView {
    NodeView::Leaf(Leaf { id: 0, widget_type: WidgetType::Picker, widget_instance_id: None })
}

/// The placeholder node.
pub fn placeholder() -> (r: TreeNode)
    ensures
        r@ == placeholder_view(),
{
    TreeNode::Leaf(Leaf { id: 0, widget_type: WidgetType::Picker, widget_instance_id: None })
}

/// Integer form of a path.
pub open spec fn ints(v: Seq<usize>) -> Seq<int> {
    v.map_values(|x: usize| x as int)
}


/// The tree after collapsing: `None` when nothing is left (an empty Branch).
/// Empty Branches are removed; a Branch left with a single Branch child is
/// replaced by that child; a Branch left with a single Leaf child is kept.
pub open spec fn collapse(n: NodeView) -> Option<NodeView>
    decreases n,
{
    match n {
        NodeView::Leaf(_) => Some(n),
        NodeView::Branch(b) => {
            let cs = collapse_all(b.children);
            if cs.len() == 0 {
                None
            } else if cs.len() == 1 {
                match cs[0] {
                    NodeView::Branch(inner) => Some(NodeView::Branch(inner)),
                    NodeView::Leaf(l) => Some(
                        NodeView::Branch(BranchView { children: seq![NodeView::Leaf(l)], ..b }),
                    ),
                }
            } else {
                Some(NodeView::Branch(BranchView { children: cs, ..b }))
            }
        },
    }
}

/// The collapsed forms of the nodes that remain, in order.
pub open spec fn collapse_all(cs: Seq<NodeView>) -> Seq<NodeView>
    decreases cs,
{
    if cs.len() == 0 {
        Seq::empty()
    } else {
        match collapse(cs[0]) {
            Some(x) => seq![x] + collapse_all(cs.drop_first()),
            None => collapse_all(cs.drop_first()),
        }
    }
}

/// The two rules of a settled tree: no Branch is empty, and a Branch with a
/// single child has a Leaf as that child.
pub open spec fn well_formed(n: NodeView) -> bool
    decreases n,
{
    match n {
        NodeView::Leaf(_) => true,
        NodeView::Branch(b) => b.children.len() >= 1 && (b.children.len() == 1
            ==> b.children[0] is Leaf) && all_well_formed(b.children),
    }
}

/// Every node of `cs` is well formed.
pub open spec fn all_well_formed(cs: Seq<NodeView>) -> bool
    decreases cs,
{
    if cs.len() == 0 {
        true
    } else {
        well_formed(cs[0]) && all_well_formed(cs.drop_first())
    }
}

/// All leaves below a node, left to right.
pub open spec fn leaves(n: NodeView) -> Seq<Leaf>
    decreases n,
{
    match n {
        NodeView::Leaf(l) => seq![l],
        NodeView::Branch(b) => leaves_all(b.children),
    }
}

/// All leaves below a sequence of nodes, left to right.
pub open spec fn leaves_all(cs: Seq<NodeView>) -> Seq<Leaf>
    decreases cs,
{
    if cs.len() == 0 {
        Seq::empty()
    } else {
        leaves(cs[0]) + leaves_all(cs.drop_first())
    }
}

/// All branches at or below a node, in pre-order.
pub open spec fn branches(n: NodeView) -> Seq<BranchView>
    decreases n,
{
    match n {
        NodeView::Leaf(_) => Seq::empty(),
        NodeView::Branch(b) => seq![b] + branches_all(b.children),
    }
}

/// All branches at or below a sequence of nodes, in pre-order.
pub open spec fn branches_all(cs: Seq<NodeView>) -> Seq<BranchView>
    decreases cs,
{
    if cs.len() == 0 {
        Seq::empty()
    } else {
        branches(cs[0]) + branches_all(cs.drop_first())
    }
}

/// A node followed by its direct children (what `TreeNode::get_nodes` lists).
pub open spec fn self_and_children(n: NodeView) -> Seq<NodeView> {
    match n {
        NodeView::Leaf(_) => seq![n],
        NodeView::Branch(b) => seq![n] + b.children,
    }
}

/// The first position at or after `i` in `cs` whose node has identifier `id`.
pub open spec fn first_pos_from(cs: Seq<NodeView>, i: int, id: u128) -> Option<int>
    decreases cs.len() - i,
{
    if i < 0 || i >= cs.len() {
        None
    } else if nid(cs[i]) == id {
        Some(i)
    } else {
        first_pos_from(cs, i + 1, id)
    }
}

/// The first position in `cs` whose node has identifier `id`.
pub open spec fn first_pos(cs: Seq<NodeView>, id: u128) -> Option<int> {
    first_pos_from(cs, 0, id)
}

/// The first branch at or after `i` in `bs` with identifier `id`.
pub open spec fn first_branch_from(bs: Seq<BranchView>, i: int, id: u128) -> Option<int>
    decreases bs.len() - i,
{
    if i < 0 || i >= bs.len() {
        None
    } else if bs[i].id == id {
        Some(i)
    } else {
        first_branch_from(bs, i + 1, id)
    }
}

/// The first leaf at or after `i` in `ls` with identifier `id`.
pub open spec fn first_leaf_from(ls: Seq<Leaf>, i: int, id: u128) -> Option<int>
    decreases ls.len() - i,
{
    if i < 0 || i >= ls.len() {
        None
    } else if ls[i].id == id {
        Some(i)
    } else {
        first_leaf_from(ls, i + 1, id)
    }
}

/// `t` with `child` added: appended to a Branch's children, or inserted at
/// `index` when one is given and is at most the number of children; a Leaf is
/// replaced by a new horizontal Branch (identifier `fresh`) holding the Leaf
/// and then `child`.
pub open spec fn with_child(t: NodeView, child: NodeView, index: Option<usize>, fresh: u128)
    -> NodeView {
    match t {
        NodeView::Branch(b) => NodeView::Branch(
            BranchView {
                children: if index is Some && index->0 <= b.children.len() {
                    b.children.insert(index->0 as int, child)
                } else {
                    b.children.push(child)
                },
                ..b
            },
        ),
        NodeView::Leaf(l) => NodeView::Branch(
            BranchView {
                id: fresh,
                direction: Direction::Horizontal,
                children: seq![t, child],
                ratios: Seq::empty(),
            },
        ),
    }
}

/// A fresh Picker Leaf with identifier `fresh`.
pub open spec fn picker_leaf(fresh: u128) -> NodeView {
    NodeView::Leaf(Leaf { id: fresh, widget_type: WidgetType::Picker, widget_instance_id: None })
}

/// The identifiers that a split gave out: the new Branch's and the new Leaf's.
pub open spec fn split_ids(n: NodeView) -> (u128, u128) {
    match n {
        NodeView::Branch(b) => (b.id, nid(b.children[1])),
        NodeView::Leaf(_) => (0, 0),
    }
}

/// The Branch that splitting Leaf `l` along `direction` produces.
pub open spec fn split_of(l: Leaf, direction: Direction, fresh: u128, fresh_leaf: u128) -> NodeView {
    NodeView::Branch(
        BranchView {
            id: fresh,
            direction,
            children: seq![NodeView::Leaf(l), picker_leaf(fresh_leaf)],
            ratios: Seq::empty(),
        },
    )
}

/// The root after collapsing `mid`: its collapsed form, or a fresh Picker
/// Leaf when nothing is left.
pub open spec fn collapsed_root(root: NodeView, mid: NodeView) -> bool {
    match collapse(mid) {
        Some(x) => root == x,
        None => root is Leaf && root == picker_leaf(nid(root)),
    }
}

impl Default for Leaf {
    /// A Picker Leaf with a fresh random identifier.
    fn default() -> (r: Self)
        ensures
            r.widget_type == WidgetType::Picker,
            r.widget_instance_id is None,
            r.id != 0,
    {
        Leaf { id: new_id(), widget_type: WidgetType::Picker, widget_instance_id: None }
    }
}

impl Default for Branch {
    /// An empty horizontal Branch with a fresh random identifier.
    fn default() -> (r: Self)
        ensures
            r.id != 0,
            r.direction == Direction::Horizontal,
            r.children@.len() == 0,
            r.ratios@.len() == 0,
    {
        Branch {
            id: new_id(),
            direction: Direction::Horizontal,
            children: Vec::new(),
            ratios: Vec::new(),
        }
    }
}

impl Default for TreeNode {
    /// A fresh Picker Leaf.
    fn default() -> (r: Self)
        ensures
            r@ == picker_leaf(nid(r@)),
            nid(r@) != 0,
    {
        TreeNode::Leaf(Leaf::default())
    }
}

impl Default for Tree {
    /// A tree whose root is a fresh Picker Leaf.
    fn default() -> (r: Self)
        ensures
            r.root@ == picker_leaf(nid(r.root@)),
            nid(r.root@) != 0,
    {
        Tree { root: TreeNode::default() }
    }
}

/// A copy of a node.
pub fn clone_node(n: &TreeNode) -> (r: TreeNode)
    ensures
        r@ == n@,
    decreases n,
{
    match n {
        TreeNode::Leaf(l) => TreeNode::Leaf(*l),
        TreeNode::Branch(b) => TreeNode::Branch(clone_branch(b)),
    }
}

/// A copy of a branch.
pub fn clone_branch(b: &Branch) -> (r: Branch)
    ensures
        r@ == b@,
    decreases b,
{
    let mut children: Vec<TreeNode> = Vec::new();
    let len: usize = b.children.len();
    let mut i: usize = 0;
    proof {
        lemma_nodes_view(b.children@);
    }
    while i < len
        invariant
            len == b.children@.len(),
            i <= len,
            children@.len() == i,
            forall|k: int| 0 <= k < i ==> #[trigger] children@[k]@ == b.children@[k]@,
        decreases len - i,
    {
        proof {
            assert(decreases_to!(*b => b.children));
            assert(decreases_to!(b.children => b.children@));
            assert(decreases_to!(b.children@ => b.children@[i as int]));
        }
        let c: TreeNode = clone_node(&b.children[i]);
        children.push(c);
        i = i + 1;
    }
    let mut ratios: Vec<u32> = Vec::new();
    let rl: usize = b.ratios.len();
    let mut j: usize = 0;
    while j < rl
        invariant
            rl == b.ratios@.len(),
            j <= rl,
            ratios@ == b.ratios@.subrange(0, j as int),
        decreases rl - j,
    {
        ratios.push(b.ratios[j]);
        j = j + 1;
        assert(ratios@ =~= b.ratios@.subrange(0, j as int));
    }
    assert(ratios@ =~= b.ratios@);
    proof {
        lemma_nodes_view(b.children@);
        assert forall|k: int| 0 <= k < children@.len() implies node_view(#[trigger] children@[k])
            == nodes_view(b.children@)[k] by {
            assert(children@[k]@ == b.children@[k]@);
        }
        lemma_nodes_view_ext(children@, nodes_view(b.children@));
    }
    Branch { id: b.id, direction: b.direction, children, ratios }
}

impl Clone for Branch {
    /// A deep copy.
    fn clone(&self) -> (r: Self)
        ensures
            r@ == self@,
    {
        clone_branch(self)
    }
}

impl Clone for TreeNode {
    /// A deep copy.
    fn clone(&self) -> (r: Self)
        ensures
            r@ == self@,
    {
        clone_node(self)
    }
}

} // verus!
