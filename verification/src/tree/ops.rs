//! Structural operations on the workspace tree.

use vstd::prelude::*;
use crate::errors::tree::TreeError;
use crate::ids::id_to_string;
use crate::tree::{
    branches, branches_all, first_branch_from, first_leaf_from, leaves, leaves_all,
    self_and_children, collapse, collapse_all, collapsed_root, first_pos, first_pos_from, ints, lemma_find_path,
    lemma_nodes_view, lemma_nodes_view_ext, lemma_replace_at, nid, node_at, node_text, node_view, nodes_view,
    placeholder, placeholder_view, replace_at, find_path, find_path_in, split_ids, split_of,
    valid_path, with_child, Branch, BranchView, Direction, Leaf, NodeView, Tree, TreeNode,
    WidgetType,
};

verus! {

/// Finds the path of the first node in pre-order with identifier `id`.
pub fn locate(n: &TreeNode, id: u128) -> (r: Option<Vec<usize>>)
    ensures
        match r {
            None => find_path(n@, id) is None,
            Some(v) => find_path(n@, id) == Some(ints(v@)),
        },
    decreases n,
{
    match n {
        TreeNode::Branch(b) => {
            if b.id == id {
                assert(ints(Seq::<usize>::empty()) =~= Seq::<int>::empty());
                return Some(Vec::new());
            }
            let ghost cs = nodes_view(b.children@);
            proof {
                lemma_nodes_view(b.children@);
            }
            let len: usize = b.children.len();
            let mut i: usize = 0;
            while i < len
                invariant
                    *n == TreeNode::Branch(*b),
                    b.id != id,
                    len == b.children@.len(),
                    cs == nodes_view(b.children@),
                    cs.len() == len,
                    forall|k: int| 0 <= k < len ==> #[trigger] cs[k] == node_view(b.children@[k]),
                    i <= len,
                    find_path_in(cs, 0, id) == find_path_in(cs, i as int, id),
                decreases len - i,
            {
                let c: &TreeNode = &b.children[i];
                proof {
                    assert(decreases_to!(*n => *b));
                    assert(decreases_to!(*b => b.children));
                    assert(decreases_to!(b.children => b.children@));
                    assert(decreases_to!(b.children@ => b.children@[i as int]));
                }
                let r: Option<Vec<usize>> = locate(c, id);
                match r {
                    Some(mut v) => {
                        let ghost v0 = v@;
                        v.insert(0, i);
                        proof {
                            assert(c@ == cs[i as int]);
                            assert(find_path(cs[i as int], id) == Some(ints(v0)));
                            assert(ints(v@) =~= seq![i as int] + ints(v0));
                            assert(find_path_in(cs, i as int, id) == Some(ints(v@)));
                            assert(n@ == NodeView::Branch(b@));
                        }
                        return Some(v);
                    },
                    None => {},
                }
                i = i + 1;
            }
            None
        },
        TreeNode::Leaf(l) => {
            if l.id == id {
                assert(ints(Seq::<usize>::empty()) =~= Seq::<int>::empty());
                Some(Vec::new())
            } else {
                None
            }
        },
    }
}


proof fn lemma_path_step(path: Seq<usize>, k: int)
    requires
        0 <= k < path.len(),
    ensures
        ints(path).skip(k).len() > 0,
        ints(path).skip(k)[0] == path[k] as int,
        ints(path).skip(k).drop_first() == ints(path).skip(k + 1),
{
    assert(ints(path).skip(k).drop_first() =~= ints(path).skip(k + 1));
}

/// The node that `path[k..]` leads to.
pub fn node_ref<'a>(n: &'a TreeNode, path: &Vec<usize>, k: usize) -> (r: &'a TreeNode)
    requires
        k <= path@.len(),
        valid_path(n@, ints(path@).skip(k as int)),
    ensures
        r@ == node_at(n@, ints(path@).skip(k as int)),
    decreases path@.len() - k,
{
    if k == path.len() {
        n
    } else {
        proof {
            lemma_path_step(path@, k as int);
        }
        match n {
            TreeNode::Branch(b) => {
                let i: usize = path[k];
                proof {
                    lemma_nodes_view(b.children@);
                }
                node_ref(&b.children[i], path, k + 1)
            },
            TreeNode::Leaf(_) => n,
        }
    }
}

/// Takes out the node that `path[k..]` leads to, leaving the placeholder in its position.
pub fn take_at(n: &mut TreeNode, path: &Vec<usize>, k: usize) -> (r: TreeNode)
    requires
        k <= path@.len(),
        valid_path(old(n)@, ints(path@).skip(k as int)),
    ensures
        r@ == node_at(old(n)@, ints(path@).skip(k as int)),
        final(n)@ == replace_at(old(n)@, ints(path@).skip(k as int), placeholder_view()),
    decreases path@.len() - k,
{
    if k == path.len() {
        let mut x: TreeNode = placeholder();
        std::mem::swap(n, &mut x);
        x
    } else {
        proof {
            lemma_path_step(path@, k as int);
        }
        match n {
            TreeNode::Branch(b) => {
                let i: usize = path[k];
                let ghost old_children = b.children@;
                proof {
                    lemma_nodes_view(b.children@);
                }
                let mut c: TreeNode = b.children.remove(i);
                let r: TreeNode = take_at(&mut c, path, k + 1);
                b.children.insert(i, c);
                proof {
                    assert(b.children@ =~= old_children.update(i as int, c));
                    lemma_nodes_view(old_children);
                    lemma_nodes_view_ext(
                        b.children@,
                        nodes_view(old_children).update(i as int, c@),
                    );
                }
                r
            },
            TreeNode::Leaf(_) => placeholder(),
        }
    }
}

/// A Branch node whose children are `ob`'s with the one at `i` replaced has
/// the value of `ob` with that child's value replaced.
proof fn lemma_branch_child_update_view(ob: Branch, i: int)
    requires
        0 <= i < ob.children@.len(),
    ensures
        forall|nn: TreeNode, x: TreeNode|
            #![trigger node_view(nn), node_view(x)]
            nn is Branch && nn->Branch_0.children@ == ob.children@.update(i, x) && nn->Branch_0.id == ob.id
                && nn->Branch_0.direction == ob.direction && nn->Branch_0.ratios == ob.ratios ==> node_view(nn)
                == NodeView::Branch(
                BranchView {
                    id: ob.id,
                    direction: ob.direction,
                    children: nodes_view(ob.children@).update(i, node_view(x)),
                    ratios: ob.ratios@,
                },
            ),
{
    assert forall|nn: TreeNode, x: TreeNode|
        #![trigger node_view(nn), node_view(x)]
        nn is Branch && nn->Branch_0.children@ == ob.children@.update(i, x) && nn->Branch_0.id == ob.id
            && nn->Branch_0.direction == ob.direction && nn->Branch_0.ratios == ob.ratios implies node_view(nn)
            == NodeView::Branch(
            BranchView {
                id: ob.id,
                direction: ob.direction,
                children: nodes_view(ob.children@).update(i, node_view(x)),
                ratios: ob.ratios@,
            },
        ) by {
        lemma_nodes_view(ob.children@);
        lemma_nodes_view_ext(ob.children@.update(i, x), nodes_view(ob.children@).update(i, node_view(x)));
    }
}

/// The child at `i` of a Branch, to change in place.
fn branch_child_mut<'a>(b: &'a mut Branch, i: usize) -> (r: &'a mut TreeNode)
    requires
        i < old(b).children@.len(),
    ensures
        *r == old(b).children@[i as int],
        final(b).children@ == old(b).children@.update(i as int, *final(r)),
        final(b).id == old(b).id,
        final(b).direction == old(b).direction,
        final(b).ratios == old(b).ratios,
{
    &mut b.children[i]
}

/// The child at `i` of a Branch node, to change in place.
fn node_child_mut<'a>(n: &'a mut TreeNode, i: usize) -> (r: &'a mut TreeNode)
    requires
        *old(n) is Branch,
        i < (*old(n))->Branch_0.children@.len(),
    ensures
        *r == (*old(n))->Branch_0.children@[i as int],
        (*final(n))@ == NodeView::Branch(
            BranchView {
                id: (*old(n))->Branch_0.id,
                direction: (*old(n))->Branch_0.direction,
                children: nodes_view((*old(n))->Branch_0.children@).update(i as int, (*final(r))@),
                ratios: (*old(n))->Branch_0.ratios@,
            },
        ),
{
    proof {
        lemma_branch_child_update_view((*n)->Branch_0, i as int);
    }
    match n {
        TreeNode::Branch(b) => branch_child_mut(b, i),
        TreeNode::Leaf(_) => n,
    }
}

/// The node that `path[k..]` leads to, to change in place.
pub fn node_mut_at<'a>(n: &'a mut TreeNode, path: &Vec<usize>, k: usize) -> (r: &'a mut TreeNode)
    requires
        k <= path@.len(),
        valid_path(old(n)@, ints(path@).skip(k as int)),
    ensures
        r@ == node_at(old(n)@, ints(path@).skip(k as int)),
        final(n)@ == replace_at(old(n)@, ints(path@).skip(k as int), final(r)@),
    decreases path@.len() - k,
{
    if k == path.len() {
        n
    } else {
        proof {
            lemma_path_step(path@, k as int);
            lemma_nodes_view((*n)->Branch_0.children@);
        }
        let i: usize = path[k];
        let c: &mut TreeNode = node_child_mut(n, i);
        node_mut_at(c, path, k + 1)
    }
}

/// Replacing twice at one path is replacing once, whatever the second node.
proof fn lemma_replace_twice(n: NodeView, p: Seq<int>, x: NodeView)
    requires
        valid_path(n, p),
    ensures
        forall|y: NodeView| #[trigger] replace_at(replace_at(n, p, x), p, y) == replace_at(n, p, y),
{
    assert forall|y: NodeView| #[trigger] replace_at(replace_at(n, p, x), p, y) == replace_at(n, p, y) by {
        lemma_replace_at(n, p, x, y);
    }
}

/// Puts `x` in the position that `path[k..]` leads to.
pub fn put_at(n: &mut TreeNode, path: &Vec<usize>, k: usize, x: TreeNode)
    requires
        k <= path@.len(),
        valid_path(old(n)@, ints(path@).skip(k as int)),
    ensures
        final(n)@ == replace_at(old(n)@, ints(path@).skip(k as int), x@),
    decreases path@.len() - k,
{
    if k == path.len() {
        *n = x;
    } else {
        proof {
            lemma_path_step(path@, k as int);
        }
        match n {
            TreeNode::Branch(b) => {
                let i: usize = path[k];
                let ghost old_children = b.children@;
                proof {
                    lemma_nodes_view(b.children@);
                }
                let mut c: TreeNode = b.children.remove(i);
                put_at(&mut c, path, k + 1, x);
                b.children.insert(i, c);
                proof {
                    assert(b.children@ =~= old_children.update(i as int, c));
                    lemma_nodes_view(old_children);
                    lemma_nodes_view_ext(
                        b.children@,
                        nodes_view(old_children).update(i as int, c@),
                    );
                }
            },
            TreeNode::Leaf(_) => {},
        }
    }
}


/// The values of the nodes from position `k` on.
proof fn lemma_nodes_view_skip(cs: Seq<TreeNode>, k: int)
    requires
        0 <= k <= cs.len(),
    ensures
        nodes_view(cs.skip(k)) == nodes_view(cs).skip(k),
{
    lemma_nodes_view(cs);
    lemma_nodes_view(cs.skip(k));
    assert(nodes_view(cs.skip(k)) =~= nodes_view(cs).skip(k));
}

/// Collapses a node bottom-up: `None` when it is an empty Branch (after its
/// own children were collapsed), otherwise its collapsed form.
pub fn collapse_node(node: TreeNode) -> (r: Option<TreeNode>)
    ensures
        match r {
            Some(x) => collapse(node@) == Some(x@),
            None => collapse(node@) is None,
        },
    decreases node,
{
    match node {
        TreeNode::Leaf(l) => Some(TreeNode::Leaf(l)),
        TreeNode::Branch(b) => {
            let ghost gb = b;
            let ghost cv = nodes_view(b.children@);
            let Branch { id, direction, children, ratios } = b;
            let mut rest: Vec<TreeNode> = children;
            let mut kept: Vec<TreeNode> = Vec::new();
            let ghost mut k: int = 0;
            proof {
                lemma_nodes_view(gb.children@);
                assert(gb.children@.skip(0) =~= gb.children@);
                assert(nodes_view(kept@) =~= Seq::<NodeView>::empty());
                assert(cv.skip(0) =~= cv);
            }
            while rest.len() > 0
                invariant
                    node == TreeNode::Branch(gb),
                    cv == nodes_view(gb.children@),
                    0 <= k <= gb.children@.len(),
                    rest@ == gb.children@.skip(k),
                    collapse_all(cv) == nodes_view(kept@) + collapse_all(cv.skip(k)),
                decreases rest@.len(),
            {
                let ghost before = kept@;
                let c: TreeNode = rest.remove(0);
                proof {
                    assert(c == gb.children@[k]);
                    assert(decreases_to!(node => node->Branch_0));
                    assert(decreases_to!(gb => gb.children));
                    assert(decreases_to!(gb.children => gb.children@));
                    assert(decreases_to!(gb.children@ => gb.children@[k]));
                    lemma_nodes_view_skip(gb.children@, k);
                    lemma_nodes_view_skip(gb.children@, k + 1);
                    lemma_nodes_view(gb.children@);
                    assert(cv.skip(k).drop_first() =~= cv.skip(k + 1));
                    assert(cv.skip(k)[0] == c@);
                    assert(rest@ =~= gb.children@.skip(k + 1));
                }
                let r: Option<TreeNode> = collapse_node(c);
                match r {
                    Some(x) => {
                        kept.push(x);
                        proof {
                            assert(kept@ =~= before.push(x));
                            lemma_nodes_view(kept@);
                            lemma_nodes_view(before);
                            lemma_nodes_view_ext(kept@, nodes_view(before).push(x@));
                            assert(nodes_view(before) + collapse_all(cv.skip(k)) =~= nodes_view(
                                before,
                            ).push(x@) + collapse_all(cv.skip(k + 1)));
                        }
                    },
                    None => {},
                }
                proof {
                    k = k + 1;
                }
            }
            proof {
                assert(cv.skip(k).len() == 0);
                assert(nodes_view(kept@) + collapse_all(cv.skip(k)) =~= nodes_view(kept@));
                lemma_nodes_view(kept@);
            }
            let count: usize = kept.len();
            if count == 0 {
                None
            } else if count == 1 {
                let only: TreeNode = kept.remove(0);
                match only {
                    TreeNode::Branch(inner) => Some(TreeNode::Branch(inner)),
                    TreeNode::Leaf(l) => {
                        let mut one: Vec<TreeNode> = Vec::new();
                        one.push(TreeNode::Leaf(l));
                        proof {
                            lemma_nodes_view(one@);
                            assert(nodes_view(one@) =~= seq![NodeView::Leaf(l)]);
                        }
                        Some(
                            TreeNode::Branch(Branch { id, direction, children: one, ratios }),
                        )
                    },
                }
            } else {
                Some(TreeNode::Branch(Branch { id, direction, children: kept, ratios }))
            }
        },
    }
}


/// The values of a list of leaf references.
pub open spec fn leaf_values(s: Seq<&Leaf>) -> Seq<Leaf> {
    s.map_values(|l: &Leaf| *l)
}

/// The values of a list of branch references.
pub open spec fn branch_values(s: Seq<&Branch>) -> Seq<BranchView> {
    s.map_values(|b: &Branch| b@)
}

/// The values of a list of node references.
pub open spec fn node_values(s: Seq<&TreeNode>) -> Seq<NodeView> {
    s.map_values(|n: &TreeNode| n@)
}

proof fn lemma_skip_unfold<A>(cs: Seq<A>, i: int)
    requires
        0 <= i < cs.len(),
    ensures
        cs.skip(i).len() > 0,
        cs.skip(i)[0] == cs[i],
        cs.skip(i).drop_first() == cs.skip(i + 1),
{
    assert(cs.skip(i).drop_first() =~= cs.skip(i + 1));
}

impl Branch {
    /// Returns this Branch as a node (a copy).
    pub fn as_node(&self) -> (r: TreeNode)
        ensures
            r@ == NodeView::Branch(self@),
    {
        TreeNode::Branch(self.clone())
    }

    /// Returns a reference to each child node in this Branch.
    pub fn get_nodes(&self) -> (r: Vec<&TreeNode>)
        ensures
            node_values(r@) == self@.children,
    {
        let mut r: Vec<&TreeNode> = Vec::new();
        let len: usize = self.children.len();
        let mut i: usize = 0;
        proof {
            lemma_nodes_view(self.children@);
        }
        while i < len
            invariant
                len == self.children@.len(),
                self@.children == nodes_view(self.children@),
                self@.children.len() == len,
                forall|k: int| 0 <= k < len ==> #[trigger] self@.children[k] == self.children@[k]@,
                i <= len,
                node_values(r@) == self@.children.take(i as int),
            decreases len - i,
        {
            let ghost before = r@;
            let c: &TreeNode = &self.children[i];
            r.push(c);
            proof {
                assert(r@ == before.push(c));
                assert(c@ == self@.children[i as int]);
                assert(node_values(r@) =~= node_values(before).push(c@));
            }
            i = i + 1;
            assert(node_values(r@) =~= self@.children.take(i as int));
        }
        assert(self@.children.take(len as int) =~= self@.children);
        r
    }

    /// Returns a reference to each Branch below this Branch, in pre-order.
    pub fn get_branches(&self) -> (r: Vec<&Branch>)
        ensures
            branch_values(r@) == branches_all(self@.children),
        decreases self,
    {
        let mut r: Vec<&Branch> = Vec::new();
        let len: usize = self.children.len();
        let ghost cs = self@.children;
        let mut i: usize = 0;
        proof {
            lemma_nodes_view(self.children@);
            assert(cs.skip(0) =~= cs);
            assert(branch_values(r@) =~= Seq::<BranchView>::empty());
        }
        while i < len
            invariant
                len == self.children@.len(),
                cs == self@.children,
                cs == nodes_view(self.children@),
                cs.len() == len,
                forall|k: int| 0 <= k < len ==> #[trigger] cs[k] == self.children@[k]@,
                i <= len,
                branches_all(cs) == branch_values(r@) + branches_all(cs.skip(i as int)),
            decreases len - i,
        {
            proof {
                lemma_skip_unfold(cs, i as int);
            }
            let ghost before = branch_values(r@);
            match &self.children[i] {
                TreeNode::Branch(b) => {
                    proof {
                        assert(decreases_to!(*self => self.children));
                        assert(decreases_to!(self.children => self.children@));
                        assert(decreases_to!(self.children@ => self.children@[i as int]));
                        assert(decreases_to!(self.children@[i as int] => self.children@[i as int]->Branch_0));
                    }
                    r.push(b);
                    let mut sub: Vec<&Branch> = b.get_branches();
                    let ghost subv = branch_values(sub@);
                    let ghost mid = r@;
                    r.append(&mut sub);
                    proof {
                        assert(branch_values(r@) =~= before.push(b@) + subv);
                        assert(branches(cs[i as int]) =~= seq![b@] + branches_all(b@.children));
                        assert(branch_values(r@) + branches_all(cs.skip(i + 1)) =~= before
                            + branches(cs[i as int]) + branches_all(cs.skip(i + 1)));
                    }
                },
                TreeNode::Leaf(_) => {
                    proof {
                        assert(branches(cs[i as int]) =~= Seq::<BranchView>::empty());
                        assert(before + branches_all(cs.skip(i as int)) =~= before
                            + branches_all(cs.skip(i + 1)));
                    }
                },
            }
            i = i + 1;
        }
        proof {
            assert(cs.skip(len as int).len() == 0);
            assert(branch_values(r@) + branches_all(cs.skip(len as int)) =~= branch_values(r@));
        }
        r
    }

    /// Returns a reference to each Leaf below this Branch, left to right.
    pub fn get_leaves(&self) -> (r: Vec<&Leaf>)
        ensures
            leaf_values(r@) == leaves_all(self@.children),
        decreases self,
    {
        let mut r: Vec<&Leaf> = Vec::new();
        let len: usize = self.children.len();
        let ghost cs = self@.children;
        let mut i: usize = 0;
        proof {
            lemma_nodes_view(self.children@);
            assert(cs.skip(0) =~= cs);
            assert(leaf_values(r@) =~= Seq::<Leaf>::empty());
        }
        while i < len
            invariant
                len == self.children@.len(),
                cs == self@.children,
                cs == nodes_view(self.children@),
                cs.len() == len,
                forall|k: int| 0 <= k < len ==> #[trigger] cs[k] == self.children@[k]@,
                i <= len,
                leaves_all(cs) == leaf_values(r@) + leaves_all(cs.skip(i as int)),
            decreases len - i,
        {
            proof {
                lemma_skip_unfold(cs, i as int);
                assert(decreases_to!(*self => self.children));
                assert(decreases_to!(self.children => self.children@));
                assert(decreases_to!(self.children@ => self.children@[i as int]));
            }
            let ghost before = leaf_values(r@);
            let mut sub: Vec<&Leaf> = self.children[i].get_leaves();
            let ghost subv = leaf_values(sub@);
            r.append(&mut sub);
            proof {
                assert(leaf_values(r@) =~= before + subv);
                assert(leaf_values(r@) + leaves_all(cs.skip(i + 1)) =~= before + leaves(
                    cs[i as int],
                ) + leaves_all(cs.skip(i + 1)));
            }
            i = i + 1;
        }
        proof {
            assert(cs.skip(len as int).len() == 0);
            assert(leaf_values(r@) + leaves_all(cs.skip(len as int)) =~= leaf_values(r@));
        }
        r
    }
}

impl Leaf {
    /// Returns this Leaf as a node.
    pub fn as_node(&self) -> (r: TreeNode)
        ensures
            r@ == NodeView::Leaf(*self),
    {
        TreeNode::Leaf(*self)
    }
}

impl TreeNode {
    /// Whether this node is a Branch.
    pub fn is_branch(&self) -> (r: bool)
        ensures
            r == (self@ is Branch),
    {
        match self {
            TreeNode::Branch(_) => true,
            TreeNode::Leaf(_) => false,
        }
    }

    /// Whether this node is a Leaf.
    pub fn is_leaf(&self) -> (r: bool)
        ensures
            r == (self@ is Leaf),
    {
        match self {
            TreeNode::Branch(_) => false,
            TreeNode::Leaf(_) => true,
        }
    }

    /// The concise text that names this node: its kind and its identifier
    /// (see [`node_text`]).
    pub fn to_string(&self) -> (r: String)
        ensures
            r@ == node_text(self@),
    {
        let (kind, id): (&str, u128) = match self {
            TreeNode::Branch(b) => ("Branch ", b.id),
            TreeNode::Leaf(l) => ("Leaf ", l.id),
        };
        let mut t: String = String::from_str(kind);
        let text: String = id_to_string(id);
        t.append(text.as_str());
        t
    }

    /// This node as a Leaf; a Branch gives `WrongNodeKind`, expecting "Leaf"
    /// and naming the node.
    pub fn as_leaf(&self) -> (r: Result<&Leaf, TreeError>)
        ensures
            self@ is Leaf ==> (r matches Ok(l) && NodeView::Leaf(*l) == self@),
            self@ is Branch ==> (r matches Err(TreeError::WrongNodeKind { expected, actual })
                && expected@ == "Leaf"@ && actual@ == node_text(self@)),
    {
        match self {
            TreeNode::Leaf(leaf) => Ok(leaf),
            TreeNode::Branch(_) => Err(
                TreeError::WrongNodeKind { expected: String::from_str("Leaf"), actual: self.to_string() },
            ),
        }
    }

    /// This node as a Branch; a Leaf gives `WrongNodeKind`, expecting
    /// "Branch" and naming the node.
    pub fn as_branch(&self) -> (r: Result<&Branch, TreeError>)
        ensures
            self@ is Branch ==> (r matches Ok(b) && NodeView::Branch(b@) == self@),
            self@ is Leaf ==> (r matches Err(TreeError::WrongNodeKind { expected, actual })
                && expected@ == "Branch"@ && actual@ == node_text(self@)),
    {
        match self {
            TreeNode::Branch(branch) => Ok(branch),
            TreeNode::Leaf(_) => Err(
                TreeError::WrongNodeKind { expected: String::from_str("Branch"), actual: self.to_string() },
            ),
        }
    }

    /// This node as a Leaf, to change in place; a Branch gives
    /// `WrongNodeKind`, expecting "Leaf" and naming the node, and is left as
    /// it is.
    pub fn as_leaf_mut(&mut self) -> (r: Result<&mut Leaf, TreeError>)
        ensures
            old(self)@ is Leaf ==> (r matches Ok(l) && NodeView::Leaf(*l) == old(self)@ && *final(self) == TreeNode::Leaf(*final(l))),
            old(self)@ is Branch ==> (r matches Err(TreeError::WrongNodeKind { expected, actual })
                && expected@ == "Leaf"@ && actual@ == node_text(old(self)@) && *final(self) == *old(self)),
    {
        let text: String = self.to_string();
        match self {
            TreeNode::Leaf(leaf) => Ok(leaf),
            TreeNode::Branch(_) => Err(
                TreeError::WrongNodeKind { expected: String::from_str("Leaf"), actual: text },
            ),
        }
    }

    /// This node as a Branch, to change in place; a Leaf gives
    /// `WrongNodeKind`, expecting "Branch" and naming the node, and is left as
    /// it is.
    pub fn as_branch_mut(&mut self) -> (r: Result<&mut Branch, TreeError>)
        ensures
            old(self)@ is Branch ==> (r matches Ok(b) && NodeView::Branch(b@) == old(self)@ && *final(self) == TreeNode::Branch(*final(b))),
            old(self)@ is Leaf ==> (r matches Err(TreeError::WrongNodeKind { expected, actual })
                && expected@ == "Branch"@ && actual@ == node_text(old(self)@) && *final(self) == *old(self)),
    {
        let text: String = self.to_string();
        match self {
            TreeNode::Branch(branch) => Ok(branch),
            TreeNode::Leaf(_) => Err(
                TreeError::WrongNodeKind { expected: String::from_str("Branch"), actual: text },
            ),
        }
    }

    /// The children of this node, to change in place: a Branch's children, or
    /// nothing for a Leaf.
    pub fn get_nodes_mut(&mut self) -> (r: &mut [TreeNode])
        ensures
            *old(self) is Leaf ==> r@.len() == 0 && *final(self) == *old(self),
            *old(self) is Branch ==> r@ == (*old(self))->Branch_0.children@ && *final(self) is Branch
                && (*final(self))->Branch_0.children@ == final(r)@ && (*final(self))->Branch_0.id == (
            *old(self))->Branch_0.id && (*final(self))->Branch_0.direction == (*old(self))->Branch_0.direction
                && (*final(self))->Branch_0.ratios == (*old(self))->Branch_0.ratios,
    {
        match self {
            TreeNode::Branch(branch) => branch.children.as_mut_slice(),
            TreeNode::Leaf(_) => &mut [],
        }
    }

    /// This node followed by its direct children.
    pub fn get_nodes(&self) -> (r: Vec<&TreeNode>)
        ensures
            node_values(r@) == self_and_children(self@),
    {
        let mut r: Vec<&TreeNode> = Vec::new();
        r.push(self);
        match self {
            TreeNode::Branch(branch) => {
                let mut rest: Vec<&TreeNode> = branch.get_nodes();
                let ghost restv = node_values(rest@);
                r.append(&mut rest);
                assert(node_values(r@) =~= seq![self@] + restv);
            },
            TreeNode::Leaf(_) => {
                assert(node_values(r@) =~= seq![self@]);
            },
        }
        r
    }

    /// All leaves stemming from this node downwards, left to right.
    pub fn get_leaves(&self) -> (r: Vec<&Leaf>)
        ensures
            leaf_values(r@) == leaves(self@),
        decreases self,
    {
        match self {
            TreeNode::Branch(branch) => branch.get_leaves(),
            TreeNode::Leaf(leaf) => {
                let mut r: Vec<&Leaf> = Vec::new();
                r.push(leaf);
                assert(leaf_values(r@) =~= seq![*leaf]);
                r
            },
        }
    }

    /// All branches at or below this node, in pre-order.
    pub fn get_branches(&self) -> (r: Vec<&Branch>)
        ensures
            branch_values(r@) == branches(self@),
    {
        match self {
            TreeNode::Branch(branch) => {
                let mut r: Vec<&Branch> = Vec::new();
                r.push(branch);
                let mut rest: Vec<&Branch> = branch.get_branches();
                let ghost restv = branch_values(rest@);
                r.append(&mut rest);
                assert(branch_values(r@) =~= seq![branch@] + restv);
                r
            },
            TreeNode::Leaf(_) => {
                let r: Vec<&Branch> = Vec::new();
                assert(branch_values(r@) =~= Seq::<BranchView>::empty());
                r
            },
        }
    }

    /// The identifier of this node.
    pub fn get_id(&self) -> (r: u128)
        ensures
            r == nid(self@),
    {
        match self {
            TreeNode::Branch(b) => b.id,
            TreeNode::Leaf(l) => l.id,
        }
    }
}

/// The first position in `cs` whose node has identifier `id`.
fn position_of(cs: &Vec<TreeNode>, id: u128) -> (r: Option<usize>)
    ensures
        match r {
            None => first_pos(nodes_view(cs@), id) is None,
            Some(k) => first_pos(nodes_view(cs@), id) == Some(k as int) && k < cs@.len(),
        },
{
    let ghost v = nodes_view(cs@);
    proof {
        lemma_nodes_view(cs@);
    }
    let len: usize = cs.len();
    let mut i: usize = 0;
    while i < len
        invariant
            len == cs@.len(),
            v == nodes_view(cs@),
            v.len() == len,
            forall|k: int| 0 <= k < len ==> #[trigger] v[k] == node_view(cs@[k]),
            i <= len,
            first_pos_from(v, 0, id) == first_pos_from(v, i as int, id),
        decreases len - i,
    {
        if cs[i].get_id() == id {
            return Some(i);
        }
        i = i + 1;
    }
    None
}

proof fn lemma_path_zero(path: Seq<usize>)
    ensures
        ints(path).skip(0) == ints(path),
{
    assert(ints(path).skip(0) =~= ints(path));
}

impl Tree {
    /// Finds a node by its identifier, at any depth: the first node in
    /// pre-order with identifier `node_id`.
    pub fn find_node(&self, node_id: u128) -> (r: Result<&TreeNode, TreeError>)
        ensures
            match find_path(self.root@, node_id) {
                None => r == Err::<&TreeNode, TreeError>(TreeError::NodeNotFound(node_id)),
                Some(p) => r matches Ok(n) && n@ == node_at(self.root@, p),
            },
    {
        match locate(&self.root, node_id) {
            None => Err(TreeError::NodeNotFound(node_id)),
            Some(path) => {
                proof {
                    lemma_find_path(self.root@, node_id);
                    lemma_path_zero(path@);
                }
                Ok(node_ref(&self.root, &path, 0))
            },
        }
    }

    /// Finds the first Branch (in pre-order) with identifier `branch_id`.
    pub fn find_branch(&self, branch_id: u128) -> (r: Result<&Branch, TreeError>)
        ensures
            match first_branch_from(branches(self.root@), 0, branch_id) {
                None => r == Err::<&Branch, TreeError>(TreeError::BranchNotFound(branch_id)),
                Some(k) => r matches Ok(b) && b@ == branches(self.root@)[k],
            },
    {
        let bs: Vec<&Branch> = self.root.get_branches();
        let ghost v = branches(self.root@);
        let len: usize = bs.len();
        let mut i: usize = 0;
        while i < len
            invariant
                len == bs@.len(),
                branch_values(bs@) == v,
                v == branches(self.root@),
                v.len() == len,
                i <= len,
                first_branch_from(v, 0, branch_id) == first_branch_from(v, i as int, branch_id),
            decreases len - i,
        {
            let b: &Branch = bs[i];
            proof {
                assert(b@ == v[i as int]);
            }
            if b.id == branch_id {
                assert(first_branch_from(v, i as int, branch_id) == Some(i as int));
                return Ok(b);
            }
            i = i + 1;
        }
        Err(TreeError::BranchNotFound(branch_id))
    }

    /// Finds the first Leaf (left to right) with identifier `leaf_id`.
    pub fn find_leaf(&self, leaf_id: u128) -> (r: Result<&Leaf, TreeError>)
        ensures
            match first_leaf_from(leaves(self.root@), 0, leaf_id) {
                None => r == Err::<&Leaf, TreeError>(TreeError::LeafNotFound(leaf_id)),
                Some(k) => r matches Ok(l) && *l == leaves(self.root@)[k],
            },
    {
        let ls: Vec<&Leaf> = self.root.get_leaves();
        let ghost v = leaves(self.root@);
        let len: usize = ls.len();
        let mut i: usize = 0;
        while i < len
            invariant
                len == ls@.len(),
                leaf_values(ls@) == v,
                v == leaves(self.root@),
                v.len() == len,
                i <= len,
                first_leaf_from(v, 0, leaf_id) == first_leaf_from(v, i as int, leaf_id),
            decreases len - i,
        {
            let l: &Leaf = ls[i];
            proof {
                assert(*l == v[i as int]);
            }
            if l.id == leaf_id {
                assert(first_leaf_from(v, i as int, leaf_id) == Some(i as int));
                return Ok(l);
            }
            i = i + 1;
        }
        Err(TreeError::LeafNotFound(leaf_id))
    }

    /// Finds the first node in pre-order with identifier `target_id`, from
    /// `node` down, to change in place.
    pub fn find_node_mut(node: &mut TreeNode, target_id: u128) -> (r: Result<&mut TreeNode, TreeError>)
        ensures
            match find_path(old(node)@, target_id) {
                None => r matches Err(e) && e == TreeError::NodeNotFound(target_id) && *final(node) == *old(node),
                Some(p) => r matches Ok(m) && m@ == node_at(old(node)@, p) && final(node)@ == replace_at(
                    old(node)@,
                    p,
                    final(m)@,
                ),
            },
    {
        let ghost old_node = node@;
        match locate(node, target_id) {
            None => Err(TreeError::NodeNotFound(target_id)),
            Some(path) => {
                proof {
                    lemma_find_path(old_node, target_id);
                    lemma_path_zero(path@);
                }
                Ok(node_mut_at(node, &path, 0))
            },
        }
    }

    /// Collapses the tree bottom-up, removing empty Branches and flattening
    /// singleton Branch chains; when nothing is left the root becomes a fresh
    /// Picker Leaf.
    pub fn collapse(&mut self)
        ensures
            collapsed_root(final(self).root@, old(self).root@),
    {
        let mut old_root: TreeNode = placeholder();
        std::mem::swap(&mut self.root, &mut old_root);
        match collapse_node(old_root) {
            Some(new_root) => {
                self.root = new_root;
            },
            None => {
                self.root = TreeNode::default();
            },
        }
    }

    /// Adds `child_node` to the first node (in pre-order) with identifier
    /// `target_id`: a Branch gets it at `index` (when given and at most its
    /// number of children) or at the end; a Leaf is replaced by a new
    /// horizontal Branch holding the Leaf and then the child.
    pub fn add_child(&mut self, target_id: u128, child_node: TreeNode, index: Option<usize>) -> (r:
        Result<&mut Tree, TreeError>)
        ensures
            match find_path(old(self).root@, target_id) {
                None => r matches Err(e) && e == TreeError::NodeNotFound(target_id) && final(self).root@ == old(
                    self,
                ).root@,
                Some(p) => r matches Ok(t) && t.root@ == replace_at(
                    old(self).root@,
                    p,
                    with_child(node_at(old(self).root@, p), child_node@, index, nid(node_at(t.root@, p))),
                ) && *final(self) == *final(t),
            },
    {
        let ghost old_root = self.root@;
        match locate(&self.root, target_id) {
            None => Err(TreeError::NodeNotFound(target_id)),
            Some(path) => {
                let ghost p = ints(path@);
                proof {
                    lemma_find_path(old_root, target_id);
                    lemma_path_zero(path@);
                }
                let t: TreeNode = take_at(&mut self.root, &path, 0);
                let ghost tv = t@;
                let new_t: TreeNode = match t {
                    TreeNode::Branch(mut b) => {
                        let ghost old_children = b.children@;
                        let len: usize = b.children.len();
                        let at_index: bool = match index {
                            Some(i) => i <= len,
                            None => false,
                        };
                        if at_index {
                            let i: usize = index.unwrap();
                            b.children.insert(i, child_node);
                            proof {
                                lemma_nodes_view(old_children);
                                lemma_nodes_view(b.children@);
                                lemma_nodes_view_ext(
                                    b.children@,
                                    nodes_view(old_children).insert(i as int, child_node@),
                                );
                            }
                        } else {
                            b.children.push(child_node);
                            proof {
                                lemma_nodes_view(old_children);
                                lemma_nodes_view(b.children@);
                                lemma_nodes_view_ext(
                                    b.children@,
                                    nodes_view(old_children).push(child_node@),
                                );
                            }
                        }
                        TreeNode::Branch(b)
                    },
                    TreeNode::Leaf(l) => {
                        let mut b: Branch = Branch::default();
                        b.children.push(TreeNode::Leaf(l));
                        b.children.push(child_node);
                        proof {
                            lemma_nodes_view(b.children@);
                            lemma_nodes_view_ext(
                                b.children@,
                                seq![NodeView::Leaf(l), child_node@],
                            );
                            assert(b.ratios@ =~= Seq::<u32>::empty());
                        }
                        TreeNode::Branch(b)
                    },
                };
                proof {
                    lemma_replace_at(old_root, p, placeholder_view(), new_t@);
                    lemma_replace_at(old_root, p, new_t@, new_t@);
                }
                put_at(&mut self.root, &path, 0, new_t);
                Ok(self)
            },
        }
    }

    /// Removes the child with identifier `child_id` from the first node with
    /// identifier `branch_id`, then collapses the tree (see [`Tree::collapse`]).
    /// A Leaf, or a Branch without children, gives `NoChildren`; a Branch with
    /// children none of which has that identifier gives `ChildNodeNotFound`.
    pub fn remove_child(&mut self, branch_id: u128, child_id: u128) -> (r: Result<
        TreeNode,
        TreeError,
    >)
        ensures
            match find_path(old(self).root@, branch_id) {
                None => r == Err::<TreeNode, TreeError>(TreeError::NodeNotFound(branch_id))
                    && final(self).root@ == old(self).root@,
                Some(p) => match node_at(old(self).root@, p) {
                    NodeView::Leaf(l) => r == Err::<TreeNode, TreeError>(
                        TreeError::NoChildren(TreeNode::Leaf(l)),
                    ) && final(self).root@ == old(self).root@,
                    NodeView::Branch(b) => if b.children.len() == 0 {
                        (r matches Err(TreeError::NoChildren(x)) && x@ == NodeView::Branch(b))
                            && final(self).root@ == old(self).root@
                    } else { match first_pos(b.children, child_id) {
                        None => r == Err::<TreeNode, TreeError>(
                            TreeError::ChildNodeNotFound(child_id),
                        ) && final(self).root@ == old(self).root@,
                        Some(k) => r matches Ok(x) && x@ == b.children[k] && collapsed_root(
                            final(self).root@,
                            replace_at(
                                old(self).root@,
                                p,
                                NodeView::Branch(
                                    BranchView { children: b.children.remove(k), ..b },
                                ),
                            ),
                        ),
                    } },
                },
            },
    {
        let ghost old_root = self.root@;
        match locate(&self.root, branch_id) {
            None => Err(TreeError::NodeNotFound(branch_id)),
            Some(path) => {
                let ghost p = ints(path@);
                proof {
                    lemma_find_path(old_root, branch_id);
                    lemma_path_zero(path@);
                }
                let k: usize = match node_ref(&self.root, &path, 0) {
                    TreeNode::Leaf(l) => {
                        return Err(TreeError::NoChildren(TreeNode::Leaf(*l)));
                    },
                    TreeNode::Branch(b) => if b.children.len() == 0 {
                        proof {
                            lemma_nodes_view(b.children@);
                        }
                        return Err(TreeError::NoChildren(TreeNode::Branch(b.clone())));
                    } else { match position_of(&b.children, child_id) {
                        None => {
                            return Err(TreeError::ChildNodeNotFound(child_id));
                        },
                        Some(k) => {
                            proof {
                                lemma_nodes_view(b.children@);
                                assert(k < node_at(old_root, p)->Branch_0.children.len());
                            }
                            k
                        },
                    } },
                };
                let t: TreeNode = take_at(&mut self.root, &path, 0);
                let ghost tv = t@;
                let (new_t, removed) = match t {
                    TreeNode::Branch(mut b) => {
                        let ghost old_children = b.children@;
                        proof {
                            lemma_nodes_view(b.children@);
                            assert(tv == NodeView::Branch(b@));
                        }
                        let removed: TreeNode = b.children.remove(k);
                        proof {
                            lemma_nodes_view(old_children);
                            lemma_nodes_view(b.children@);
                            lemma_nodes_view_ext(
                                b.children@,
                                nodes_view(old_children).remove(k as int),
                            );
                        }
                        (TreeNode::Branch(b), removed)
                    },
                    TreeNode::Leaf(l) => (TreeNode::Leaf(l), placeholder()),
                };
                proof {
                    lemma_replace_at(old_root, p, placeholder_view(), new_t@);
                }
                put_at(&mut self.root, &path, 0, new_t);
                self.collapse();
                Ok(removed)
            },
        }
    }

    /// Splits the first Leaf with identifier `leaf_id` into a Branch along
    /// `direction` holding that Leaf and a new Picker Leaf.
    pub fn split_leaf(&mut self, leaf_id: u128, direction: Direction) -> (r: Result<
        &mut TreeNode,
        TreeError,
    >)
        ensures
            match find_path(old(self).root@, leaf_id) {
                None => r matches Err(e) && e == TreeError::NodeNotFound(leaf_id) && final(self).root@ == old(
                    self,
                ).root@,
                Some(p) => match node_at(old(self).root@, p) {
                    NodeView::Branch(b) => (r matches Err(TreeError::NoChildren(x)) && x@ == NodeView::Branch(b))
                        && final(self).root@ == old(self).root@,
                    NodeView::Leaf(l) => r matches Ok(m) && m@ == split_of(
                        l,
                        direction,
                        split_ids(m@).0,
                        split_ids(m@).1,
                    ) && final(self).root@ == replace_at(old(self).root@, p, final(m)@),
                },
            },
    {
        let ghost old_root = self.root@;
        match locate(&self.root, leaf_id) {
            None => Err(TreeError::NodeNotFound(leaf_id)),
            Some(path) => {
                let ghost p = ints(path@);
                proof {
                    lemma_find_path(old_root, leaf_id);
                    lemma_path_zero(path@);
                }
                let l: Leaf = match node_ref(&self.root, &path, 0) {
                    TreeNode::Branch(b) => {
                        return Err(TreeError::NoChildren(TreeNode::Branch(b.clone())));
                    },
                    TreeNode::Leaf(l) => *l,
                };
                let mut b: Branch = Branch::default();
                b.direction = direction;
                b.children.push(TreeNode::Leaf(l));
                b.children.push(TreeNode::default());
                let ghost fresh_leaf = nid(b.children@[1]@);
                proof {
                    lemma_nodes_view(b.children@);
                    lemma_nodes_view_ext(
                        b.children@,
                        seq![NodeView::Leaf(l), b.children@[1]@],
                    );
                    assert(b.ratios@ =~= Seq::<u32>::empty());
                }
                let new_t: TreeNode = TreeNode::Branch(b);
                proof {
                    lemma_replace_at(old_root, p, new_t@, new_t@);
                    lemma_replace_twice(old_root, p, new_t@);
                    assert(split_ids(new_t@).1 == fresh_leaf);
                }
                put_at(&mut self.root, &path, 0, new_t);
                Ok(node_mut_at(&mut self.root, &path, 0))
            },
        }
    }

    /// Sets the widget type of the first Leaf with identifier `leaf_id`, and
    /// hands that Leaf back to change further. A Branch with that identifier
    /// gives `WrongNodeKind`, expecting "Leaf" and naming the Branch.
    pub fn set_widget_type(&mut self, leaf_id: u128, widget_type: WidgetType) -> (r: Result<
        &mut Leaf,
        TreeError,
    >)
        ensures
            match find_path(old(self).root@, leaf_id) {
                None => r matches Err(e) && e == TreeError::NodeNotFound(leaf_id) && final(self).root@ == old(
                    self,
                ).root@,
                Some(p) => match node_at(old(self).root@, p) {
                    NodeView::Leaf(l) => r matches Ok(lr) && *lr == (Leaf { widget_type, ..l })
                        && final(self).root@ == replace_at(old(self).root@, p, NodeView::Leaf(*final(lr))),
                    NodeView::Branch(b) => (r matches Err(TreeError::WrongNodeKind { expected, actual })
                        && expected@ == "Leaf"@ && actual@ == node_text(NodeView::Branch(b)))
                        && final(self).root@ == old(self).root@,
                },
            },
    {
        proof {
            lemma_find_path(old(self).root@, leaf_id);
            if let Some(p) = find_path(old(self).root@, leaf_id) {
                lemma_replace_at(old(self).root@, p, node_at(old(self).root@, p), node_at(old(self).root@, p));
            }
        }
        match Tree::find_node_mut(&mut self.root, leaf_id) {
            Err(e) => Err(e),
            Ok(node) => match node.as_leaf_mut() {
                Err(e) => Err(e),
                Ok(leaf) => {
                    leaf.widget_type = widget_type;
                    Ok(leaf)
                },
            },
        }
    }
}

} // verus!
