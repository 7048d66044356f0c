//! Laws of the workspace tree: what collapsing guarantees, and how adding and
//! removing a child relate.

use vstd::prelude::*;
use crate::tree::{
    all_well_formed, collapse, collapse_all, collapsed_root, find_path, find_path_in, first_pos,
    first_pos_from, leaves, leaves_all, lemma_find_path, lemma_replace_at, nid, node_at,
    picker_leaf, replace_at, valid_path, well_formed, with_child, BranchView, Direction, NodeView, Leaf,
};

verus! {

proof fn lemma_unfold_cons(x: NodeView, rest: Seq<NodeView>)
    ensures
        (seq![x] + rest).len() > 0,
        (seq![x] + rest)[0] == x,
        (seq![x] + rest).drop_first() == rest,
{
    assert((seq![x] + rest).drop_first() =~= rest);
}

proof fn lemma_collapse_leaves(n: NodeView)
    ensures
        match collapse(n) {
            Some(x) => leaves(x) == leaves(n),
            None => leaves(n).len() == 0,
        },
    decreases n,
{
    if let NodeView::Branch(b) = n {
        lemma_collapse_all_leaves(b.children);
        let cs = collapse_all(b.children);
        if cs.len() == 1 {
            assert(cs.drop_first().len() == 0);
            assert(leaves_all(cs) == leaves(cs[0]) + leaves_all(cs.drop_first()));
            assert(leaves_all(cs) =~= leaves(cs[0]));
            if let NodeView::Leaf(l) = cs[0] {
                let one = seq![NodeView::Leaf(l)];
                assert(one.drop_first().len() == 0);
                assert(leaves_all(one) =~= leaves(one[0]) + leaves_all(one.drop_first()));
            }
        }
    }
}

proof fn lemma_collapse_all_leaves(cs: Seq<NodeView>)
    ensures
        leaves_all(collapse_all(cs)) == leaves_all(cs),
    decreases cs,
{
    if cs.len() > 0 {
        lemma_collapse_leaves(cs[0]);
        lemma_collapse_all_leaves(cs.drop_first());
        match collapse(cs[0]) {
            Some(x) => {
                lemma_unfold_cons(x, collapse_all(cs.drop_first()));
            },
            None => {
                assert(leaves_all(cs) =~= leaves_all(cs.drop_first()));
            },
        }
    }
}

proof fn lemma_collapse_wf(n: NodeView)
    ensures
        collapse(n) matches Some(x) ==> well_formed(x),
    decreases n,
{
    if let NodeView::Branch(b) = n {
        lemma_collapse_all_wf(b.children);
        let cs = collapse_all(b.children);
        if cs.len() >= 1 {
            assert(well_formed(cs[0]));
        }
        if cs.len() == 1 {
            if let NodeView::Leaf(l) = cs[0] {
                let one = seq![NodeView::Leaf(l)];
                assert(one.drop_first().len() == 0);
                assert(all_well_formed(one.drop_first()));
                assert(well_formed(one[0]));
                assert(all_well_formed(one));
            }
        }
    }
}

proof fn lemma_collapse_all_wf(cs: Seq<NodeView>)
    ensures
        all_well_formed(collapse_all(cs)),
    decreases cs,
{
    if cs.len() > 0 {
        lemma_collapse_wf(cs[0]);
        lemma_collapse_all_wf(cs.drop_first());
        if let Some(x) = collapse(cs[0]) {
            lemma_unfold_cons(x, collapse_all(cs.drop_first()));
        }
    }
}

proof fn lemma_wf_fixed(n: NodeView)
    requires
        well_formed(n),
    ensures
        collapse(n) == Some(n),
    decreases n,
{
    if let NodeView::Branch(b) = n {
        lemma_all_wf_fixed(b.children);
        if b.children.len() == 1 {
            assert(seq![b.children[0]] =~= b.children);
        }
    }
}

proof fn lemma_all_wf_fixed(cs: Seq<NodeView>)
    requires
        all_well_formed(cs),
    ensures
        collapse_all(cs) == cs,
    decreases cs,
{
    if cs.len() > 0 {
        lemma_wf_fixed(cs[0]);
        lemma_all_wf_fixed(cs.drop_first());
        assert(seq![cs[0]] + cs.drop_first() =~= cs);
    }
}

proof fn lemma_wf_has_leaf(n: NodeView)
    requires
        well_formed(n),
    ensures
        leaves(n).len() >= 1,
    decreases n,
{
    if let NodeView::Branch(b) = n {
        assert(well_formed(b.children[0]));
        lemma_wf_has_leaf(b.children[0]);
        assert(leaves_all(b.children) == leaves(b.children[0]) + leaves_all(
            b.children.drop_first(),
        ));
    }
}

/// Collapsing settles a tree: the result has no empty Branch and no Branch
/// whose single child is a Branch, and it keeps every Leaf in order; nothing
/// is left exactly when there was no Leaf.
pub proof fn law_collapse_settles(n: NodeView)
    ensures
        collapse(n) matches Some(x) ==> well_formed(x) && leaves(x) == leaves(n),
        collapse(n) is None <==> leaves(n).len() == 0,
{
    lemma_collapse_wf(n);
    lemma_collapse_leaves(n);
    if let Some(x) = collapse(n) {
        lemma_wf_has_leaf(x);
    }
}

/// A settled tree is left as it is by collapsing.
pub proof fn law_collapse_keeps_settled(n: NodeView)
    requires
        well_formed(n),
    ensures
        collapse(n) == Some(n),
{
    lemma_wf_fixed(n);
}

/// After `Tree::collapse` (and after `Tree::remove_child`) the root is
/// settled, and holds the same Leaves in the same order, or is a single fresh
/// Picker Leaf when there were none.
pub proof fn law_collapsed_root(root: NodeView, before: NodeView)
    requires
        collapsed_root(root, before),
    ensures
        well_formed(root),
        leaves(before).len() > 0 ==> leaves(root) == leaves(before),
        leaves(before).len() == 0 ==> root == picker_leaf(nid(root)),
{
    law_collapse_settles(before);
}

proof fn lemma_find_path_in_split(cs: Seq<NodeView>, i: int, id: u128, q: Seq<int>, j: int)
    requires
        0 <= i,
        find_path_in(cs, i, id) == Some(seq![j] + q),
    ensures
        i <= j < cs.len(),
        find_path(cs[j], id) == Some(q),
        forall|k: int| i <= k < j ==> find_path(#[trigger] cs[k], id) is None,
    decreases cs.len() - i,
{
    if 0 <= i < cs.len() {
        match find_path(cs[i], id) {
            Some(p) => {
                assert((seq![i] + p)[0] == i);
                assert((seq![j] + q)[0] == j);
                assert(i == j);
                assert((seq![i] + p).drop_first() =~= p);
                assert((seq![j] + q).drop_first() =~= q);
            },
            None => {
                lemma_find_path_in_split(cs, i + 1, id, q, j);
            },
        }
    }
}

proof fn lemma_find_path_in_rebuild(cs: Seq<NodeView>, i: int, id: u128, q: Seq<int>, j: int)
    requires
        0 <= i <= j < cs.len(),
        find_path(cs[j], id) == Some(q),
        forall|k: int| i <= k < j ==> find_path(#[trigger] cs[k], id) is None,
    ensures
        find_path_in(cs, i, id) == Some(seq![j] + q),
    decreases j - i,
{
    if i < j {
        lemma_find_path_in_rebuild(cs, i + 1, id, q, j);
    }
}

/// Putting a node with the same identifier where the first match was keeps
/// it the first match.
proof fn lemma_find_path_replace(n: NodeView, id: u128, p: Seq<int>, x: NodeView)
    requires
        find_path(n, id) == Some(p),
        nid(x) == id,
    ensures
        find_path(replace_at(n, p, x), id) == Some(p),
    decreases p.len(),
{
    if p.len() > 0 {
        if let NodeView::Branch(b) = n {
            let j = p[0];
            let q = p.drop_first();
            assert(seq![j] + q =~= p);
            lemma_find_path_in_split(b.children, 0, id, q, j);
            lemma_find_path_replace(b.children[j], id, q, x);
            let new_children = b.children.update(j, replace_at(b.children[j], q, x));
            assert forall|k: int| 0 <= k < j implies find_path(#[trigger] new_children[k], id)
                is None by {
                assert(new_children[k] == b.children[k]);
            }
            lemma_find_path_in_rebuild(new_children, 0, id, q, j);
        }
    }
}

/// Removing a child right after adding it at the end undoes the addition:
/// the Branch found for `branch_id` is still found at the same place, the
/// child is the first with its identifier, and taking it out gives back the
/// tree as it was (which `Tree::remove_child` then collapses).
pub proof fn law_remove_undoes_add(
    root: NodeView,
    branch_id: u128,
    child: NodeView,
    fresh: u128,
)
    requires
        find_path(root, branch_id) matches Some(p) && node_at(root, p) matches NodeView::Branch(b)
            && first_pos(b.children, nid(child)) is None,
    ensures
        ({
            let p = find_path(root, branch_id)->0;
            let b = node_at(root, p)->Branch_0;
            let added = replace_at(root, p, with_child(node_at(root, p), child, None, fresh));
            &&& find_path(added, branch_id) == Some(p)
            &&& node_at(added, p) == NodeView::Branch(
                BranchView { children: b.children.push(child), ..b },
            )
            &&& first_pos(b.children.push(child), nid(child)) == Some(b.children.len() as int)
            &&& replace_at(
                added,
                p,
                NodeView::Branch(
                    BranchView {
                        children: b.children.push(child).remove(b.children.len() as int),
                        ..b
                    },
                ),
            ) == root
        }),
{
    let p = find_path(root, branch_id)->0;
    let b = node_at(root, p)->Branch_0;
    let t = with_child(node_at(root, p), child, None, fresh);
    lemma_find_path(root, branch_id);
    lemma_find_path_replace(root, branch_id, p, t);
    lemma_replace_at(root, p, t, NodeView::Branch(b));
    let pushed = b.children.push(child);
    assert(pushed.remove(b.children.len() as int) =~= b.children);
    lemma_first_pos_push(b.children, child, 0);
}

proof fn lemma_first_pos_push(cs: Seq<NodeView>, x: NodeView, i: int)
    requires
        0 <= i <= cs.len(),
        first_pos_from(cs, i, nid(x)) is None,
    ensures
        first_pos_from(cs.push(x), i, nid(x)) == Some(cs.len() as int),
    decreases cs.len() - i,
{
    if i < cs.len() {
        lemma_first_pos_push(cs, x, i + 1);
    }
}

/// The Leaves of a tree that come before the node that `p` leads to.
pub open spec fn leaves_before(n: NodeView, p: Seq<int>) -> Seq<Leaf>
    decreases p.len(),
{
    if p.len() == 0 {
        Seq::empty()
    } else {
        match n {
            NodeView::Branch(b) => if 0 <= p[0] < b.children.len() {
                leaves_all(b.children.take(p[0])) + leaves_before(b.children[p[0]], p.drop_first())
            } else {
                Seq::empty()
            },
            NodeView::Leaf(_) => Seq::empty(),
        }
    }
}

/// The Leaves of a tree that come after the node that `p` leads to.
pub open spec fn leaves_after(n: NodeView, p: Seq<int>) -> Seq<Leaf>
    decreases p.len(),
{
    if p.len() == 0 {
        Seq::empty()
    } else {
        match n {
            NodeView::Branch(b) => if 0 <= p[0] < b.children.len() {
                leaves_after(b.children[p[0]], p.drop_first()) + leaves_all(b.children.skip(p[0] + 1))
            } else {
                Seq::empty()
            },
            NodeView::Leaf(_) => Seq::empty(),
        }
    }
}

proof fn lemma_leaves_all_append(a: Seq<NodeView>, b: Seq<NodeView>)
    ensures
        leaves_all(a + b) == leaves_all(a) + leaves_all(b),
    decreases a.len(),
{
    if a.len() == 0 {
        assert(a + b =~= b);
        assert(Seq::<Leaf>::empty() + leaves_all(b) =~= leaves_all(b));
    } else {
        assert((a + b).drop_first() =~= a.drop_first() + b);
        assert((a + b)[0] == a[0]);
        lemma_leaves_all_append(a.drop_first(), b);
        assert(leaves_all(a + b) == leaves(a[0]) + leaves_all(a.drop_first() + b));
        assert(leaves(a[0]) + (leaves_all(a.drop_first()) + leaves_all(b)) =~= (leaves(a[0])
            + leaves_all(a.drop_first())) + leaves_all(b));
    }
}

proof fn lemma_leaves_all_one(x: NodeView)
    ensures
        leaves_all(seq![x]) == leaves(x),
{
    assert(seq![x].drop_first() =~= Seq::<NodeView>::empty());
    assert(leaves_all(seq![x]) == leaves(x) + leaves_all(Seq::<NodeView>::empty()));
    assert(leaves(x) + Seq::<Leaf>::empty() =~= leaves(x));
}

/// The Leaves of `cs` with the `j`-th node in the middle.
proof fn lemma_leaves_all_split(cs: Seq<NodeView>, j: int)
    requires
        0 <= j < cs.len(),
    ensures
        leaves_all(cs) == leaves_all(cs.take(j)) + leaves(cs[j]) + leaves_all(cs.skip(j + 1)),
        leaves_all(cs.remove(j)) == leaves_all(cs.take(j)) + leaves_all(cs.skip(j + 1)),
{
    assert(cs =~= cs.take(j) + seq![cs[j]] + cs.skip(j + 1));
    lemma_leaves_all_append(cs.take(j) + seq![cs[j]], cs.skip(j + 1));
    lemma_leaves_all_append(cs.take(j), seq![cs[j]]);
    lemma_leaves_all_one(cs[j]);
    assert(cs.remove(j) =~= cs.take(j) + cs.skip(j + 1));
    lemma_leaves_all_append(cs.take(j), cs.skip(j + 1));
}

/// Putting `x` where `p` leads keeps the Leaves before and after that place.
proof fn lemma_leaves_replace(n: NodeView, p: Seq<int>, x: NodeView)
    requires
        valid_path(n, p),
    ensures
        leaves(n) == leaves_before(n, p) + leaves(node_at(n, p)) + leaves_after(n, p),
        leaves(replace_at(n, p, x)) == leaves_before(n, p) + leaves(x) + leaves_after(n, p),
    decreases p.len(),
{
    if p.len() == 0 {
        assert(Seq::<Leaf>::empty() + leaves(n) + Seq::<Leaf>::empty() =~= leaves(n));
        assert(Seq::<Leaf>::empty() + leaves(x) + Seq::<Leaf>::empty() =~= leaves(x));
    } else {
        let b = n->Branch_0;
        let j = p[0];
        let q = p.drop_first();
        let c = b.children[j];
        lemma_leaves_replace(c, q, x);
        lemma_leaves_all_split(b.children, j);
        let cs2 = b.children.update(j, replace_at(c, q, x));
        lemma_leaves_all_split(cs2, j);
        assert(cs2.take(j) =~= b.children.take(j));
        assert(cs2.skip(j + 1) =~= b.children.skip(j + 1));
        let pre = leaves_all(b.children.take(j));
        let post = leaves_all(b.children.skip(j + 1));
        assert(leaves(n) =~= pre + leaves_before(c, q) + leaves(node_at(c, q)) + leaves_after(c, q)
            + post);
        assert(leaves(replace_at(n, p, x)) =~= pre + leaves_before(c, q) + leaves(x) + leaves_after(c, q)
            + post);
    }
}

/// Removing a child keeps every other Leaf in order: the Leaves of the tree
/// are those before the Branch's removed child, the child's own, and those
/// after it; after `Tree::remove_child` the root holds exactly the Leaves
/// before and after, or is a single fresh Picker Leaf when there are none.
pub proof fn law_remove_keeps_other_leaves(root: NodeView, branch_id: u128, child_id: u128, after: NodeView)
    requires
        find_path(root, branch_id) matches Some(p) && node_at(root, p) matches NodeView::Branch(b)
            && first_pos(b.children, child_id) matches Some(k) && collapsed_root(
            after,
            replace_at(root, p, NodeView::Branch(BranchView { children: b.children.remove(k), ..b })),
        ),
    ensures
        ({
            let p = find_path(root, branch_id)->0;
            let b = node_at(root, p)->Branch_0;
            let k = first_pos(b.children, child_id)->0;
            let pre = leaves_before(root, p) + leaves_all(b.children.take(k));
            let post = leaves_all(b.children.skip(k + 1)) + leaves_after(root, p);
            &&& leaves(root) == pre + leaves(b.children[k]) + post
            &&& (pre + post).len() > 0 ==> leaves(after) == pre + post
            &&& (pre + post).len() == 0 ==> after == picker_leaf(nid(after))
        }),
{
    let p = find_path(root, branch_id)->0;
    let b = node_at(root, p)->Branch_0;
    let k = first_pos(b.children, child_id)->0;
    lemma_find_path(root, branch_id);
    lemma_first_pos_bound(b.children, child_id, 0);
    let mid_node = NodeView::Branch(BranchView { children: b.children.remove(k), ..b });
    lemma_leaves_replace(root, p, mid_node);
    lemma_leaves_all_split(b.children, k);
    let pre = leaves_before(root, p) + leaves_all(b.children.take(k));
    let post = leaves_all(b.children.skip(k + 1)) + leaves_after(root, p);
    assert(leaves(root) =~= pre + leaves(b.children[k]) + post);
    assert(leaves(replace_at(root, p, mid_node)) =~= pre + post);
    law_collapsed_root(after, replace_at(root, p, mid_node));
}

/// A first position, when there is one, lies within the sequence.
proof fn lemma_first_pos_bound(cs: Seq<NodeView>, id: u128, i: int)
    requires
        0 <= i,
    ensures
        first_pos_from(cs, i, id) matches Some(k) ==> i <= k < cs.len(),
    decreases cs.len() - i,
{
    if 0 <= i < cs.len() && nid(cs[i]) != id {
        lemma_first_pos_bound(cs, id, i + 1);
    }
}

/// Where `Tree::add_child` puts the new child. At the target's place the tree
/// then holds a Branch whose children are:
/// - for a target Leaf, a new horizontal Branch with exactly the old Leaf
///   and then the child;
/// - for a target Branch and an index at most its number of children, its
///   children with the child inserted at that index;
/// - for a target Branch otherwise, its children with the child last.
pub proof fn law_add_child_places_child(
    root: NodeView,
    target_id: u128,
    child: NodeView,
    index: Option<usize>,
    fresh: u128,
)
    requires
        find_path(root, target_id) is Some,
    ensures
        ({
            let p = find_path(root, target_id)->0;
            let t = node_at(root, p);
            let after = replace_at(root, p, with_child(t, child, index, fresh));
            &&& node_at(after, p) is Branch
            &&& nid(node_at(after, p)) == (if t is Leaf { fresh } else { nid(t) })
            &&& t is Leaf ==> {
                let c = node_at(after, p)->Branch_0.children;
                &&& c.len() == 2
                &&& c[0] == t
                &&& c[1] == child
                &&& node_at(after, p)->Branch_0.direction == Direction::Horizontal
            }
            &&& t matches NodeView::Branch(b) ==> {
                let c = node_at(after, p)->Branch_0.children;
                let n = b.children.len();
                &&& c.len() == n + 1
                &&& (index is Some && index->0 <= n) ==> {
                    let i = index->0 as int;
                    &&& c[i] == child
                    &&& forall|k: int| 0 <= k < i ==> #[trigger] c[k] == b.children[k]
                    &&& forall|k: int| i <= k < n ==> #[trigger] c[k + 1] == b.children[k]
                }
                &&& !(index is Some && index->0 <= n) ==> {
                    &&& c[n as int] == child
                    &&& forall|k: int| 0 <= k < n ==> #[trigger] c[k] == b.children[k]
                }
            }
        }),
{
    let p = find_path(root, target_id)->0;
    let t = node_at(root, p);
    lemma_find_path(root, target_id);
    lemma_replace_at(root, p, with_child(t, child, index, fresh), with_child(t, child, index, fresh));
}

} // verus!
