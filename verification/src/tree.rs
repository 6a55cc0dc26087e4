//! The R*-tree of the `rstar` crate, as far as the index uses it.
//!
//! Verus does not read `rstar`. What this file says of that crate is believed,
//! not proved: the two handles hide the tree from the verifier, the three spec
//! functions without a body name what a tree holds, and each executable
//! function states of one `rstar` call what that crate's source and
//! documentation show. None of the calls panics.
//!
//! A range `r` with `r.0 <= r.1` is stored as the rectangle with the corners
//! `(r.0, 0)` and `(r.1, 0)`, and read back from a rectangle's lower and upper
//! corner. The coordinates are widened to 128 bits on the way in, so that the
//! areas, perimeters, centres and squared distances that `rstar` computes
//! while it inserts cannot overflow, whatever 32-bit ends a range has.
//!
//! The contracts are stated of `rstar` 0.12, to which the manifest holds the
//! crate. There `bulk_load` builds a tree whose leaves all lie at one depth,
//! and `insert` and `remove` keep it so; `insert` relies on that. Release
//! 0.13.0 can bulk-load a tree with leaves at different depths, and a later
//! `insert` into such a tree panics.

use vstd::prelude::*;
use vstd::multiset::Multiset;
use rstar::primitives::Rectangle;
use rstar::{ParentNode, RTree, RTreeNode};
use crate::range::{all_valid, Envelope, Range};

verus! {

/// Owns an `rstar::RTree` of rectangles, with the crate's default parameters.
#[verifier::external_body]
pub struct Tree {
    inner: RTree<Rectangle<(i128, i128)>>,
}

/// Borrows one `rstar::ParentNode` of a tree: the root or a node below it.
#[verifier::external_body]
pub struct Node<'a> {
    inner: &'a ParentNode<Rectangle<(i128, i128)>>,
}

/// One child of a node: a stored range, or a node of the next level.
pub enum Entry<'a> {
    Leaf(Range),
    Parent(Node<'a>),
}

/// The ranges that the tree holds, each as often as it was put in and not
/// taken out again.
pub uninterp spec fn tree_items(tree: Tree) -> Multiset<Range>;

/// The ranges that are stored at or below the node.
pub uninterp spec fn node_items(node: Node) -> Multiset<Range>;

/// The number of levels of nodes at and below the node.
pub uninterp spec fn node_height(node: Node) -> nat;

/// The ranges at or below one child.
pub open spec fn entry_items(entry: Entry) -> Multiset<Range> {
    match entry {
        Entry::Leaf(item) => Multiset::singleton(item),
        Entry::Parent(node) => node_items(node),
    }
}

/// The ranges at or below a run of children, taken together.
pub open spec fn entries_items(entries: Seq<Entry>) -> Multiset<Range>
    decreases entries.len(),
{
    if entries.len() == 0 {
        Multiset::empty()
    } else {
        entries_items(entries.drop_last()).add(entry_items(entries.last()))
    }
}

/// `RTree::new`, documented as creating a new, empty r-tree: the tree holds
/// nothing.
#[verifier::external_body]
pub(crate) fn tree_new() -> (tree: Tree)
    ensures
        tree_items(tree) == Multiset::<Range>::empty(),
{
    Tree { inner: RTree::new() }
}

/// `RTree::bulk_load`, documented as creating a tree with the given elements
/// already inserted: the tree holds the given ranges, each as often as the
/// vector does.
#[verifier::external_body]
pub(crate) fn tree_bulk_load(items: Vec<Range>) -> (tree: Tree)
    requires
        all_valid(items@),
    ensures
        tree_items(tree) == items@.to_multiset(),
{
    let rectangles = items.iter().map(
        |r| Rectangle::from_corners((r.0 as i128, 0), (r.1 as i128, 0)),
    ).collect();
    Tree { inner: RTree::bulk_load(rectangles) }
}

/// `RTree::insert`, documented as inserting a new element, which is then
/// present twice if it was present already: the tree holds one more copy of
/// `item` and is otherwise as before.
#[verifier::external_body]
pub(crate) fn tree_insert(tree: &mut Tree, item: Range)
    requires
        item.valid(),
    ensures
        tree_items(*final(tree)) == tree_items(*old(tree)).insert(item),
    no_unwind
{
    tree.inner.insert(Rectangle::from_corners((item.0 as i128, 0), (item.1 as i128, 0)))
}

/// `RTree::remove`, documented as removing and returning one element equal to
/// the given one: where the tree holds `item`, one copy of it is taken out
/// and returned; else nothing changes and nothing is returned.
#[verifier::external_body]
pub(crate) fn tree_remove(tree: &mut Tree, item: Range) -> (removed: Option<Range>)
    requires
        item.valid(),
    ensures
        removed == if tree_items(*old(tree)).count(item) > 0 {
            Some(item)
        } else {
            None::<Range>
        },
        tree_items(*final(tree)) == tree_items(*old(tree)).remove(item),
    no_unwind
{
    let rectangle = Rectangle::from_corners((item.0 as i128, 0), (item.1 as i128, 0));
    tree.inner.remove(&rectangle).map(|r| Range(r.lower().0 as i32, r.upper().0 as i32))
}

/// `RTree::size`, documented as the number of objects in the tree: how many
/// ranges the tree holds, copies counted.
#[verifier::external_body]
pub(crate) fn tree_size(tree: &Tree) -> (size: usize)
    ensures
        size == tree_items(*tree).len(),
{
    tree.inner.size()
}

/// `RTree::root`, the tree's root node: everything that the tree holds is
/// stored at or below it.
#[verifier::external_body]
pub(crate) fn tree_root<'a>(tree: &'a Tree) -> (root: Node<'a>)
    ensures
        node_items(root) == tree_items(*tree),
{
    Node { inner: tree.inner.root() }
}

/// `ParentNode::envelope`, documented as the smallest envelope that
/// encompasses all children: the envelope bounds every range stored at or
/// below the node. That it is the smallest such envelope is not claimed. Of
/// the two axes of the rectangles only the first is handed on; on the second
/// every range lies at 0.
#[verifier::external_body]
pub(crate) fn node_envelope(node: &Node) -> (envelope: Envelope)
    ensures
        forall|item: Range|
            node_items(*node).count(item) > 0 ==> envelope.contains(#[trigger] item.bounds()),
{
    let aabb = node.inner.envelope();
    Envelope { low: aabb.lower().0, high: aabb.upper().0 }
}

/// `ParentNode::children`, the node's children, in the order in which the
/// node keeps them: together they hold what the node holds, and a child that
/// is a node has fewer levels than its parent.
#[verifier::external_body]
pub(crate) fn node_children<'a>(node: &Node<'a>) -> (children: Vec<Entry<'a>>)
    ensures
        entries_items(children@) == node_items(*node),
        forall|i: int|
            0 <= i < children.len() ==> (#[trigger] children[i] matches Entry::Parent(child)
                ==> node_height(child) < node_height(*node)),
{
    node.inner.children().iter().map(
        |child| match child {
            RTreeNode::Leaf(r) => Entry::Leaf(Range(r.lower().0 as i32, r.upper().0 as i32)),
            RTreeNode::Parent(parent) => Entry::Parent(Node { inner: parent }),
        },
    ).collect()
}

} // verus!
