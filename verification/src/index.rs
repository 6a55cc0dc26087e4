//! The index: a multiset of valid ranges with containment queries.

use vstd::prelude::*;
use vstd::multiset::Multiset;
use crate::range::{all_valid, InvalidInputError, Range};
use crate::selection::{
    accepted, containing, is_selection, lemma_range_selector_prunes_safely,
    lemma_range_selector_takes_covering, lemma_safe_selection_is_exact, lemma_selection_add,
    lemma_unopened_node_selects_nothing, prunes_safely, RangeSelector, SelectionFunction,
};
use crate::tree::{
    entries_items, entry_items, node_children, node_envelope, node_height, node_items,
    tree_bulk_load, tree_insert, tree_items, tree_new, tree_remove, tree_root, tree_size, Entry,
    Node, Tree,
};

verus! {

/// `at` is the place of the first range in `items` that is not valid.
pub open spec fn is_first_invalid(items: Seq<Range>, at: int) -> bool {
    &&& 0 <= at < items.len()
    &&& !items[at].valid()
    &&& forall|i: int| 0 <= i < at ==> (#[trigger] items[i]).valid()
}

/// Searches the node and what lies below it, and appends what the selector
/// takes to `found`.
fn collect<S: SelectionFunction>(node: &Node, selector: &S, found: &mut Vec<Range>)
    ensures
        old(found)@.to_multiset().subset_of(final(found)@.to_multiset()),
        is_selection(
            selector,
            node_items(*node),
            final(found)@.to_multiset().sub(old(found)@.to_multiset()),
        ),
    decreases node_height(*node),
{
    broadcast use vstd::multiset::group_multiset_axioms;

    let ghost before = found@.to_multiset();
    let envelope = node_envelope(node);
    if !selector.should_unpack_parent(&envelope) {
        proof {
            lemma_unopened_node_selects_nothing(selector, node_items(*node), envelope);
            assert(found@.to_multiset().sub(before) =~= Multiset::<Range>::empty());
        }
        return ;
    }
    let children = node_children(node);
    let mut i: usize = 0;
    while i < children.len()
        invariant
            i <= children.len(),
            before.subset_of(found@.to_multiset()),
            is_selection(
                selector,
                entries_items(children@.take(i as int)),
                found@.to_multiset().sub(before),
            ),
            forall|k: int|
                0 <= k < children.len() ==> (#[trigger] children[k] matches Entry::Parent(child)
                    ==> node_height(child) < node_height(*node)),
        decreases children.len() - i,
    {
        let ghost middle = found@.to_multiset();
        match &children[i] {
            Entry::Leaf(item) => {
                if selector.should_unpack_leaf(item) {
                    proof {
                        found@.to_multiset_ensures();
                    }
                    found.push(*item);
                }
            },
            Entry::Parent(child) => {
                collect(child, selector, found);
            },
        }
        proof {
            let after = found@.to_multiset();
            let entry = children@[i as int];
            lemma_selection_add(
                selector,
                entries_items(children@.take(i as int)),
                middle.sub(before),
                entry_items(entry),
                after.sub(middle),
            );
            assert(after.sub(before) =~= middle.sub(before).add(after.sub(middle)));
            assert(children@.take(i + 1).drop_last() =~= children@.take(i as int));
        }
        i += 1;
    }
    proof {
        assert(children@.take(children.len() as int) =~= children@);
    }
}

/// An index of ranges. Its view is the multiset of the ranges it holds.
pub struct IntervalIndex {
    tree: Tree,
}

impl View for IntervalIndex {
    type V = Multiset<Range>;

    closed spec fn view(&self) -> Multiset<Range> {
        tree_items(self.tree)
    }
}

impl IntervalIndex {
    /// Every range in the index is valid.
    #[verifier::type_invariant]
    spec fn holds_valid_ranges(self) -> bool {
        forall|item: Range| tree_items(self.tree).count(item) > 0 ==> item.valid()
    }

    /// An index that holds nothing.
    pub fn new() -> (index: IntervalIndex)
        ensures
            index@ == Multiset::<Range>::empty(),
    {
        IntervalIndex { tree: tree_new() }
    }

    /// An index that holds the given ranges, built in one pass over the whole
    /// batch. If a range of the batch is not valid, the first such range is
    /// reported and no index is built.
    pub fn bulk_load(items: Vec<Range>) -> (res: Result<IntervalIndex, InvalidInputError>)
        ensures
            res is Ok <==> all_valid(items@),
            res matches Ok(index) ==> index@ == items@.to_multiset(),
            res matches Err(error) ==> exists|at: int| #[trigger]
                is_first_invalid(items@, at) && error == InvalidInputError(items[at]),
    {
        let mut i: usize = 0;
        while i < items.len()
            invariant
                i <= items.len(),
                forall|k: int| 0 <= k < i ==> (#[trigger] items[k]).valid(),
            decreases items.len() - i,
        {
            if !items[i].is_valid() {
                assert(is_first_invalid(items@, i as int));
                return Err(InvalidInputError(items[i]));
            }
            i += 1;
        }
        proof {
            items@.to_multiset_ensures();
        }
        Ok(IntervalIndex { tree: tree_bulk_load(items) })
    }

    /// How many ranges the index holds, a range counted as often as it was
    /// inserted.
    pub fn size(&self) -> (size: usize)
        ensures
            size == self@.len(),
    {
        tree_size(&self.tree)
    }

    /// Adds one range. A range whose ends are the wrong way round is refused
    /// and the index stays as it was.
    pub fn insert(&mut self, item: Range) -> (res: Result<(), InvalidInputError>)
        ensures
            item.valid() ==> res == Ok::<(), InvalidInputError>(()) && final(self)@ == old(
                self,
            )@.insert(item),
            !item.valid() ==> res == Err::<(), InvalidInputError>(InvalidInputError(item))
                && final(self)@ == old(self)@,
    {
        if !item.is_valid() {
            return Err(InvalidInputError(item));
        }
        proof {
            use_type_invariant(&*self);
        }
        tree_insert(&mut self.tree, item);
        Ok(())
    }

    /// Takes one copy of `item` out of the index, and says whether there was
    /// one.
    pub fn remove(&mut self, item: &Range) -> (removed: bool)
        ensures
            removed == (old(self)@.count(*item) > 0),
            final(self)@ == old(self)@.remove(*item),
    {
        broadcast use vstd::multiset::group_multiset_axioms;

        proof {
            use_type_invariant(&*self);
        }
        if !item.is_valid() {
            return false;
        }
        tree_remove(&mut self.tree, *item).is_some()
    }

    /// Searches the tree from the root, depth first. A node is opened only if
    /// the selector unpacks its envelope, and a stored range is returned only
    /// if the selector unpacks it.
    pub fn query<S: SelectionFunction>(&self, selector: S) -> (found: Vec<Range>)
        ensures
            is_selection(&selector, self@, found@.to_multiset()),
            prunes_safely(&selector) ==> found@.to_multiset() == accepted(&selector, self@),
            self@.len() == 0 ==> found@.len() == 0,
            forall|i: int| 0 <= i < found.len() ==> (#[trigger] found[i]).valid(),
    {
        broadcast use vstd::multiset::group_multiset_axioms;

        let root = tree_root(&self.tree);
        let mut found: Vec<Range> = Vec::new();
        collect(&root, &selector, &mut found);
        proof {
            use_type_invariant(self);
            let answer = found@.to_multiset();
            Seq::<Range>::empty().to_multiset_ensures();
            assert(Seq::<Range>::empty().to_multiset() =~= Multiset::<Range>::empty());
            assert(answer.sub(Multiset::<Range>::empty()) =~= answer);
            if prunes_safely(&selector) {
                lemma_safe_selection_is_exact(&selector, self@, answer);
            }
            found@.to_multiset_ensures();
            assert forall|i: int| 0 <= i < found.len() implies (#[trigger] found[i]).valid() by {
                assert(answer.count(found[i]) <= self@.count(found[i]));
            }
            if self@.len() == 0 {
                if found@.len() > 0 {
                    assert(answer.count(found[0]) <= self@.count(found[0]));
                }
            }
        }
        found
    }

    /// The stored ranges whose envelope contains that of `target`. For a
    /// valid target these are the stored ranges that cover it: those whose
    /// low end is at most the target's and whose high end is at least the
    /// target's.
    pub fn locate_containing(&self, target: Range) -> (found: Vec<Range>)
        ensures
            found@.to_multiset() == accepted(&RangeSelector(target), self@),
            target.valid() ==> found@.to_multiset() == containing(self@, target),
            forall|i: int| 0 <= i < found.len() ==> (#[trigger] found[i]).valid(),
    {
        let found = self.query(RangeSelector(target));
        proof {
            use_type_invariant(self);
            lemma_range_selector_prunes_safely(RangeSelector(target));
            if target.valid() {
                lemma_range_selector_takes_covering(RangeSelector(target), self@);
            }
        }
        found
    }
}

} // verus!
