//! What a query asks of the tree: which nodes to open and which ranges to take.

use vstd::prelude::*;
use vstd::multiset::Multiset;
use crate::range::{Envelope, Range};

verus! {

/// Guides a search through the tree.
///
/// A search opens a node only if `should_unpack_parent` says so of the node's
/// envelope, and takes a stored range only if `should_unpack_leaf` says so of
/// it. The two spec functions are what the two methods compute: an answer may
/// depend on the selector and on the envelope or range alone. An
/// implementation written in ordinary Rust gives each spec function the body
/// of its method; nothing holds it to that but its author.
pub trait SelectionFunction {
    /// Whether a node with this envelope is opened.
    spec fn unpacks_parent(&self, envelope: Envelope) -> bool;

    /// Whether this stored range is part of the answer.
    spec fn unpacks_leaf(&self, leaf: Range) -> bool;

    fn should_unpack_parent(&self, envelope: &Envelope) -> (unpack: bool)
        ensures
            unpack == self.unpacks_parent(*envelope),
    ;

    fn should_unpack_leaf(&self, leaf: &Range) -> (unpack: bool)
        ensures
            unpack == self.unpacks_leaf(*leaf),
    ;
}

/// The selector opens every node whose envelope bounds `item`, so no search
/// can pass `item` by, wherever in a tree it is stored.
pub open spec fn never_pruned<S: SelectionFunction>(selector: &S, item: Range) -> bool {
    forall|envelope: Envelope| #[trigger]
        envelope.contains(item.bounds()) ==> selector.unpacks_parent(envelope)
}

/// The selector never prunes a range that it would take.
pub open spec fn prunes_safely<S: SelectionFunction>(selector: &S) -> bool {
    forall|item: Range| #[trigger] selector.unpacks_leaf(item) ==> never_pruned(selector, item)
}

/// `found` is an answer that a search with `selector` may give over `items`.
///
/// It holds nothing that is not stored and nothing that the selector does not
/// take, and it holds every copy of each range that the selector takes and
/// can never prune. Of a range that the selector takes but may prune, it holds
/// some of the copies: how many depends on the shape of the tree.
pub open spec fn is_selection<S: SelectionFunction>(
    selector: &S,
    items: Multiset<Range>,
    found: Multiset<Range>,
) -> bool {
    forall|item: Range|
        {
            &&& #[trigger] found.count(item) <= items.count(item)
            &&& found.count(item) > 0 ==> selector.unpacks_leaf(item)
            &&& selector.unpacks_leaf(item) && never_pruned(selector, item) ==> found.count(item)
                == items.count(item)
        }
}

/// The ranges among `items` that the selector takes.
pub open spec fn accepted<S: SelectionFunction>(selector: &S, items: Multiset<Range>) -> Multiset<
    Range,
> {
    items.filter(|item: Range| selector.unpacks_leaf(item))
}

/// The ranges among `items` that cover `target`.
pub open spec fn containing(items: Multiset<Range>, target: Range) -> Multiset<Range> {
    items.filter(|item: Range| item.covers(target))
}

/// Selects the stored ranges whose envelope contains that of the target
/// `self.0`: for a valid target, the ranges that cover it.
///
/// This is containment of the target by the stored range, not overlap: a
/// stored range that only touches or crosses the target is not selected.
pub struct RangeSelector(pub Range);

impl SelectionFunction for RangeSelector {
    open spec fn unpacks_parent(&self, envelope: Envelope) -> bool {
        envelope.contains(self.0.bounds())
    }

    open spec fn unpacks_leaf(&self, leaf: Range) -> bool {
        leaf.bounds().contains(self.0.bounds())
    }

    fn should_unpack_parent(&self, envelope: &Envelope) -> (unpack: bool) {
        envelope.contains_envelope(&self.0.envelope())
    }

    fn should_unpack_leaf(&self, leaf: &Range) -> (unpack: bool) {
        leaf.envelope().contains_envelope(&self.0.envelope())
    }
}

/// How often a range occurs among those that cover `target`: as often as it
/// is stored if it covers the target, else not at all.
pub proof fn lemma_containing_count(items: Multiset<Range>, target: Range, item: Range)
    ensures
        containing(items, target).count(item) == if item.covers(target) {
            items.count(item)
        } else {
            0
        },
{
    broadcast use vstd::multiset::group_multiset_axioms;
}

/// A node that the selector does not open holds no range that the selector
/// never prunes: the node's envelope bounds each range below it, and the
/// selector would open any such envelope. So to find nothing below that node
/// is an answer that a search may give.
pub proof fn lemma_unopened_node_selects_nothing<S: SelectionFunction>(
    selector: &S,
    items: Multiset<Range>,
    envelope: Envelope,
)
    requires
        !selector.unpacks_parent(envelope),
        forall|item: Range| items.count(item) > 0 ==> envelope.contains(#[trigger] item.bounds()),
    ensures
        is_selection(selector, items, Multiset::empty()),
{
    broadcast use vstd::multiset::group_multiset_axioms;

    let none = Multiset::<Range>::empty();
    assert forall|item: Range|
        {
            &&& #[trigger] none.count(item) <= items.count(item)
            &&& none.count(item) > 0 ==> selector.unpacks_leaf(item)
            &&& selector.unpacks_leaf(item) && never_pruned(selector, item) ==> none.count(item)
                == items.count(item)
        } by {
        if items.count(item) > 0 && never_pruned(selector, item) {
            assert(envelope.contains(item.bounds()));
        }
    }
}

/// Two searches, one after the other, select from what both parts hold.
pub proof fn lemma_selection_add<S: SelectionFunction>(
    selector: &S,
    items_a: Multiset<Range>,
    found_a: Multiset<Range>,
    items_b: Multiset<Range>,
    found_b: Multiset<Range>,
)
    requires
        is_selection(selector, items_a, found_a),
        is_selection(selector, items_b, found_b),
    ensures
        is_selection(selector, items_a.add(items_b), found_a.add(found_b)),
{
    broadcast use vstd::multiset::group_multiset_axioms;

    assert forall|item: Range|
        {
            &&& #[trigger] found_a.add(found_b).count(item) <= items_a.add(items_b).count(item)
            &&& found_a.add(found_b).count(item) > 0 ==> selector.unpacks_leaf(item)
            &&& selector.unpacks_leaf(item) && never_pruned(selector, item) ==> found_a.add(
                found_b,
            ).count(item) == items_a.add(items_b).count(item)
        } by {
        assert(found_a.count(item) <= items_a.count(item));
        assert(found_b.count(item) <= items_b.count(item));
    }
}

/// With a selector that prunes safely, a search finds exactly the stored
/// ranges that the selector takes.
pub proof fn lemma_safe_selection_is_exact<S: SelectionFunction>(
    selector: &S,
    items: Multiset<Range>,
    found: Multiset<Range>,
)
    requires
        is_selection(selector, items, found),
        prunes_safely(selector),
    ensures
        found == accepted(selector, items),
{
    broadcast use vstd::multiset::group_multiset_axioms;

    assert forall|item: Range| found.count(item) == accepted(selector, items).count(item) by {
        assert(found.count(item) <= items.count(item));
    }
}

/// A node that holds a range whose envelope contains the target's has an
/// envelope that contains the target's too. So the containment selector
/// prunes safely.
pub proof fn lemma_range_selector_prunes_safely(selector: RangeSelector)
    ensures
        prunes_safely(&selector),
{
    assert forall|item: Range| #[trigger] selector.unpacks_leaf(item) implies never_pruned(
        &selector,
        item,
    ) by {
        assert forall|envelope: Envelope| #[trigger]
            envelope.contains(item.bounds()) implies selector.unpacks_parent(envelope) by {}
    }
}

/// Among valid ranges, the containment selector for a valid target takes
/// exactly those that cover the target.
pub proof fn lemma_range_selector_takes_covering(selector: RangeSelector, items: Multiset<Range>)
    requires
        selector.0.valid(),
        forall|item: Range| items.count(item) > 0 ==> item.valid(),
    ensures
        accepted(&selector, items) == containing(items, selector.0),
{
    broadcast use vstd::multiset::group_multiset_axioms;

    assert forall|item: Range|
        accepted(&selector, items).count(item) == containing(items, selector.0).count(item) by {
        lemma_containing_count(items, selector.0, item);
        if items.count(item) > 0 {
            assert(item.valid());
        }
    }
}

} // verus!
