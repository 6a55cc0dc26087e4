//! What holds of the index whatever it is filled with, stated over the
//! multisets and spec functions that its contracts use.

use vstd::prelude::*;
use vstd::multiset::Multiset;
use crate::range::{all_valid, Range};
use crate::selection::{
    containing, is_selection, lemma_containing_count, lemma_range_selector_prunes_safely,
    lemma_range_selector_takes_covering, lemma_safe_selection_is_exact, RangeSelector,
    SelectionFunction,
};

verus! {

/// What an index holds after the ranges of `batch` were inserted into an
/// empty index one after the other, first to last.
pub open spec fn inserted_in_turn(batch: Seq<Range>) -> Multiset<Range>
    decreases batch.len(),
{
    if batch.len() == 0 {
        Multiset::empty()
    } else {
        inserted_in_turn(batch.drop_last()).insert(batch.last())
    }
}

/// A search for the ranges that contain a valid target finds each stored
/// range whose low end is at most the target's and whose high end is at least
/// the target's, as often as it is stored, and nothing else.
pub proof fn lemma_containment_query_is_exact(
    items: Multiset<Range>,
    target: Range,
    found: Multiset<Range>,
)
    requires
        target.valid(),
        forall|item: Range| items.count(item) > 0 ==> item.valid(),
        is_selection(&RangeSelector(target), items, found),
    ensures
        found == containing(items, target),
        forall|item: Range| #[trigger]
            found.count(item) == if item.0 <= target.0 && item.1 >= target.1 {
                items.count(item)
            } else {
                0
            },
{
    lemma_range_selector_prunes_safely(RangeSelector(target));
    lemma_safe_selection_is_exact(&RangeSelector(target), items, found);
    lemma_range_selector_takes_covering(RangeSelector(target), items);
    assert forall|item: Range| #[trigger]
        found.count(item) == if item.0 <= target.0 && item.1 >= target.1 {
            items.count(item)
        } else {
            0
        } by {
        lemma_containing_count(items, target, item);
    }
}

/// A search of an index that holds nothing finds nothing, whatever the
/// selector.
pub proof fn lemma_empty_index_yields_nothing<S: SelectionFunction>(
    selector: &S,
    found: Multiset<Range>,
)
    requires
        is_selection(selector, Multiset::<Range>::empty(), found),
    ensures
        found == Multiset::<Range>::empty(),
{
    broadcast use vstd::multiset::group_multiset_axioms;

    assert forall|item: Range| found.count(item) == 0 by {}
}

/// Each range of a bulk-loaded batch is among the ranges that cover it, as
/// often as the batch holds it.
pub proof fn lemma_loaded_range_is_found(batch: Seq<Range>, at: int)
    requires
        all_valid(batch),
        0 <= at < batch.len(),
    ensures
        containing(batch.to_multiset(), batch[at]).count(batch[at]) == batch.to_multiset().count(
            batch[at],
        ),
        containing(batch.to_multiset(), batch[at]).count(batch[at]) >= 1,
{
    lemma_containing_count(batch.to_multiset(), batch[at], batch[at]);
    batch.to_multiset_ensures();
}

/// Inserting ranges one by one gives what their sequence holds as a multiset.
pub proof fn lemma_inserted_in_turn(batch: Seq<Range>)
    ensures
        inserted_in_turn(batch) == batch.to_multiset(),
    decreases batch.len(),
{
    broadcast use vstd::multiset::group_multiset_axioms;

    batch.to_multiset_ensures();
    if batch.len() > 0 {
        lemma_inserted_in_turn(batch.drop_last());
        batch.drop_last().to_multiset_ensures();
        assert(batch.drop_last().push(batch.last()) =~= batch);
    }
}

/// Inserting ranges one by one, in any order, and bulk-loading a batch of the
/// same ranges give indexes that hold the same: the same number of ranges,
/// and the same answer to every containment query.
pub proof fn lemma_inserting_in_turn_is_bulk_loading(inserted: Seq<Range>, batch: Seq<Range>)
    requires
        inserted.to_multiset() == batch.to_multiset(),
    ensures
        inserted_in_turn(inserted) == batch.to_multiset(),
        inserted_in_turn(inserted).len() == batch.to_multiset().len(),
        forall|target: Range| #[trigger]
            containing(inserted_in_turn(inserted), target) == containing(
                batch.to_multiset(),
                target,
            ),
{
    lemma_inserted_in_turn(inserted);
}

/// A range that is a single point is valid, and once inserted it is among the
/// ranges that cover it, one more time than before.
pub proof fn lemma_point_is_stored_and_found(items: Multiset<Range>, at: i32)
    ensures
        Range(at, at).valid(),
        containing(items.insert(Range(at, at)), Range(at, at)).count(Range(at, at)) == items.count(
            Range(at, at),
        ) + 1,
{
    broadcast use vstd::multiset::group_multiset_axioms;

    lemma_containing_count(items.insert(Range(at, at)), Range(at, at), Range(at, at));
}

} // verus!
