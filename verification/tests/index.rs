use interval_index::{
    Envelope, IntervalIndex, InvalidInputError, Range, RangeSelector, SelectionFunction,
};
use std::cell::Cell;

/// Opens every node and takes every range.
struct TakeAll;

impl SelectionFunction for TakeAll {
    fn unpacks_parent(&self, _envelope: Envelope) -> bool {
        true
    }

    fn unpacks_leaf(&self, _leaf: Range) -> bool {
        true
    }

    fn should_unpack_parent(&self, _envelope: &Envelope) -> bool {
        true
    }

    fn should_unpack_leaf(&self, _leaf: &Range) -> bool {
        true
    }
}

/// Takes every range but opens no node.
struct OpenNothing;

impl SelectionFunction for OpenNothing {
    fn unpacks_parent(&self, _envelope: Envelope) -> bool {
        false
    }

    fn unpacks_leaf(&self, _leaf: Range) -> bool {
        true
    }

    fn should_unpack_parent(&self, _envelope: &Envelope) -> bool {
        false
    }

    fn should_unpack_leaf(&self, _leaf: &Range) -> bool {
        true
    }
}

/// Opens every node, takes nothing, and keeps the first envelope it is shown:
/// that of the root.
struct RootEnvelope<'a> {
    seen: &'a Cell<Option<Envelope>>,
}

impl SelectionFunction for RootEnvelope<'_> {
    fn unpacks_parent(&self, _envelope: Envelope) -> bool {
        true
    }

    fn unpacks_leaf(&self, _leaf: Range) -> bool {
        false
    }

    fn should_unpack_parent(&self, envelope: &Envelope) -> bool {
        if self.seen.get().is_none() {
            self.seen.set(Some(*envelope));
        }
        true
    }

    fn should_unpack_leaf(&self, _leaf: &Range) -> bool {
        false
    }
}

fn sorted(ranges: Vec<Range>) -> Vec<(i32, i32)> {
    let mut pairs: Vec<(i32, i32)> = ranges.iter().map(|r| (r.0, r.1)).collect();
    pairs.sort();
    pairs
}

fn index_of(ranges: &[Range]) -> IntervalIndex {
    let mut index = IntervalIndex::new();
    for r in ranges {
        assert_eq!(index.insert(*r), Ok(()));
    }
    index
}

#[test]
fn new_index_is_empty() {
    let index = IntervalIndex::new();
    assert_eq!(index.size(), 0);
    assert_eq!(index.query(TakeAll), vec![]);
}

#[test]
fn empty_index_answers_nothing_to_any_selector() {
    let index = IntervalIndex::new();
    assert_eq!(index.query(TakeAll), vec![]);
    assert_eq!(index.query(OpenNothing), vec![]);
    assert_eq!(index.query(RangeSelector(Range(0, 0))), vec![]);
    assert_eq!(index.query(RangeSelector(Range(i32::MIN, i32::MAX))), vec![]);
    assert_eq!(index.locate_containing(Range(5, 5)), vec![]);
    let loaded = IntervalIndex::bulk_load(vec![]).unwrap();
    assert_eq!(loaded.size(), 0);
    assert_eq!(loaded.query(TakeAll), vec![]);
    assert_eq!(loaded.locate_containing(Range(5, 5)), vec![]);
}

#[test]
fn insert_adds_one_range() {
    let mut index = IntervalIndex::new();
    assert_eq!(index.insert(Range(10, 20)), Ok(()));
    assert_eq!(index.size(), 1);
    assert_eq!(index.query(TakeAll), vec![Range(10, 20)]);
    assert_eq!(index.insert(Range(-7, 3)), Ok(()));
    assert_eq!(index.size(), 2);
    assert_eq!(sorted(index.query(TakeAll)), vec![(-7, 3), (10, 20)]);
}

#[test]
fn insert_keeps_duplicates() {
    let index = index_of(&[Range(1, 4), Range(1, 4), Range(1, 4), Range(2, 3)]);
    assert_eq!(index.size(), 4);
    assert_eq!(sorted(index.locate_containing(Range(1, 4))), vec![(1, 4), (1, 4), (1, 4)]);
    assert_eq!(
        sorted(index.locate_containing(Range(2, 3))),
        vec![(1, 4), (1, 4), (1, 4), (2, 3)]
    );
}

#[test]
fn insert_rejects_reversed_range() {
    let mut index = index_of(&[Range(10, 20), Range(15, 25)]);
    assert_eq!(index.insert(Range(30, 10)), Err(InvalidInputError(Range(30, 10))));
    assert_eq!(index.size(), 2);
    assert_eq!(sorted(index.query(TakeAll)), vec![(10, 20), (15, 25)]);
    assert_eq!(index.locate_containing(Range(30, 10)), vec![]);
    assert_eq!(index.locate_containing(Range(10, 30)), vec![]);
    assert_eq!(sorted(index.locate_containing(Range(16, 18))), vec![(10, 20), (15, 25)]);
}

#[test]
fn insert_into_empty_rejects_reversed_range() {
    let mut index = IntervalIndex::new();
    assert_eq!(index.insert(Range(1, 0)), Err(InvalidInputError(Range(1, 0))));
    assert_eq!(index.size(), 0);
    assert_eq!(index.query(TakeAll), vec![]);
}

#[test]
fn containment_scenario() {
    let index = index_of(&[Range(10, 20), Range(15, 25), Range(5, 12)]);
    assert_eq!(sorted(index.locate_containing(Range(11, 12))), vec![(5, 12), (10, 20)]);
    assert_eq!(sorted(index.locate_containing(Range(16, 18))), vec![(10, 20), (15, 25)]);
    assert_eq!(sorted(index.locate_containing(Range(21, 22))), vec![(15, 25)]);
    assert_eq!(
        sorted(index.query(RangeSelector(Range(11, 12)))),
        vec![(5, 12), (10, 20)]
    );
}

#[test]
fn containment_is_not_overlap() {
    let index = index_of(&[Range(10, 20)]);
    assert_eq!(index.locate_containing(Range(10, 20)), vec![Range(10, 20)]);
    assert_eq!(index.locate_containing(Range(12, 13)), vec![Range(10, 20)]);
    assert_eq!(index.locate_containing(Range(9, 20)), vec![]);
    assert_eq!(index.locate_containing(Range(10, 21)), vec![]);
    assert_eq!(index.locate_containing(Range(5, 15)), vec![]);
    assert_eq!(index.locate_containing(Range(15, 25)), vec![]);
    assert_eq!(index.locate_containing(Range(0, 30)), vec![]);
    assert_eq!(index.locate_containing(Range(21, 22)), vec![]);
}

#[test]
fn point_range_is_stored_and_found() {
    let mut index = index_of(&[Range(0, 10), Range(8, 9)]);
    assert_eq!(index.insert(Range(7, 7)), Ok(()));
    assert_eq!(index.size(), 3);
    assert_eq!(sorted(index.locate_containing(Range(7, 7))), vec![(0, 10), (7, 7)]);
    assert_eq!(sorted(index.locate_containing(Range(8, 8))), vec![(0, 10), (8, 9)]);
    assert_eq!(index.locate_containing(Range(6, 7)), vec![Range(0, 10)]);
    let mut alone = IntervalIndex::new();
    assert_eq!(alone.insert(Range(-3, -3)), Ok(()));
    assert_eq!(alone.locate_containing(Range(-3, -3)), vec![Range(-3, -3)]);
    assert_eq!(alone.locate_containing(Range(-3, -2)), vec![]);
}

#[test]
fn bulk_load_holds_the_batch() {
    let batch = vec![Range(10, 20), Range(15, 25), Range(5, 12), Range(10, 20)];
    let index = IntervalIndex::bulk_load(batch.clone()).unwrap();
    assert_eq!(index.size(), 4);
    assert_eq!(sorted(index.query(TakeAll)), vec![(5, 12), (10, 20), (10, 20), (15, 25)]);
    for r in &batch {
        assert!(index.locate_containing(*r).contains(r));
    }
    assert_eq!(sorted(index.locate_containing(Range(16, 18))), vec![(10, 20), (10, 20), (15, 25)]);
}

#[test]
fn bulk_load_reports_first_reversed_range() {
    let batch = vec![Range(1, 2), Range(9, 3), Range(4, 4), Range(8, 0)];
    assert_eq!(IntervalIndex::bulk_load(batch).err(), Some(InvalidInputError(Range(9, 3))));
    assert_eq!(
        IntervalIndex::bulk_load(vec![Range(0, -1)]).err(),
        Some(InvalidInputError(Range(0, -1)))
    );
    assert_eq!(
        IntervalIndex::bulk_load(vec![Range(0, 0), Range(1, 1), Range(3, 2)]).err(),
        Some(InvalidInputError(Range(3, 2)))
    );
    assert!(IntervalIndex::bulk_load(vec![Range(0, 0), Range(1, 1)]).is_ok());
}

#[test]
fn remove_takes_one_copy() {
    let mut index = index_of(&[Range(1, 4), Range(1, 4), Range(2, 3)]);
    assert!(index.remove(&Range(1, 4)));
    assert_eq!(index.size(), 2);
    assert_eq!(sorted(index.query(TakeAll)), vec![(1, 4), (2, 3)]);
    assert!(index.remove(&Range(1, 4)));
    assert_eq!(sorted(index.query(TakeAll)), vec![(2, 3)]);
    assert!(!index.remove(&Range(1, 4)));
    assert_eq!(index.size(), 1);
    assert!(!index.remove(&Range(2, 4)));
    assert!(!index.remove(&Range(3, 2)));
    assert_eq!(sorted(index.query(TakeAll)), vec![(2, 3)]);
    assert!(index.remove(&Range(2, 3)));
    assert_eq!(index.size(), 0);
    assert_eq!(index.query(TakeAll), vec![]);
    assert!(!index.remove(&Range(2, 3)));
}

#[test]
fn size_counts_every_copy() {
    let mut index = IntervalIndex::new();
    for k in 0..100 {
        assert_eq!(index.size(), k);
        assert_eq!(index.insert(Range(0, (k % 3) as i32)), Ok(()));
    }
    assert_eq!(index.size(), 100);
    assert_eq!(index.locate_containing(Range(0, 2)).len(), 33);
    assert_eq!(index.locate_containing(Range(0, 1)).len(), 66);
    assert_eq!(index.locate_containing(Range(0, 0)).len(), 100);
}

#[test]
fn selector_that_opens_nothing_finds_nothing() {
    let index = index_of(&[Range(1, 4), Range(2, 3)]);
    assert_eq!(index.query(OpenNothing), vec![]);
    assert_eq!(index.query(TakeAll).len(), 2);
}

#[test]
fn root_envelope_bounds_all_ranges() {
    let seen = Cell::new(None);
    let index = index_of(&[Range(10, 20), Range(5, 12), Range(-40, -30)]);
    assert_eq!(index.query(RootEnvelope { seen: &seen }), vec![]);
    assert_eq!(seen.get(), Some(Envelope { low: -40, high: 20 }));
}

#[test]
fn root_envelope_of_empty_index_bounds_nothing() {
    let seen = Cell::new(None);
    let index = IntervalIndex::new();
    assert_eq!(index.query(RootEnvelope { seen: &seen }), vec![]);
    assert_eq!(seen.get(), Some(Envelope { low: i128::MAX, high: i128::MIN }));
}

#[test]
fn extreme_coordinates_are_stored() {
    let mut batch = Vec::new();
    for k in 0..120 {
        batch.push(Range(i32::MIN + k, i32::MAX - k));
        batch.push(Range(i32::MIN + k, i32::MIN + k));
        batch.push(Range(i32::MAX - k, i32::MAX));
    }
    let index = index_of(&batch);
    assert_eq!(index.size(), 360);
    assert_eq!(sorted(index.query(TakeAll)), sorted(batch.clone()));
    assert_eq!(
        index.locate_containing(Range(i32::MIN, i32::MAX)),
        vec![Range(i32::MIN, i32::MAX)]
    );
    assert_eq!(index.locate_containing(Range(0, 0)).len(), 120);
    assert_eq!(index.locate_containing(Range(i32::MAX, i32::MAX)).len(), 121);
    assert_eq!(index.locate_containing(Range(i32::MIN, i32::MIN)).len(), 2);
    let loaded = IntervalIndex::bulk_load(batch.clone()).unwrap();
    assert_eq!(sorted(loaded.query(TakeAll)), sorted(batch));
    assert_eq!(loaded.locate_containing(Range(i32::MAX, i32::MAX)).len(), 121);
}
