//! An index of closed integer ranges that answers containment queries.
//!
//! The ranges are kept in an R*-tree of the `rstar` crate. The index validates
//! what goes in, walks the tree's nodes to answer a query, and states what it
//! holds as a multiset of ranges.
//!
//! ```
//! use interval_index::{IntervalIndex, Range};
//!
//! let mut index = IntervalIndex::new();
//! index.insert(Range(10, 20)).unwrap();
//! index.insert(Range(5, 12)).unwrap();
//! assert_eq!(index.locate_containing(Range(15, 18)), vec![Range(10, 20)]);
//! assert!(index.insert(Range(30, 10)).is_err());
//! ```
//!
//! - [`range`]: ranges, envelopes and the error for a reversed range.
//! - [`selection`]: the selectors that guide a search, and what a search with
//!   a given selector may find.
//! - [`index`]: the index itself.
//! - [`laws`]: what holds of the index whatever it is filled with.

pub mod index;
pub mod laws;
pub mod range;
pub mod selection;
mod tree;

pub use index::IntervalIndex;
pub use range::{Envelope, InvalidInputError, Range};
pub use selection::{RangeSelector, SelectionFunction};
