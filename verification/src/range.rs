//! Ranges, the envelopes that bound them, and the error for a malformed range.

use vstd::prelude::*;

verus! {

/// A closed range of coordinates, `self.0` its low end and `self.1` its high end.
///
/// The fields are open, so a value may have its ends the wrong way round; the
/// index takes only those for which [`Range::valid`] holds.
#[derive(Clone, Copy, Debug, PartialEq, Eq, Structural)]
pub struct Range(pub i32, pub i32);

/// The bounding interval of one range or of all the ranges below a tree node.
///
/// It bounds the coordinates from `low` to `high`, both included. With
/// `low > high` it bounds nothing: the root of an empty tree has such an
/// envelope. The ends are 128 bits wide, as the tree keeps them.
#[derive(Clone, Copy, Debug, PartialEq, Eq, Structural)]
pub struct Envelope {
    pub low: i128,
    pub high: i128,
}

/// A range whose low end lies above its high end was given to the index.
/// The field is the range that was refused.
#[derive(Clone, Copy, Debug, PartialEq, Eq, Structural)]
pub struct InvalidInputError(pub Range);

impl Envelope {
    /// `self` bounds every coordinate that `other` bounds, end points included.
    pub open spec fn contains(self, other: Envelope) -> bool {
        self.low <= other.low && other.high <= self.high
    }

    /// Whether `other` lies fully inside `self`.
    pub fn contains_envelope(&self, other: &Envelope) -> (inside: bool)
        ensures
            inside == self.contains(*other),
    {
        self.low <= other.low && other.high <= self.high
    }
}

impl Range {
    /// The low end does not lie above the high end.
    pub open spec fn valid(self) -> bool {
        self.0 <= self.1
    }

    /// `self` reaches at least as far as `other` on both sides.
    pub open spec fn covers(self, other: Range) -> bool {
        self.0 <= other.0 && other.1 <= self.1
    }

    /// The envelope of this range alone: it runs from the lower of the two
    /// ends to the higher, so for a valid range from `self.0` to `self.1`.
    pub open spec fn bounds(self) -> Envelope {
        if self.0 <= self.1 {
            Envelope { low: self.0 as i128, high: self.1 as i128 }
        } else {
            Envelope { low: self.1 as i128, high: self.0 as i128 }
        }
    }

    /// Whether the low end does not lie above the high end.
    pub fn is_valid(&self) -> (ok: bool)
        ensures
            ok == self.valid(),
    {
        self.0 <= self.1
    }

    /// The envelope that spans the two ends.
    pub fn envelope(&self) -> (e: Envelope)
        ensures
            e == self.bounds(),
    {
        if self.0 <= self.1 {
            Envelope { low: self.0 as i128, high: self.1 as i128 }
        } else {
            Envelope { low: self.1 as i128, high: self.0 as i128 }
        }
    }
}

/// Every range in `items` is valid.
pub open spec fn all_valid(items: Seq<Range>) -> bool {
    forall|i: int| 0 <= i < items.len() ==> (#[trigger] items[i]).valid()
}

} // verus!
