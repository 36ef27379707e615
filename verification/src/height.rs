//! Chain heights: a totally ordered pair of revision number and revision
//! height, compared lexicographically.

use vstd::prelude::*;

verus! {

/// A point in a chain's history: `(revision_number, revision_height)`,
/// ordered lexicographically with the revision number as the major key.
#[derive(Clone, Copy, PartialEq, Eq, Structural, Debug)]
pub struct Height {
    pub revision_number: u64,
    pub revision_height: u64,
}

/// Strict lexicographic order on heights.
pub open spec fn height_lt(a: Height, b: Height) -> bool {
    a.revision_number < b.revision_number
        || (a.revision_number == b.revision_number && a.revision_height < b.revision_height)
}

/// Non-strict lexicographic order on heights.
pub open spec fn height_le(a: Height, b: Height) -> bool {
    height_lt(a, b) || a == b
}

impl Height {
    /// Builds a height from its two components.
    pub fn new(revision_number: u64, revision_height: u64) -> (r: Height)
        ensures
            r.revision_number == revision_number,
            r.revision_height == revision_height,
    {
        Height { revision_number, revision_height }
    }

    /// Strict comparison, `self < other` in the lexicographic order.
    pub fn lt(&self, other: &Height) -> (r: bool)
        ensures
            r == height_lt(*self, *other),
    {
        self.revision_number < other.revision_number
            || (self.revision_number == other.revision_number
                && self.revision_height < other.revision_height)
    }

    /// Non-strict comparison, `self <= other` in the lexicographic order.
    pub fn le(&self, other: &Height) -> (r: bool)
        ensures
            r == height_le(*self, *other),
    {
        self.revision_number < other.revision_number
            || (self.revision_number == other.revision_number
                && self.revision_height <= other.revision_height)
    }

    /// The next height in the same revision.
    pub fn increment(&self) -> (r: Height)
        requires
            self.revision_height < u64::MAX,
        ensures
            r.revision_number == self.revision_number,
            r.revision_height == self.revision_height + 1,
            height_lt(*self, r),
    {
        Height {
            revision_number: self.revision_number,
            revision_height: self.revision_height + 1,
        }
    }
}

/// Within one revision the order is exactly the order of the revision
/// heights; across revisions the revision number alone decides.
pub proof fn lemma_height_order_within_and_across_revisions(h1: Height, h2: Height)
    ensures
        h1.revision_number == h2.revision_number
            ==> (height_lt(h1, h2) <==> h1.revision_height < h2.revision_height),
        h1.revision_number != h2.revision_number
            ==> (height_lt(h1, h2) <==> h1.revision_number < h2.revision_number),
{
}

/// The lexicographic order on heights is a strict total order: irreflexive,
/// transitive, and any two heights are comparable.
pub proof fn lemma_height_order_total(a: Height, b: Height, c: Height)
    ensures
        !height_lt(a, a),
        height_lt(a, b) && height_lt(b, c) ==> height_lt(a, c),
        height_lt(a, b) || height_lt(b, a) || a == b,
{
}

} // verus!
