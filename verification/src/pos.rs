//! A pair of coordinates.

use vstd::prelude::*;
use vstd::std_specs::cmp::PartialEqSpec;

verus! {

/// Two coordinates of one type: a column and a row, or a first and a last row.
#[derive(Debug, Copy, Clone, PartialEq, PartialOrd, Eq)]
pub struct Pos<T> {
    pub x: T,
    pub y: T,
}

impl<T> Pos<T> where T: PartialEq {
    /// The pair `(x, y)`.
    pub fn new(x: T, y: T) -> (p: Self)
        ensures
            p.x == x,
            p.y == y,
    {
        Self { x, y }
    }

    /// What `compare` decides: both coordinates are equal, as `T` understands equality.
    pub open spec fn agrees(&self, p: &Pos<T>) -> bool {
        self.x.eq_spec(&p.x) && self.y.eq_spec(&p.y)
    }

    /// Whether both coordinates of `self` equal those of `p`.
    pub fn compare(&self, p: &Pos<T>) -> (same: bool)
        ensures
            T::obeys_eq_spec() ==> same == self.agrees(p),
    {
        if (self.x == p.x) && (self.y == p.y) {
            return true;
        }
        false
    }
}

/// On machine integers `compare` is plain equality of the two pairs.
pub proof fn lemma_compare_i32(a: Pos<i32>, b: Pos<i32>)
    ensures
        i32::obeys_eq_spec(),
        a.agrees(&b) <==> a == b,
{
}

} // verus!
