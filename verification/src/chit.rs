//! Production-trigger numbers ("chits") bound to tiles.

use vstd::prelude::*;

verus! {

/// A production-trigger number: a dice total that makes the tile produce.
#[derive(Clone, Copy, Debug, PartialEq, Eq, Structural)]
pub struct Chit(pub u8);

/// A tile's chit, absent on the non-producing terrain kind.
#[derive(Clone, Copy, Debug, PartialEq, Eq, Structural)]
pub struct ChitSlot(pub Option<Chit>);

impl Chit {
    /// Chits carry a possible two-dice total other than seven.
    pub open spec fn valid(self) -> bool {
        2 <= self.0 <= 12 && self.0 != 7
    }

    /// Sampling weight of this chit in board generation: the two extreme
    /// values are half as likely as the rest.
    pub fn weight(self) -> (w: u64)
        requires
            self.valid(),
        ensures
            w == self.weight_spec(),
    {
        if self.0 == 2 || self.0 == 12 {
            1
        } else {
            2
        }
    }

    /// Sampling weight of this chit in board generation.
    pub open spec fn weight_spec(self) -> u64 {
        if self.0 == 2 || self.0 == 12 {
            1u64
        } else {
            2u64
        }
    }

    /// The pool of chits that board generation draws from, every valid
    /// value listed once, in increasing order.
    pub fn pool() -> (v: Vec<Chit>)
        ensures
            v@ =~= seq![
                Chit(2), Chit(3), Chit(4), Chit(5), Chit(6),
                Chit(8), Chit(9), Chit(10), Chit(11), Chit(12),
            ],
            forall|i: int| 0 <= i < v@.len() ==> (#[trigger] v@[i]).valid(),
    {
        let mut v: Vec<Chit> = Vec::new();
        v.push(Chit(2));
        v.push(Chit(3));
        v.push(Chit(4));
        v.push(Chit(5));
        v.push(Chit(6));
        v.push(Chit(8));
        v.push(Chit(9));
        v.push(Chit(10));
        v.push(Chit(11));
        v.push(Chit(12));
        v
    }
}

} // verus!
