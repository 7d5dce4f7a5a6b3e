//! Resource kinds and the per-player resource ledger.

use vstd::prelude::*;

use crate::color::{PlayerColor, PLAYER_COUNT};

verus! {

/// One of the five resource kinds a tile can produce.
#[derive(Clone, Copy, Debug, PartialEq, Eq, Structural)]
pub enum Resource {
    Brick,
    Wool,
    Ore,
    Grain,
    Lumber,
}

/// How many resource kinds there are.
pub const RESOURCE_COUNT: usize = 5;

impl Resource {
    /// Stable position of this resource in a hand's count vector:
    /// the kinds are numbered in the order Brick, Wool, Ore, Grain, Lumber.
    pub open spec fn index_spec(self) -> int {
        match self {
            Resource::Brick => 0,
            Resource::Wool => 1,
            Resource::Ore => 2,
            Resource::Grain => 3,
            Resource::Lumber => 4,
        }
    }

    /// Stable index of this resource, in `0..RESOURCE_COUNT`.
    pub fn index(self) -> (i: usize)
        ensures
            i == self.index_spec(),
            i < RESOURCE_COUNT,
    {
        match self {
            Resource::Brick => 0,
            Resource::Wool => 1,
            Resource::Ore => 2,
            Resource::Grain => 3,
            Resource::Lumber => 4,
        }
    }
}

/// The fixed listing of all five resource kinds, in index order.
pub fn all_resources() -> (v: Vec<Resource>)
    ensures
        v@.len() == RESOURCE_COUNT,
        forall|i: int| 0 <= i < v@.len() ==> #[trigger] v@[i].index_spec() == i,
{
    let mut v: Vec<Resource> = Vec::new();
    v.push(Resource::Brick);
    v.push(Resource::Wool);
    v.push(Resource::Ore);
    v.push(Resource::Grain);
    v.push(Resource::Lumber);
    v
}

/// Per-player resource counts: one non-negative count for every
/// (player color, resource kind) pair, all starting at zero.
/// Stored flat, player-major.
pub struct Hands {
    pub counts: Vec<u64>,
}

impl Hands {
    /// The counts vector covers every (color, resource) pair.
    pub open spec fn wf(self) -> bool {
        self.counts@.len() == PLAYER_COUNT * RESOURCE_COUNT
    }

    /// The count that `c` holds of resource `r`.
    pub open spec fn at(self, c: PlayerColor, r: Resource) -> int {
        self.counts@[c.index_spec() * RESOURCE_COUNT + r.index_spec()] as int
    }

    /// A fresh ledger: every count is zero.
    pub fn new() -> (h: Hands)
        ensures
            h.wf(),
            forall|c: PlayerColor, r: Resource| #[trigger] h.at(c, r) == 0,
    {
        let mut counts: Vec<u64> = Vec::new();
        let mut i: usize = 0;
        while i < PLAYER_COUNT * RESOURCE_COUNT
            invariant
                i <= PLAYER_COUNT * RESOURCE_COUNT,
                counts@.len() == i,
                forall|j: int| 0 <= j < i ==> counts@[j] == 0u64,
            decreases PLAYER_COUNT * RESOURCE_COUNT - i,
        {
            counts.push(0);
            i = i + 1;
        }
        let h = Hands { counts };
        proof {
            assert forall|c: PlayerColor, r: Resource| #[trigger] h.at(c, r) == 0 by {
                assert(0 <= c.index_spec() < 4);
                assert(0 <= r.index_spec() < 5);
            }
        }
        h
    }

    /// Read the count that `c` holds of resource `r`.
    pub fn get(&self, c: PlayerColor, r: Resource) -> (n: u64)
        requires
            self.wf(),
        ensures
            n == self.at(c, r),
    {
        let i = c.index() * RESOURCE_COUNT + r.index();
        self.counts[i]
    }

    /// Add `amount` to the count that `c` holds of resource `r`;
    /// every other count is untouched.
    pub fn credit(&mut self, c: PlayerColor, r: Resource, amount: u64)
        requires
            old(self).wf(),
            old(self).at(c, r) + amount <= u64::MAX,
        ensures
            final(self).wf(),
            final(self).at(c, r) == old(self).at(c, r) + amount,
            forall|c2: PlayerColor, r2: Resource| !(c2 == c && r2 == r)
                ==> #[trigger] final(self).at(c2, r2) == old(self).at(c2, r2),
    {
        let i = c.index() * RESOURCE_COUNT + r.index();
        let v = self.counts[i];
        self.counts[i] = v + amount;
        proof {
            assert forall|c2: PlayerColor, r2: Resource| !(c2 == c && r2 == r)
                implies #[trigger] self.at(c2, r2) == old(self).at(c2, r2) by {
                assert(c2.index_spec() * RESOURCE_COUNT + r2.index_spec()
                    != c.index_spec() * RESOURCE_COUNT + r.index_spec());
            }
        }
    }

    /// Remove `amount` from the count that `c` holds of resource `r`;
    /// every other count is untouched. The caller must have checked
    /// affordability first: no count ever goes below zero.
    pub fn debit(&mut self, c: PlayerColor, r: Resource, amount: u64)
        requires
            old(self).wf(),
            amount <= old(self).at(c, r),
        ensures
            final(self).wf(),
            final(self).at(c, r) == old(self).at(c, r) - amount,
            forall|c2: PlayerColor, r2: Resource| !(c2 == c && r2 == r)
                ==> #[trigger] final(self).at(c2, r2) == old(self).at(c2, r2),
    {
        let i = c.index() * RESOURCE_COUNT + r.index();
        let v = self.counts[i];
        self.counts[i] = v - amount;
        proof {
            assert forall|c2: PlayerColor, r2: Resource| !(c2 == c && r2 == r)
                implies #[trigger] self.at(c2, r2) == old(self).at(c2, r2) by {
                assert(c2.index_spec() * RESOURCE_COUNT + r2.index_spec()
                    != c.index_spec() * RESOURCE_COUNT + r.index_spec());
            }
        }
    }
}

} // verus!
