//! Harbor kinds and their sampling weights.

use vstd::prelude::*;

use crate::resource::Resource;

verus! {

/// A trade-bonus marker: either bound to one resource kind, or a wildcard.
#[derive(Clone, Copy, Debug, PartialEq, Eq, Structural)]
pub enum Harbor {
    Resource(Resource),
    Any,
}

/// One of the fixed harbor positions; most hold no harbor.
#[derive(Clone, Copy, Debug, PartialEq, Eq, Structural)]
pub struct HarborSlot(pub Option<Harbor>);

impl Harbor {
    /// The pool of harbor-or-none values that board generation draws from:
    /// no harbor, one harbor per resource kind, and the wildcard.
    pub fn pool() -> (v: Vec<Option<Harbor>>)
        ensures
            v@ =~= seq![
                None,
                Some(Harbor::Resource(Resource::Brick)),
                Some(Harbor::Resource(Resource::Wool)),
                Some(Harbor::Resource(Resource::Ore)),
                Some(Harbor::Resource(Resource::Grain)),
                Some(Harbor::Resource(Resource::Lumber)),
                Some(Harbor::Any),
            ],
    {
        let mut v: Vec<Option<Harbor>> = Vec::new();
        v.push(None);
        v.push(Some(Harbor::Resource(Resource::Brick)));
        v.push(Some(Harbor::Resource(Resource::Wool)));
        v.push(Some(Harbor::Resource(Resource::Ore)));
        v.push(Some(Harbor::Resource(Resource::Grain)));
        v.push(Some(Harbor::Resource(Resource::Lumber)));
        v.push(Some(Harbor::Any));
        v
    }

    /// Sampling weight of a harbor-or-none value: heavily biased toward
    /// holding no harbor at all.
    pub fn weight_of(h: Option<Harbor>) -> (w: u64)
        ensures
            w == Harbor::weight_of_spec(h),
    {
        match h {
            None => 21,
            Some(Harbor::Resource(_)) => 1,
            Some(Harbor::Any) => 4,
        }
    }

    /// Sampling weight of a harbor-or-none value.
    pub open spec fn weight_of_spec(h: Option<Harbor>) -> u64 {
        match h {
            None => 21u64,
            Some(Harbor::Resource(_)) => 1u64,
            Some(Harbor::Any) => 4u64,
        }
    }
}

} // verus!
