//! Terrain kinds and their sampling weights.

use vstd::prelude::*;

use crate::resource::Resource;

verus! {

/// Terrain kind of a tile. `Desert` is the non-producing kind and the
/// robber's home.
#[derive(Clone, Copy, Debug, PartialEq, Eq, Structural)]
pub enum Tile {
    Hills,
    Pasture,
    Mountains,
    Fields,
    Forest,
    Desert,
}

impl Tile {
    /// True on the non-producing terrain kind, where the robber starts.
    pub open spec fn robber_home_spec(self) -> bool {
        self is Desert
    }

    /// True on the non-producing terrain kind, where the robber starts.
    pub fn robber_home(self) -> (b: bool)
        ensures
            b == self.robber_home_spec(),
    {
        match self {
            Tile::Hills | Tile::Pasture | Tile::Mountains | Tile::Fields | Tile::Forest => false,
            Tile::Desert => true,
        }
    }

    /// The resource kind this terrain produces; the desert produces none.
    pub open spec fn resource_spec(self) -> Option<Resource> {
        match self {
            Tile::Hills => Some(Resource::Brick),
            Tile::Pasture => Some(Resource::Wool),
            Tile::Mountains => Some(Resource::Ore),
            Tile::Fields => Some(Resource::Grain),
            Tile::Forest => Some(Resource::Lumber),
            Tile::Desert => None,
        }
    }

    /// The resource kind this terrain produces; the desert produces none.
    pub fn resource(self) -> (r: Option<Resource>)
        ensures
            r == self.resource_spec(),
    {
        match self {
            Tile::Hills => Some(Resource::Brick),
            Tile::Pasture => Some(Resource::Wool),
            Tile::Mountains => Some(Resource::Ore),
            Tile::Fields => Some(Resource::Grain),
            Tile::Forest => Some(Resource::Lumber),
            Tile::Desert => None,
        }
    }

    /// Sampling weight of this terrain kind in board generation.
    pub open spec fn weight_spec(self) -> u64 {
        match self {
            Tile::Hills | Tile::Mountains => 3,
            Tile::Pasture | Tile::Fields | Tile::Forest => 4,
            Tile::Desert => 1,
        }
    }

    /// Sampling weight of this terrain kind in board generation.
    pub fn weight(self) -> (w: u64)
        ensures
            w == self.weight_spec(),
    {
        match self {
            Tile::Hills | Tile::Mountains => 3,
            Tile::Pasture | Tile::Fields | Tile::Forest => 4,
            Tile::Desert => 1,
        }
    }

    /// The pool of terrain kinds that board generation draws from,
    /// every kind listed once.
    pub fn pool() -> (v: Vec<Tile>)
        ensures
            v@ =~= seq![
                Tile::Hills,
                Tile::Pasture,
                Tile::Mountains,
                Tile::Fields,
                Tile::Forest,
                Tile::Desert,
            ],
    {
        let mut v: Vec<Tile> = Vec::new();
        v.push(Tile::Hills);
        v.push(Tile::Pasture);
        v.push(Tile::Mountains);
        v.push(Tile::Fields);
        v.push(Tile::Forest);
        v.push(Tile::Desert);
        v
    }
}

} // verus!
