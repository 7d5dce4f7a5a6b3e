//! Buildings: settlements and cities placed on board vertices.

use vstd::prelude::*;

use crate::color::PlayerColor;

verus! {

/// What stands on a building slot: a settlement or its city upgrade.
#[derive(Clone, Copy, Debug, PartialEq, Eq, Structural)]
pub enum BuildingType {
    Settlement,
    City,
}

impl BuildingType {
    /// Multiplier on resource production.
    pub open spec fn production_spec(self) -> u8 {
        match self {
            BuildingType::Settlement => 1,
            BuildingType::City => 2,
        }
    }

    /// Multiplier on resource production.
    pub fn production(self) -> (m: u8)
        ensures
            m == self.production_spec(),
    {
        match self {
            BuildingType::Settlement => 1,
            BuildingType::City => 2,
        }
    }
}

/// A building together with its owner.
#[derive(Clone, Copy, Debug, PartialEq, Eq, Structural)]
pub struct Building {
    pub building_type: BuildingType,
    pub color: PlayerColor,
}

/// One of the fixed vertex positions; holds at most one building.
#[derive(Clone, Copy, Debug, PartialEq, Eq, Structural)]
pub struct BuildingSlot(pub Option<Building>);

} // verus!
