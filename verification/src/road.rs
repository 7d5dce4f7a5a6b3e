//! Roads placed on board edges.

use vstd::prelude::*;

use crate::color::PlayerColor;

verus! {

/// The visual direction an edge faces. Presentation-only, but kept
/// per edge so a display layer can pick the right sprite.
#[derive(Clone, Copy, Debug, PartialEq, Eq, Structural)]
pub enum RoadOrientation {
    /// Connects bottom left and top right, like an increasing line.
    Inc,
    /// Connects top left and bottom right, like a decreasing line.
    Dec,
    /// Connects top and bottom: a vertical line.
    Vert,
}

/// A road together with its owner.
#[derive(Clone, Copy, Debug, PartialEq, Eq, Structural)]
pub struct Road {
    pub color: PlayerColor,
}

/// One of the fixed edge positions; holds at most one road.
#[derive(Clone, Copy, Debug, PartialEq, Eq, Structural)]
pub struct RoadSlot(pub Option<Road>);

} // verus!
