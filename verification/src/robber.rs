//! The robber's location flags.

use vstd::prelude::*;

verus! {

/// Whether the robber stands on the tile at this position.
#[derive(Clone, Copy, Debug, PartialEq, Eq, Structural)]
pub struct RobberSlot(pub bool);

} // verus!
