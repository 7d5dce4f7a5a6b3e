//! The four player colors and the fixed order they are listed in.

use vstd::prelude::*;

verus! {

/// One of the four players, identified by color.
#[derive(Clone, Copy, Debug, PartialEq, Eq, Structural)]
pub enum PlayerColor {
    Blue,
    Orange,
    Red,
    White,
}

/// How many players take part in a game.
pub const PLAYER_COUNT: usize = 4;

impl PlayerColor {
    /// Stable position of this color when hands are kept in a fixed array:
    /// the colors are numbered in the order Blue, Orange, Red, White.
    pub open spec fn index_spec(self) -> int {
        match self {
            PlayerColor::Blue => 0,
            PlayerColor::Orange => 1,
            PlayerColor::Red => 2,
            PlayerColor::White => 3,
        }
    }

    /// The color's display name, upper case.
    pub open spec fn name_spec(self) -> Seq<char> {
        match self {
            PlayerColor::Blue => "BLUE"@,
            PlayerColor::Orange => "ORANGE"@,
            PlayerColor::Red => "RED"@,
            PlayerColor::White => "WHITE"@,
        }
    }

    /// The color's display name, upper case.
    pub fn name(self) -> (s: &'static str)
        ensures
            s@ == self.name_spec(),
    {
        match self {
            PlayerColor::Blue => "BLUE",
            PlayerColor::Orange => "ORANGE",
            PlayerColor::Red => "RED",
            PlayerColor::White => "WHITE",
        }
    }

    /// Stable index of this color, in `0..PLAYER_COUNT`.
    pub fn index(self) -> (i: usize)
        ensures
            i == self.index_spec(),
            i < PLAYER_COUNT,
    {
        match self {
            PlayerColor::Blue => 0,
            PlayerColor::Orange => 1,
            PlayerColor::Red => 2,
            PlayerColor::White => 3,
        }
    }
}

/// The fixed listing of all four colors, in index order.
pub fn all_colors() -> (v: Vec<PlayerColor>)
    ensures
        v@.len() == PLAYER_COUNT,
        forall|i: int| 0 <= i < v@.len() ==> #[trigger] v@[i].index_spec() == i,
        v@ =~= seq![PlayerColor::Blue, PlayerColor::Orange, PlayerColor::Red, PlayerColor::White],
{
    let mut v: Vec<PlayerColor> = Vec::new();
    v.push(PlayerColor::Blue);
    v.push(PlayerColor::Orange);
    v.push(PlayerColor::Red);
    v.push(PlayerColor::White);
    v
}

} // verus!
