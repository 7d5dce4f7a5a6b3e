//! The turn order and the turn-phase state machine.

use vstd::prelude::*;

use crate::color::{all_colors, PlayerColor, PLAYER_COUNT};
use crate::random::shuffle_colors;

verus! {

/// The turn order: the four player colors in the order they play,
/// randomized once at game start.
pub struct Players {
    /// The colors, first player first.
    pub order: Vec<PlayerColor>,
}

impl Players {
    /// The order lists each of the four colors exactly once.
    pub open spec fn wf(self) -> bool {
        &&& self.order@.len() == PLAYER_COUNT
        &&& self.order@.to_multiset() == seq![
            PlayerColor::Blue,
            PlayerColor::Orange,
            PlayerColor::Red,
            PlayerColor::White,
        ].to_multiset()
    }

    /// Draw a random turn order: some permutation of the four colors.
    pub fn new() -> (p: Players)
        ensures
            p.wf(),
    {
        let mut order = all_colors();
        shuffle_colors(&mut order);
        Players { order }
    }

    /// The color that plays in position `i`.
    pub fn get(&self, i: usize) -> (c: PlayerColor)
        requires
            self.wf(),
            i < PLAYER_COUNT,
        ensures
            c == self.order@[i as int],
    {
        self.order[i]
    }
}

impl Default for Players {
    /// A random turn order, as [`Players::new`] draws it.
    fn default() -> (p: Players)
        ensures
            p.wf(),
    {
        Players::new()
    }
}

/// Policy choice for what completing setup round 2 leads to. Left open
/// deliberately: callers pick the absorbing terminal state or an
/// endless production/build loop.
#[derive(Clone, Copy, Debug, PartialEq, Eq, Structural)]
pub enum TerminalPolicy {
    /// Completing setup ends the game.
    EndGame,
    /// Completing setup enters the production/build loop.
    MainGame,
}

/// The phase the game is in, together with the player at turn
/// (a position in the turn order, not a color).
#[derive(Clone, Copy, Debug, PartialEq, Eq, Structural)]
pub enum Turn {
    /// Initial placement: each player places a settlement then a road,
    /// forward through the order in round 1, backward in round 2.
    Setup { round_2: bool, player: usize, road: bool },
    /// Dice are rolled and resources produced for `player`'s turn.
    Production { player: usize },
    /// `player` may build or end their turn.
    Build { player: usize },
    /// Transient: `player` confirmed affording a road and now places it.
    BuildRoad { player: usize },
    /// Transient: `player` confirmed affording a settlement and now
    /// places it.
    BuildSettlement { player: usize },
    /// Terminal, absorbing.
    Done,
}

impl Turn {
    /// The player index is in range.
    pub open spec fn wf(self) -> bool {
        match self {
            Turn::Setup { player, .. } => player < PLAYER_COUNT,
            Turn::Production { player } => player < PLAYER_COUNT,
            Turn::Build { player } => player < PLAYER_COUNT,
            Turn::BuildRoad { player } => player < PLAYER_COUNT,
            Turn::BuildSettlement { player } => player < PLAYER_COUNT,
            Turn::Done => true,
        }
    }

    /// The transition function of the turn state machine.
    pub open spec fn next_spec(self, policy: TerminalPolicy) -> Turn {
        match self {
            Turn::Setup { round_2, player, road } => {
                if !road {
                    // Settlement placed; now place the matching road.
                    Turn::Setup { round_2, player, road: true }
                } else if !round_2 {
                    if player == PLAYER_COUNT - 1 {
                        // Round 1 complete: round 2 starts at the last player.
                        Turn::Setup { round_2: true, player, road: false }
                    } else {
                        // Round 1 advances forward through the order.
                        Turn::Setup { round_2: false, player: (player + 1) as usize, road: false }
                    }
                } else {
                    if player == 0 {
                        // Round 2 complete: what follows is the policy's choice.
                        if policy is EndGame {
                            Turn::Done
                        } else {
                            Turn::Production { player: 0 }
                        }
                    } else {
                        // Round 2 advances backward: the snake order.
                        Turn::Setup { round_2: true, player: (player - 1) as usize, road: false }
                    }
                }
            },
            Turn::Production { player } => Turn::Build { player },
            Turn::Build { player } => {
                if player == PLAYER_COUNT - 1 {
                    Turn::Production { player: 0 }
                } else {
                    Turn::Production { player: (player + 1) as usize }
                }
            },
            Turn::BuildRoad { player } => Turn::Build { player },
            Turn::BuildSettlement { player } => Turn::Build { player },
            Turn::Done => Turn::Done,
        }
    }

    /// Advance to the next turn state.
    pub fn next(self, policy: TerminalPolicy) -> (t: Turn)
        requires
            self.wf(),
        ensures
            t == self.next_spec(policy),
            t.wf(),
    {
        match self {
            Turn::Setup { round_2, player, road } => {
                if !road {
                    Turn::Setup { round_2, player, road: true }
                } else if !round_2 {
                    if player == PLAYER_COUNT - 1 {
                        Turn::Setup { round_2: true, player, road: false }
                    } else {
                        Turn::Setup { round_2: false, player: player + 1, road: false }
                    }
                } else {
                    if player == 0 {
                        if matches!(policy, TerminalPolicy::EndGame) {
                            Turn::Done
                        } else {
                            Turn::Production { player: 0 }
                        }
                    } else {
                        Turn::Setup { round_2: true, player: player - 1, road: false }
                    }
                }
            },
            Turn::Production { player } => Turn::Build { player },
            Turn::Build { player } => {
                if player == PLAYER_COUNT - 1 {
                    Turn::Production { player: 0 }
                } else {
                    Turn::Production { player: player + 1 }
                }
            },
            Turn::BuildRoad { player } => Turn::Build { player },
            Turn::BuildSettlement { player } => Turn::Build { player },
            Turn::Done => Turn::Done,
        }
    }
}

impl Default for Turn {
    /// The initial state: round 1 of setup, first player, placing a
    /// settlement.
    fn default() -> (t: Turn)
        ensures
            t == (Turn::Setup { round_2: false, player: 0, road: false }),
    {
        Turn::Setup { round_2: false, player: 0, road: false }
    }
}

/// `start` after `n` transitions.
pub open spec fn next_n(start: Turn, policy: TerminalPolicy, n: nat) -> Turn
    decreases n,
{
    if n == 0 {
        start
    } else {
        next_n(start, policy, (n - 1) as nat).next_spec(policy)
    }
}

/// Law: from the initial state, eight transitions — a settlement and a
/// road for each of the four players — complete setup round 1 and reach
/// round 2 with the last player about to place a settlement.
pub proof fn lemma_setup_round_one(policy: TerminalPolicy)
    ensures
        next_n(Turn::Setup { round_2: false, player: 0, road: false }, policy, 8) == (Turn::Setup {
            round_2: true,
            player: 3,
            road: false,
        }),
{
    reveal_with_fuel(next_n, 9);
}

/// Law: in setup round 2 the order is reversed — from the last player's
/// round-2 turn, two transitions (settlement and road) hand the turn to
/// the next-to-last player, not forward to a new round.
pub proof fn lemma_setup_round_two_reversed(policy: TerminalPolicy)
    ensures
        next_n(Turn::Setup { round_2: true, player: 3, road: false }, policy, 2) == (Turn::Setup {
            round_2: true,
            player: 2,
            road: false,
        }),
{
    reveal_with_fuel(next_n, 3);
}

/// Law: `Done` is absorbing — no number of further transitions leaves it.
pub proof fn lemma_done_absorbing(policy: TerminalPolicy, n: nat)
    ensures
        next_n(Turn::Done, policy, n) == Turn::Done,
    decreases n,
{
    if n > 0 {
        lemma_done_absorbing(policy, (n - 1) as nat);
    }
}

} // verus!

