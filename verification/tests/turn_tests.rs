use cotton::color::PlayerColor;
use cotton::turn::{Players, TerminalPolicy, Turn};

fn initial() -> Turn {
    Turn::Setup { round_2: false, player: 0, road: false }
}

#[test]
fn eight_steps_complete_round_one() {
    // Settlement and road for each of four players lands on round 2
    // with the last player up first.
    let mut t = initial();
    for _ in 0..8 {
        t = t.next(TerminalPolicy::MainGame);
    }
    assert_eq!(t, Turn::Setup { round_2: true, player: 3, road: false });
}

#[test]
fn round_two_advances_backward() {
    let mut t = Turn::Setup { round_2: true, player: 3, road: false };
    t = t.next(TerminalPolicy::MainGame);
    t = t.next(TerminalPolicy::MainGame);
    assert_eq!(t, Turn::Setup { round_2: true, player: 2, road: false });
}

#[test]
fn completing_setup_obeys_the_terminal_policy() {
    let done_setup = Turn::Setup { round_2: true, player: 0, road: true };
    assert_eq!(done_setup.next(TerminalPolicy::EndGame), Turn::Done);
    assert_eq!(done_setup.next(TerminalPolicy::MainGame), Turn::Production { player: 0 });
}

#[test]
fn done_is_absorbing() {
    let mut t = Turn::Done;
    for _ in 0..5 {
        t = t.next(TerminalPolicy::MainGame);
        assert_eq!(t, Turn::Done);
    }
}

#[test]
fn production_leads_to_build() {
    let t = Turn::Production { player: 2 };
    assert_eq!(t.next(TerminalPolicy::MainGame), Turn::Build { player: 2 });
}

#[test]
fn build_advances_forward_and_wraps() {
    assert_eq!(
        Turn::Build { player: 1 }.next(TerminalPolicy::MainGame),
        Turn::Production { player: 2 }
    );
    assert_eq!(
        Turn::Build { player: 3 }.next(TerminalPolicy::MainGame),
        Turn::Production { player: 0 }
    );
}

#[test]
fn transient_build_states_return_to_build() {
    assert_eq!(
        Turn::BuildRoad { player: 1 }.next(TerminalPolicy::MainGame),
        Turn::Build { player: 1 }
    );
    assert_eq!(
        Turn::BuildSettlement { player: 2 }.next(TerminalPolicy::MainGame),
        Turn::Build { player: 2 }
    );
}

#[test]
fn default_turn_is_the_first_setup_phase() {
    assert_eq!(Turn::default(), Turn::Setup { round_2: false, player: 0, road: false });
}

#[test]
fn players_are_a_permutation_of_the_four_colors() {
    let p = Players::new();
    assert_eq!(p.order.len(), 4);
    for color in [PlayerColor::Blue, PlayerColor::Orange, PlayerColor::Red, PlayerColor::White] {
        assert_eq!(p.order.iter().filter(|&&c| c == color).count(), 1);
    }
}
