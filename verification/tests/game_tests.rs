use cotton::building::{Building, BuildingSlot, BuildingType};
use cotton::chit::{Chit, ChitSlot};
use cotton::color::PlayerColor;
use cotton::game::{BuildError, Game};
use cotton::resource::Resource;
use cotton::road::{Road, RoadSlot};
use cotton::tile::Tile;
use cotton::turn::{TerminalPolicy, Turn};

const RESOURCES: [Resource; 5] = [
    Resource::Brick,
    Resource::Wool,
    Resource::Ore,
    Resource::Grain,
    Resource::Lumber,
];

fn settlement(color: PlayerColor) -> BuildingSlot {
    BuildingSlot(Some(Building { building_type: BuildingType::Settlement, color }))
}

#[test]
fn occupied_neighbor_blocks_settlement() {
    // Vertex 0 is empty, but its neighbor vertex 1 is occupied: the
    // distance rule rejects the placement.
    let mut g = Game::new(TerminalPolicy::MainGame);
    let other = g.players.order[3];
    g.board.buildings[1] = settlement(other);
    assert_eq!(g.attempt_build_settlement(0), Err(BuildError::IllegalPlacement));
    assert!(g.board.buildings[0].0.is_none());
}

#[test]
fn occupied_slot_blocks_settlement() {
    let mut g = Game::new(TerminalPolicy::MainGame);
    let other = g.players.order[3];
    g.board.buildings[5] = settlement(other);
    assert_eq!(g.attempt_build_settlement(5), Err(BuildError::IllegalPlacement));
}

#[test]
fn road_build_without_funds_fails_and_charges_nothing() {
    let mut g = Game::new(TerminalPolicy::MainGame);
    g.turn = Turn::Build { player: 0 };
    let color = g.players.order[0];
    // Edge 0 touches edge 1, which we hand to the player, so the
    // placement itself is legal; only the funds are missing.
    g.board.roads[1] = RoadSlot(Some(Road { color }));
    assert_eq!(g.attempt_build_road(0), Err(BuildError::InsufficientResources));
    for c in [PlayerColor::Blue, PlayerColor::Orange, PlayerColor::Red, PlayerColor::White] {
        for r in RESOURCES {
            assert_eq!(g.hands.get(c, r), 0);
        }
    }
    assert!(g.board.roads[0].0.is_none());
    assert_eq!(g.turn, Turn::Build { player: 0 });
}

#[test]
fn settlement_build_without_funds_fails() {
    let mut g = Game::new(TerminalPolicy::MainGame);
    g.turn = Turn::Build { player: 0 };
    let color = g.players.order[0];
    // A road of ours at edge 0 makes vertex 0 connected.
    g.board.roads[0] = RoadSlot(Some(Road { color }));
    assert_eq!(g.attempt_build_settlement(0), Err(BuildError::InsufficientResources));
    for r in RESOURCES {
        assert_eq!(g.hands.get(color, r), 0);
    }
}

#[test]
fn build_intents_are_rejected_outside_their_phases() {
    let mut g = Game::new(TerminalPolicy::MainGame);
    g.turn = Turn::Production { player: 0 };
    assert_eq!(g.attempt_build_settlement(0), Err(BuildError::InvalidTurnAction));
    assert_eq!(g.attempt_build_road(0), Err(BuildError::InvalidTurnAction));
    assert_eq!(g.confirm_build_settlement(0), Err(BuildError::InvalidTurnAction));
    assert_eq!(g.confirm_build_road(0), Err(BuildError::InvalidTurnAction));
    // The advance signal is honored in the build phase alone.
    assert_eq!(g.advance_turn(), Err(BuildError::InvalidTurnAction));
    g.turn = Turn::Build { player: 2 };
    assert_eq!(g.advance_turn(), Ok(()));
    assert_eq!(g.turn, Turn::Production { player: 3 });
}

#[test]
fn production_credits_a_settlement_once() {
    // A lone settlement at vertex 0, whose only adjacent tile is tile 0:
    // a mountain with chit 8. A total of 8 credits one ore.
    let mut g = Game::new(TerminalPolicy::MainGame);
    let color = g.players.order[0];
    g.board.tiles[0] = Tile::Mountains;
    g.board.chits[0] = ChitSlot(Some(Chit(8)));
    g.board.buildings[0] = settlement(color);
    g.produce(8);
    assert_eq!(g.hands.get(color, Resource::Ore), 1);
    assert_eq!(g.hands.get(color, Resource::Brick), 0);
    assert_eq!(g.hands.get(color, Resource::Wool), 0);
    assert_eq!(g.hands.get(color, Resource::Grain), 0);
    assert_eq!(g.hands.get(color, Resource::Lumber), 0);
    for i in 1..4 {
        let other = g.players.order[i];
        for r in RESOURCES {
            assert_eq!(g.hands.get(other, r), 0);
        }
    }
}

#[test]
fn production_credits_a_city_twice() {
    // The identical configuration with a city gains two ore.
    let mut g = Game::new(TerminalPolicy::MainGame);
    let color = g.players.order[0];
    g.board.tiles[0] = Tile::Mountains;
    g.board.chits[0] = ChitSlot(Some(Chit(8)));
    g.board.buildings[0] =
        BuildingSlot(Some(Building { building_type: BuildingType::City, color }));
    g.produce(8);
    assert_eq!(g.hands.get(color, Resource::Ore), 2);
}

#[test]
fn production_with_no_matching_chit_credits_nothing() {
    let mut g = Game::new(TerminalPolicy::MainGame);
    let color = g.players.order[0];
    g.board.tiles[0] = Tile::Mountains;
    g.board.chits[0] = ChitSlot(Some(Chit(8)));
    g.board.buildings[0] = settlement(color);
    g.produce(5);
    for r in RESOURCES {
        assert_eq!(g.hands.get(color, r), 0);
    }
}

#[test]
fn absent_chits_never_produce() {
    let mut g = Game::new(TerminalPolicy::MainGame);
    let color = g.players.order[0];
    g.board.tiles[0] = Tile::Mountains;
    g.board.chits[0] = ChitSlot(None);
    g.board.buildings[0] = settlement(color);
    for total in 2..=12u8 {
        g.produce(total);
    }
    assert_eq!(g.hands.get(color, Resource::Ore), 0);
}

#[test]
fn confirm_on_an_occupied_slot_is_rejected() {
    // Idempotent rejection: no double build, whoever owns the slot.
    let mut g = Game::new(TerminalPolicy::MainGame);
    let color = g.players.order[0];
    g.board.buildings[0] = settlement(color);
    let before = g.turn;
    assert_eq!(g.confirm_build_settlement(0), Err(BuildError::IllegalPlacement));
    assert_eq!(g.turn, before);
    assert!(matches!(g.board.buildings[0].0, Some(b) if b.color == color));
}

#[test]
fn confirm_on_an_occupied_edge_is_rejected() {
    let mut g = Game::new(TerminalPolicy::MainGame);
    let color = g.players.order[0];
    g.turn = Turn::Setup { round_2: false, player: 0, road: true };
    g.board.roads[0] = RoadSlot(Some(Road { color }));
    assert_eq!(g.confirm_build_road(0), Err(BuildError::IllegalPlacement));
}

#[test]
fn legality_flags_mirror_the_rules() {
    let mut g = Game::new(TerminalPolicy::MainGame);
    let color = g.players.order[0];
    // On an empty board every vertex is open in setup.
    assert!(g.settlement_legality(color, true).iter().all(|&b| b));
    // Occupying vertex 0 closes it and its neighbors (1 and 8), and
    // nothing else.
    g.board.buildings[0] = settlement(g.players.order[1]);
    let flags = g.settlement_legality(color, true);
    for v in 0..54 {
        assert_eq!(flags[v], ![0, 1, 8].contains(&v), "vertex {}", v);
    }
    // No road on the board: outside setup no edge is legal; an edge
    // next to our road becomes legal.
    assert!(g.road_legality(color, false).iter().all(|&b| !b));
    g.board.roads[1] = RoadSlot(Some(Road { color }));
    let road_flags = g.road_legality(color, false);
    // Edge 1's neighbors are edges 0, 2 and 7.
    for r in 0..72 {
        assert_eq!(road_flags[r], [0, 2, 7].contains(&r), "edge {}", r);
    }
}

fn first_legal_settlement(g: &Game, color: PlayerColor) -> usize {
    (0..54).find(|&v| g.settlement_legal_at(v, color, true)).expect("no legal vertex")
}

fn first_legal_road(g: &Game, color: PlayerColor) -> usize {
    (0..72).find(|&r| g.road_legal_at(r, color, true)).expect("no legal edge")
}

#[test]
fn full_setup_runs_in_snake_order_and_yields_starting_resources() {
    let mut g = Game::new(TerminalPolicy::MainGame);
    let mut seen_players = Vec::new();
    for _ in 0..8 {
        let player = match g.turn {
            Turn::Setup { player, road: false, .. } => player,
            other => panic!("expected a settlement phase, got {:?}", other),
        };
        seen_players.push(player);
        let color = g.players.order[player];
        let v = first_legal_settlement(&g, color);
        assert_eq!(g.attempt_build_settlement(v), Ok(()));
        assert_eq!(g.confirm_build_settlement(v), Ok(()));
        let (road_player, road_flag) = match g.turn {
            Turn::Setup { player, road, .. } => (player, road),
            other => panic!("expected a road phase, got {:?}", other),
        };
        assert_eq!((road_player, road_flag), (player, true));
        let r = first_legal_road(&g, color);
        assert_eq!(g.attempt_build_road(r), Ok(()));
        assert_eq!(g.confirm_build_road(r), Ok(()));
    }
    // Forward through the order, then backward: the snake draft.
    assert_eq!(seen_players, vec![0, 1, 2, 3, 3, 2, 1, 0]);
    assert_eq!(g.turn, Turn::Production { player: 0 });
    // Round-2 placements yielded one unit per producing adjacent tile:
    // between zero and three per player.
    for i in 0..4 {
        let color = g.players.order[i];
        let total: u64 = RESOURCES.iter().map(|&r| g.hands.get(color, r)).sum();
        assert!(total <= 3, "player {} gained {}", i, total);
    }
    // Eight settlements and eight roads stand on the board.
    assert_eq!(g.board.buildings.iter().filter(|s| s.0.is_some()).count(), 8);
    assert_eq!(g.board.roads.iter().filter(|s| s.0.is_some()).count(), 8);
}

#[test]
fn full_setup_can_end_the_game() {
    let mut g = Game::new(TerminalPolicy::EndGame);
    for _ in 0..8 {
        let player = match g.turn {
            Turn::Setup { player, road: false, .. } => player,
            other => panic!("expected a settlement phase, got {:?}", other),
        };
        let color = g.players.order[player];
        let v = first_legal_settlement(&g, color);
        g.attempt_build_settlement(v).unwrap();
        g.confirm_build_settlement(v).unwrap();
        let r = first_legal_road(&g, color);
        g.attempt_build_road(r).unwrap();
        g.confirm_build_road(r).unwrap();
    }
    assert_eq!(g.turn, Turn::Done);
}

#[test]
fn production_step_rolls_and_advances() {
    let mut g = Game::new(TerminalPolicy::MainGame);
    g.turn = Turn::Production { player: 1 };
    let (d1, d2) = g.production_step();
    assert!((1..=6).contains(&d1));
    assert!((1..=6).contains(&d2));
    assert_eq!(g.turn, Turn::Build { player: 1 });
}

#[test]
fn accepted_main_game_build_charges_at_acceptance() {
    let mut g = Game::new(TerminalPolicy::MainGame);
    g.turn = Turn::Build { player: 0 };
    let color = g.players.order[0];
    g.board.roads[1] = RoadSlot(Some(Road { color }));
    g.hands.credit(color, Resource::Brick, 2);
    g.hands.credit(color, Resource::Lumber, 2);
    assert_eq!(g.attempt_build_road(0), Ok(()));
    // The cost left the hand before confirmation.
    assert_eq!(g.hands.get(color, Resource::Brick), 1);
    assert_eq!(g.hands.get(color, Resource::Lumber), 1);
    assert_eq!(g.turn, Turn::BuildRoad { player: 0 });
    assert!(g.board.roads[0].0.is_none());
    // Confirmation writes the road and returns to the build phase.
    assert_eq!(g.confirm_build_road(0), Ok(()));
    assert!(matches!(g.board.roads[0].0, Some(rd) if rd.color == color));
    assert_eq!(g.turn, Turn::Build { player: 0 });
}
