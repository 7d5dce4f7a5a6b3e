use cotton::board::generate_board;
use cotton::tile::Tile;

#[test]
fn generated_board_has_fixed_counts() {
    let b = generate_board();
    assert_eq!(b.tiles.len(), 19);
    assert_eq!(b.chits.len(), 19);
    assert_eq!(b.robbers.len(), 19);
    assert_eq!(b.harbors.len(), 30);
    assert_eq!(b.roads.len(), 72);
    assert_eq!(b.buildings.len(), 54);
}

#[test]
fn chits_are_suppressed_exactly_on_deserts() {
    let b = generate_board();
    for i in 0..19 {
        let desert = matches!(b.tiles[i], Tile::Desert);
        assert_eq!(b.chits[i].0.is_none(), desert);
        if let Some(chit) = b.chits[i].0 {
            assert!(2 <= chit.0 && chit.0 <= 12 && chit.0 != 7);
        }
    }
}

#[test]
fn robber_flags_match_deserts() {
    let b = generate_board();
    for i in 0..19 {
        assert_eq!(b.robbers[i].0, matches!(b.tiles[i], Tile::Desert));
    }
}

#[test]
fn generation_actually_samples() {
    // Degenerate generators (a constant board) practically never
    // survive this: across a few boards more than one terrain kind
    // appears, and some harbor position holds nothing.
    let boards: Vec<_> = (0..5).map(|_| generate_board()).collect();
    let mut kinds = std::collections::BTreeSet::new();
    for b in &boards {
        for t in &b.tiles {
            kinds.insert(format!("{:?}", t));
        }
    }
    assert!(kinds.len() > 1, "every tile of five boards had the same terrain");
    assert!(
        boards.iter().any(|b| b.harbors.iter().any(|h| h.0.is_none())),
        "every harbor position of five boards held a harbor"
    );
}

#[test]
fn generated_board_starts_empty() {
    let b = generate_board();
    assert!(b.roads.iter().all(|slot| slot.0.is_none()));
    assert!(b.buildings.iter().all(|slot| slot.0.is_none()));
}
