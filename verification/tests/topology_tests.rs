use cotton::topology::{Topology, BUILDING_COUNT, HARBOR_COUNT, ROAD_COUNT, TILE_COUNT};

#[test]
fn counts_are_fixed() {
    assert_eq!(TILE_COUNT, 19);
    assert_eq!(HARBOR_COUNT, 30);
    assert_eq!(ROAD_COUNT, 72);
    assert_eq!(BUILDING_COUNT, 54);
    let t = Topology::standard();
    assert_eq!(t.road_buildings.len(), 72);
    assert_eq!(t.building_tiles.len(), 54);
    assert_eq!(t.building_roads.len(), 54);
    assert_eq!(t.building_buildings.len(), 54);
    assert_eq!(t.road_roads.len(), 72);
    assert_eq!(t.orientations.len(), 72);
}

#[test]
fn building_building_adjacency_is_symmetric() {
    let t = Topology::standard();
    for v in 0..54 {
        for &u in &t.building_buildings[v] {
            assert!(
                t.building_buildings[u].contains(&v),
                "building {} lists {} but not the other way around",
                v,
                u
            );
        }
    }
}

#[test]
fn road_road_adjacency_is_symmetric() {
    let t = Topology::standard();
    for r in 0..72 {
        for &s in &t.road_roads[r] {
            assert!(t.road_roads[s].contains(&r));
        }
    }
}

#[test]
fn road_building_tables_are_paired() {
    let t = Topology::standard();
    // Each road's endpoints list the road back.
    for r in 0..72 {
        let (a, b) = t.road_buildings[r];
        assert!(t.building_roads[a].contains(&r));
        assert!(t.building_roads[b].contains(&r));
    }
    // Each building's roads end at the building.
    for v in 0..54 {
        for &r in &t.building_roads[v] {
            let (a, b) = t.road_buildings[r];
            assert!(a == v || b == v);
        }
    }
}

#[test]
fn known_adjacency_rows() {
    let t = Topology::standard();
    // Corner vertex 0 of the top-left tile.
    assert_eq!(t.building_roads[0], vec![0, 6]);
    assert_eq!(t.building_buildings[0], vec![1, 8]);
    assert_eq!(t.road_roads[0], vec![1, 6]);
    assert_eq!(t.road_buildings[0], (0, 1));
    // Vertex 2 sits between vertices 1 and 3 on the coast and above
    // vertex 10 via the vertical road 7.
    assert_eq!(t.building_buildings[2], vec![1, 3, 10]);
    // An interior vertex touches three tiles.
    assert_eq!(t.building_tiles[9], vec![0, 3, 4]);
    // A coastal vertex touches one tile.
    assert_eq!(t.building_tiles[0], vec![0]);
}

#[test]
fn every_road_has_two_distinct_endpoints() {
    let t = Topology::standard();
    for r in 0..72 {
        let (a, b) = t.road_buildings[r];
        assert!(a < 54 && b < 54 && a != b);
    }
}

#[test]
fn every_building_touches_two_to_three_roads_and_neighbors() {
    let t = Topology::standard();
    for v in 0..54 {
        let roads = t.building_roads[v].len();
        assert!(2 <= roads && roads <= 3, "vertex {} touches {} roads", v, roads);
        let neighbors = t.building_buildings[v].len();
        assert!(2 <= neighbors && neighbors <= 3, "vertex {} has {} neighbors", v, neighbors);
    }
}

#[test]
fn every_building_touches_one_to_three_tiles() {
    let t = Topology::standard();
    for v in 0..54 {
        let row = &t.building_tiles[v];
        assert!(1 <= row.len() && row.len() <= 3);
        for &tile in row {
            assert!(tile < 19);
        }
    }
}
