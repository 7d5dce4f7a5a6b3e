//! Static board topology: the fixed positions of tiles, roads and
//! buildings, and the adjacency relations among them.
//!
//! The whole graph is derived from one authored table: the two vertex
//! (building) indices each of the 72 edges (roads) connects. Road-road
//! adjacency is "shares an endpoint", building-building adjacency is
//! "joined by a road", and building-road adjacency is the transpose of
//! the endpoint table — so every adjacency relation is symmetric by
//! construction, not by a check over the data. Tile adjacency per
//! building is a second authored table. All tables are computed once
//! and never mutated.

use vstd::prelude::*;

use crate::road::RoadOrientation;

verus! {

/// Number of tile positions on the board.
pub const TILE_COUNT: usize = 19;

/// Number of fixed harbor positions around the board.
pub const HARBOR_COUNT: usize = 30;

/// Number of edge (road) positions on the board.
pub const ROAD_COUNT: usize = 72;

/// Number of vertex (building) positions on the board.
pub const BUILDING_COUNT: usize = 54;

/// Road `r` has building `v` as one of its two endpoints.
pub open spec fn road_touches(rb: Seq<(usize, usize)>, r: int, v: int) -> bool {
    rb[r].0 == v || rb[r].1 == v
}

/// Buildings `u` and `v` are joined by some road.
pub open spec fn buildings_linked(rb: Seq<(usize, usize)>, u: int, v: int) -> bool {
    exists|r: int| 0 <= r < rb.len() && #[trigger] road_touches(rb, r, u) && road_touches(rb, r, v)
}

/// Roads `r` and `s` share an endpoint.
pub open spec fn roads_linked(rb: Seq<(usize, usize)>, r: int, s: int) -> bool {
    exists|v: int| #[trigger] road_touches(rb, r, v) && road_touches(rb, s, v)
}

/// Every edge in the endpoint table joins two distinct vertices in range.
pub open spec fn endpoints_ok(rb: Seq<(usize, usize)>) -> bool {
    forall|r: int|
        0 <= r < rb.len() ==> {
            let e = #[trigger] rb[r];
            e.0 < BUILDING_COUNT && e.1 < BUILDING_COUNT && e.0 != e.1
        }
}

/// One row of the tile-adjacency table: one to three distinct tiles,
/// all in range.
pub open spec fn tile_row_ok(row: Seq<usize>) -> bool {
    &&& 1 <= row.len() <= 3
    &&& forall|i: int| 0 <= i < row.len() ==> #[trigger] row[i] < TILE_COUNT
    &&& forall|i: int, j: int| 0 <= i < j < row.len() ==> row[i] != row[j]
}

/// Every row of the tile-adjacency table is well formed.
pub open spec fn tile_rows_ok(bt: Seq<Vec<usize>>) -> bool {
    forall|v: int| 0 <= v < bt.len() ==> tile_row_ok((#[trigger] bt[v])@)
}

/// How many of the first `k` edges of the endpoint table end at
/// vertex `v`.
pub open spec fn touch_count(rb: Seq<(usize, usize)>, v: int, k: int) -> int
    decreases k,
{
    if k <= 0 {
        0
    } else {
        touch_count(rb, v, k - 1) + if road_touches(rb, k - 1, v) {
            1int
        } else {
            0int
        }
    }
}

/// Edge `r` of the standard board layout: the two vertices it
/// connects, listed row by row from the top of the board down.
pub open spec fn standard_endpoint(r: int) -> (usize, usize) {
    if r == 0 {
        (0usize, 1usize)
    } else if r == 1 {
        (1usize, 2usize)
    } else if r == 2 {
        (2usize, 3usize)
    } else if r == 3 {
        (3usize, 4usize)
    } else if r == 4 {
        (4usize, 5usize)
    } else if r == 5 {
        (5usize, 6usize)
    } else if r == 6 {
        (0usize, 8usize)
    } else if r == 7 {
        (2usize, 10usize)
    } else if r == 8 {
        (4usize, 12usize)
    } else if r == 9 {
        (6usize, 14usize)
    } else if r == 10 {
        (7usize, 8usize)
    } else if r == 11 {
        (8usize, 9usize)
    } else if r == 12 {
        (9usize, 10usize)
    } else if r == 13 {
        (10usize, 11usize)
    } else if r == 14 {
        (11usize, 12usize)
    } else if r == 15 {
        (12usize, 13usize)
    } else if r == 16 {
        (13usize, 14usize)
    } else if r == 17 {
        (14usize, 15usize)
    } else if r == 18 {
        (7usize, 17usize)
    } else if r == 19 {
        (9usize, 19usize)
    } else if r == 20 {
        (11usize, 21usize)
    } else if r == 21 {
        (13usize, 23usize)
    } else if r == 22 {
        (15usize, 25usize)
    } else if r == 23 {
        (16usize, 17usize)
    } else if r == 24 {
        (17usize, 18usize)
    } else if r == 25 {
        (18usize, 19usize)
    } else if r == 26 {
        (19usize, 20usize)
    } else if r == 27 {
        (20usize, 21usize)
    } else if r == 28 {
        (21usize, 22usize)
    } else if r == 29 {
        (22usize, 23usize)
    } else if r == 30 {
        (23usize, 24usize)
    } else if r == 31 {
        (24usize, 25usize)
    } else if r == 32 {
        (25usize, 26usize)
    } else if r == 33 {
        (16usize, 27usize)
    } else if r == 34 {
        (18usize, 29usize)
    } else if r == 35 {
        (20usize, 31usize)
    } else if r == 36 {
        (22usize, 33usize)
    } else if r == 37 {
        (24usize, 35usize)
    } else if r == 38 {
        (26usize, 37usize)
    } else if r == 39 {
        (27usize, 28usize)
    } else if r == 40 {
        (28usize, 29usize)
    } else if r == 41 {
        (29usize, 30usize)
    } else if r == 42 {
        (30usize, 31usize)
    } else if r == 43 {
        (31usize, 32usize)
    } else if r == 44 {
        (32usize, 33usize)
    } else if r == 45 {
        (33usize, 34usize)
    } else if r == 46 {
        (34usize, 35usize)
    } else if r == 47 {
        (35usize, 36usize)
    } else if r == 48 {
        (36usize, 37usize)
    } else if r == 49 {
        (28usize, 38usize)
    } else if r == 50 {
        (30usize, 40usize)
    } else if r == 51 {
        (32usize, 42usize)
    } else if r == 52 {
        (34usize, 44usize)
    } else if r == 53 {
        (36usize, 46usize)
    } else if r == 54 {
        (38usize, 39usize)
    } else if r == 55 {
        (39usize, 40usize)
    } else if r == 56 {
        (40usize, 41usize)
    } else if r == 57 {
        (41usize, 42usize)
    } else if r == 58 {
        (42usize, 43usize)
    } else if r == 59 {
        (43usize, 44usize)
    } else if r == 60 {
        (44usize, 45usize)
    } else if r == 61 {
        (45usize, 46usize)
    } else if r == 62 {
        (39usize, 47usize)
    } else if r == 63 {
        (41usize, 49usize)
    } else if r == 64 {
        (43usize, 51usize)
    } else if r == 65 {
        (45usize, 53usize)
    } else if r == 66 {
        (47usize, 48usize)
    } else if r == 67 {
        (48usize, 49usize)
    } else if r == 68 {
        (49usize, 50usize)
    } else if r == 69 {
        (50usize, 51usize)
    } else if r == 70 {
        (51usize, 52usize)
    } else if r == 71 {
        (52usize, 53usize)
    } else {
        (0usize, 0usize)
    }
}

/// The standard board's endpoint table.
pub open spec fn standard_endpoint_seq() -> Seq<(usize, usize)> {
    Seq::new(ROAD_COUNT as nat, |r: int| standard_endpoint(r))
}

/// The tiles vertex `v` of the standard board stands on the corner of.
pub open spec fn standard_tiles_row(v: int) -> Seq<usize> {
    if v == 0 {
        seq![0usize]
    } else if v == 1 {
        seq![0usize]
    } else if v == 2 {
        seq![0usize, 1]
    } else if v == 3 {
        seq![1usize]
    } else if v == 4 {
        seq![1usize, 2]
    } else if v == 5 {
        seq![2usize]
    } else if v == 6 {
        seq![2usize]
    } else if v == 7 {
        seq![3usize]
    } else if v == 8 {
        seq![0usize, 3]
    } else if v == 9 {
        seq![0usize, 3, 4]
    } else if v == 10 {
        seq![0usize, 1, 4]
    } else if v == 11 {
        seq![1usize, 4, 5]
    } else if v == 12 {
        seq![1usize, 2, 5]
    } else if v == 13 {
        seq![2usize, 5, 6]
    } else if v == 14 {
        seq![2usize, 6]
    } else if v == 15 {
        seq![6usize]
    } else if v == 16 {
        seq![7usize]
    } else if v == 17 {
        seq![3usize, 7]
    } else if v == 18 {
        seq![3usize, 7, 8]
    } else if v == 19 {
        seq![3usize, 4, 8]
    } else if v == 20 {
        seq![4usize, 8, 9]
    } else if v == 21 {
        seq![4usize, 5, 9]
    } else if v == 22 {
        seq![5usize, 9, 10]
    } else if v == 23 {
        seq![5usize, 6, 10]
    } else if v == 24 {
        seq![6usize, 10, 11]
    } else if v == 25 {
        seq![6usize, 11]
    } else if v == 26 {
        seq![11usize]
    } else if v == 27 {
        seq![7usize]
    } else if v == 28 {
        seq![7usize, 12]
    } else if v == 29 {
        seq![7usize, 8, 12]
    } else if v == 30 {
        seq![8usize, 12, 13]
    } else if v == 31 {
        seq![8usize, 9, 13]
    } else if v == 32 {
        seq![9usize, 13, 14]
    } else if v == 33 {
        seq![9usize, 10, 14]
    } else if v == 34 {
        seq![10usize, 14, 15]
    } else if v == 35 {
        seq![10usize, 11, 15]
    } else if v == 36 {
        seq![11usize, 15]
    } else if v == 37 {
        seq![11usize]
    } else if v == 38 {
        seq![12usize]
    } else if v == 39 {
        seq![12usize, 16]
    } else if v == 40 {
        seq![12usize, 13, 16]
    } else if v == 41 {
        seq![13usize, 16, 17]
    } else if v == 42 {
        seq![13usize, 14, 17]
    } else if v == 43 {
        seq![14usize, 17, 18]
    } else if v == 44 {
        seq![14usize, 15, 18]
    } else if v == 45 {
        seq![15usize, 18]
    } else if v == 46 {
        seq![15usize]
    } else if v == 47 {
        seq![16usize]
    } else if v == 48 {
        seq![16usize]
    } else if v == 49 {
        seq![16usize, 17]
    } else if v == 50 {
        seq![17usize]
    } else if v == 51 {
        seq![17usize, 18]
    } else if v == 52 {
        seq![18usize]
    } else if v == 53 {
        seq![18usize]
    } else {
        seq![0usize]
    }
}

/// The visual orientation of edge `r` of the standard board.
pub open spec fn standard_orientation(r: int) -> RoadOrientation {
    if r == 0 {
        RoadOrientation::Inc
    } else if r == 1 {
        RoadOrientation::Dec
    } else if r == 2 {
        RoadOrientation::Inc
    } else if r == 3 {
        RoadOrientation::Dec
    } else if r == 4 {
        RoadOrientation::Inc
    } else if r == 5 {
        RoadOrientation::Dec
    } else if r == 6 {
        RoadOrientation::Vert
    } else if r == 7 {
        RoadOrientation::Vert
    } else if r == 8 {
        RoadOrientation::Vert
    } else if r == 9 {
        RoadOrientation::Vert
    } else if r == 10 {
        RoadOrientation::Inc
    } else if r == 11 {
        RoadOrientation::Dec
    } else if r == 12 {
        RoadOrientation::Inc
    } else if r == 13 {
        RoadOrientation::Dec
    } else if r == 14 {
        RoadOrientation::Inc
    } else if r == 15 {
        RoadOrientation::Dec
    } else if r == 16 {
        RoadOrientation::Inc
    } else if r == 17 {
        RoadOrientation::Dec
    } else if r == 18 {
        RoadOrientation::Vert
    } else if r == 19 {
        RoadOrientation::Vert
    } else if r == 20 {
        RoadOrientation::Vert
    } else if r == 21 {
        RoadOrientation::Vert
    } else if r == 22 {
        RoadOrientation::Vert
    } else if r == 23 {
        RoadOrientation::Inc
    } else if r == 24 {
        RoadOrientation::Dec
    } else if r == 25 {
        RoadOrientation::Inc
    } else if r == 26 {
        RoadOrientation::Dec
    } else if r == 27 {
        RoadOrientation::Inc
    } else if r == 28 {
        RoadOrientation::Dec
    } else if r == 29 {
        RoadOrientation::Inc
    } else if r == 30 {
        RoadOrientation::Dec
    } else if r == 31 {
        RoadOrientation::Inc
    } else if r == 32 {
        RoadOrientation::Dec
    } else if r == 33 {
        RoadOrientation::Vert
    } else if r == 34 {
        RoadOrientation::Vert
    } else if r == 35 {
        RoadOrientation::Vert
    } else if r == 36 {
        RoadOrientation::Vert
    } else if r == 37 {
        RoadOrientation::Vert
    } else if r == 38 {
        RoadOrientation::Vert
    } else if r == 39 {
        RoadOrientation::Dec
    } else if r == 40 {
        RoadOrientation::Inc
    } else if r == 41 {
        RoadOrientation::Dec
    } else if r == 42 {
        RoadOrientation::Inc
    } else if r == 43 {
        RoadOrientation::Dec
    } else if r == 44 {
        RoadOrientation::Inc
    } else if r == 45 {
        RoadOrientation::Dec
    } else if r == 46 {
        RoadOrientation::Inc
    } else if r == 47 {
        RoadOrientation::Dec
    } else if r == 48 {
        RoadOrientation::Inc
    } else if r == 49 {
        RoadOrientation::Vert
    } else if r == 50 {
        RoadOrientation::Vert
    } else if r == 51 {
        RoadOrientation::Vert
    } else if r == 52 {
        RoadOrientation::Vert
    } else if r == 53 {
        RoadOrientation::Vert
    } else if r == 54 {
        RoadOrientation::Dec
    } else if r == 55 {
        RoadOrientation::Inc
    } else if r == 56 {
        RoadOrientation::Dec
    } else if r == 57 {
        RoadOrientation::Inc
    } else if r == 58 {
        RoadOrientation::Dec
    } else if r == 59 {
        RoadOrientation::Inc
    } else if r == 60 {
        RoadOrientation::Dec
    } else if r == 61 {
        RoadOrientation::Inc
    } else if r == 62 {
        RoadOrientation::Vert
    } else if r == 63 {
        RoadOrientation::Vert
    } else if r == 64 {
        RoadOrientation::Vert
    } else if r == 65 {
        RoadOrientation::Vert
    } else if r == 66 {
        RoadOrientation::Dec
    } else if r == 67 {
        RoadOrientation::Inc
    } else if r == 68 {
        RoadOrientation::Dec
    } else if r == 69 {
        RoadOrientation::Inc
    } else if r == 70 {
        RoadOrientation::Dec
    } else if r == 71 {
        RoadOrientation::Inc
    } else {
        RoadOrientation::Vert
    }
}

/// The standard board's orientation table.
pub open spec fn standard_orientation_seq() -> Seq<RoadOrientation> {
    Seq::new(ROAD_COUNT as nat, |r: int| standard_orientation(r))
}

/// The fixed position tables and adjacency relations of the board,
/// computed once by [`Topology::standard`] and immutable afterwards.
pub struct Topology {
    /// The two buildings each road connects: the endpoints of the edge.
    pub road_buildings: Vec<(usize, usize)>,
    /// The tiles each building stands on the corner of.
    pub building_tiles: Vec<Vec<usize>>,
    /// The roads each building touches: the transpose of `road_buildings`.
    pub building_roads: Vec<Vec<usize>>,
    /// The buildings one road away from each building.
    pub building_buildings: Vec<Vec<usize>>,
    /// The roads sharing an endpoint with each road.
    pub road_roads: Vec<Vec<usize>>,
    /// Visual orientation of each road, kept for the display layer.
    pub orientations: Vec<RoadOrientation>,
}

impl Topology {
    /// All tables have their fixed sizes, all indices are in range, and
    /// each derived table holds exactly the relation it is named for.
    pub open spec fn wf(self) -> bool {
        &&& self.road_buildings@.len() == ROAD_COUNT
        &&& endpoints_ok(self.road_buildings@)
        &&& self.building_tiles@.len() == BUILDING_COUNT
        &&& tile_rows_ok(self.building_tiles@)
        &&& self.building_roads@.len() == BUILDING_COUNT
        &&& forall|v: int, r: usize|
            0 <= v < BUILDING_COUNT ==> ((#[trigger] self.building_roads@[v]@.contains(r))
                <==> r < ROAD_COUNT && road_touches(self.road_buildings@, r as int, v))
        &&& self.building_buildings@.len() == BUILDING_COUNT
        &&& forall|v: int, u: usize|
            0 <= v < BUILDING_COUNT ==> ((#[trigger] self.building_buildings@[v]@.contains(u))
                <==> u < BUILDING_COUNT && u != v && buildings_linked(
                    self.road_buildings@,
                    u as int,
                    v,
                ))
        &&& forall|v: int|
            0 <= v < BUILDING_COUNT ==> 2 <= (#[trigger] self.building_roads@[v])@.len() <= 3
        &&& forall|v: int|
            0 <= v < BUILDING_COUNT ==> 2 <= (#[trigger] self.building_buildings@[v])@.len() <= 3
        &&& self.road_roads@.len() == ROAD_COUNT
        &&& forall|r: int, s: usize|
            0 <= r < ROAD_COUNT ==> ((#[trigger] self.road_roads@[r]@.contains(s))
                <==> s < ROAD_COUNT && s != r && roads_linked(self.road_buildings@, r, s as int))
        &&& self.orientations@.len() == ROAD_COUNT
    }

    /// The tables carry the standard board's authored layout: the
    /// endpoint table, the tile table and the orientation tags are
    /// exactly the fixed hex-grid data, edge for edge and vertex for
    /// vertex.
    pub open spec fn is_standard(self) -> bool {
        &&& self.road_buildings@ == standard_endpoint_seq()
        &&& self.building_tiles@.len() == BUILDING_COUNT
        &&& forall|v: int|
            0 <= v < BUILDING_COUNT ==> (#[trigger] self.building_tiles@[v])@
                == standard_tiles_row(v)
        &&& self.orientations@ == standard_orientation_seq()
    }

    /// Build the standard board topology: exactly the authored layout,
    /// with every derived adjacency table computed from it.
    pub fn standard() -> (t: Topology)
        ensures
            t.wf(),
            t.is_standard(),
    {
        let rb = standard_edges();
        let bt = standard_tile_rows();
        let orientations = standard_orientations();
        let building_roads = derive_building_roads(&rb);
        let building_buildings = derive_building_buildings(&rb);
        let road_roads = derive_road_roads(&rb);
        proof {
            lemma_standard_degrees();
        }
        Topology {
            road_buildings: rb,
            building_tiles: bt,
            building_roads,
            building_buildings,
            road_roads,
            orientations,
        }
    }
}

/// Law: building-building adjacency is symmetric — `u` neighbors `v`
/// exactly when `v` neighbors `u`.
pub proof fn lemma_building_adjacency_symmetric(t: Topology, u: usize, v: usize)
    requires
        t.wf(),
        u < BUILDING_COUNT,
        v < BUILDING_COUNT,
    ensures
        t.building_buildings@[u as int]@.contains(v) <==> t.building_buildings@[v as int]@.contains(
            u,
        ),
{
    if buildings_linked(t.road_buildings@, u as int, v as int) {
        let r = choose|r: int|
            0 <= r < t.road_buildings@.len() && #[trigger] road_touches(
                t.road_buildings@,
                r,
                u as int,
            ) && road_touches(t.road_buildings@, r, v as int);
        assert(road_touches(t.road_buildings@, r, v as int));
    }
    if buildings_linked(t.road_buildings@, v as int, u as int) {
        let r = choose|r: int|
            0 <= r < t.road_buildings@.len() && #[trigger] road_touches(
                t.road_buildings@,
                r,
                v as int,
            ) && road_touches(t.road_buildings@, r, u as int);
        assert(road_touches(t.road_buildings@, r, u as int));
    }
}

/// Law: road-road adjacency is symmetric — `r` neighbors `s` exactly
/// when `s` neighbors `r`.
pub proof fn lemma_road_adjacency_symmetric(t: Topology, r: usize, s: usize)
    requires
        t.wf(),
        r < ROAD_COUNT,
        s < ROAD_COUNT,
    ensures
        t.road_roads@[r as int]@.contains(s) <==> t.road_roads@[s as int]@.contains(r),
{
    if roads_linked(t.road_buildings@, r as int, s as int) {
        let v = choose|v: int|
            #[trigger] road_touches(t.road_buildings@, r as int, v) && road_touches(
                t.road_buildings@,
                s as int,
                v,
            );
        assert(road_touches(t.road_buildings@, s as int, v));
    }
    if roads_linked(t.road_buildings@, s as int, r as int) {
        let v = choose|v: int|
            #[trigger] road_touches(t.road_buildings@, s as int, v) && road_touches(
                t.road_buildings@,
                r as int,
                v,
            );
        assert(road_touches(t.road_buildings@, r as int, v));
    }
}

/// The joined-by-a-road relation is symmetric in its two vertices.
pub proof fn lemma_linked_symmetric(rb: Seq<(usize, usize)>, u: int, v: int)
    ensures
        buildings_linked(rb, u, v) == buildings_linked(rb, v, u),
{
    if buildings_linked(rb, u, v) {
        let r = choose|r: int|
            0 <= r < rb.len() && #[trigger] road_touches(rb, r, u) && road_touches(rb, r, v);
        assert(road_touches(rb, r, v) && road_touches(rb, r, u));
    }
    if buildings_linked(rb, v, u) {
        let r = choose|r: int|
            0 <= r < rb.len() && #[trigger] road_touches(rb, r, v) && road_touches(rb, r, u);
        assert(road_touches(rb, r, u) && road_touches(rb, r, v));
    }
}

/// Law: the two adjacency tables that relate roads and buildings agree —
/// building `v` lists road `r` exactly when `v` is one of `r`'s two
/// endpoints.
pub proof fn lemma_road_building_adjacency_paired(t: Topology, r: usize, v: usize)
    requires
        t.wf(),
        r < ROAD_COUNT,
        v < BUILDING_COUNT,
    ensures
        t.building_roads@[v as int]@.contains(r) <==> (t.road_buildings@[r as int].0 == v
            || t.road_buildings@[r as int].1 == v),
{
}

/// Membership in a pushed sequence: the old members plus the new one.
proof fn lemma_push_contains<A>(s: Seq<A>, x: A, y: A)
    ensures
        s.push(x).contains(y) <==> (s.contains(y) || x == y),
{
    if s.contains(y) {
        let i = choose|i: int| 0 <= i < s.len() && s[i] == y;
        assert(s.push(x)[i] == y);
    }
    if x == y {
        assert(s.push(x)[s.len() as int] == y);
    }
    if s.push(x).contains(y) {
        let i = choose|i: int| 0 <= i < s.push(x).len() && s.push(x)[i] == y;
        if i < s.len() {
            assert(s[i] == y);
        }
    }
}

/// Append one authored edge, given as the two vertex indices it connects.
fn edge(rb: &mut Vec<(usize, usize)>, a: usize, b: usize)
    requires
        a < BUILDING_COUNT,
        b < BUILDING_COUNT,
        a != b,
        endpoints_ok(old(rb)@),
    ensures
        final(rb)@.len() == old(rb)@.len() + 1,
        final(rb)@ == old(rb)@.push((a, b)),
        endpoints_ok(final(rb)@),
{
    rb.push((a, b));
    proof {
        assert forall|r: int| 0 <= r < rb@.len() implies {
            let e = #[trigger] rb@[r];
            e.0 < BUILDING_COUNT && e.1 < BUILDING_COUNT && e.0 != e.1
        } by {
            if r < old(rb)@.len() {
                assert(rb@[r] == old(rb)@[r]);
            }
        }
    }
}

/// Append one authored tile row with a single tile.
fn tiles1(bt: &mut Vec<Vec<usize>>, t0: usize)
    requires
        t0 < TILE_COUNT,
        tile_rows_ok(old(bt)@),
    ensures
        final(bt)@.len() == old(bt)@.len() + 1,
        forall|i: int| 0 <= i < old(bt)@.len() ==> final(bt)@[i] == old(bt)@[i],
        (final(bt)@[old(bt)@.len() as int])@ == seq![t0],
        tile_rows_ok(final(bt)@),
{
    let mut row: Vec<usize> = Vec::new();
    row.push(t0);
    proof {
        assert(row@ =~= seq![t0]);
    }
    push_tile_row(bt, row);
}

/// Append one authored tile row with two tiles.
fn tiles2(bt: &mut Vec<Vec<usize>>, t0: usize, t1: usize)
    requires
        t0 < TILE_COUNT,
        t1 < TILE_COUNT,
        t0 != t1,
        tile_rows_ok(old(bt)@),
    ensures
        final(bt)@.len() == old(bt)@.len() + 1,
        forall|i: int| 0 <= i < old(bt)@.len() ==> final(bt)@[i] == old(bt)@[i],
        (final(bt)@[old(bt)@.len() as int])@ == seq![t0, t1],
        tile_rows_ok(final(bt)@),
{
    let mut row: Vec<usize> = Vec::new();
    row.push(t0);
    row.push(t1);
    proof {
        assert(row@ =~= seq![t0, t1]);
    }
    push_tile_row(bt, row);
}

/// Append one authored tile row with three tiles.
fn tiles3(bt: &mut Vec<Vec<usize>>, t0: usize, t1: usize, t2: usize)
    requires
        t0 < TILE_COUNT,
        t1 < TILE_COUNT,
        t2 < TILE_COUNT,
        t0 != t1,
        t0 != t2,
        t1 != t2,
        tile_rows_ok(old(bt)@),
    ensures
        final(bt)@.len() == old(bt)@.len() + 1,
        forall|i: int| 0 <= i < old(bt)@.len() ==> final(bt)@[i] == old(bt)@[i],
        (final(bt)@[old(bt)@.len() as int])@ == seq![t0, t1, t2],
        tile_rows_ok(final(bt)@),
{
    let mut row: Vec<usize> = Vec::new();
    row.push(t0);
    row.push(t1);
    row.push(t2);
    proof {
        assert(row@ =~= seq![t0, t1, t2]);
    }
    push_tile_row(bt, row);
}

/// Append one well-formed tile row.
fn push_tile_row(bt: &mut Vec<Vec<usize>>, row: Vec<usize>)
    requires
        tile_row_ok(row@),
        tile_rows_ok(old(bt)@),
    ensures
        final(bt)@.len() == old(bt)@.len() + 1,
        final(bt)@ == old(bt)@.push(row),
        tile_rows_ok(final(bt)@),
{
    bt.push(row);
    proof {
        assert forall|v: int| 0 <= v < bt@.len() implies tile_row_ok((#[trigger] bt@[v])@) by {
            if v < old(bt)@.len() {
                assert(bt@[v] == old(bt)@[v]);
            }
        }
    }
}

/// The authored endpoint table of the standard board: for each of the
/// 72 edges, the two vertices it connects, listed row by row from the
/// top of the board down.
#[verifier::rlimit(100)]
fn standard_edges() -> (rb: Vec<(usize, usize)>)
    ensures
        rb@.len() == ROAD_COUNT,
        endpoints_ok(rb@),
        rb@ == standard_endpoint_seq(),
{
    let mut rb: Vec<(usize, usize)> = Vec::new();
    edge(&mut rb, 0, 1);
    edge(&mut rb, 1, 2);
    edge(&mut rb, 2, 3);
    edge(&mut rb, 3, 4);
    edge(&mut rb, 4, 5);
    edge(&mut rb, 5, 6);
    edge(&mut rb, 0, 8);
    edge(&mut rb, 2, 10);
    edge(&mut rb, 4, 12);
    edge(&mut rb, 6, 14);
    edge(&mut rb, 7, 8);
    edge(&mut rb, 8, 9);
    edge(&mut rb, 9, 10);
    edge(&mut rb, 10, 11);
    edge(&mut rb, 11, 12);
    edge(&mut rb, 12, 13);
    edge(&mut rb, 13, 14);
    edge(&mut rb, 14, 15);
    edge(&mut rb, 7, 17);
    edge(&mut rb, 9, 19);
    edge(&mut rb, 11, 21);
    edge(&mut rb, 13, 23);
    edge(&mut rb, 15, 25);
    edge(&mut rb, 16, 17);
    edge(&mut rb, 17, 18);
    edge(&mut rb, 18, 19);
    edge(&mut rb, 19, 20);
    edge(&mut rb, 20, 21);
    edge(&mut rb, 21, 22);
    edge(&mut rb, 22, 23);
    edge(&mut rb, 23, 24);
    edge(&mut rb, 24, 25);
    edge(&mut rb, 25, 26);
    edge(&mut rb, 16, 27);
    edge(&mut rb, 18, 29);
    edge(&mut rb, 20, 31);
    edge(&mut rb, 22, 33);
    edge(&mut rb, 24, 35);
    edge(&mut rb, 26, 37);
    edge(&mut rb, 27, 28);
    edge(&mut rb, 28, 29);
    edge(&mut rb, 29, 30);
    edge(&mut rb, 30, 31);
    edge(&mut rb, 31, 32);
    edge(&mut rb, 32, 33);
    edge(&mut rb, 33, 34);
    edge(&mut rb, 34, 35);
    edge(&mut rb, 35, 36);
    edge(&mut rb, 36, 37);
    edge(&mut rb, 28, 38);
    edge(&mut rb, 30, 40);
    edge(&mut rb, 32, 42);
    edge(&mut rb, 34, 44);
    edge(&mut rb, 36, 46);
    edge(&mut rb, 38, 39);
    edge(&mut rb, 39, 40);
    edge(&mut rb, 40, 41);
    edge(&mut rb, 41, 42);
    edge(&mut rb, 42, 43);
    edge(&mut rb, 43, 44);
    edge(&mut rb, 44, 45);
    edge(&mut rb, 45, 46);
    edge(&mut rb, 39, 47);
    edge(&mut rb, 41, 49);
    edge(&mut rb, 43, 51);
    edge(&mut rb, 45, 53);
    edge(&mut rb, 47, 48);
    edge(&mut rb, 48, 49);
    edge(&mut rb, 49, 50);
    edge(&mut rb, 50, 51);
    edge(&mut rb, 51, 52);
    edge(&mut rb, 52, 53);
    proof {
        assert(rb@ =~= standard_endpoint_seq());
    }
    rb
}

/// The authored tile table of the standard board: for each of the 54
/// vertices, the tiles whose corner it is.
#[verifier::rlimit(100)]
fn standard_tile_rows() -> (bt: Vec<Vec<usize>>)
    ensures
        bt@.len() == BUILDING_COUNT,
        tile_rows_ok(bt@),
        forall|v: int|
            0 <= v < BUILDING_COUNT ==> (#[trigger] bt@[v])@ == standard_tiles_row(v),
{
    let mut bt: Vec<Vec<usize>> = Vec::new();
    tiles1(&mut bt, 0);
    tiles1(&mut bt, 0);
    tiles2(&mut bt, 0, 1);
    tiles1(&mut bt, 1);
    tiles2(&mut bt, 1, 2);
    tiles1(&mut bt, 2);
    tiles1(&mut bt, 2);
    tiles1(&mut bt, 3);
    tiles2(&mut bt, 0, 3);
    tiles3(&mut bt, 0, 3, 4);
    tiles3(&mut bt, 0, 1, 4);
    tiles3(&mut bt, 1, 4, 5);
    tiles3(&mut bt, 1, 2, 5);
    tiles3(&mut bt, 2, 5, 6);
    tiles2(&mut bt, 2, 6);
    tiles1(&mut bt, 6);
    tiles1(&mut bt, 7);
    tiles2(&mut bt, 3, 7);
    tiles3(&mut bt, 3, 7, 8);
    tiles3(&mut bt, 3, 4, 8);
    tiles3(&mut bt, 4, 8, 9);
    tiles3(&mut bt, 4, 5, 9);
    tiles3(&mut bt, 5, 9, 10);
    tiles3(&mut bt, 5, 6, 10);
    tiles3(&mut bt, 6, 10, 11);
    tiles2(&mut bt, 6, 11);
    tiles1(&mut bt, 11);
    tiles1(&mut bt, 7);
    tiles2(&mut bt, 7, 12);
    tiles3(&mut bt, 7, 8, 12);
    tiles3(&mut bt, 8, 12, 13);
    tiles3(&mut bt, 8, 9, 13);
    tiles3(&mut bt, 9, 13, 14);
    tiles3(&mut bt, 9, 10, 14);
    tiles3(&mut bt, 10, 14, 15);
    tiles3(&mut bt, 10, 11, 15);
    tiles2(&mut bt, 11, 15);
    tiles1(&mut bt, 11);
    tiles1(&mut bt, 12);
    tiles2(&mut bt, 12, 16);
    tiles3(&mut bt, 12, 13, 16);
    tiles3(&mut bt, 13, 16, 17);
    tiles3(&mut bt, 13, 14, 17);
    tiles3(&mut bt, 14, 17, 18);
    tiles3(&mut bt, 14, 15, 18);
    tiles2(&mut bt, 15, 18);
    tiles1(&mut bt, 15);
    tiles1(&mut bt, 16);
    tiles1(&mut bt, 16);
    tiles2(&mut bt, 16, 17);
    tiles1(&mut bt, 17);
    tiles2(&mut bt, 17, 18);
    tiles1(&mut bt, 18);
    tiles1(&mut bt, 18);
    proof {
        assert forall|v: int| 0 <= v < BUILDING_COUNT implies (#[trigger] bt@[v])@
            == standard_tiles_row(v) by {
            assert((bt@[v])@ =~= standard_tiles_row(v));
        }
    }
    bt
}

/// The authored orientation of each road, for the display layer.
#[verifier::rlimit(100)]
fn standard_orientations() -> (v: Vec<RoadOrientation>)
    ensures
        v@.len() == ROAD_COUNT,
        v@ == standard_orientation_seq(),
{
    let mut v: Vec<RoadOrientation> = Vec::new();
    v.push(RoadOrientation::Inc);
    v.push(RoadOrientation::Dec);
    v.push(RoadOrientation::Inc);
    v.push(RoadOrientation::Dec);
    v.push(RoadOrientation::Inc);
    v.push(RoadOrientation::Dec);
    v.push(RoadOrientation::Vert);
    v.push(RoadOrientation::Vert);
    v.push(RoadOrientation::Vert);
    v.push(RoadOrientation::Vert);
    v.push(RoadOrientation::Inc);
    v.push(RoadOrientation::Dec);
    v.push(RoadOrientation::Inc);
    v.push(RoadOrientation::Dec);
    v.push(RoadOrientation::Inc);
    v.push(RoadOrientation::Dec);
    v.push(RoadOrientation::Inc);
    v.push(RoadOrientation::Dec);
    v.push(RoadOrientation::Vert);
    v.push(RoadOrientation::Vert);
    v.push(RoadOrientation::Vert);
    v.push(RoadOrientation::Vert);
    v.push(RoadOrientation::Vert);
    v.push(RoadOrientation::Inc);
    v.push(RoadOrientation::Dec);
    v.push(RoadOrientation::Inc);
    v.push(RoadOrientation::Dec);
    v.push(RoadOrientation::Inc);
    v.push(RoadOrientation::Dec);
    v.push(RoadOrientation::Inc);
    v.push(RoadOrientation::Dec);
    v.push(RoadOrientation::Inc);
    v.push(RoadOrientation::Dec);
    v.push(RoadOrientation::Vert);
    v.push(RoadOrientation::Vert);
    v.push(RoadOrientation::Vert);
    v.push(RoadOrientation::Vert);
    v.push(RoadOrientation::Vert);
    v.push(RoadOrientation::Vert);
    v.push(RoadOrientation::Dec);
    v.push(RoadOrientation::Inc);
    v.push(RoadOrientation::Dec);
    v.push(RoadOrientation::Inc);
    v.push(RoadOrientation::Dec);
    v.push(RoadOrientation::Inc);
    v.push(RoadOrientation::Dec);
    v.push(RoadOrientation::Inc);
    v.push(RoadOrientation::Dec);
    v.push(RoadOrientation::Inc);
    v.push(RoadOrientation::Vert);
    v.push(RoadOrientation::Vert);
    v.push(RoadOrientation::Vert);
    v.push(RoadOrientation::Vert);
    v.push(RoadOrientation::Vert);
    v.push(RoadOrientation::Dec);
    v.push(RoadOrientation::Inc);
    v.push(RoadOrientation::Dec);
    v.push(RoadOrientation::Inc);
    v.push(RoadOrientation::Dec);
    v.push(RoadOrientation::Inc);
    v.push(RoadOrientation::Dec);
    v.push(RoadOrientation::Inc);
    v.push(RoadOrientation::Vert);
    v.push(RoadOrientation::Vert);
    v.push(RoadOrientation::Vert);
    v.push(RoadOrientation::Vert);
    v.push(RoadOrientation::Dec);
    v.push(RoadOrientation::Inc);
    v.push(RoadOrientation::Dec);
    v.push(RoadOrientation::Inc);
    v.push(RoadOrientation::Dec);
    v.push(RoadOrientation::Inc);
    proof {
        assert(v@ =~= standard_orientation_seq());
    }
    v
}

/// Every vertex of the standard board is the endpoint of two or three
/// roads.
#[verifier::rlimit(100)]
pub proof fn lemma_standard_degrees()
    ensures
        forall|v: int|
            0 <= v < BUILDING_COUNT ==> 2 <= #[trigger] touch_count(
                standard_endpoint_seq(),
                v,
                ROAD_COUNT as int,
            ) <= 3,
{
    assert forall|v: int|
        0 <= v < BUILDING_COUNT implies 2 <= #[trigger] touch_count(
        standard_endpoint_seq(),
        v,
        ROAD_COUNT as int,
    ) <= 3 by {
        reveal_with_fuel(touch_count, 73);
    }
}

/// For each building, collect the roads that end at it.
fn derive_building_roads(rb: &Vec<(usize, usize)>) -> (out: Vec<Vec<usize>>)
    requires
        rb@.len() == ROAD_COUNT,
        endpoints_ok(rb@),
    ensures
        out@.len() == BUILDING_COUNT,
        forall|v: int, r: usize|
            0 <= v < BUILDING_COUNT ==> ((#[trigger] out@[v]@.contains(r)) <==> r < ROAD_COUNT
                && road_touches(rb@, r as int, v)),
        forall|v: int|
            0 <= v < BUILDING_COUNT ==> (#[trigger] out@[v])@.len() == touch_count(
                rb@,
                v,
                ROAD_COUNT as int,
            ),
{
    let mut out: Vec<Vec<usize>> = Vec::new();
    let mut v: usize = 0;
    while v < BUILDING_COUNT
        invariant
            v <= BUILDING_COUNT,
            out@.len() == v,
            rb@.len() == ROAD_COUNT,
            forall|v2: int, r: usize|
                0 <= v2 < v ==> ((#[trigger] out@[v2]@.contains(r)) <==> r < ROAD_COUNT
                    && road_touches(rb@, r as int, v2)),
            forall|v2: int|
                0 <= v2 < v ==> (#[trigger] out@[v2])@.len() == touch_count(
                    rb@,
                    v2,
                    ROAD_COUNT as int,
                ),
        decreases BUILDING_COUNT - v,
    {
        let mut row: Vec<usize> = Vec::new();
        let mut r: usize = 0;
        while r < ROAD_COUNT
            invariant
                r <= ROAD_COUNT,
                v < BUILDING_COUNT,
                rb@.len() == ROAD_COUNT,
                row@.len() == touch_count(rb@, v as int, r as int),
                forall|s: usize|
                    (#[trigger] row@.contains(s)) <==> (s < r && road_touches(
                        rb@,
                        s as int,
                        v as int,
                    )),
            decreases ROAD_COUNT - r,
        {
            let e = rb[r];
            let ghost prev = row@;
            if e.0 == v || e.1 == v {
                row.push(r);
            }
            proof {
                assert forall|s: usize| (#[trigger] row@.contains(s)) <==> (s < r + 1
                    && road_touches(rb@, s as int, v as int)) by {
                    lemma_push_contains(prev, r, s);
                }
            }
            r = r + 1;
        }
        let ghost prev_out = out@;
        out.push(row);
        proof {
            assert forall|v2: int, r2: usize| 0 <= v2 < v + 1 implies ((#[trigger] out@[v2]@.contains(
                r2,
            )) <==> r2 < ROAD_COUNT && road_touches(rb@, r2 as int, v2)) by {
                if v2 < prev_out.len() {
                    assert(out@[v2] == prev_out[v2]);
                }
            }
        }
        v = v + 1;
    }
    out
}

/// For each building, collect the far endpoint of every road that ends
/// at it: its neighboring buildings.
fn derive_building_buildings(rb: &Vec<(usize, usize)>) -> (out: Vec<Vec<usize>>)
    requires
        rb@.len() == ROAD_COUNT,
        endpoints_ok(rb@),
    ensures
        out@.len() == BUILDING_COUNT,
        forall|v: int, u: usize|
            0 <= v < BUILDING_COUNT ==> ((#[trigger] out@[v]@.contains(u)) <==> u < BUILDING_COUNT
                && u != v && buildings_linked(rb@, u as int, v)),
        forall|v: int|
            0 <= v < BUILDING_COUNT ==> (#[trigger] out@[v])@.len() == touch_count(
                rb@,
                v,
                ROAD_COUNT as int,
            ),
{
    let mut out: Vec<Vec<usize>> = Vec::new();
    let mut v: usize = 0;
    while v < BUILDING_COUNT
        invariant
            v <= BUILDING_COUNT,
            out@.len() == v,
            rb@.len() == ROAD_COUNT,
            endpoints_ok(rb@),
            forall|v2: int, u: usize|
                0 <= v2 < v ==> ((#[trigger] out@[v2]@.contains(u)) <==> u < BUILDING_COUNT && u
                    != v2 && buildings_linked(rb@, u as int, v2)),
            forall|v2: int|
                0 <= v2 < v ==> (#[trigger] out@[v2])@.len() == touch_count(
                    rb@,
                    v2,
                    ROAD_COUNT as int,
                ),
        decreases BUILDING_COUNT - v,
    {
        let mut row: Vec<usize> = Vec::new();
        let mut r: usize = 0;
        while r < ROAD_COUNT
            invariant
                r <= ROAD_COUNT,
                v < BUILDING_COUNT,
                rb@.len() == ROAD_COUNT,
                endpoints_ok(rb@),
                row@.len() == touch_count(rb@, v as int, r as int),
                forall|u: usize|
                    (#[trigger] row@.contains(u)) <==> (u < BUILDING_COUNT && u != v && exists|s: int|
                        0 <= s < r && #[trigger] road_touches(rb@, s, u as int) && road_touches(
                            rb@,
                            s,
                            v as int,
                        )),
            decreases ROAD_COUNT - r,
        {
            let e = rb[r];
            let ghost prev = row@;
            if e.0 == v {
                row.push(e.1);
            } else if e.1 == v {
                row.push(e.0);
            }
            proof {
                assert forall|u: usize| (#[trigger] row@.contains(u)) <==> (u < BUILDING_COUNT && u
                    != v && exists|s: int|
                    0 <= s < r + 1 && #[trigger] road_touches(rb@, s, u as int) && road_touches(
                        rb@,
                        s,
                        v as int,
                    )) by {
                    if e.0 == v {
                        lemma_push_contains(prev, e.1, u);
                    } else if e.1 == v {
                        lemma_push_contains(prev, e.0, u);
                    }
                    if row@.contains(u) {
                        if prev.contains(u) {
                            let s = choose|s: int|
                                0 <= s < r && #[trigger] road_touches(rb@, s, u as int)
                                    && road_touches(rb@, s, v as int);
                            assert(road_touches(rb@, s, v as int));
                        } else {
                            assert(road_touches(rb@, r as int, u as int));
                            assert(road_touches(rb@, r as int, v as int));
                        }
                    }
                    if u < BUILDING_COUNT && u != v && exists|s: int|
                        0 <= s < r + 1 && #[trigger] road_touches(rb@, s, u as int) && road_touches(
                            rb@,
                            s,
                            v as int,
                        ) {
                        let s = choose|s: int|
                            0 <= s < r + 1 && #[trigger] road_touches(rb@, s, u as int)
                                && road_touches(rb@, s, v as int);
                        if s < r {
                            assert(prev.contains(u));
                        } else {
                            assert(road_touches(rb@, r as int, v as int));
                            assert(row@.contains(u));
                        }
                    }
                }
            }
            r = r + 1;
        }
        let ghost prev_out = out@;
        out.push(row);
        proof {
            assert forall|v2: int, u: usize| 0 <= v2 < v + 1 implies ((#[trigger] out@[v2]@.contains(
                u,
            )) <==> u < BUILDING_COUNT && u != v2 && buildings_linked(rb@, u as int, v2)) by {
                if v2 < prev_out.len() {
                    assert(out@[v2] == prev_out[v2]);
                }
            }
        }
        v = v + 1;
    }
    out
}

/// For each road, collect the other roads it shares an endpoint with.
fn derive_road_roads(rb: &Vec<(usize, usize)>) -> (out: Vec<Vec<usize>>)
    requires
        rb@.len() == ROAD_COUNT,
        endpoints_ok(rb@),
    ensures
        out@.len() == ROAD_COUNT,
        forall|r: int, s: usize|
            0 <= r < ROAD_COUNT ==> ((#[trigger] out@[r]@.contains(s)) <==> s < ROAD_COUNT && s != r
                && roads_linked(rb@, r, s as int)),
{
    let mut out: Vec<Vec<usize>> = Vec::new();
    let mut r: usize = 0;
    while r < ROAD_COUNT
        invariant
            r <= ROAD_COUNT,
            out@.len() == r,
            rb@.len() == ROAD_COUNT,
            endpoints_ok(rb@),
            forall|r2: int, s: usize|
                0 <= r2 < r ==> ((#[trigger] out@[r2]@.contains(s)) <==> s < ROAD_COUNT && s != r2
                    && roads_linked(rb@, r2, s as int)),
        decreases ROAD_COUNT - r,
    {
        let e = rb[r];
        let mut row: Vec<usize> = Vec::new();
        let mut s: usize = 0;
        while s < ROAD_COUNT
            invariant
                s <= ROAD_COUNT,
                r < ROAD_COUNT,
                rb@.len() == ROAD_COUNT,
                endpoints_ok(rb@),
                e == rb@[r as int],
                forall|s2: usize|
                    (#[trigger] row@.contains(s2)) <==> (s2 < s && s2 != r && roads_linked(
                        rb@,
                        r as int,
                        s2 as int,
                    )),
            decreases ROAD_COUNT - s,
        {
            let e2 = rb[s];
            let ghost prev = row@;
            let linked = e2.0 == e.0 || e2.0 == e.1 || e2.1 == e.0 || e2.1 == e.1;
            if s != r && linked {
                row.push(s);
            }
            proof {
                if linked {
                    if e2.0 == e.0 || e2.1 == e.0 {
                        assert(road_touches(rb@, r as int, e.0 as int));
                        assert(road_touches(rb@, s as int, e.0 as int));
                    } else {
                        assert(road_touches(rb@, r as int, e.1 as int));
                        assert(road_touches(rb@, s as int, e.1 as int));
                    }
                    assert(roads_linked(rb@, r as int, s as int));
                } else {
                    assert(!roads_linked(rb@, r as int, s as int)) by {
                        if roads_linked(rb@, r as int, s as int) {
                            let v = choose|v: int|
                                #[trigger] road_touches(rb@, r as int, v) && road_touches(
                                    rb@,
                                    s as int,
                                    v,
                                );
                            assert(false);
                        }
                    }
                }
                assert forall|s2: usize| (#[trigger] row@.contains(s2)) <==> (s2 < s + 1 && s2 != r
                    && roads_linked(rb@, r as int, s2 as int)) by {
                    lemma_push_contains(prev, s, s2);
                }
            }
            s = s + 1;
        }
        let ghost prev_out = out@;
        out.push(row);
        proof {
            assert forall|r2: int, s2: usize| 0 <= r2 < r + 1 implies ((#[trigger] out@[r2]@.contains(
                s2,
            )) <==> s2 < ROAD_COUNT && s2 != r2 && roads_linked(rb@, r2, s2 as int)) by {
                if r2 < prev_out.len() {
                    assert(out@[r2] == prev_out[r2]);
                }
            }
        }
        r = r + 1;
    }
    out
}

} // verus!
