//! The board aggregate and its one-time randomized generation.

use vstd::prelude::*;

use crate::building::BuildingSlot;
use crate::chit::{Chit, ChitSlot};
use crate::harbor::{Harbor, HarborSlot};
use crate::random::{
    lemma_total_weight_bound, lemma_total_weight_pos, sample_weighted, sampleable, total_weight,
};
use crate::road::RoadSlot;
use crate::robber::RobberSlot;
use crate::tile::Tile;
use crate::topology::{BUILDING_COUNT, HARBOR_COUNT, ROAD_COUNT, TILE_COUNT};

verus! {

/// All slot collections of one game board. Generated once by
/// [`generate_board`]; afterwards only road and building slots change,
/// and only through the validated build operations.
pub struct Board {
    /// Terrain of each tile position.
    pub tiles: Vec<Tile>,
    /// Production number of each tile position, absent on the desert.
    pub chits: Vec<ChitSlot>,
    /// Whether the robber stands on each tile position.
    pub robbers: Vec<RobberSlot>,
    /// Harbor (if any) at each fixed harbor position.
    pub harbors: Vec<HarborSlot>,
    /// Road (if any) at each edge position.
    pub roads: Vec<RoadSlot>,
    /// Building (if any) at each vertex position.
    pub buildings: Vec<BuildingSlot>,
}

impl Board {
    /// Every collection has its fixed size and every chit present is a
    /// possible dice total.
    pub open spec fn wf(self) -> bool {
        &&& self.tiles@.len() == TILE_COUNT
        &&& self.chits@.len() == TILE_COUNT
        &&& self.robbers@.len() == TILE_COUNT
        &&& self.harbors@.len() == HARBOR_COUNT
        &&& self.roads@.len() == ROAD_COUNT
        &&& self.buildings@.len() == BUILDING_COUNT
        &&& forall|i: int|
            0 <= i < TILE_COUNT ==> ((#[trigger] self.chits@[i]).0 matches Some(c) ==> c.valid())
    }
}

/// The weighted terrain pool: every kind with its generation weight.
fn tile_pool() -> (p: Vec<(Tile, u64)>)
    ensures
        0 < total_weight(p@) <= u64::MAX,
{
    let values = Tile::pool();
    let mut p: Vec<(Tile, u64)> = Vec::new();
    let mut i: usize = 0;
    while i < values.len()
        invariant
            i <= values@.len(),
            p@.len() == i,
            forall|j: int| 0 <= j < i ==> #[trigger] p@[j] == (values@[j], values@[j].weight_spec()),
        decreases values@.len() - i,
    {
        let t = values[i];
        p.push((t, t.weight()));
        i = i + 1;
    }
    proof {
        assert(forall|j: int| 0 <= j < p@.len() ==> (#[trigger] p@[j]).1 <= 4) by {
            assert(forall|t: Tile| #[trigger] t.weight_spec() <= 4);
        }
        lemma_total_weight_bound(p@, 4);
        assert(p@[0].1 == Tile::Hills.weight_spec());
        lemma_total_weight_pos(p@, 0);
    }
    p
}

/// The weighted chit pool: every valid production number with its
/// generation weight.
fn chit_pool() -> (p: Vec<(Chit, u64)>)
    ensures
        0 < total_weight(p@) <= u64::MAX,
        forall|c: Chit| sampleable(p@, c) ==> c.valid(),
{
    let values = Chit::pool();
    let mut p: Vec<(Chit, u64)> = Vec::new();
    let mut i: usize = 0;
    while i < values.len()
        invariant
            i <= values@.len(),
            p@.len() == i,
            forall|j: int| 0 <= j < i ==> #[trigger] p@[j] == (values@[j], values@[j].weight_spec()),
            forall|j: int| 0 <= j < values@.len() ==> (#[trigger] values@[j]).valid(),
        decreases values@.len() - i,
    {
        let c = values[i];
        p.push((c, c.weight()));
        i = i + 1;
    }
    proof {
        assert(forall|j: int| 0 <= j < p@.len() ==> (#[trigger] p@[j]).1 <= 2) by {
            assert(forall|c: Chit| #[trigger] c.weight_spec() <= 2);
        }
        lemma_total_weight_bound(p@, 2);
        assert(p@[0].1 == Chit(2).weight_spec());
        lemma_total_weight_pos(p@, 0);
        assert forall|c: Chit| sampleable(p@, c) implies c.valid() by {
            let j = choose|j: int| 0 <= j < p@.len() && (#[trigger] p@[j]).0 == c && p@[j].1 > 0;
            assert(p@[j] == (values@[j], values@[j].weight_spec()));
        }
    }
    p
}

/// The weighted harbor pool: no harbor at all, one harbor per resource
/// kind, and the wildcard, each with its generation weight.
fn harbor_pool() -> (p: Vec<(Option<Harbor>, u64)>)
    ensures
        0 < total_weight(p@) <= u64::MAX,
{
    let values = Harbor::pool();
    let mut p: Vec<(Option<Harbor>, u64)> = Vec::new();
    let mut i: usize = 0;
    while i < values.len()
        invariant
            i <= values@.len(),
            p@.len() == i,
            forall|j: int|
                0 <= j < i ==> #[trigger] p@[j] == (
                    values@[j],
                    Harbor::weight_of_spec(values@[j]),
                ),
        decreases values@.len() - i,
    {
        let h = values[i];
        p.push((h, Harbor::weight_of(h)));
        i = i + 1;
    }
    proof {
        assert(forall|j: int| 0 <= j < p@.len() ==> (#[trigger] p@[j]).1 <= 21) by {
            assert(forall|h: Option<Harbor>| #[trigger] Harbor::weight_of_spec(h) <= 21);
        }
        lemma_total_weight_bound(p@, 21);
        assert(p@[0].1 == Harbor::weight_of_spec(None));
        lemma_total_weight_pos(p@, 0);
    }
    p
}

/// Generate a fresh board: random terrain for the 19 tiles, a random
/// chit for every producing tile (suppressed on every desert), the
/// robber flagged on every desert, a random harbor-or-none at each of
/// the 30 harbor positions, and all 72 road and 54 building slots
/// empty. The result is complete: no partial board is observable.
pub fn generate_board() -> (b: Board)
    ensures
        b.wf(),
        forall|i: int|
            0 <= i < TILE_COUNT ==> (((#[trigger] b.chits@[i]).0 is Some)
                <==> !b.tiles@[i].robber_home_spec()),
        forall|i: int|
            0 <= i < TILE_COUNT ==> ((#[trigger] b.robbers@[i]).0 == b.tiles@[
                i
            ].robber_home_spec()),
        forall|i: int| 0 <= i < ROAD_COUNT ==> (#[trigger] b.roads@[i]).0 is None,
        forall|i: int| 0 <= i < BUILDING_COUNT ==> (#[trigger] b.buildings@[i]).0 is None,
{
    let tp = tile_pool();
    let tiles = match sample_weighted(&tp, TILE_COUNT) {
        Ok(v) => v,
        Err(_) => vstd::pervasive::unreached(),
    };

    let cp = chit_pool();
    let chit_values = match sample_weighted(&cp, TILE_COUNT) {
        Ok(v) => v,
        Err(_) => vstd::pervasive::unreached(),
    };

    let hp = harbor_pool();
    let harbor_values = match sample_weighted(&hp, HARBOR_COUNT) {
        Ok(v) => v,
        Err(_) => vstd::pervasive::unreached(),
    };

    let mut chits: Vec<ChitSlot> = Vec::new();
    let mut robbers: Vec<RobberSlot> = Vec::new();
    let mut i: usize = 0;
    while i < TILE_COUNT
        invariant
            i <= TILE_COUNT,
            tiles@.len() == TILE_COUNT,
            chit_values@.len() == TILE_COUNT,
            forall|j: int| 0 <= j < TILE_COUNT ==> sampleable(cp@, #[trigger] chit_values@[j]),
            forall|c: Chit| sampleable(cp@, c) ==> c.valid(),
            chits@.len() == i,
            robbers@.len() == i,
            forall|j: int|
                0 <= j < i ==> (((#[trigger] chits@[j]).0 is Some) <==> !tiles@[
                    j
                ].robber_home_spec()),
            forall|j: int|
                0 <= j < i ==> ((#[trigger] chits@[j]).0 matches Some(c) ==> c.valid()),
            forall|j: int|
                0 <= j < i ==> ((#[trigger] robbers@[j]).0 == tiles@[j].robber_home_spec()),
        decreases TILE_COUNT - i,
    {
        let desert = tiles[i].robber_home();
        if desert {
            chits.push(ChitSlot(None));
        } else {
            chits.push(ChitSlot(Some(chit_values[i])));
        }
        robbers.push(RobberSlot(desert));
        i = i + 1;
    }

    let mut harbors: Vec<HarborSlot> = Vec::new();
    let mut i: usize = 0;
    while i < HARBOR_COUNT
        invariant
            i <= HARBOR_COUNT,
            harbor_values@.len() == HARBOR_COUNT,
            harbors@.len() == i,
        decreases HARBOR_COUNT - i,
    {
        harbors.push(HarborSlot(harbor_values[i]));
        i = i + 1;
    }

    let mut roads: Vec<RoadSlot> = Vec::new();
    let mut i: usize = 0;
    while i < ROAD_COUNT
        invariant
            i <= ROAD_COUNT,
            roads@.len() == i,
            forall|j: int| 0 <= j < i ==> (#[trigger] roads@[j]).0 is None,
        decreases ROAD_COUNT - i,
    {
        roads.push(RoadSlot(None));
        i = i + 1;
    }

    let mut buildings: Vec<BuildingSlot> = Vec::new();
    let mut i: usize = 0;
    while i < BUILDING_COUNT
        invariant
            i <= BUILDING_COUNT,
            buildings@.len() == i,
            forall|j: int| 0 <= j < i ==> (#[trigger] buildings@[j]).0 is None,
        decreases BUILDING_COUNT - i,
    {
        buildings.push(BuildingSlot(None));
        i = i + 1;
    }

    Board { tiles, chits, robbers, harbors, roads, buildings }
}

} // verus!
