//! The game context: board, turn order, turn phase and ledger, with the
//! validated build operations and dice-driven production that are the
//! only ways the state changes during play.

use vstd::prelude::*;

use crate::board::{generate_board, Board};
use crate::building::{Building, BuildingSlot, BuildingType};
use crate::color::PlayerColor;
use crate::random::roll_die;
use crate::resource::{Hands, Resource};
use crate::road::{Road, RoadSlot};
use crate::topology::{
    buildings_linked, lemma_linked_symmetric, road_touches, roads_linked, tile_row_ok, Topology,
    BUILDING_COUNT, ROAD_COUNT,
};
use crate::turn::{Players, TerminalPolicy, Turn};

verus! {

/// Why a build intent was rejected. Rejections never mutate anything.
#[derive(Clone, Copy, Debug, PartialEq, Eq, Structural)]
pub enum BuildError {
    /// Occupancy, distance or connectivity rule violated.
    IllegalPlacement,
    /// The hand cannot pay the build's cost.
    InsufficientResources,
    /// The current phase does not accept this intent.
    InvalidTurnAction,
}

/// The whole state of one game, threaded explicitly through every
/// operation. Created once at game start; afterwards only road slots,
/// building slots, the hands and the turn change, and only through the
/// validated operations below.
pub struct Game {
    /// The fixed adjacency tables.
    pub topology: Topology,
    /// The generated board.
    pub board: Board,
    /// The randomized turn order.
    pub players: Players,
    /// The current phase and player at turn.
    pub turn: Turn,
    /// The per-player resource ledger.
    pub hands: Hands,
    /// What completing setup round 2 leads to.
    pub policy: TerminalPolicy,
}

impl Game {
    /// Distance rule: no two mutually adjacent building slots are both
    /// occupied, at any observable point.
    pub open spec fn distance_rule_holds(self) -> bool {
        forall|u: int, v: int|
            0 <= u < BUILDING_COUNT && 0 <= v < BUILDING_COUNT && u != v && buildings_linked(
                self.topology.road_buildings@,
                u,
                v,
            ) && (#[trigger] self.board.buildings@[u]).0 is Some ==> (
            #[trigger] self.board.buildings@[v]).0 is None
    }

    /// Every part is well formed and the distance rule holds.
    pub open spec fn wf(self) -> bool {
        &&& self.topology.wf()
        &&& self.board.wf()
        &&& self.players.wf()
        &&& self.turn.wf()
        &&& self.hands.wf()
        &&& self.distance_rule_holds()
    }

    /// Start a fresh game: standard topology, a newly generated board,
    /// a random turn order, empty hands, and the first setup phase.
    pub fn new(policy: TerminalPolicy) -> (g: Game)
        ensures
            g.wf(),
            g.topology.is_standard(),
            g.turn == (Turn::Setup { round_2: false, player: 0, road: false }),
            g.policy == policy,
            forall|c: PlayerColor, r: Resource| #[trigger] g.hands.at(c, r) == 0,
            forall|i: int| 0 <= i < ROAD_COUNT ==> (#[trigger] g.board.roads@[i]).0 is None,
            forall|i: int| 0 <= i < BUILDING_COUNT ==> (#[trigger] g.board.buildings@[i]).0 is None,
    {
        let g = Game {
            topology: Topology::standard(),
            board: generate_board(),
            players: Players::new(),
            turn: Turn::Setup { round_2: false, player: 0, road: false },
            hands: Hands::new(),
            policy,
        };
        g
    }

    /// The color whose turn it is, given the player index of the phase.
    pub open spec fn color_of(self, player: int) -> PlayerColor {
        self.players.order@[player]
    }

    /// Building slot `v` is free to take a settlement: it is empty and
    /// so is every mutually adjacent building slot (the distance rule).
    pub open spec fn settlement_spot_open(self, v: int) -> bool {
        &&& self.board.buildings@[v].0 is None
        &&& forall|u: int|
            0 <= u < BUILDING_COUNT && u != v && buildings_linked(
                self.topology.road_buildings@,
                u,
                v,
            ) ==> (#[trigger] self.board.buildings@[u]).0 is None
    }

    /// Some road ending at vertex `v` belongs to `c`.
    pub open spec fn settlement_connected(self, v: int, c: PlayerColor) -> bool {
        exists|r: int|
            0 <= r < ROAD_COUNT && #[trigger] road_touches(self.topology.road_buildings@, r, v)
                && (self.board.roads@[r].0 matches Some(road) && road.color == c)
    }

    /// A settlement may go on vertex `v` for color `c`: the spot is
    /// open, and outside setup it must also touch one of `c`'s roads.
    pub open spec fn settlement_legal(self, v: int, c: PlayerColor, setup: bool) -> bool {
        self.settlement_spot_open(v) && (setup || self.settlement_connected(v, c))
    }

    /// No road ending at vertex `v` is occupied.
    pub open spec fn vertex_roadless(self, v: int) -> bool {
        forall|r: int|
            0 <= r < ROAD_COUNT && #[trigger] road_touches(self.topology.road_buildings@, r, v)
                ==> self.board.roads@[r].0 is None
    }

    /// Edge `r` touches a building of color `c` that has no roads yet:
    /// the one place a setup road must go, right beside the settlement
    /// just placed.
    pub open spec fn road_setup_connected(self, r: int, c: PlayerColor) -> bool {
        exists|v: int|
            0 <= v < BUILDING_COUNT && #[trigger] road_touches(self.topology.road_buildings@, r, v)
                && (self.board.buildings@[v].0 matches Some(b) && b.color == c)
                && self.vertex_roadless(v)
    }

    /// Edge `r` shares an endpoint with a road of color `c`.
    pub open spec fn road_connected(self, r: int, c: PlayerColor) -> bool {
        exists|s: int|
            0 <= s < ROAD_COUNT && s != r && #[trigger] roads_linked(
                self.topology.road_buildings@,
                r,
                s,
            ) && (self.board.roads@[s].0 matches Some(road) && road.color == c)
    }

    /// A road may go on edge `r` for color `c`: the edge is empty, and
    /// it touches a roadless building of `c` during setup, or one of
    /// `c`'s roads during main-game play.
    pub open spec fn road_legal(self, r: int, c: PlayerColor, setup: bool) -> bool {
        &&& self.board.roads@[r].0 is None
        &&& if setup {
            self.road_setup_connected(r, c)
        } else {
            self.road_connected(r, c)
        }
    }

    /// `c` holds the cost of a settlement: one each of brick, wool,
    /// grain and lumber.
    pub open spec fn can_afford_settlement(self, c: PlayerColor) -> bool {
        &&& self.hands.at(c, Resource::Brick) >= 1
        &&& self.hands.at(c, Resource::Wool) >= 1
        &&& self.hands.at(c, Resource::Grain) >= 1
        &&& self.hands.at(c, Resource::Lumber) >= 1
    }

    /// `c` holds the cost of a road: one each of brick and lumber.
    pub open spec fn can_afford_road(self, c: PlayerColor) -> bool {
        &&& self.hands.at(c, Resource::Brick) >= 1
        &&& self.hands.at(c, Resource::Lumber) >= 1
    }

    /// Decide whether a settlement may currently go on vertex `v` for
    /// color `c`. `setup` relaxes the road-connectivity rule, as the
    /// initial placements are unconstrained by ownership.
    pub fn settlement_legal_at(&self, v: usize, c: PlayerColor, setup: bool) -> (b: bool)
        requires
            self.wf(),
            v < BUILDING_COUNT,
        ensures
            b == self.settlement_legal(v as int, c, setup),
    {
        if self.board.buildings[v].0.is_some() {
            return false;
        }
        // Distance rule: every neighboring vertex must be empty.
        let neighbors = &self.topology.building_buildings[v];
        let mut i: usize = 0;
        while i < neighbors.len()
            invariant
                self.wf(),
                v < BUILDING_COUNT,
                neighbors == &self.topology.building_buildings@[v as int],
                i <= neighbors@.len(),
                forall|j: int|
                    0 <= j < i ==> (#[trigger] self.board.buildings@[neighbors@[j] as int]).0
                        is None,
            decreases neighbors@.len() - i,
        {
            let u = neighbors[i];
            proof {
                assert(neighbors@.contains(u));
            }
            if self.board.buildings[u].0.is_some() {
                proof {
                    assert(!self.settlement_spot_open(v as int));
                }
                return false;
            }
            i = i + 1;
        }
        proof {
            assert forall|u: int|
                0 <= u < BUILDING_COUNT && u != v && buildings_linked(
                    self.topology.road_buildings@,
                    u,
                    v as int,
                ) implies (#[trigger] self.board.buildings@[u]).0 is None by {
                assert(self.topology.building_buildings@[v as int]@.contains(u as usize));
                let j = choose|j: int|
                    0 <= j < neighbors@.len() && neighbors@[j] == u as usize;
                assert((self.board.buildings@[neighbors@[j] as int]).0 is None);
            }
            assert(self.settlement_spot_open(v as int));
        }
        if setup {
            return true;
        }
        // Connectivity rule: some road at this vertex is ours.
        let touching = &self.topology.building_roads[v];
        let mut i: usize = 0;
        while i < touching.len()
            invariant
                self.wf(),
                v < BUILDING_COUNT,
                touching == &self.topology.building_roads@[v as int],
                i <= touching@.len(),
                self.settlement_spot_open(v as int),
                forall|j: int|
                    0 <= j < i ==> !((#[trigger] self.board.roads@[touching@[j] as int]).0 matches
                        Some(road)
                        && road.color == c),
            decreases touching@.len() - i,
        {
            let r = touching[i];
            proof {
                assert(touching@.contains(r));
            }
            match self.board.roads[r].0 {
                Some(road) => {
                    if road.color == c {
                        proof {
                            assert(road_touches(self.topology.road_buildings@, r as int, v as int));
                        }
                        return true;
                    }
                },
                None => {},
            }
            i = i + 1;
        }
        proof {
            assert(!self.settlement_connected(v as int, c)) by {
                if self.settlement_connected(v as int, c) {
                    let r = choose|r: int|
                        0 <= r < ROAD_COUNT && #[trigger] road_touches(
                            self.topology.road_buildings@,
                            r,
                            v as int,
                        ) && (self.board.roads@[r].0 matches Some(road) && road.color == c);
                    assert(self.topology.building_roads@[v as int]@.contains(r as usize));
                    let j = choose|j: int|
                        0 <= j < touching@.len() && touching@[j] == r as usize;
                    assert(false);
                }
            }
        }
        false
    }

    /// Decide whether every road ending at vertex `v` is still empty.
    fn vertex_roadless_at(&self, v: usize) -> (b: bool)
        requires
            self.wf(),
            v < BUILDING_COUNT,
        ensures
            b == self.vertex_roadless(v as int),
    {
        let touching = &self.topology.building_roads[v];
        let mut i: usize = 0;
        while i < touching.len()
            invariant
                self.wf(),
                v < BUILDING_COUNT,
                touching == &self.topology.building_roads@[v as int],
                i <= touching@.len(),
                forall|j: int|
                    0 <= j < i ==> (#[trigger] self.board.roads@[touching@[j] as int]).0 is None,
            decreases touching@.len() - i,
        {
            let r = touching[i];
            proof {
                assert(touching@.contains(r));
            }
            if self.board.roads[r].0.is_some() {
                proof {
                    assert(road_touches(self.topology.road_buildings@, r as int, v as int));
                }
                return false;
            }
            i = i + 1;
        }
        proof {
            assert forall|r: int|
                0 <= r < ROAD_COUNT && #[trigger] road_touches(
                    self.topology.road_buildings@,
                    r,
                    v as int,
                ) implies self.board.roads@[r].0 is None by {
                assert(self.topology.building_roads@[v as int]@.contains(r as usize));
                let j = choose|j: int|
                    0 <= j < touching@.len() && touching@[j] == r as usize;
                assert(self.board.roads@[touching@[j] as int].0 is None);
            }
        }
        true
    }

    /// Decide whether a road may currently go on edge `r` for color
    /// `c`. `setup` selects the setup placement rule (beside the
    /// just-placed, still roadless settlement) instead of the
    /// network-growth rule.
    pub fn road_legal_at(&self, r: usize, c: PlayerColor, setup: bool) -> (b: bool)
        requires
            self.wf(),
            r < ROAD_COUNT,
        ensures
            b == self.road_legal(r as int, c, setup),
    {
        if self.board.roads[r].0.is_some() {
            return false;
        }
        if setup {
            let e = self.topology.road_buildings[r];
            let mut found = false;
            let a = e.0;
            match self.board.buildings[a].0 {
                Some(b) => {
                    if b.color == c && self.vertex_roadless_at(a) {
                        found = true;
                        proof {
                            assert(road_touches(self.topology.road_buildings@, r as int, a as int));
                        }
                    }
                },
                None => {},
            }
            if found {
                return true;
            }
            let b2 = e.1;
            match self.board.buildings[b2].0 {
                Some(b) => {
                    if b.color == c && self.vertex_roadless_at(b2) {
                        found = true;
                        proof {
                            assert(road_touches(
                                self.topology.road_buildings@,
                                r as int,
                                b2 as int,
                            ));
                        }
                    }
                },
                None => {},
            }
            proof {
                if !found {
                    assert(!self.road_setup_connected(r as int, c)) by {
                        if self.road_setup_connected(r as int, c) {
                            let v = choose|v: int|
                                0 <= v < BUILDING_COUNT && #[trigger] road_touches(
                                    self.topology.road_buildings@,
                                    r as int,
                                    v,
                                ) && (self.board.buildings@[v].0 matches Some(b) && b.color == c)
                                    && self.vertex_roadless(v);
                            assert(v == a as int || v == b2 as int);
                            assert(false);
                        }
                    }
                }
            }
            found
        } else {
            // Network-growth rule: some neighboring edge is ours.
            let neighbors = &self.topology.road_roads[r];
            let mut i: usize = 0;
            while i < neighbors.len()
                invariant
                    self.wf(),
                    r < ROAD_COUNT,
                    neighbors == &self.topology.road_roads@[r as int],
                    i <= neighbors@.len(),
                    !setup,
                    self.board.roads@[r as int].0 is None,
                    forall|j: int|
                        0 <= j < i ==> !((#[trigger] self.board.roads@[neighbors@[j] as int]).0
                            matches Some(road)
                            && road.color == c),
                decreases neighbors@.len() - i,
            {
                let s = neighbors[i];
                proof {
                    assert(neighbors@.contains(s));
                }
                match self.board.roads[s].0 {
                    Some(road) => {
                        if road.color == c {
                            proof {
                                assert(s != r && s < ROAD_COUNT);
                                assert(roads_linked(
                                    self.topology.road_buildings@,
                                    r as int,
                                    s as int,
                                ));
                                assert(self.board.roads@[s as int].0 matches Some(rd) && rd.color
                                    == c);
                                assert(self.road_connected(r as int, c));
                            }
                            return true;
                        }
                    },
                    None => {},
                }
                i = i + 1;
            }
            proof {
                assert(!self.road_connected(r as int, c)) by {
                    if self.road_connected(r as int, c) {
                        let s = choose|s: int|
                            0 <= s < ROAD_COUNT && s != r && #[trigger] roads_linked(
                                self.topology.road_buildings@,
                                r as int,
                                s,
                            ) && (self.board.roads@[s].0 matches Some(road) && road.color == c);
                        assert(self.topology.road_roads@[r as int]@.contains(s as usize));
                        let j = choose|j: int|
                            0 <= j < neighbors@.len() && neighbors@[j] == s as usize;
                        assert(false);
                    }
                }
            }
            false
        }
    }

    /// The per-slot legality flags for settlement placement: one flag
    /// per vertex, for the display layer to decide which slots are
    /// interactable. Recomputed on demand; reading them changes
    /// nothing.
    pub fn settlement_legality(&self, c: PlayerColor, setup: bool) -> (flags: Vec<bool>)
        requires
            self.wf(),
        ensures
            flags@.len() == BUILDING_COUNT,
            forall|v: int|
                0 <= v < BUILDING_COUNT ==> #[trigger] flags@[v] == self.settlement_legal(
                    v,
                    c,
                    setup,
                ),
    {
        let mut flags: Vec<bool> = Vec::new();
        let mut v: usize = 0;
        while v < BUILDING_COUNT
            invariant
                self.wf(),
                v <= BUILDING_COUNT,
                flags@.len() == v,
                forall|u: int|
                    0 <= u < v ==> #[trigger] flags@[u] == self.settlement_legal(u, c, setup),
            decreases BUILDING_COUNT - v,
        {
            flags.push(self.settlement_legal_at(v, c, setup));
            v = v + 1;
        }
        flags
    }

    /// The per-slot legality flags for road placement: one flag per
    /// edge, as for settlements.
    pub fn road_legality(&self, c: PlayerColor, setup: bool) -> (flags: Vec<bool>)
        requires
            self.wf(),
        ensures
            flags@.len() == ROAD_COUNT,
            forall|r: int|
                0 <= r < ROAD_COUNT ==> #[trigger] flags@[r] == self.road_legal(r, c, setup),
    {
        let mut flags: Vec<bool> = Vec::new();
        let mut r: usize = 0;
        while r < ROAD_COUNT
            invariant
                self.wf(),
                r <= ROAD_COUNT,
                flags@.len() == r,
                forall|s: int| 0 <= s < r ==> #[trigger] flags@[s] == self.road_legal(s, c, setup),
            decreases ROAD_COUNT - r,
        {
            flags.push(self.road_legal_at(r, c, setup));
            r = r + 1;
        }
        flags
    }

    /// Phase context of a settlement intent: the player at turn and
    /// whether the setup rules apply, where a settlement intent is
    /// accepted at all.
    pub open spec fn settlement_intent_phase(self) -> Option<(int, bool)> {
        match self.turn {
            Turn::Setup { player, road: false, .. } => Some((player as int, true)),
            Turn::Build { player } => Some((player as int, false)),
            _ => None,
        }
    }

    /// Phase context of a road intent, as for settlements.
    pub open spec fn road_intent_phase(self) -> Option<(int, bool)> {
        match self.turn {
            Turn::Setup { player, road: true, .. } => Some((player as int, true)),
            Turn::Build { player } => Some((player as int, false)),
            _ => None,
        }
    }

    /// Phase context of a settlement confirmation: the player, whether
    /// the setup rules apply, and whether this is a round-2 setup
    /// placement (which yields starting resources).
    pub open spec fn settlement_confirm_phase(self) -> Option<(int, bool, bool)> {
        match self.turn {
            Turn::Setup { round_2, player, road: false } => Some((player as int, true, round_2)),
            Turn::BuildSettlement { player } => Some((player as int, false, false)),
            _ => None,
        }
    }

    /// Phase context of a road confirmation.
    pub open spec fn road_confirm_phase(self) -> Option<(int, bool)> {
        match self.turn {
            Turn::Setup { player, road: true, .. } => Some((player as int, true)),
            Turn::BuildRoad { player } => Some((player as int, false)),
            _ => None,
        }
    }

    /// Accept or reject the intent to build a settlement on vertex `v`.
    /// Accepted only in a setup settlement phase or in the build phase;
    /// outside setup, acceptance debits the settlement's cost at once —
    /// one each of brick, wool, grain and lumber — and enters the
    /// transient confirm state, so that confirmation can no longer fail
    /// for lack of funds. A rejection changes nothing.
    pub fn attempt_build_settlement(&mut self, v: usize) -> (r: Result<(), BuildError>)
        requires
            old(self).wf(),
            v < BUILDING_COUNT,
        ensures
            final(self).wf(),
            final(self).topology == old(self).topology,
            final(self).board == old(self).board,
            final(self).players == old(self).players,
            final(self).policy == old(self).policy,
            match r {
                Ok(()) => old(self).settlement_intent_phase() matches Some((p, setup)) && {
                    let c = old(self).color_of(p);
                    &&& old(self).settlement_legal(v as int, c, setup)
                    &&& (setup ==> *final(self) == *old(self))
                    &&& (!setup ==> {
                        &&& old(self).can_afford_settlement(c)
                        &&& final(self).turn == (Turn::BuildSettlement { player: p as usize })
                        &&& forall|c2: PlayerColor, res: Resource|
                            #[trigger] final(self).hands.at(c2, res) == old(self).hands.at(c2, res)
                                - (if c2 == c {
                                    settlement_cost(res)
                                } else {
                                    0
                                })
                    })
                },
                Err(e) => *final(self) == *old(self) && match e {
                    BuildError::InvalidTurnAction => old(self).settlement_intent_phase() is None,
                    BuildError::IllegalPlacement => old(self).settlement_intent_phase() matches Some(
                        (p, setup),
                    ) && !old(self).settlement_legal(v as int, old(self).color_of(p), setup),
                    BuildError::InsufficientResources => old(self).settlement_intent_phase()
                        matches Some((p, setup)) && !setup && old(self).settlement_legal(
                        v as int,
                        old(self).color_of(p),
                        setup,
                    ) && !old(self).can_afford_settlement(old(self).color_of(p)),
                },
            },
    {
        let (player, setup) = match self.turn {
            Turn::Setup { player, road: false, .. } => (player, true),
            Turn::Build { player } => (player, false),
            _ => {
                return Err(BuildError::InvalidTurnAction);
            },
        };
        let c = self.players.get(player);
        if !self.settlement_legal_at(v, c, setup) {
            return Err(BuildError::IllegalPlacement);
        }
        if setup {
            return Ok(());
        }
        if self.hands.get(c, Resource::Brick) < 1 || self.hands.get(c, Resource::Wool) < 1
            || self.hands.get(c, Resource::Grain) < 1 || self.hands.get(c, Resource::Lumber) < 1 {
            return Err(BuildError::InsufficientResources);
        }
        self.hands.debit(c, Resource::Brick, 1);
        self.hands.debit(c, Resource::Wool, 1);
        self.hands.debit(c, Resource::Grain, 1);
        self.hands.debit(c, Resource::Lumber, 1);
        self.turn = Turn::BuildSettlement { player };
        Ok(())
    }

    /// Accept or reject the intent to build a road on edge `r`.
    /// Accepted only in a setup road phase or in the build phase;
    /// outside setup, acceptance debits the road's cost at once — one
    /// each of brick and lumber — and enters the transient confirm
    /// state. A rejection changes nothing.
    pub fn attempt_build_road(&mut self, edge: usize) -> (r: Result<(), BuildError>)
        requires
            old(self).wf(),
            edge < ROAD_COUNT,
        ensures
            final(self).wf(),
            final(self).topology == old(self).topology,
            final(self).board == old(self).board,
            final(self).players == old(self).players,
            final(self).policy == old(self).policy,
            match r {
                Ok(()) => old(self).road_intent_phase() matches Some((p, setup)) && {
                    let c = old(self).color_of(p);
                    &&& old(self).road_legal(edge as int, c, setup)
                    &&& (setup ==> *final(self) == *old(self))
                    &&& (!setup ==> {
                        &&& old(self).can_afford_road(c)
                        &&& final(self).turn == (Turn::BuildRoad { player: p as usize })
                        &&& forall|c2: PlayerColor, res: Resource|
                            #[trigger] final(self).hands.at(c2, res) == old(self).hands.at(c2, res)
                                - (if c2 == c {
                                    road_cost(res)
                                } else {
                                    0
                                })
                    })
                },
                Err(e) => *final(self) == *old(self) && match e {
                    BuildError::InvalidTurnAction => old(self).road_intent_phase() is None,
                    BuildError::IllegalPlacement => old(self).road_intent_phase() matches Some(
                        (p, setup),
                    ) && !old(self).road_legal(edge as int, old(self).color_of(p), setup),
                    BuildError::InsufficientResources => old(self).road_intent_phase() matches Some(
                        (p, setup),
                    ) && !setup && old(self).road_legal(edge as int, old(self).color_of(p), setup)
                        && !old(self).can_afford_road(old(self).color_of(p)),
                },
            },
    {
        let (player, setup) = match self.turn {
            Turn::Setup { player, road: true, .. } => (player, true),
            Turn::Build { player } => (player, false),
            _ => {
                return Err(BuildError::InvalidTurnAction);
            },
        };
        let c = self.players.get(player);
        if !self.road_legal_at(edge, c, setup) {
            return Err(BuildError::IllegalPlacement);
        }
        if setup {
            return Ok(());
        }
        if self.hands.get(c, Resource::Brick) < 1 || self.hands.get(c, Resource::Lumber) < 1 {
            return Err(BuildError::InsufficientResources);
        }
        self.hands.debit(c, Resource::Brick, 1);
        self.hands.debit(c, Resource::Lumber, 1);
        self.turn = Turn::BuildRoad { player };
        Ok(())
    }

    /// How many of vertex `v`'s first `k` adjacent tiles produce `res`.
    pub open spec fn vertex_yield_upto(self, v: int, k: int, res: Resource) -> int
        decreases k,
    {
        if k <= 0 {
            0
        } else {
            self.vertex_yield_upto(v, k - 1, res) + (
            if self.board.tiles@[self.topology.building_tiles@[v]@[k - 1] as int].resource_spec()
                == Some(res) {
                1int
            } else {
                0int
            })
        }
    }

    /// How many of vertex `v`'s adjacent tiles produce `res`: the
    /// starting resources one unit per qualifying tile that a round-2
    /// setup placement yields.
    pub open spec fn vertex_yield(self, v: int, res: Resource) -> int {
        self.vertex_yield_upto(v, self.topology.building_tiles@[v]@.len() as int, res)
    }

    /// The yield over a prefix of the tile row is between zero and one
    /// per tile.
    pub proof fn lemma_vertex_yield_upto_bounds(self, v: int, k: int, res: Resource)
        requires
            k >= 0,
        ensures
            0 <= self.vertex_yield_upto(v, k, res) <= k,
        decreases k,
    {
        if k > 0 {
            self.lemma_vertex_yield_upto_bounds(v, k - 1, res);
        }
    }

    /// Write the confirmed settlement into vertex `v`. Accepted only in
    /// a setup settlement phase or the transient confirm state; the
    /// placement is re-validated, so confirming an occupied or
    /// rule-breaking slot fails with `IllegalPlacement` and changes
    /// nothing. On success the slot is written, a round-2 setup
    /// placement credits one unit per producing adjacent tile, and the
    /// turn advances.
    pub fn confirm_build_settlement(&mut self, v: usize) -> (r: Result<(), BuildError>)
        requires
            old(self).wf(),
            v < BUILDING_COUNT,
            forall|c: PlayerColor, res: Resource|
                #[trigger] old(self).hands.at(c, res) + 3 <= u64::MAX,
        ensures
            final(self).wf(),
            final(self).topology == old(self).topology,
            final(self).players == old(self).players,
            final(self).policy == old(self).policy,
            final(self).board.tiles == old(self).board.tiles,
            final(self).board.chits == old(self).board.chits,
            final(self).board.robbers == old(self).board.robbers,
            final(self).board.harbors == old(self).board.harbors,
            final(self).board.roads == old(self).board.roads,
            match r {
                Ok(()) => old(self).settlement_confirm_phase() matches Some(
                    (p, setup, round_2),
                ) && {
                    let c = old(self).color_of(p);
                    &&& old(self).settlement_legal(v as int, c, setup)
                    &&& final(self).board.buildings@ == old(self).board.buildings@.update(
                        v as int,
                        BuildingSlot(
                            Some(Building { building_type: BuildingType::Settlement, color: c }),
                        ),
                    )
                    &&& final(self).turn == old(self).turn.next_spec(old(self).policy)
                    &&& forall|c2: PlayerColor, res: Resource|
                        #[trigger] final(self).hands.at(c2, res) == old(self).hands.at(c2, res) + (
                        if round_2 && c2 == c {
                            old(self).vertex_yield(v as int, res)
                        } else {
                            0
                        })
                },
                Err(e) => *final(self) == *old(self) && match e {
                    BuildError::InvalidTurnAction => old(self).settlement_confirm_phase() is None,
                    BuildError::IllegalPlacement => old(self).settlement_confirm_phase()
                        matches Some((p, setup, round_2)) && !old(self).settlement_legal(
                        v as int,
                        old(self).color_of(p),
                        setup,
                    ),
                    BuildError::InsufficientResources => false,
                },
            },
    {
        let (player, setup, round_2) = match self.turn {
            Turn::Setup { round_2, player, road: false } => (player, true, round_2),
            Turn::BuildSettlement { player } => (player, false, false),
            _ => {
                return Err(BuildError::InvalidTurnAction);
            },
        };
        let c = self.players.get(player);
        if !self.settlement_legal_at(v, c, setup) {
            return Err(BuildError::IllegalPlacement);
        }
        let ghost pre = *self;
        self.board.buildings[v] = BuildingSlot(
            Some(Building { building_type: BuildingType::Settlement, color: c }),
        );
        proof {
            assert forall|u1: int, u2: int|
                0 <= u1 < BUILDING_COUNT && 0 <= u2 < BUILDING_COUNT && u1 != u2
                    && buildings_linked(self.topology.road_buildings@, u1, u2) && (
                #[trigger] self.board.buildings@[u1]).0 is Some implies (
            #[trigger] self.board.buildings@[u2]).0 is None by {
                if u1 == v as int {
                    lemma_linked_symmetric(self.topology.road_buildings@, u1, u2);
                    assert(pre.board.buildings@[u2].0 is None);
                } else if u2 == v as int {
                    assert(pre.board.buildings@[u1].0 is Some);
                    lemma_linked_symmetric(self.topology.road_buildings@, u1, u2);
                    assert(false);
                } else {
                    assert(pre.board.buildings@[u1].0 is Some);
                }
            }
        }
        if round_2 {
            let row = &self.topology.building_tiles[v];
            let mut k: usize = 0;
            while k < row.len()
                invariant
                    k <= row@.len(),
                    v < BUILDING_COUNT,
                    row == &self.topology.building_tiles@[v as int],
                    self.topology == old(self).topology,
                    self.board.tiles == old(self).board.tiles,
                    self.board.chits == old(self).board.chits,
                    self.board.robbers == old(self).board.robbers,
                    self.board.harbors == old(self).board.harbors,
                    self.board.roads == old(self).board.roads,
                    self.board.buildings@ == old(self).board.buildings@.update(
                        v as int,
                        BuildingSlot(
                            Some(Building { building_type: BuildingType::Settlement, color: c }),
                        ),
                    ),
                    self.players == old(self).players,
                    self.policy == old(self).policy,
                    self.turn == old(self).turn,
                    old(self).wf(),
                    self.board.wf(),
                    self.hands.wf(),
                    tile_row_ok(row@),
                    forall|c0: PlayerColor, res: Resource|
                        #[trigger] old(self).hands.at(c0, res) + 3 <= u64::MAX,
                    forall|c2: PlayerColor, res: Resource|
                        #[trigger] self.hands.at(c2, res) == old(self).hands.at(c2, res) + (
                        if c2 == c {
                            old(self).vertex_yield_upto(v as int, k as int, res)
                        } else {
                            0
                        }),
                decreases row@.len() - k,
            {
                let t = row[k];
                proof {
                    assert(tile_row_ok(row@));
                    assert(row@[k as int] < crate::topology::TILE_COUNT);
                    old(self).lemma_vertex_yield_upto_bounds(v as int, k as int, Resource::Brick);
                }
                let produced = self.board.tiles[t].resource();
                match produced {
                    Some(res) => {
                        proof {
                            old(self).lemma_vertex_yield_upto_bounds(v as int, k as int, res);
                        }
                        self.hands.credit(c, res, 1);
                    },
                    None => {},
                }
                proof {
                    assert forall|c2: PlayerColor, res: Resource|
                        #[trigger] self.hands.at(c2, res) == old(self).hands.at(c2, res) + (
                        if c2 == c {
                            old(self).vertex_yield_upto(v as int, k as int + 1, res)
                        } else {
                            0
                        }) by {
                        assert(old(self).vertex_yield_upto(v as int, k as int + 1, res) == old(
                            self,
                        ).vertex_yield_upto(v as int, k as int, res) + (
                        if old(self).board.tiles@[row@[k as int] as int].resource_spec() == Some(
                            res,
                        ) {
                            1int
                        } else {
                            0int
                        }));
                    }
                }
                k = k + 1;
            }
        }
        self.turn = self.turn.next(self.policy);
        Ok(())
    }

    /// Write the confirmed road into edge `edge`. Accepted only in a
    /// setup road phase or the transient confirm state; the placement
    /// is re-validated, so confirming an occupied or rule-breaking edge
    /// fails with `IllegalPlacement` and changes nothing. On success
    /// the slot is written and the turn advances.
    pub fn confirm_build_road(&mut self, edge: usize) -> (r: Result<(), BuildError>)
        requires
            old(self).wf(),
            edge < ROAD_COUNT,
        ensures
            final(self).wf(),
            final(self).topology == old(self).topology,
            final(self).players == old(self).players,
            final(self).policy == old(self).policy,
            final(self).hands == old(self).hands,
            final(self).board.tiles == old(self).board.tiles,
            final(self).board.chits == old(self).board.chits,
            final(self).board.robbers == old(self).board.robbers,
            final(self).board.harbors == old(self).board.harbors,
            final(self).board.buildings == old(self).board.buildings,
            match r {
                Ok(()) => old(self).road_confirm_phase() matches Some((p, setup)) && {
                    let c = old(self).color_of(p);
                    &&& old(self).road_legal(edge as int, c, setup)
                    &&& final(self).board.roads@ == old(self).board.roads@.update(
                        edge as int,
                        RoadSlot(Some(Road { color: c })),
                    )
                    &&& final(self).turn == old(self).turn.next_spec(old(self).policy)
                },
                Err(e) => *final(self) == *old(self) && match e {
                    BuildError::InvalidTurnAction => old(self).road_confirm_phase() is None,
                    BuildError::IllegalPlacement => old(self).road_confirm_phase() matches Some(
                        (p, setup),
                    ) && !old(self).road_legal(edge as int, old(self).color_of(p), setup),
                    BuildError::InsufficientResources => false,
                },
            },
    {
        let (player, setup) = match self.turn {
            Turn::Setup { player, road: true, .. } => (player, true),
            Turn::BuildRoad { player } => (player, false),
            _ => {
                return Err(BuildError::InvalidTurnAction);
            },
        };
        let c = self.players.get(player);
        if !self.road_legal_at(edge, c, setup) {
            return Err(BuildError::IllegalPlacement);
        }
        self.board.roads[edge] = RoadSlot(Some(Road { color: c }));
        self.turn = self.turn.next(self.policy);
        Ok(())
    }

    /// Advance the turn on the player's signal. Honored only in the
    /// build phase; anywhere else the signal is rejected and nothing
    /// changes.
    pub fn advance_turn(&mut self) -> (r: Result<(), BuildError>)
        requires
            old(self).wf(),
        ensures
            final(self).wf(),
            final(self).topology == old(self).topology,
            final(self).board == old(self).board,
            final(self).players == old(self).players,
            final(self).policy == old(self).policy,
            final(self).hands == old(self).hands,
            match r {
                Ok(()) => old(self).turn matches Turn::Build { .. } && final(self).turn == old(
                    self,
                ).turn.next_spec(old(self).policy),
                Err(e) => e == BuildError::InvalidTurnAction && !(old(self).turn matches Turn::Build
                    { .. }) && *final(self) == *old(self),
            },
    {
        match self.turn {
            Turn::Build { .. } => {
                self.turn = self.turn.next(self.policy);
                Ok(())
            },
            _ => Err(BuildError::InvalidTurnAction),
        }
    }

    /// What `k`-th tile adjacency of building slot `v` credits `c` in
    /// `res` for a dice total of `total`: the building's production
    /// multiplier if the slot holds `c`'s building, the tile's chit
    /// equals the total, and the tile produces `res`; otherwise zero.
    pub open spec fn slot_tile_credit(
        self,
        v: int,
        k: int,
        total: u8,
        c: PlayerColor,
        res: Resource,
    ) -> int {
        let t = self.topology.building_tiles@[v]@[k] as int;
        match self.board.buildings@[v].0 {
            None => 0,
            Some(b) => {
                if b.color == c && (self.board.chits@[t].0 matches Some(chit) && chit.0 == total)
                    && self.board.tiles@[t].resource_spec() == Some(res) {
                    b.building_type.production_spec() as int
                } else {
                    0
                }
            },
        }
    }

    /// Credit from the first `k` tile adjacencies of building slot `v`.
    pub open spec fn slot_credit_upto(
        self,
        v: int,
        k: int,
        total: u8,
        c: PlayerColor,
        res: Resource,
    ) -> int
        decreases k,
    {
        if k <= 0 {
            0
        } else {
            self.slot_credit_upto(v, k - 1, total, c, res) + self.slot_tile_credit(
                v,
                k - 1,
                total,
                c,
                res,
            )
        }
    }

    /// Credit from building slot `v`: over all its tile adjacencies.
    pub open spec fn slot_credit(self, v: int, total: u8, c: PlayerColor, res: Resource) -> int {
        self.slot_credit_upto(v, self.topology.building_tiles@[v]@.len() as int, total, c, res)
    }

    /// Credit to `c` in `res` from the first `n` building slots.
    pub open spec fn produced_upto(
        self,
        n: int,
        total: u8,
        c: PlayerColor,
        res: Resource,
    ) -> int
        decreases n,
    {
        if n <= 0 {
            0
        } else {
            self.produced_upto(n - 1, total, c, res) + self.slot_credit(n - 1, total, c, res)
        }
    }

    /// What a dice total of `total` credits `c` in `res`, over every
    /// building slot of the board: per occupied slot, one credit per
    /// adjacent tile whose chit equals the total and whose terrain
    /// produces `res`, scaled by the building kind's multiplier.
    pub open spec fn produced(self, total: u8, c: PlayerColor, res: Resource) -> int {
        self.produced_upto(BUILDING_COUNT as int, total, c, res)
    }

    /// Per-tile credit is at most the largest multiplier, so a prefix
    /// of a slot's tile row credits at most twice its length.
    pub proof fn lemma_slot_credit_upto_bounds(
        self,
        v: int,
        k: int,
        total: u8,
        c: PlayerColor,
        res: Resource,
    )
        requires
            k >= 0,
        ensures
            0 <= self.slot_credit_upto(v, k, total, c, res) <= 2 * k,
        decreases k,
    {
        if k > 0 {
            self.lemma_slot_credit_upto_bounds(v, k - 1, total, c, res);
        }
    }

    /// A slot credits at most six (three tiles, multiplier two), so a
    /// prefix of the board credits at most six per slot.
    pub proof fn lemma_produced_upto_bounds(
        self,
        n: int,
        total: u8,
        c: PlayerColor,
        res: Resource,
    )
        requires
            self.wf(),
            0 <= n <= BUILDING_COUNT,
        ensures
            0 <= self.produced_upto(n, total, c, res) <= 6 * n,
        decreases n,
    {
        if n > 0 {
            self.lemma_produced_upto_bounds(n - 1, total, c, res);
            let len = self.topology.building_tiles@[n - 1]@.len() as int;
            assert(tile_row_ok(self.topology.building_tiles@[n - 1]@));
            self.lemma_slot_credit_upto_bounds(n - 1, len, total, c, res);
        }
    }

    /// An empty building slot credits nothing.
    pub proof fn lemma_empty_slot_credit(
        self,
        v: int,
        k: int,
        total: u8,
        c: PlayerColor,
        res: Resource,
    )
        requires
            k >= 0,
            self.board.buildings@[v].0 is None,
        ensures
            self.slot_credit_upto(v, k, total, c, res) == 0,
        decreases k,
    {
        if k > 0 {
            self.lemma_empty_slot_credit(v, k - 1, total, c, res);
        }
    }

    /// Run one production pass for a dice total of `total`: every
    /// occupied building slot credits its owner once per adjacent tile
    /// whose chit equals the total, scaled by the building kind's
    /// multiplier (settlement one, city two). Absent chits never match;
    /// nothing else changes. The headroom demanded of the hands is the
    /// most one pass can credit: six per slot over 54 slots.
    pub fn produce(&mut self, total: u8)
        requires
            old(self).wf(),
            forall|c: PlayerColor, res: Resource|
                #[trigger] old(self).hands.at(c, res) + 324 <= u64::MAX,
        ensures
            final(self).wf(),
            final(self).topology == old(self).topology,
            final(self).board == old(self).board,
            final(self).players == old(self).players,
            final(self).policy == old(self).policy,
            final(self).turn == old(self).turn,
            forall|c: PlayerColor, res: Resource|
                #[trigger] final(self).hands.at(c, res) == old(self).hands.at(c, res) + old(
                    self,
                ).produced(total, c, res),
    {
        let mut v: usize = 0;
        while v < BUILDING_COUNT
            invariant
                v <= BUILDING_COUNT,
                old(self).wf(),
                self.topology == old(self).topology,
                self.board == old(self).board,
                self.players == old(self).players,
                self.policy == old(self).policy,
                self.turn == old(self).turn,
                self.hands.wf(),
                forall|c: PlayerColor, res: Resource|
                    #[trigger] old(self).hands.at(c, res) + 324 <= u64::MAX,
                forall|c: PlayerColor, res: Resource|
                    #[trigger] self.hands.at(c, res) == old(self).hands.at(c, res) + old(
                        self,
                    ).produced_upto(v as int, total, c, res),
            decreases BUILDING_COUNT - v,
        {
            let slot = self.board.buildings[v];
            match slot.0 {
                None => {
                    proof {
                        assert forall|c: PlayerColor, res: Resource|
                            #[trigger] self.hands.at(c, res) == old(self).hands.at(c, res) + old(
                                self,
                            ).produced_upto(v as int + 1, total, c, res) by {
                            old(self).lemma_empty_slot_credit(
                                v as int,
                                old(self).topology.building_tiles@[v as int]@.len() as int,
                                total,
                                c,
                                res,
                            );
                        }
                    }
                },
                Some(b) => {
                    let mult = b.building_type.production();
                    let row = &self.topology.building_tiles[v];
                    let mut k: usize = 0;
                    while k < row.len()
                        invariant
                            k <= row@.len(),
                            v < BUILDING_COUNT,
                            old(self).wf(),
                            row == &self.topology.building_tiles@[v as int],
                            self.topology == old(self).topology,
                            self.board == old(self).board,
                            self.players == old(self).players,
                            self.policy == old(self).policy,
                            self.turn == old(self).turn,
                            self.hands.wf(),
                            self.board.buildings@[v as int].0 == Some(b),
                            mult == b.building_type.production_spec(),
                            forall|c: PlayerColor, res: Resource|
                                #[trigger] old(self).hands.at(c, res) + 324 <= u64::MAX,
                            forall|c: PlayerColor, res: Resource|
                                #[trigger] self.hands.at(c, res) == old(self).hands.at(c, res)
                                    + old(self).produced_upto(v as int, total, c, res) + old(
                                    self,
                                ).slot_credit_upto(v as int, k as int, total, c, res),
                        decreases row@.len() - k,
                    {
                        let t = row[k];
                        proof {
                            assert(tile_row_ok(row@));
                            assert(row@[k as int] < crate::topology::TILE_COUNT);
                        }
                        let matched = match self.board.chits[t].0 {
                            Some(chit) => chit.0 == total,
                            None => false,
                        };
                        if matched {
                            match self.board.tiles[t].resource() {
                                Some(res) => {
                                    proof {
                                        old(self).lemma_produced_upto_bounds(
                                            v as int,
                                            total,
                                            b.color,
                                            res,
                                        );
                                        old(self).lemma_slot_credit_upto_bounds(
                                            v as int,
                                            k as int,
                                            total,
                                            b.color,
                                            res,
                                        );
                                    }
                                    self.hands.credit(b.color, res, mult as u64);
                                },
                                None => {},
                            }
                        }
                        proof {
                            assert forall|c: PlayerColor, res: Resource|
                                #[trigger] self.hands.at(c, res) == old(self).hands.at(c, res)
                                    + old(self).produced_upto(v as int, total, c, res) + old(
                                    self,
                                ).slot_credit_upto(v as int, k as int + 1, total, c, res) by {
                                assert(old(self).slot_credit_upto(
                                    v as int,
                                    k as int + 1,
                                    total,
                                    c,
                                    res,
                                ) == old(self).slot_credit_upto(v as int, k as int, total, c, res)
                                    + old(self).slot_tile_credit(v as int, k as int, total, c, res));
                            }
                        }
                        k = k + 1;
                    }
                },
            }
            v = v + 1;
        }
        proof {
            assert(self.wf());
        }
    }

    /// Roll the two dice and run the production pass their total
    /// triggers, then move from the production phase into the build
    /// phase. Returns the two die faces for display.
    pub fn production_step(&mut self) -> (dice: (u8, u8))
        requires
            old(self).wf(),
            old(self).turn matches Turn::Production { .. },
            forall|c: PlayerColor, res: Resource|
                #[trigger] old(self).hands.at(c, res) + 324 <= u64::MAX,
        ensures
            final(self).wf(),
            1 <= dice.0 <= 6,
            1 <= dice.1 <= 6,
            final(self).topology == old(self).topology,
            final(self).board == old(self).board,
            final(self).players == old(self).players,
            final(self).policy == old(self).policy,
            final(self).turn == old(self).turn.next_spec(old(self).policy),
            forall|c: PlayerColor, res: Resource|
                #[trigger] final(self).hands.at(c, res) == old(self).hands.at(c, res) + old(
                    self,
                ).produced((dice.0 + dice.1) as u8, c, res),
    {
        let d1 = roll_die();
        let d2 = roll_die();
        self.produce(d1 + d2);
        self.turn = self.turn.next(self.policy);
        (d1, d2)
    }
}

/// Law: one occupied neighbor alone defeats settlement placement at
/// `v` — for every color and in every phase, setup included — even
/// while `v` itself is empty.
pub proof fn lemma_occupied_neighbor_blocks_settlement(
    g: Game,
    v: int,
    u: int,
    c: PlayerColor,
    setup: bool,
)
    requires
        g.wf(),
        0 <= v < BUILDING_COUNT,
        0 <= u < BUILDING_COUNT,
        u != v,
        buildings_linked(g.topology.road_buildings@, u, v),
        g.board.buildings@[u].0 is Some,
    ensures
        !g.settlement_legal(v, c, setup),
{
}

/// Law: an occupied building slot never takes a second building — for
/// every color and in every phase, placement there is illegal, so a
/// confirmed build cannot be doubled.
pub proof fn lemma_occupied_slot_blocks_settlement(g: Game, v: int, c: PlayerColor, setup: bool)
    requires
        g.board.buildings@[v].0 is Some,
    ensures
        !g.settlement_legal(v, c, setup),
{
}

/// Law: an occupied edge never takes a second road — for every color
/// and in every phase, placement there is illegal.
pub proof fn lemma_occupied_edge_blocks_road(g: Game, r: int, c: PlayerColor, setup: bool)
    requires
        g.board.roads@[r].0 is Some,
    ensures
        !g.road_legal(r, c, setup),
{
}

/// Cost in units of `res` of building a settlement: one each of brick,
/// wool, grain and lumber.
pub open spec fn settlement_cost(res: Resource) -> int {
    match res {
        Resource::Ore => 0,
        _ => 1,
    }
}

/// Cost in units of `res` of building a road: one each of brick and
/// lumber.
pub open spec fn road_cost(res: Resource) -> int {
    match res {
        Resource::Brick | Resource::Lumber => 1,
        _ => 0,
    }
}

} // verus!

