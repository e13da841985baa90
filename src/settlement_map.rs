//! The graph of corners and roads, with the queries the building rules need.
use vstd::prelude::*;
use crate::locations::{
    PlayerRoad, PlayerSettlement, RoadLocation, RoadLocationId, SettlementLocation,
    SettlementLocationId, SettlementType,
};

verus! {

/// The corners and roads of a board; each corner and each road appears once,
/// and every road joins two corners of the map.
pub struct SettlementMap {
    settlements: Vec<SettlementLocation>,
    roads: Vec<RoadLocation>,
}

/// The corner at the other end of `road` from `id`.
pub open spec fn other_end(road: RoadLocation, id: SettlementLocationId) -> SettlementLocationId {
    if road.settlement_a_id == id {
        road.settlement_b_id
    } else {
        road.settlement_a_id
    }
}

impl SettlementMap {
    pub closed spec fn corners(self) -> Seq<SettlementLocation> {
        self.settlements@
    }

    pub closed spec fn road_list(self) -> Seq<RoadLocation> {
        self.roads@
    }

    pub open spec fn has_corner(self, id: SettlementLocationId) -> bool {
        exists|i: int| 0 <= i < self.corners().len() && #[trigger] self.corners()[i].id == id
    }

    pub open spec fn has_road_id(self, id: RoadLocationId) -> bool {
        exists|j: int| 0 <= j < self.road_list().len() && #[trigger] self.road_list()[j].id == id
    }

    pub open spec fn wf(self) -> bool {
        &&& forall|i: int, k: int|
            0 <= i < self.corners().len() && 0 <= k < self.corners().len() && #[trigger] self.corners()[i].id
                == #[trigger] self.corners()[k].id ==> i == k
        &&& forall|j: int, k: int|
            0 <= j < self.road_list().len() && 0 <= k < self.road_list().len() && #[trigger] self.road_list()[j].id
                == #[trigger] self.road_list()[k].id ==> j == k
        &&& forall|j: int|
            0 <= j < self.road_list().len() ==> {
                let road = #[trigger] self.road_list()[j];
                &&& road.id == RoadLocation::id_of(road.settlement_a_id, road.settlement_b_id)
                &&& self.has_corner(road.settlement_a_id)
                &&& self.has_corner(road.settlement_b_id)
            }
    }

    /// The corner `id` holds a building.
    pub open spec fn occupied(self, id: SettlementLocationId) -> bool {
        exists|i: int|
            0 <= i < self.corners().len() && #[trigger] self.corners()[i].id == id
                && self.corners()[i].settlement is Some
    }

    /// Some corner one road away from `id` holds a building.
    pub open spec fn neighbor_occupied(self, id: SettlementLocationId) -> bool {
        exists|j: int|
            0 <= j < self.road_list().len() && (#[trigger] self.road_list()[j]).touches(id)
                && self.occupied(other_end(self.road_list()[j], id))
    }

    /// `player_id` has claimed a road that touches corner `id`.
    pub open spec fn has_player_road_at(self, id: SettlementLocationId, player_id: usize) -> bool {
        exists|j: int|
            0 <= j < self.road_list().len() && (#[trigger] self.road_list()[j]).touches(id)
                && self.road_list()[j].owned_by(player_id)
    }

    /// Corner `id` is in the map and held by `player_id`.
    pub open spec fn holds_corner(self, id: SettlementLocationId, player_id: usize) -> bool {
        exists|i: int|
            0 <= i < self.corners().len() && #[trigger] self.corners()[i].id == id
                && self.corners()[i].owned_by(player_id)
    }

    /// With ids unique, the corner at position `i` decides who holds its id.
    pub proof fn lemma_corner_yield(self, id: SettlementLocationId, i: int)
        requires
            self.wf(),
            0 <= i < self.corners().len(),
            self.corners()[i].id == id,
        ensures
            forall|p: usize|
                #[trigger] self.holds_corner(id, p) <==> self.corners()[i].owned_by(p),
            forall|p: usize|
                self.holds_corner(id, p) ==> (choose|k: int|
                    0 <= k < self.corners().len() && #[trigger] self.corners()[k].id == id
                        && self.corners()[k].owned_by(p)) == i,
    {
        assert forall|p: usize| #[trigger] self.holds_corner(id, p) <==> self.corners()[i].owned_by(p) by {
            if self.holds_corner(id, p) {
                let k = choose|k: int|
                    0 <= k < self.corners().len() && #[trigger] self.corners()[k].id == id
                        && self.corners()[k].owned_by(p);
                assert(self.corners()[k].id == self.corners()[i].id);
            }
        }
        assert forall|p: usize| self.holds_corner(id, p) implies (choose|k: int|
            0 <= k < self.corners().len() && #[trigger] self.corners()[k].id == id
                && self.corners()[k].owned_by(p)) == i by {
            let k = choose|k: int|
                0 <= k < self.corners().len() && #[trigger] self.corners()[k].id == id
                    && self.corners()[k].owned_by(p);
            assert(self.corners()[k].id == self.corners()[i].id);
        }
    }

    /// With ids unique, the corner at position `i` decides whether its id is occupied.
    pub proof fn lemma_corner_units(self, id: SettlementLocationId, i: int)
        requires
            self.wf(),
            0 <= i < self.corners().len(),
            self.corners()[i].id == id,
        ensures
            self.occupied(id) <==> self.corners()[i].settlement is Some,
            self.occupied(id) ==> (choose|k: int|
                0 <= k < self.corners().len() && #[trigger] self.corners()[k].id == id
                    && self.corners()[k].settlement is Some) == i,
    {
        if self.occupied(id) {
            let k = choose|k: int|
                0 <= k < self.corners().len() && #[trigger] self.corners()[k].id == id
                    && self.corners()[k].settlement is Some;
            assert(self.corners()[k].id == self.corners()[i].id);
        }
    }

    /// The number of corners that `player_id` holds.
    pub open spec fn settlement_count(self, player_id: usize) -> nat {
        self.corners().filter(|c: SettlementLocation| c.owned_by(player_id)).len()
    }

    /// The roads touching `id`, in map order.
    pub open spec fn roads_at(self, id: SettlementLocationId) -> Seq<RoadLocation> {
        self.road_list().filter(|r: RoadLocation| r.touches(id))
    }

    /// Only corner `index` may have changed, and only its building.
    pub open spec fn only_building_changed(self, other: SettlementMap, index: int) -> bool {
        &&& other.corners().len() == self.corners().len()
        &&& other.road_list() == self.road_list()
        &&& forall|i: int|
            0 <= i < self.corners().len() && i != index ==> #[trigger] other.corners()[i]
                == self.corners()[i]
        &&& other.corners()[index].id == self.corners()[index].id
        &&& other.corners()[index].neighbor_tiles@ == self.corners()[index].neighbor_tiles@
        &&& other.corners()[index].seaport == self.corners()[index].seaport
    }

    pub fn new() -> (m: Self)
        ensures
            m.wf(),
            m.corners().len() == 0,
            m.road_list().len() == 0,
    {
        SettlementMap { settlements: Vec::new(), roads: Vec::new() }
    }

    /// The position of corner `id`, if it is in the map.
    pub fn find_settlement(&self, settlement_id: &SettlementLocationId) -> (r: Option<usize>)
        ensures
            r matches Some(i) ==> i < self.corners().len() && self.corners()[i as int].id
                == *settlement_id,
            r is None <==> !self.has_corner(*settlement_id),
    {
        let mut i: usize = 0;
        while i < self.settlements.len()
            invariant
                i <= self.settlements.len(),
                forall|k: int| 0 <= k < i ==> self.settlements@[k].id != *settlement_id,
            decreases self.settlements.len() - i,
        {
            if self.settlements[i].id == *settlement_id {
                return Some(i);
            }
            i = i + 1;
        }
        None
    }

    /// The position of road `id`, if it is in the map.
    pub fn find_road(&self, road_id: &RoadLocationId) -> (r: Option<usize>)
        ensures
            r matches Some(j) ==> j < self.road_list().len() && self.road_list()[j as int].id
                == *road_id,
            r is None <==> !self.has_road_id(*road_id),
    {
        let mut j: usize = 0;
        while j < self.roads.len()
            invariant
                j <= self.roads.len(),
                forall|k: int| 0 <= k < j ==> self.roads@[k].id != *road_id,
            decreases self.roads.len() - j,
        {
            if self.roads[j].id == *road_id {
                return Some(j);
            }
            j = j + 1;
        }
        None
    }

    pub fn has_road(&self, road_id: &RoadLocationId) -> (b: bool)
        ensures
            b == self.has_road_id(*road_id),
    {
        self.find_road(road_id).is_some()
    }

    pub fn get_road(&self, road_id: &RoadLocationId) -> (r: Option<&RoadLocation>)
        ensures
            r matches Some(road) ==> road.id == *road_id && self.road_list().contains(*road),
            r is None <==> !self.has_road_id(*road_id),
    {
        match self.find_road(road_id) {
            Some(j) => Some(&self.roads[j]),
            None => None,
        }
    }

    pub fn has_settlement(&self, settlement_id: &SettlementLocationId) -> (b: bool)
        ensures
            b == self.has_corner(*settlement_id),
    {
        self.find_settlement(settlement_id).is_some()
    }

    pub fn get_settlement(&self, settlement_id: &SettlementLocationId) -> (r: Option<
        &SettlementLocation,
    >)
        ensures
            r matches Some(s) ==> s.id == *settlement_id && self.corners().contains(*s),
            r is None <==> !self.has_corner(*settlement_id),
    {
        match self.find_settlement(settlement_id) {
            Some(i) => Some(&self.settlements[i]),
            None => None,
        }
    }

    /// All corners, in map order.
    pub fn get_settlements(&self) -> (s: &Vec<SettlementLocation>)
        ensures
            s@ == self.corners(),
    {
        &self.settlements
    }

    /// All roads, in map order.
    pub fn get_roads(&self) -> (r: &Vec<RoadLocation>)
        ensures
            r@ == self.road_list(),
    {
        &self.roads
    }

    /// Adds a road between two corners of the map. Refuses, changing nothing, a road
    /// already present or one whose ends are not both in the map.
    pub fn add_road(&mut self, road: RoadLocation) -> (r: Result<(), String>)
        requires
            old(self).wf(),
            road.id == RoadLocation::id_of(road.settlement_a_id, road.settlement_b_id),
        ensures
            final(self).wf(),
            r is Ok <==> !old(self).has_road_id(road.id) && old(self).has_corner(
                road.settlement_a_id,
            ) && old(self).has_corner(road.settlement_b_id),
            r is Ok ==> final(self).road_list() == old(self).road_list().push(road),
            r is Err ==> final(self).road_list() == old(self).road_list(),
            final(self).corners() == old(self).corners(),
    {
        if self.has_road(&road.id) {
            return Err("road is already in the map".to_string());
        }
        if !self.has_settlement(&road.settlement_a_id) {
            return Err("the road's first corner is not in the map".to_string());
        }
        if !self.has_settlement(&road.settlement_b_id) {
            return Err("the road's second corner is not in the map".to_string());
        }
        self.roads.push(road);
        proof {
            assert forall|j: int| 0 <= j < self.roads@.len() implies {
                let rd = #[trigger] self.roads@[j];
                &&& rd.id == RoadLocation::id_of(rd.settlement_a_id, rd.settlement_b_id)
                &&& self.has_corner(rd.settlement_a_id)
                &&& self.has_corner(rd.settlement_b_id)
            } by {
                if j < old(self).roads@.len() {
                    assert(old(self).road_list()[j] == self.roads@[j]);
                }
            }
        }
        Ok(())
    }

    /// Adds a corner. Refuses, changing nothing, one whose id is already present.
    pub fn add_settlement(&mut self, settlement: SettlementLocation) -> (r: Result<(), String>)
        requires
            old(self).wf(),
        ensures
            final(self).wf(),
            r is Ok <==> !old(self).has_corner(settlement.id),
            r is Ok ==> final(self).corners() == old(self).corners().push(settlement),
            r is Err ==> final(self).corners() == old(self).corners(),
            final(self).road_list() == old(self).road_list(),
    {
        if self.has_settlement(&settlement.id) {
            return Err("settlement is already in the map".to_string());
        }
        let ghost before = self.settlements@;
        self.settlements.push(settlement);
        proof {
            assert forall|j: int| 0 <= j < self.roads@.len() implies {
                let rd = #[trigger] self.roads@[j];
                &&& self.has_corner(rd.settlement_a_id)
                &&& self.has_corner(rd.settlement_b_id)
            } by {
                let rd = self.roads@[j];
                assert(old(self).has_corner(rd.settlement_a_id));
                let ia = choose|i: int| 0 <= i < before.len() && #[trigger] before[i].id == rd.settlement_a_id;
                assert(self.settlements@[ia].id == rd.settlement_a_id);
                assert(old(self).has_corner(rd.settlement_b_id));
                let ib = choose|i: int| 0 <= i < before.len() && #[trigger] before[i].id == rd.settlement_b_id;
                assert(self.settlements@[ib].id == rd.settlement_b_id);
            }
        }
        Ok(())
    }

    /// Claims road `road_id` for `player_id`. Refuses, changing nothing, an unknown
    /// or already claimed road.
    pub fn build_road(&mut self, road_id: &RoadLocationId, player_id: usize) -> (r: Result<
        usize,
        String,
    >)
        requires
            old(self).wf(),
        ensures
            final(self).wf(),
            final(self).corners() == old(self).corners(),
            r is Ok <==> exists|j: int|
                0 <= j < old(self).road_list().len() && #[trigger] old(self).road_list()[j].id
                    == *road_id && old(self).road_list()[j].player_road is None,
            r matches Ok(j) ==> j < old(self).road_list().len() && old(self).road_list()[j as int].id
                == *road_id && final(self).road_list() == old(self).road_list().update(
                j as int,
                RoadLocation {
                    player_road: Some(PlayerRoad { player_id }),
                    ..old(self).road_list()[j as int]
                },
            ),
            r is Err ==> final(self).road_list() == old(self).road_list(),
    {
        let j = match self.find_road(road_id) {
            None => return Err("road not found".to_string()),
            Some(j) => j,
        };
        let mut road = self.roads[j];
        match road.build_road(PlayerRoad::from(player_id)) {
            Err(e) => Err(e),
            Ok(()) => {
                let ghost before = self.roads@;
                self.roads.set(j, road);
                proof {
                    assert(self.roads@ == before.update(j as int, road));
                    assert forall|m: int, k: int|
                        0 <= m < self.road_list().len() && 0 <= k < self.road_list().len()
                            && #[trigger] self.road_list()[m].id == #[trigger] self.road_list()[k].id
                            implies m == k by {
                        assert(before[m].id == self.roads@[m].id);
                        assert(before[k].id == self.roads@[k].id);
                    }
                    assert forall|m: int| 0 <= m < self.road_list().len() implies {
                        let rd = #[trigger] self.road_list()[m];
                        &&& rd.id == RoadLocation::id_of(rd.settlement_a_id, rd.settlement_b_id)
                        &&& self.has_corner(rd.settlement_a_id)
                        &&& self.has_corner(rd.settlement_b_id)
                    } by {
                        assert(old(self).road_list()[m].settlement_a_id == self.roads@[m].settlement_a_id);
                    }
                }
                Ok(j)
            },
        }
    }

    /// Builds on corner `settlement_id` (see `SettlementLocation::build_settlement`).
    /// Refuses, changing nothing, an unknown corner or a build that is not possible there.
    pub fn build_settlement(
        &mut self,
        settlement_id: &SettlementLocationId,
        settlement_type: SettlementType,
        player_id: usize,
    ) -> (r: Result<usize, String>)
        requires
            old(self).wf(),
        ensures
            final(self).wf(),
            final(self).road_list() == old(self).road_list(),
            r is Ok <==> exists|i: int|
                0 <= i < old(self).corners().len() && #[trigger] old(self).corners()[i].id
                    == *settlement_id && old(self).corners()[i].can_build(
                    settlement_type,
                    player_id,
                ),
            r matches Ok(i) ==> i < old(self).corners().len() && old(self).corners()[i as int].id
                == *settlement_id && old(self).only_building_changed(*final(self), i as int)
                && final(self).corners()[i as int].settlement == Some(
                PlayerSettlement { player_id, settlement_type },
            ),
            r is Err ==> final(self).corners() == old(self).corners(),
    {
        let i = match self.find_settlement(settlement_id) {
            None => return Err("settlement not found".to_string()),
            Some(i) => i,
        };
        if !self.settlements[i].can_build_now(settlement_type, player_id) {
            return Err("the building is not possible on this corner".to_string());
        }
        let ghost before = self.settlements@;
        let loc = &mut self.settlements[i];
        let res = loc.build_settlement(settlement_type, player_id);
        proof {
            assert(self.settlements@ == before.update(i as int, *loc));
        }
        match res {
            Err(e) => {
                assert(false);
                Err(e)
            },
            Ok(()) => {
                proof {
                    assert forall|m: int, k: int|
                        0 <= m < self.corners().len() && 0 <= k < self.corners().len()
                            && #[trigger] self.corners()[m].id == #[trigger] self.corners()[k].id
                            implies m == k by {
                        assert(before[m].id == self.settlements@[m].id);
                        assert(before[k].id == self.settlements@[k].id);
                    }
                    assert forall|m: int| 0 <= m < self.road_list().len() implies {
                        let rd = #[trigger] self.road_list()[m];
                        &&& self.has_corner(rd.settlement_a_id)
                        &&& self.has_corner(rd.settlement_b_id)
                    } by {
                        let rd = self.road_list()[m];
                        assert(old(self).has_corner(rd.settlement_a_id));
                        let ia = choose|x: int| 0 <= x < before.len() && #[trigger] before[x].id == rd.settlement_a_id;
                        assert(self.settlements@[ia].id == rd.settlement_a_id);
                        assert(old(self).has_corner(rd.settlement_b_id));
                        let ib = choose|x: int| 0 <= x < before.len() && #[trigger] before[x].id == rd.settlement_b_id;
                        assert(self.settlements@[ib].id == rd.settlement_b_id);
                    }
                }
                Ok(i)
            },
        }
    }

    /// The roads touching corner `settlement_id`, in map order.
    pub fn get_settlement_roads(&self, settlement_id: &SettlementLocationId) -> (r: Vec<
        RoadLocation,
    >)
        ensures
            r@ == self.roads_at(*settlement_id),
    {
        let ghost pred = |rd: RoadLocation| rd.touches(*settlement_id);
        let mut result: Vec<RoadLocation> = Vec::new();
        let mut j: usize = 0;
        while j < self.roads.len()
            invariant
                j <= self.roads.len(),
                pred == (|rd: RoadLocation| rd.touches(*settlement_id)),
                result@ == self.roads@.subrange(0, j as int).filter(pred),
            decreases self.roads.len() - j,
        {
            let road = self.roads[j];
            proof {
                reveal(Seq::filter);
                let s1 = self.roads@.subrange(0, j + 1);
                assert(s1.drop_last() =~= self.roads@.subrange(0, j as int));
                assert(s1.last() == road);
                assert(s1.filter(pred) == if pred(road) {
                    s1.drop_last().filter(pred).push(road)
                } else {
                    s1.drop_last().filter(pred)
                });
            }
            if road.settlement_a_id == *settlement_id || road.settlement_b_id == *settlement_id {
                result.push(road);
            }
            j = j + 1;
        }
        assert(self.roads@.subrange(0, self.roads@.len() as int) =~= self.roads@);
        result
    }

    /// The corners one road away from `settlement_id`: one per road touching it, in the
    /// order of those roads.
    pub fn get_neighbor_settlements(&self, settlement_id: &SettlementLocationId) -> (n: Vec<
        &SettlementLocation,
    >)
        requires
            self.wf(),
        ensures
            n@.len() == self.roads_at(*settlement_id).len(),
            forall|k: int|
                0 <= k < n@.len() ==> (#[trigger] n@[k]).id == other_end(
                    self.roads_at(*settlement_id)[k],
                    *settlement_id,
                ) && self.corners().contains(*n@[k]),
    {
        let ghost pred = |rd: RoadLocation| rd.touches(*settlement_id);
        let mut result: Vec<&SettlementLocation> = Vec::new();
        let mut j: usize = 0;
        while j < self.roads.len()
            invariant
                self.wf(),
                j <= self.roads.len(),
                pred == (|rd: RoadLocation| rd.touches(*settlement_id)),
                result@.len() == self.roads@.subrange(0, j as int).filter(pred).len(),
                forall|k: int|
                    0 <= k < result@.len() ==> (#[trigger] result@[k]).id == other_end(
                        self.roads@.subrange(0, j as int).filter(pred)[k],
                        *settlement_id,
                    ) && self.corners().contains(*result@[k]),
            decreases self.roads.len() - j,
        {
            let road = &self.roads[j];
            let ghost prefix = self.roads@.subrange(0, j as int);
            proof {
                assert(self.roads@.subrange(0, j + 1) =~= prefix.push(*road));
                crate::seq_facts::lemma_filter_push(prefix, *road, pred);
            }
            if road.settlement_a_id == *settlement_id || road.settlement_b_id == *settlement_id {
                let other = if road.settlement_a_id == *settlement_id {
                    road.settlement_b_id
                } else {
                    road.settlement_a_id
                };
                assert(self.road_list()[j as int] == *road);
                assert(self.has_corner(other));
                let i = self.find_settlement(&other).unwrap();
                let ghost before = result@;
                result.push(&self.settlements[i]);
                proof {
                    assert(self.corners()[i as int] == *result@[before.len() as int]);
                    assert forall|k: int| 0 <= k < result@.len() implies (#[trigger] result@[k]).id
                        == other_end(self.roads@.subrange(0, j + 1).filter(pred)[k], *settlement_id)
                        && self.corners().contains(*result@[k]) by {
                        if k < before.len() {
                            assert(result@[k] == before[k]);
                        }
                    }
                }
            }
            j = j + 1;
        }
        assert(self.roads@.subrange(0, self.roads@.len() as int) =~= self.roads@);
        result
    }

    /// Whether `player_id` has claimed a road touching corner `settlement_id`.
    pub fn has_settlement_player_roads(
        &self,
        settlement_id: &SettlementLocationId,
        player_id: usize,
    ) -> (b: bool)
        ensures
            b == self.has_player_road_at(*settlement_id, player_id),
    {
        let mut j: usize = 0;
        while j < self.roads.len()
            invariant
                j <= self.roads.len(),
                forall|k: int|
                    0 <= k < j ==> !((#[trigger] self.roads@[k]).touches(*settlement_id)
                        && self.roads@[k].owned_by(player_id)),
            decreases self.roads.len() - j,
        {
            let road = &self.roads[j];
            if road.settlement_a_id == *settlement_id || road.settlement_b_id == *settlement_id {
                match road.player_road {
                    Some(pr) => {
                        if pr.player_id == player_id {
                            assert(self.road_list()[j as int].owned_by(player_id));
                            return true;
                        }
                    },
                    None => {},
                }
            }
            j = j + 1;
        }
        proof {
            assert forall|k: int| 0 <= k < self.road_list().len() implies !((
            #[trigger] self.road_list()[k]).touches(*settlement_id) && self.road_list()[k].owned_by(
                player_id,
            )) by {
                assert(self.road_list()[k] == self.roads@[k]);
            }
        }
        false
    }

    /// The ids of the corners that `player_id` holds, in map order.
    pub fn get_player_settlements(&self, player_id: usize) -> (r: Vec<SettlementLocationId>)
        requires
            self.wf(),
        ensures
            r@.len() == self.settlement_count(player_id),
            r@.no_duplicates(),
            forall|k: int| 0 <= k < r@.len() ==> self.holds_corner(#[trigger] r@[k], player_id),
            forall|i: int|
                0 <= i < self.corners().len() && (#[trigger] self.corners()[i]).owned_by(player_id)
                    ==> r@.contains(self.corners()[i].id),
    {
        let ghost pred = |c: SettlementLocation| c.owned_by(player_id);
        let ghost mut witness: Seq<int> = Seq::empty();
        let mut result: Vec<SettlementLocationId> = Vec::new();
        let mut i: usize = 0;
        while i < self.settlements.len()
            invariant
                self.wf(),
                i <= self.settlements.len(),
                pred == (|c: SettlementLocation| c.owned_by(player_id)),
                result@.len() == self.settlements@.subrange(0, i as int).filter(pred).len(),
                witness.len() == result@.len(),
                forall|k: int|
                    0 <= k < witness.len() ==> 0 <= #[trigger] witness[k] < i
                        && self.settlements@[witness[k]].id == result@[k]
                        && self.settlements@[witness[k]].owned_by(player_id),
                forall|a: int, b: int| 0 <= a < b < witness.len() ==> witness[a] < witness[b],
                forall|m: int|
                    0 <= m < i && (#[trigger] self.settlements@[m]).owned_by(player_id)
                        ==> result@.contains(self.settlements@[m].id),
            decreases self.settlements.len() - i,
        {
            let s = &self.settlements[i];
            proof {
                reveal(Seq::filter);
                let s1 = self.settlements@.subrange(0, i + 1);
                assert(s1.drop_last() =~= self.settlements@.subrange(0, i as int));
                assert(s1.last() == *s);
                assert(s1.filter(pred) == if pred(*s) {
                    s1.drop_last().filter(pred).push(*s)
                } else {
                    s1.drop_last().filter(pred)
                });
            }
            if s.is_owner(player_id) {
                let ghost before = result@;
                result.push(s.id);
                proof {
                    witness = witness.push(i as int);
                    assert(result@[before.len() as int] == s.id);
                    assert forall|m: int|
                        0 <= m < i + 1 && (#[trigger] self.settlements@[m]).owned_by(player_id)
                            implies result@.contains(self.settlements@[m].id) by {
                        if m < i {
                            let k = choose|k: int| 0 <= k < before.len() && before[k] == self.settlements@[m].id;
                            assert(result@[k] == before[k]);
                        }
                    }
                }
            }
            i = i + 1;
        }
        assert(self.settlements@.subrange(0, self.settlements@.len() as int) =~= self.settlements@);
        assert forall|k: int| 0 <= k < result@.len() implies self.holds_corner(
            #[trigger] result@[k],
            player_id,
        ) by {
            assert(0 <= witness[k] < self.settlements@.len());
            assert(self.corners()[witness[k]].id == result@[k]);
        }
        assert forall|a: int, b: int|
            0 <= a < result@.len() && 0 <= b < result@.len() && a != b implies result@[a]
                != result@[b] by {
            if result@[a] == result@[b] {
                assert(self.corners()[witness[a]].id == self.corners()[witness[b]].id);
                if a < b {
                    assert(witness[a] < witness[b]);
                } else {
                    assert(witness[b] < witness[a]);
                }
            }
        }
        result
    }

    /// The road with id `id` (meaningful where it is in the map).
    pub open spec fn road_of(self, id: RoadLocationId) -> RoadLocation {
        let j = choose|j: int| 0 <= j < self.road_list().len() && #[trigger] self.road_list()[j].id == id;
        self.road_list()[j]
    }

    /// `player_id` holds a corner at an end of `road`.
    pub open spec fn holds_end(self, road: RoadLocation, player_id: usize) -> bool {
        self.holds_corner(road.settlement_a_id, player_id) || self.holds_corner(
            road.settlement_b_id,
            player_id,
        )
    }

    /// `player_id` holds a corner or a road at an end of `road`.
    pub open spec fn connects(self, road: RoadLocation, player_id: usize) -> bool {
        self.holds_end(road, player_id) || self.has_player_road_at(road.settlement_a_id, player_id)
            || self.has_player_road_at(road.settlement_b_id, player_id)
    }

    /// Whether corner `settlement_id` is in the map and holds a building.
    pub fn is_occupied(&self, settlement_id: &SettlementLocationId) -> (b: bool)
        requires
            self.wf(),
        ensures
            b == self.occupied(*settlement_id),
    {
        match self.find_settlement(settlement_id) {
            None => false,
            Some(i) => {
                let b = self.settlements[i].settlement.is_some();
                proof {
                    if !b && self.occupied(*settlement_id) {
                        let k = choose|k: int|
                            0 <= k < self.corners().len() && #[trigger] self.corners()[k].id == *settlement_id
                                && self.corners()[k].settlement is Some;
                        assert(self.corners()[k].id == self.corners()[i as int].id);
                    }
                }
                b
            },
        }
    }

    /// Whether some corner one road away from `settlement_id` holds a building.
    pub fn is_neighbor_occupied(&self, settlement_id: &SettlementLocationId) -> (b: bool)
        requires
            self.wf(),
        ensures
            b == self.neighbor_occupied(*settlement_id),
    {
        let mut j: usize = 0;
        while j < self.roads.len()
            invariant
                self.wf(),
                j <= self.roads.len(),
                forall|m: int|
                    0 <= m < j ==> !((#[trigger] self.road_list()[m]).touches(*settlement_id)
                        && self.occupied(other_end(self.road_list()[m], *settlement_id))),
            decreases self.roads.len() - j,
        {
            let road = self.roads[j];
            assert(self.road_list()[j as int] == road);
            if road.settlement_a_id == *settlement_id {
                if self.is_occupied(&road.settlement_b_id) {
                    return true;
                }
            } else if road.settlement_b_id == *settlement_id {
                if self.is_occupied(&road.settlement_a_id) {
                    return true;
                }
            }
            j = j + 1;
        }
        false
    }

    /// Whether `player_id` holds corner `settlement_id`.
    pub fn is_corner_held_by(&self, settlement_id: &SettlementLocationId, player_id: usize) -> (b: bool)
        requires
            self.wf(),
        ensures
            b == self.holds_corner(*settlement_id, player_id),
    {
        match self.find_settlement(settlement_id) {
            None => false,
            Some(i) => {
                let b = self.settlements[i].is_owner(player_id);
                proof {
                    if !b && self.holds_corner(*settlement_id, player_id) {
                        let k = choose|k: int|
                            0 <= k < self.corners().len() && #[trigger] self.corners()[k].id == *settlement_id
                                && self.corners()[k].owned_by(player_id);
                        assert(self.corners()[k].id == self.corners()[i as int].id);
                    }
                }
                b
            },
        }
    }

    /// The road with id `road_id`, if it is in the map.
    pub fn lookup_road(&self, road_id: &RoadLocationId) -> (r: Option<RoadLocation>)
        requires
            self.wf(),
        ensures
            r is None <==> !self.has_road_id(*road_id),
            r matches Some(road) ==> road == self.road_of(*road_id) && road.id == *road_id,
    {
        match self.find_road(road_id) {
            None => None,
            Some(j) => {
                proof {
                    let c = choose|c: int| 0 <= c < self.road_list().len() && #[trigger] self.road_list()[c].id == *road_id;
                    assert(self.road_list()[c].id == self.road_list()[j as int].id);
                }
                Some(self.roads[j])
            },
        }
    }

    /// Whether any of the given corners holds a building.
    pub fn any_settlement_occupied(settlements: &Vec<&SettlementLocation>) -> (b: bool)
        ensures
            b == exists|k: int| 0 <= k < settlements@.len() && (#[trigger] settlements@[k]).settlement is Some,
    {
        let mut k: usize = 0;
        while k < settlements.len()
            invariant
                k <= settlements.len(),
                forall|m: int| 0 <= m < k ==> (#[trigger] settlements@[m]).settlement is None,
            decreases settlements.len() - k,
        {
            if settlements[k].settlement.is_some() {
                return true;
            }
            k = k + 1;
        }
        false
    }
}

} // verus!
