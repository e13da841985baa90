//! The robber: discarding down to the hand limit, moving the robber and robbing.
use vstd::prelude::*;
use crate::actions::ActionData;
use crate::coordinates::CubeCoordinates;
use crate::game::{lemma_total_held_bounds, lemma_total_held_update, total_held, Game, GameError};
use crate::locations::RobberLocation;
use crate::player::PlayerId;
use crate::random::random_below;
use crate::resources::{ResourceCollection, ResourceKind};
use crate::state_machine::StateId;

verus! {

/// The most resource cards a player may hold when a 7 is rolled.
pub const HAND_LIMIT: usize = 7;

/// The kinds `c` holds at least one unit of, in the order clay, wood, ore, sheep, wheat.
pub open spec fn held_kinds(c: ResourceCollection) -> Seq<ResourceKind> {
    let s0 = Seq::<ResourceKind>::empty();
    let s1 = if c.clay > 0 { s0.push(ResourceKind::Clay) } else { s0 };
    let s2 = if c.wood > 0 { s1.push(ResourceKind::Wood) } else { s1 };
    let s3 = if c.ore > 0 { s2.push(ResourceKind::Ore) } else { s2 };
    let s4 = if c.sheep > 0 { s3.push(ResourceKind::Sheep) } else { s3 };
    if c.wheat > 0 { s4.push(ResourceKind::Wheat) } else { s4 }
}

/// The kinds `c` holds, in order.
pub fn held_kind_list(c: &ResourceCollection) -> (v: Vec<ResourceKind>)
    ensures
        v@ == held_kinds(*c),
        v@.len() > 0 <==> c.total() > 0,
        forall|k: int| 0 <= k < v@.len() ==> c.count(#[trigger] v@[k]) > 0,
{
    let mut v: Vec<ResourceKind> = Vec::new();
    if c.clay > 0 {
        v.push(ResourceKind::Clay);
    }
    if c.wood > 0 {
        v.push(ResourceKind::Wood);
    }
    if c.ore > 0 {
        v.push(ResourceKind::Ore);
    }
    if c.sheep > 0 {
        v.push(ResourceKind::Sheep);
    }
    if c.wheat > 0 {
        v.push(ResourceKind::Wheat);
    }
    v
}

impl Game {
    /// Some player holds more than the hand limit.
    pub open spec fn over_limit(self) -> bool {
        exists|i: int| 0 <= i < self.players@.len() && (#[trigger] self.held(i)).total() > HAND_LIMIT
    }

    /// Player `player_id` has a building on a corner of the tile at `tile`.
    pub open spec fn occupies_tile(self, tile: CubeCoordinates, player_id: PlayerId) -> bool {
        exists|t: int|
            0 <= t < self.board.tile_map.tile_list().len()
                && #[trigger] self.board.tile_map.tile_list()[t].coordinates == tile && exists|k: int|
                0 <= k < self.board.tile_map.tile_list()[t].corner_settlements@.len()
                    && self.board.settlement_map.holds_corner(
                    #[trigger] self.board.tile_map.tile_list()[t].corner_settlements@[k],
                    player_id,
                )
    }

    /// Whether some player holds more than the hand limit.
    pub fn has_a_player_too_many_cards(&self) -> (b: bool)
        requires
            self.wf(),
        ensures
            b == self.over_limit(),
    {
        let mut i: usize = 0;
        while i < self.players.len()
            invariant
                self.wf(),
                i <= self.players@.len(),
                forall|k: int| 0 <= k < i ==> (#[trigger] self.held(k)).total() <= HAND_LIMIT,
            decreases self.players.len() - i,
        {
            if self.players[i].resources.get_total_resources() > HAND_LIMIT {
                assert(self.held(i as int).total() > HAND_LIMIT);
                return true;
            }
            i = i + 1;
        }
        false
    }

    /// The outcome of `process_remove_cards`: how `next` and `r` follow from `self`.
    pub open spec fn remove_cards_outcome(
        self,
        next: Game,
        player_id: PlayerId,
        data: ActionData,
        r: Result<(), GameError>,
    ) -> bool {
        &&& self.held(player_id as int).total() <= HAND_LIMIT ==> r == Err::<(), GameError>(
            GameError::ActionNotAllowed,
        ) && next == self
        &&& self.held(player_id as int).total() > HAND_LIMIT ==> (!(data is Resources) ==> r
            == Err::<(), GameError>(GameError::ActionDataInvalid) && next == self)
        &&& self.held(player_id as int).total() > HAND_LIMIT ==> (data matches ActionData::Resources(c) ==> {
            let held = self.held(player_id as int);
            &&& c.total() != held.total() - HAND_LIMIT ==> r == Err::<(), GameError>(
                GameError::ActionFailed,
            ) && next == self
            &&& c.total() == held.total() - HAND_LIMIT && !held.covers(c) ==> r == Err::<
                (),
                GameError,
            >(GameError::NotEnoughResources) && next == self
            &&& c.total() == held.total() - HAND_LIMIT && held.covers(c) ==> {
                &&& self.ledgers_changed(next, set![player_id as int])
                &&& next.held(player_id as int) == held.minus(c)
                &&& next.held(player_id as int).total() == HAND_LIMIT
                &&& next.board == self.board
                &&& next.current_player_index == self.current_player_index
                &&& next.active_trade_offer == self.active_trade_offer
                &&& next.over_limit() ==> r is Ok && next.state_machine
                    == self.state_machine
                &&& !next.over_limit() ==> self.state_machine.transition_outcome(
                    next.state_machine,
                    StateId::RobberRelocate,
                    r is Ok,
                ) && (r is Err ==> r == Err::<(), GameError>(GameError::ActionFailed))
            }
        })
    }

    /// A player over the hand limit discards down to it, naming exactly the cards to
    /// drop. Once nobody is over the limit, the robber is moved next.
    pub fn process_remove_cards(&mut self, player_id: PlayerId, data: ActionData) -> (r: Result<
        (),
        GameError,
    >)
        requires
            old(self).wf(),
            player_id < old(self).players@.len(),
        ensures
            final(self).wf(),
            old(self).remove_cards_outcome(*final(self), player_id, data, r),
    {
        let held_total = self.players[player_id].resources.get_total_resources();
        if held_total <= HAND_LIMIT {
            return Err(GameError::ActionNotAllowed);
        }
        let removed_cards = match data {
            ActionData::Resources(c) => c,
            _ => return Err(GameError::ActionDataInvalid),
        };
        match removed_cards.checked_total() {
            None => return Err(GameError::ActionFailed),
            Some(t) => {
                if t != held_total - HAND_LIMIT {
                    return Err(GameError::ActionFailed);
                }
            },
        }
        if !self.players[player_id].resources.has_resources(&removed_cards) {
            return Err(GameError::NotEnoughResources);
        }
        let mut p = self.players[player_id];
        p.resources.remove_resources(&removed_cards);
        proof {
            lemma_total_held_update(self.players@, player_id as int, p);
        }
        self.players.set(player_id, p);
        if self.has_a_player_too_many_cards() {
            return Ok(());
        }
        let ghost pre = *self;
        let r = self.transition(StateId::RobberRelocate);
        proof {
            if self.over_limit() {
                let i = choose|i: int| 0 <= i < self.players@.len() && (#[trigger] self.held(i)).total() > HAND_LIMIT;
                assert(pre.held(i).total() > HAND_LIMIT);
            }
        }
        r
    }

    /// Whether `player_id` has a building on a corner of the tile at `tile`.
    pub fn is_tile_occupant(&self, tile: &CubeCoordinates, player_id: PlayerId) -> (b: bool)
        requires
            self.wf(),
        ensures
            b == self.occupies_tile(*tile, player_id),
    {
        let t = match self.board.tile_map.find_tile(tile) {
            None => return false,
            Some(t) => t,
        };
        let corners = self.board.tile_map.get_tiles()[t].get_corner_settlement_ids();
        let mut k: usize = 0;
        while k < corners.len()
            invariant
                self.wf(),
                k <= corners@.len(),
                t < self.board.tile_map.tile_list().len(),
                corners@ == self.board.tile_map.tile_list()[t as int].corner_settlements@,
                self.board.tile_map.tile_list()[t as int].coordinates == *tile,
                forall|m: int|
                    0 <= m < k ==> !self.board.settlement_map.holds_corner(
                        #[trigger] corners@[m],
                        player_id,
                    ),
            decreases corners.len() - k,
        {
            if self.board.settlement_map.is_corner_held_by(&corners[k], player_id) {
                return true;
            }
            k = k + 1;
        }
        proof {
            if self.occupies_tile(*tile, player_id) {
                let u = choose|u: int|
                    0 <= u < self.board.tile_map.tile_list().len()
                        && #[trigger] self.board.tile_map.tile_list()[u].coordinates == *tile
                        && exists|m: int|
                        0 <= m < self.board.tile_map.tile_list()[u].corner_settlements@.len()
                            && self.board.settlement_map.holds_corner(
                            #[trigger] self.board.tile_map.tile_list()[u].corner_settlements@[m],
                            player_id,
                        );
                assert(u == t);
            }
        }
        false
    }

    /// The outcome of `place_robber_with`: how `next` and `r` follow from `self`.
    pub open spec fn place_robber_outcome(
        self,
        next: Game,
        player_id: PlayerId,
        data: ActionData,
        pick: usize,
        r: Result<(), GameError>,
    ) -> bool {
        &&& !(data is PlaceRobber) ==> r == Err::<(), GameError>(GameError::ActionDataInvalid)
            && next == self
        &&& data matches ActionData::PlaceRobber(d) ==> {
            let victim = d.robbed_player_id;
            let fails = !self.board.tile_map.has_tile(d.tile_location)
                || !self.occupies_tile(d.tile_location, victim) || victim
                >= self.players@.len() || self.held(victim as int).total() == 0;
            &&& !self.board.tile_map.has_tile(d.tile_location) ==> r == Err::<
                (),
                GameError,
            >(GameError::InvalidLocation)
            &&& self.board.tile_map.has_tile(d.tile_location) && fails ==> r == Err::<
                (),
                GameError,
            >(GameError::ActionFailed)
            &&& fails ==> next == self
            &&& !fails ==> {
                let kinds = held_kinds(self.held(victim as int));
                let kind = kinds[(pick as int) % (kinds.len() as int)];
                &&& self.ledgers_changed(
                    next,
                    set![player_id as int, victim as int],
                )
                &&& victim != player_id ==> next.held(victim as int) == self.held(
                    victim as int,
                ).with_count(kind, (self.held(victim as int).count(kind) - 1) as usize)
                &&& victim != player_id ==> next.held(player_id as int) == self.held(
                    player_id as int,
                ).with_count(kind, (self.held(player_id as int).count(kind) + 1) as usize)
                &&& victim == player_id ==> next.held(player_id as int) == self.held(
                    player_id as int,
                )
                &&& total_held(next.players@) == total_held(self.players@)
                &&& next.board.robber.assigned_tile == d.tile_location
                &&& next.board.tile_map == self.board.tile_map
                &&& next.board.settlement_map == self.board.settlement_map
                &&& next.current_player_index == self.current_player_index
                &&& next.active_trade_offer == self.active_trade_offer
                &&& self.state_machine.transition_outcome(
                    next.state_machine,
                    StateId::SelectAction,
                    r is Ok,
                )
                &&& r is Err ==> r == Err::<(), GameError>(GameError::ActionFailed)
            }
        }
    }

    /// Moves the robber to the tile at `data.tile_location` and moves one unit from the
    /// named occupant of that tile to `player_id`: the kind is the one at position
    /// `pick` (modulo their number) among the kinds the victim holds.
    pub fn place_robber_with(&mut self, player_id: PlayerId, data: ActionData, pick: usize) -> (r:
        Result<(), GameError>)
        requires
            old(self).wf(),
            player_id < old(self).players@.len(),
        ensures
            final(self).wf(),
            old(self).place_robber_outcome(*final(self), player_id, data, pick, r),
    {
        let d = match data {
            ActionData::PlaceRobber(d) => d,
            _ => return Err(GameError::ActionDataInvalid),
        };
        if self.board.tile_map.find_tile(&d.tile_location).is_none() {
            return Err(GameError::InvalidLocation);
        }
        let victim = d.robbed_player_id;
        if !self.is_tile_occupant(&d.tile_location, victim) {
            return Err(GameError::ActionFailed);
        }
        if victim >= self.players.len() {
            return Err(GameError::ActionFailed);
        }
        let victim_held = self.players[victim].resources.get_resources();
        let kinds = held_kind_list(&victim_held);
        if kinds.len() == 0 {
            return Err(GameError::ActionFailed);
        }
        let kind = kinds[pick % kinds.len()];
        let ghost start = self.players@;
        let mut robbed = self.players[victim];
        robbed.resources.remove_resource(kind, 1);
        proof {
            lemma_total_held_update(self.players@, victim as int, robbed);
        }
        self.players.set(victim, robbed);
        let ghost middle = self.players@;
        let mut robber = self.players[player_id];
        proof {
            lemma_total_held_bounds(self.players@, player_id as int);
        }
        robber.resources.add_resource(kind, 1);
        proof {
            lemma_total_held_update(self.players@, player_id as int, robber);
        }
        self.players.set(player_id, robber);
        proof {
            if victim == player_id {
                assert(self.players@[player_id as int].resources@ =~= start[player_id as int].resources@);
            }
            assert forall|j: int| 0 <= j < self.players@.len() implies (#[trigger] self.players@[j]).id
                == start[j].id && self.players@[j].development_cards == start[j].development_cards by {
                assert(middle[j].id == start[j].id);
            }
        }
        self.board.robber = RobberLocation::from(d.tile_location);
        self.transition(StateId::SelectAction)
    }

    /// A uniformly random position among the kinds the named victim holds (0 where the
    /// action names no player holding anything).
    pub fn robbery_pick(&self, data: ActionData) -> (pick: usize)
        requires
            self.wf(),
        ensures
            data matches ActionData::PlaceRobber(d) ==> (d.robbed_player_id < self.players@.len()
                && held_kinds(self.held(d.robbed_player_id as int)).len() > 0 ==> pick < held_kinds(
                self.held(d.robbed_player_id as int),
            ).len()),
    {
        let victim = match data {
            ActionData::PlaceRobber(d) => d.robbed_player_id,
            _ => return 0,
        };
        if victim >= self.players.len() {
            return 0;
        }
        let kinds = held_kind_list(&self.players[victim].resources.get_resources());
        if kinds.len() == 0 {
            return 0;
        }
        random_below(kinds.len())
    }

    /// Moves the robber and robs the named occupant of the tile of one random unit.
    pub fn process_place_robber(&mut self, player_id: PlayerId, data: ActionData) -> (r: Result<
        (),
        GameError,
    >)
        requires
            old(self).wf(),
            player_id < old(self).players@.len(),
        ensures
            final(self).wf(),
            exists|pick: usize| #[trigger] old(self).place_robber_outcome(*final(self), player_id, data, pick, r),
    {
        let pick = self.robbery_pick(data);
        let r = self.place_robber_with(player_id, data, pick);
        assert(old(self).place_robber_outcome(*self, player_id, data, pick, r));
        r
    }
}

} // verus!
