//! The main phase: paid buildings, free roads and ending the turn.
use vstd::prelude::*;
use crate::actions::ActionData;
use crate::game::{lemma_total_held_update, Game, GameError};
use crate::locations::SettlementType;
use crate::placement::{
    built_on, claimed, lemma_built_keeps_ids, lemma_built_keeps_owners, place_road,
    place_settlement, road_result, settlement_result,
};
use crate::player::PlayerId;
use crate::resources::{get_city_cost, get_road_cost, get_village_cost, ResourceCollection};
use crate::state_machine::{HasStateId, StateId};

verus! {

/// What a building of tier `settlement_type` costs.
pub open spec fn building_cost(settlement_type: SettlementType) -> ResourceCollection {
    match settlement_type {
        SettlementType::Village => ResourceCollection { clay: 1, wood: 1, ore: 0, sheep: 1, wheat: 1 },
        SettlementType::City => ResourceCollection { clay: 0, wood: 0, ore: 3, sheep: 0, wheat: 2 },
    }
}

/// What a road costs.
pub open spec fn road_cost() -> ResourceCollection {
    ResourceCollection { clay: 1, wood: 1, ore: 0, sheep: 0, wheat: 0 }
}

impl Game {
    /// `next` is `self` with `cost` taken from player `player_id`'s ledger and the
    /// corners and roads possibly changed.
    pub open spec fn paid(self, next: Game, player_id: PlayerId, cost: ResourceCollection) -> bool {
        &&& self.ledgers_changed(next, set![player_id as int])
        &&& next.held(player_id as int) == self.held(player_id as int).minus(cost)
        &&& next.state_machine == self.state_machine
        &&& next.current_player_index == self.current_player_index
        &&& next.active_trade_offer == self.active_trade_offer
        &&& next.board.tile_map == self.board.tile_map
        &&& next.board.robber == self.board.robber
        &&& next.board.dice_chips == self.board.dice_chips
        &&& next.board.development_cards == self.board.development_cards
    }

    /// Takes `cost` from `player_id`'s ledger, which covers it.
    fn pay(&mut self, player_id: PlayerId, cost: &ResourceCollection)
        requires
            old(self).wf(),
            player_id < old(self).players@.len(),
            old(self).held(player_id as int).covers(*cost),
        ensures
            final(self).wf(),
            old(self).paid(*final(self), player_id, *cost),
            final(self).board == old(self).board,
    {
        let mut p = self.players[player_id];
        let removed = p.resources.remove_resources(cost);
        proof {
            lemma_total_held_update(self.players@, player_id as int, p);
        }
        self.players.set(player_id, p);
    }

    /// The outcome of `process_build_settlement`: how `next` and `r` follow from `self`.
    pub open spec fn build_settlement_outcome(
        self,
        next: Game,
        player_id: PlayerId,
        data: ActionData,
        r: Result<(), GameError>,
    ) -> bool {
        &&& !(data is PlaceSettlement) ==> r == Err::<(), GameError>(GameError::ActionDataInvalid)
            && next == self
        &&& data matches ActionData::PlaceSettlement(d) ==> {
            let cost = building_cost(d.settlement_type);
            let outcome = settlement_result(
                self.board.settlement_map,
                d.settlement_id,
                d.settlement_type,
                player_id,
            );
            &&& !self.held(player_id as int).covers(cost) ==> r == Err::<(), GameError>(
                GameError::NotEnoughResources,
            ) && next == self
            &&& self.held(player_id as int).covers(cost) && outcome is Err ==> r == outcome
                && next == self
            &&& self.held(player_id as int).covers(cost) && outcome is Ok ==> {
                &&& r is Ok
                &&& built_on(
                    self.board.settlement_map,
                    next.board.settlement_map,
                    d.settlement_id,
                    d.settlement_type,
                    player_id,
                )
                &&& self.paid(next, player_id, cost)
            }
        }
    }

    /// Builds a village or a city during the main phase and pays for it.
    pub fn process_build_settlement(&mut self, player_id: PlayerId, data: ActionData) -> (r: Result<
        (),
        GameError,
    >)
        requires
            old(self).wf(),
            player_id < old(self).players@.len(),
        ensures
            final(self).wf(),
            old(self).build_settlement_outcome(*final(self), player_id, data, r),
    {
        let d = match data {
            ActionData::PlaceSettlement(d) => d,
            _ => return Err(GameError::ActionDataInvalid),
        };
        let resource_cost = match d.settlement_type {
            SettlementType::Village => get_village_cost(),
            SettlementType::City => get_city_cost(),
        };
        if !self.players[player_id].resources.has_resources(&resource_cost) {
            return Err(GameError::NotEnoughResources);
        }
        let placed = place_settlement(
            &mut self.board.settlement_map,
            &d.settlement_id,
            d.settlement_type,
            player_id,
        );
        if let Err(err) = placed {
            return Err(err);
        }
        proof {
            lemma_built_keeps_ids(
                old(self).board.settlement_map,
                self.board.settlement_map,
                d.settlement_id,
                d.settlement_type,
                player_id,
            );
            lemma_built_keeps_owners(
                old(self).board.settlement_map,
                self.board.settlement_map,
                d.settlement_id,
                d.settlement_type,
                player_id,
                self.players@.len(),
            );
        }
        self.pay(player_id, &resource_cost);
        Ok(())
    }

    /// The outcome of `process_build_road`: how `next` and `r` follow from `self`.
    pub open spec fn build_road_outcome(
        self,
        next: Game,
        player_id: PlayerId,
        data: ActionData,
        r: Result<(), GameError>,
    ) -> bool {
        &&& !(data is PlaceRoad) ==> r == Err::<(), GameError>(GameError::ActionDataInvalid)
            && next == self
        &&& data matches ActionData::PlaceRoad(d) ==> {
            let outcome = road_result(self.board.settlement_map, d.road_id, player_id, false, None);
            &&& !self.held(player_id as int).covers(road_cost()) ==> r == Err::<
                (),
                GameError,
            >(GameError::NotEnoughResources) && next == self
            &&& self.held(player_id as int).covers(road_cost()) && outcome is Err ==> r
                == outcome && next == self
            &&& self.held(player_id as int).covers(road_cost()) && outcome is Ok ==> {
                &&& r is Ok
                &&& claimed(
                    self.board.settlement_map,
                    next.board.settlement_map,
                    d.road_id,
                    player_id,
                )
                &&& self.paid(next, player_id, road_cost())
            }
        }
    }

    /// Builds a road during the main phase and pays for it.
    pub fn process_build_road(&mut self, player_id: PlayerId, data: ActionData) -> (r: Result<
        (),
        GameError,
    >)
        requires
            old(self).wf(),
            player_id < old(self).players@.len(),
        ensures
            final(self).wf(),
            old(self).build_road_outcome(*final(self), player_id, data, r),
    {
        let d = match data {
            ActionData::PlaceRoad(d) => d,
            _ => return Err(GameError::ActionDataInvalid),
        };
        let resource_cost = get_road_cost();
        if !self.players[player_id].resources.has_resources(&resource_cost) {
            return Err(GameError::NotEnoughResources);
        }
        let placed = place_road(&mut self.board.settlement_map, &d.road_id, player_id);
        if let Err(err) = placed {
            return Err(err);
        }
        self.pay(player_id, &resource_cost);
        Ok(())
    }

    /// The outcome of `process_end_turn`: how `next` and `r` follow from `self`.
    pub open spec fn end_turn_outcome(
        self,
        next: Game,
        r: Result<(), GameError>,
    ) -> bool {
        &&& next.current_player_index == (self.current_player_index + 1) % (self.players@.len() as int)
        &&& self.state_machine.transition_outcome(next.state_machine, StateId::RollDice, r is Ok)
        &&& r is Err ==> r == Err::<(), GameError>(GameError::ActionFailed)
        &&& next.board == self.board
        &&& next.players == self.players
        &&& next.active_trade_offer == self.active_trade_offer
    }

    /// Ends the turn: the next player rolls the dice.
    pub fn process_end_turn(&mut self) -> (r: Result<(), GameError>)
        requires
            old(self).wf(),
        ensures
            final(self).wf(),
            old(self).end_turn_outcome(*final(self), r),
    {
        self.end_turn();
        self.transition(StateId::RollDice)
    }

    /// The outcome of `process_build_free_road`: how `next` and `r` follow from `self`.
    pub open spec fn free_road_outcome(
        self,
        next: Game,
        player_id: PlayerId,
        data: ActionData,
        r: Result<(), GameError>,
    ) -> bool {
        &&& self.state_machine.free_roads_left() == 0 ==> r == Err::<(), GameError>(
            GameError::ActionFailed,
        ) && next == self
        &&& self.state_machine.free_roads_left() > 0 && !(data is PlaceRoad) ==> r == Err::<
            (),
            GameError,
        >(GameError::ActionDataInvalid) && next == self
        &&& self.state_machine.free_roads_left() > 0 ==> (data matches ActionData::PlaceRoad(d)
            ==> {
            let outcome = road_result(self.board.settlement_map, d.road_id, player_id, false, None);
            &&& outcome is Err ==> r == outcome && next == self
            &&& outcome is Ok ==> {
                &&& claimed(
                    self.board.settlement_map,
                    next.board.settlement_map,
                    d.road_id,
                    player_id,
                )
                &&& self.state_machine.free_roads_left() > 1 ==> r is Ok
                    && next.state_machine.free_roads_left()
                    == self.state_machine.free_roads_left() - 1
                    && next.current_state() == self.current_state()
                &&& self.state_machine.free_roads_left() == 1 ==> {
                    &&& r is Ok <==> self.state_machine.is_registered(StateId::SelectAction)
                    &&& r is Ok ==> next.current_state() == StateId::SelectAction
                        && next.state_machine.free_roads_left() == 0
                    &&& r is Err ==> r == Err::<(), GameError>(GameError::ActionFailed)
                        && next.current_state() == StateId::GameError
                }
                &&& next.players == self.players
                &&& next.current_player_index == self.current_player_index
                &&& next.active_trade_offer == self.active_trade_offer
            }
        })
    }

    /// Places one of the free roads a street-construction card grants; after the last
    /// one the main phase resumes.
    pub fn process_build_free_road(&mut self, player_id: PlayerId, data: ActionData) -> (r: Result<
        (),
        GameError,
    >)
        requires
            old(self).wf(),
        ensures
            final(self).wf(),
            old(self).free_road_outcome(*final(self), player_id, data, r),
    {
        if self.state_machine.get_free_roads_left() == 0 {
            return Err(GameError::ActionFailed);
        }
        let d = match data {
            ActionData::PlaceRoad(d) => d,
            _ => return Err(GameError::ActionDataInvalid),
        };
        let placed = place_road(&mut self.board.settlement_map, &d.road_id, player_id);
        if let Err(err) = placed {
            return Err(err);
        }
        self.state_machine.use_free_road();
        if self.state_machine.get_free_roads_left() > 0 {
            return Ok(());
        }
        let ghost mid = self.state_machine;
        let r = self.transition(StateId::SelectAction);
        proof {
            if r is Ok {
                let i = choose|i: int|
                    0 <= i < mid.states@.len() && (#[trigger] mid.states@[i]).state_id() == StateId::SelectAction
                        && self.state_machine.states@ == mid.states@.update(i, mid.states@[i].activated());
                assert(mid.states@[i].activated() == mid.states@[i]);
                assert(self.state_machine.states@ =~= mid.states@);
            }
        }
        r
    }
}

} // verus!
