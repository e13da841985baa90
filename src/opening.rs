//! The opening: each player places two villages, each with a road.
use vstd::prelude::*;
use crate::actions::ActionData;
use crate::game::{Game, GameError};
use crate::locations::SettlementType;
use crate::placement::{
    built_on, claimed, lemma_built_keeps_ids, lemma_built_keeps_owners, place_start_road,
    place_village, road_result, village_result,
};
use crate::player::PlayerId;
use crate::state_machine::StateId;

verus! {

/// The number of settlements a player places during the opening.
pub const OPENING_SETTLEMENTS: usize = 2;

impl Game {
    /// Every player holds at least `n` corners.
    pub open spec fn all_hold_at_least(self, n: nat) -> bool {
        forall|i: int|
            0 <= i < self.players@.len() ==> #[trigger] self.board.settlement_map.settlement_count(
                i as usize,
            ) >= n
    }

    /// The turn index after a player's opening road: the turn passes, except that the last
    /// player keeps it until it holds both its opening settlements.
    pub open spec fn opening_next_index(self, player_id: PlayerId) -> int {
        let is_last = self.current_player_index == self.players@.len() - 1;
        let has_two = self.board.settlement_map.settlement_count(player_id)
            >= OPENING_SETTLEMENTS;
        if !is_last || has_two {
            (self.current_player_index + 1) % (self.players@.len() as int)
        } else {
            self.current_player_index as int
        }
    }

    pub fn get_player_settlement_count(&self, player_id: PlayerId) -> (n: usize)
        requires
            self.board.settlement_map.wf(),
        ensures
            n == self.board.settlement_map.settlement_count(player_id),
    {
        self.board.settlement_map.get_player_settlements(player_id).len()
    }

    /// Whether every player holds at least `expected_settlement_count` corners.
    pub fn all_players_have_at_least_n_settlements(&self, expected_settlement_count: usize) -> (b:
        bool)
        requires
            self.wf(),
        ensures
            b == self.all_hold_at_least(expected_settlement_count as nat),
    {
        let mut i: usize = 0;
        while i < self.players.len()
            invariant
                self.wf(),
                i <= self.players@.len(),
                forall|k: int|
                    0 <= k < i ==> #[trigger] self.board.settlement_map.settlement_count(k as usize)
                        >= expected_settlement_count,
            decreases self.players.len() - i,
        {
            if self.get_player_settlement_count(i) < expected_settlement_count {
                assert(self.board.settlement_map.settlement_count((i as int) as usize)
                    < expected_settlement_count);
                return false;
            }
            i = i + 1;
        }
        true
    }

    /// The outcome of `process_place_village`: how `next` and `r` follow from `self`.
    pub open spec fn village_outcome(
        self,
        next: Game,
        player_id: PlayerId,
        data: ActionData,
        r: Result<(), GameError>,
    ) -> bool {
        &&& !(data is PlaceSettlement) ==> r == Err::<(), GameError>(GameError::ActionDataInvalid)
            && next == self
        &&& data matches ActionData::PlaceSettlement(d) ==> {
            let outcome = village_result(self.board.settlement_map, d.settlement_id);
            &&& outcome is Err ==> r == outcome && next == self
            &&& outcome is Ok ==> {
                &&& built_on(
                    self.board.settlement_map,
                    next.board.settlement_map,
                    d.settlement_id,
                    SettlementType::Village,
                    player_id,
                )
                &&& self.state_machine.transition_outcome(
                    next.state_machine,
                    StateId::StartRoadPlacement,
                    r is Ok,
                )
                &&& r is Err ==> r == Err::<(), GameError>(GameError::ActionFailed)
                &&& self.same_except_map_and_machine(next)
                &&& next.last_placed_settlement == Some(d.settlement_id)
            }
        }
    }

    /// Places a player's opening village; on success the player goes on to place a road.
    pub fn process_place_village(&mut self, player_id: PlayerId, data: ActionData) -> (r: Result<
        (),
        GameError,
    >)
        requires
            old(self).wf(),
            player_id < old(self).players@.len(),
        ensures
            final(self).wf(),
            old(self).village_outcome(*final(self), player_id, data, r),
    {
        let place_village_data = match data {
            ActionData::PlaceSettlement(d) => d,
            _ => return Err(GameError::ActionDataInvalid),
        };
        let placed = place_village(
            &mut self.board.settlement_map,
            &place_village_data.settlement_id,
            player_id,
        );
        if let Err(err) = placed {
            return Err(err);
        }
        proof {
            lemma_built_keeps_ids(
                old(self).board.settlement_map,
                self.board.settlement_map,
                place_village_data.settlement_id,
                SettlementType::Village,
                player_id,
            );
            lemma_built_keeps_owners(
                old(self).board.settlement_map,
                self.board.settlement_map,
                place_village_data.settlement_id,
                SettlementType::Village,
                player_id,
                self.players@.len(),
            );
        }
        self.last_placed_settlement = Some(place_village_data.settlement_id);
        self.transition(StateId::StartRoadPlacement)
    }

    /// The outcome of `process_place_start_road`: how `next` and `r` follow from `self`.
    pub open spec fn start_road_outcome(
        self,
        next: Game,
        player_id: PlayerId,
        data: ActionData,
        r: Result<(), GameError>,
    ) -> bool {
        &&& !(data is PlaceRoad) ==> r == Err::<(), GameError>(GameError::ActionDataInvalid)
            && next == self
        &&& data matches ActionData::PlaceRoad(d) ==> {
            let outcome = road_result(
                self.board.settlement_map,
                d.road_id,
                player_id,
                true,
                self.last_placed_settlement,
            );
            &&& outcome is Err ==> r == outcome && next == self
            &&& outcome is Ok ==> {
                &&& claimed(
                    self.board.settlement_map,
                    next.board.settlement_map,
                    d.road_id,
                    player_id,
                )
                &&& next.current_player_index == self.opening_next_index(player_id)
                &&& self.state_machine.transition_outcome(
                    next.state_machine,
                    if self.all_hold_at_least(OPENING_SETTLEMENTS as nat) {
                        StateId::RollDice
                    } else {
                        StateId::StartVillagePlacement
                    },
                    r is Ok,
                )
                &&& r is Err ==> r == Err::<(), GameError>(GameError::ActionFailed)
                &&& next.players == self.players
                &&& next.active_trade_offer == self.active_trade_offer
                &&& next.board.tile_map == self.board.tile_map
                &&& next.board.robber == self.board.robber
            }
        }
    }

    /// Places a player's opening road next to one of its corners, passes the turn (the
    /// last player places both its settlements first) and continues with the dice once
    /// every player holds two settlements, else with the next village.
    pub fn process_place_start_road(&mut self, player_id: PlayerId, data: ActionData) -> (r:
        Result<(), GameError>)
        requires
            old(self).wf(),
        ensures
            final(self).wf(),
            old(self).start_road_outcome(*final(self), player_id, data, r),
    {
        let place_road_data = match data {
            ActionData::PlaceRoad(d) => d,
            _ => return Err(GameError::ActionDataInvalid),
        };
        let ghost before = *self;
        let anchor = self.last_placed_settlement;
        let placed = place_start_road(
            &mut self.board.settlement_map,
            &place_road_data.road_id,
            player_id,
            anchor,
        );
        if let Err(err) = placed {
            return Err(err);
        }
        proof {
            assert(self.board.settlement_map.corners() == before.board.settlement_map.corners());
            assert forall|p: usize| #[trigger] self.board.settlement_map.settlement_count(p)
                == before.board.settlement_map.settlement_count(p) by {}
            assert(self.players@ == before.players@);
            if before.all_hold_at_least(OPENING_SETTLEMENTS as nat) {
                assert forall|i: int| 0 <= i < self.players@.len() implies #[trigger] self.board.settlement_map.settlement_count(
                    i as usize,
                ) >= OPENING_SETTLEMENTS by {
                    assert(before.board.settlement_map.settlement_count(i as usize) >= OPENING_SETTLEMENTS);
                }
            }
            if self.all_hold_at_least(OPENING_SETTLEMENTS as nat) {
                assert forall|i: int| 0 <= i < before.players@.len() implies #[trigger] before.board.settlement_map.settlement_count(
                    i as usize,
                ) >= OPENING_SETTLEMENTS by {
                    assert(self.board.settlement_map.settlement_count(i as usize) >= OPENING_SETTLEMENTS);
                }
            }
        }
        let has_two_settlements = self.get_player_settlement_count(player_id) >= OPENING_SETTLEMENTS;
        let is_last_player = self.current_player_index == self.players.len() - 1;
        if !is_last_player {
            self.end_turn();
        } else if has_two_settlements {
            self.end_turn();
        }
        let all_players_placed_two_settlements = self.all_players_have_at_least_n_settlements(
            OPENING_SETTLEMENTS,
        );
        if all_players_placed_two_settlements {
            self.transition(StateId::RollDice)
        } else {
            self.transition(StateId::StartVillagePlacement)
        }
    }
}

} // verus!
