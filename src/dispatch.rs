//! Dispatch of an action to the state that handles it, and the rules every action keeps.
use vstd::prelude::*;
use crate::actions::{ActionData, ActionKind, GameAction};
use crate::board::{DevelopmentCard, DoubleDiceRoll};
use crate::game::{total_held, Game, GameError};
use crate::locations::{RoadLocationId, SettlementLocationId, SettlementType};
use crate::placement::{anchored, built_on, claimed, road_result, settlement_result, village_result};
use crate::player::{Player, PlayerId};
use crate::robber::HAND_LIMIT;
use crate::settlement_map::SettlementMap;
use crate::state_machine::StateId;

verus! {

/// The states in which only the turn holder may act.
pub open spec fn turn_checked(state: StateId) -> bool {
    state != StateId::RobberRemoveCards && state != StateId::Trading && state != StateId::GameError
}

/// Whether `state` takes actions of kind `kind` (from the turn holder, or from another
/// player, as `turn_holder` says).
pub open spec fn accepts(state: StateId, kind: ActionKind, turn_holder: bool) -> bool {
    match state {
        StateId::StartVillagePlacement => kind == ActionKind::BuildSettlement,
        StateId::StartRoadPlacement => kind == ActionKind::BuildRoad,
        StateId::RollDice => kind == ActionKind::RollDice,
        StateId::SelectAction => kind == ActionKind::BuildSettlement || kind == ActionKind::BuildRoad
            || kind == ActionKind::DrawDevelopmentCard || kind == ActionKind::EndTurn || kind
            == ActionKind::OfferTrade || kind == ActionKind::OfferBankTrade,
        StateId::RobberRemoveCards => kind == ActionKind::RemoveCards,
        StateId::RobberRelocate => kind == ActionKind::PlaceRobber,
        StateId::BuildNFreeRoads => kind == ActionKind::BuildRoad,
        StateId::Trading => if turn_holder {
            kind == ActionKind::CompleteTrade || kind == ActionKind::CancelTrade || kind
                == ActionKind::OfferTrade || kind == ActionKind::OfferBankTrade
        } else {
            kind == ActionKind::AcceptTrade || kind == ActionKind::RejectTrade
        },
        StateId::GameError => false,
    }
}

/// Every corner that gained a building in `n` had no building one road away in `m`.
pub open spec fn corner_rule_kept(m: SettlementMap, n: SettlementMap) -> bool {
    &&& n.corners().len() == m.corners().len()
    &&& forall|i: int|
        0 <= i < m.corners().len() && m.corners()[i].settlement is None && (
        #[trigger] n.corners()[i]).settlement is Some ==> !m.neighbor_occupied(m.corners()[i].id)
}

/// Every road claimed in `n` but free in `m` went to `player_id`, who in `m` held a
/// corner at one of its ends or (outside the opening) a road touching one of its ends.
pub open spec fn road_rule_kept(
    m: SettlementMap,
    n: SettlementMap,
    player_id: PlayerId,
    opening: bool,
    anchor: Option<SettlementLocationId>,
) -> bool {
    &&& n.road_list().len() == m.road_list().len()
    &&& forall|j: int|
        0 <= j < m.road_list().len() && m.road_list()[j].player_road is None && (
        #[trigger] n.road_list()[j]).player_road is Some ==> n.road_list()[j].owned_by(player_id)
            && if opening {
            anchored(m, m.road_list()[j], player_id, anchor)
        } else {
            m.connects(m.road_list()[j], player_id)
        }
}

proof fn lemma_unchanged_map(
    m: SettlementMap,
    n: SettlementMap,
    player_id: PlayerId,
    opening: bool,
    anchor: Option<SettlementLocationId>,
)
    requires
        n.corners() == m.corners(),
        n.road_list() == m.road_list(),
    ensures
        corner_rule_kept(m, n),
        road_rule_kept(m, n, player_id, opening, anchor),
{
}

proof fn lemma_built_keeps_rules(
    m: SettlementMap,
    n: SettlementMap,
    id: SettlementLocationId,
    settlement_type: SettlementType,
    player_id: PlayerId,
    opening: bool,
    anchor: Option<SettlementLocationId>,
)
    requires
        m.wf(),
        built_on(m, n, id, settlement_type, player_id),
        !m.neighbor_occupied(id),
    ensures
        corner_rule_kept(m, n),
        road_rule_kept(m, n, player_id, opening, anchor),
{
    let i = choose|i: int|
        0 <= i < m.corners().len() && #[trigger] m.corners()[i].id == id && m.only_building_changed(n, i)
            && n.corners()[i].settlement == Some(
            crate::locations::PlayerSettlement { player_id, settlement_type },
        );
    assert forall|k: int|
        0 <= k < m.corners().len() && m.corners()[k].settlement is None && (
        #[trigger] n.corners()[k]).settlement is Some implies !m.neighbor_occupied(m.corners()[k].id) by {
        if k != i {
            assert(n.corners()[k] == m.corners()[k]);
        }
    }
}

proof fn lemma_claimed_keeps_rules(
    m: SettlementMap,
    n: SettlementMap,
    id: RoadLocationId,
    player_id: PlayerId,
    opening: bool,
    anchor: Option<SettlementLocationId>,
)
    requires
        m.wf(),
        claimed(m, n, id, player_id),
        road_result(m, id, player_id, opening, anchor) is Ok,
    ensures
        corner_rule_kept(m, n),
        road_rule_kept(m, n, player_id, opening, anchor),
{
    let j = choose|j: int|
        0 <= j < m.road_list().len() && #[trigger] m.road_list()[j].id == id && n.road_list()
            == m.road_list().update(
            j,
            crate::locations::RoadLocation {
                player_road: Some(crate::locations::PlayerRoad { player_id }),
                ..m.road_list()[j]
            },
        );
    let c = choose|c: int| 0 <= c < m.road_list().len() && #[trigger] m.road_list()[c].id == id;
    assert(m.road_list()[c].id == m.road_list()[j].id);
    assert(m.road_of(id) == m.road_list()[j]);
    assert forall|k: int|
        0 <= k < m.road_list().len() && m.road_list()[k].player_road is None && (
        #[trigger] n.road_list()[k]).player_road is Some implies n.road_list()[k].owned_by(player_id)
        && if opening {
            anchored(m, m.road_list()[k], player_id, anchor)
        } else {
            m.connects(m.road_list()[k], player_id)
        } by {
        if k != j {
            assert(n.road_list()[k] == m.road_list()[k]);
        }
    }
}

impl Game {
    /// What every action keeps: the distance rule for buildings, the connection rule for
    /// roads, the hand limit once discarding is over, and acceptance before a trade.
    pub open spec fn rules_kept(
        self,
        next: Game,
        player_id: PlayerId,
        action: GameAction,
        r: Result<(), GameError>,
    ) -> bool {
        &&& corner_rule_kept(self.board.settlement_map, next.board.settlement_map)
        &&& road_rule_kept(
            self.board.settlement_map,
            next.board.settlement_map,
            player_id,
            self.current_state() == StateId::StartRoadPlacement,
            self.last_placed_settlement,
        )
        &&& self.current_state() == StateId::RobberRemoveCards && r is Ok && next.current_state()
            == StateId::RobberRelocate ==> forall|i: int|
            0 <= i < next.players@.len() ==> (#[trigger] next.held(i)).total() <= HAND_LIMIT
        &&& self.current_state() == StateId::Trading && action.id == ActionKind::CompleteTrade
            && r is Ok ==> (self.active_trade_offer matches Some(o) && (
        action.data matches ActionData::CompletePlayerTrade(d) && o.has_accepted(
            d.accepted_player_id,
        )))
        &&& self.current_state() == StateId::RobberRelocate && action.id == ActionKind::PlaceRobber
            ==> total_held(next.players@) == total_held(self.players@)
        &&& self.current_state() == StateId::Trading && action.id == ActionKind::CompleteTrade
            ==> total_held(next.players@) == total_held(self.players@)
    }

    /// An accepted action has the outcome of the step that handles it, with `roll` as
    /// the dice and `pick` as the robber's choice.
    pub open spec fn dispatched(
        self,
        next: Game,
        player_id: PlayerId,
        action: GameAction,
        roll: DoubleDiceRoll,
        pick: usize,
        r: Result<(), GameError>,
    ) -> bool {
        let state = self.current_state();
        let turn = player_id == self.current_player_index;
        let data = action.data;
        let kind = action.id;
        &&& state == StateId::StartVillagePlacement && turn && kind == ActionKind::BuildSettlement
            ==> self.village_outcome(next, player_id, data, r)
        &&& state == StateId::StartRoadPlacement && turn && kind == ActionKind::BuildRoad
            ==> self.start_road_outcome(next, player_id, data, r)
        &&& state == StateId::RollDice && turn && kind == ActionKind::RollDice
            ==> self.roll_outcome(next, roll, r)
        &&& state == StateId::SelectAction && turn && kind == ActionKind::BuildSettlement
            ==> self.build_settlement_outcome(next, player_id, data, r)
        &&& state == StateId::SelectAction && turn && kind == ActionKind::BuildRoad
            ==> self.build_road_outcome(next, player_id, data, r)
        &&& state == StateId::SelectAction && turn && kind == ActionKind::DrawDevelopmentCard
            ==> self.card_outcome(next, player_id, data, r)
        &&& state == StateId::SelectAction && turn && kind == ActionKind::EndTurn
            ==> self.end_turn_outcome(next, r)
        &&& (state == StateId::SelectAction || state == StateId::Trading) && turn && kind
            == ActionKind::OfferTrade ==> self.trade_offer_outcome(next, player_id, data, r)
        &&& (state == StateId::SelectAction || state == StateId::Trading) && turn && kind
            == ActionKind::OfferBankTrade ==> r == Err::<(), GameError>(GameError::ActionFailed)
            && next == self
        &&& state == StateId::RobberRemoveCards && kind == ActionKind::RemoveCards
            ==> self.remove_cards_outcome(next, player_id, data, r)
        &&& state == StateId::RobberRelocate && turn && kind == ActionKind::PlaceRobber
            ==> self.place_robber_outcome(next, player_id, data, pick, r)
        &&& state == StateId::BuildNFreeRoads && turn && kind == ActionKind::BuildRoad
            ==> self.free_road_outcome(next, player_id, data, r)
        &&& state == StateId::Trading && turn && kind == ActionKind::CompleteTrade
            ==> self.complete_trade_outcome(next, data, r)
        &&& state == StateId::Trading && turn && kind == ActionKind::CancelTrade
            ==> self.cancel_trade_outcome(next, r)
        &&& state == StateId::Trading && !turn && kind == ActionKind::AcceptTrade
            ==> self.accept_outcome(next, player_id, r)
        &&& state == StateId::Trading && !turn && kind == ActionKind::RejectTrade
            ==> self.reject_outcome(next, player_id, r)
    }

    /// Validates and applies one action of `player_id` in the current state, drawing the
    /// dice and the robber's choice at random.
    pub fn perform_action(&mut self, player_id: PlayerId, action: GameAction) -> (r: Result<
        (),
        GameError,
    >)
        requires
            old(self).wf(),
            player_id < old(self).players@.len(),
        ensures
            final(self).wf(),
            old(self).current_state() == StateId::GameError ==> r == Err::<(), GameError>(
                GameError::ActionNotAllowed,
            ) && *final(self) == *old(self),
            turn_checked(old(self).current_state()) && player_id != old(self).current_player_index
                ==> r == Err::<(), GameError>(GameError::NotPlayerTurn) && *final(self) == *old(self),
            (turn_checked(old(self).current_state()) ==> player_id == old(self).current_player_index)
                && !accepts(
                old(self).current_state(),
                action.id,
                player_id == old(self).current_player_index,
            ) ==> r == Err::<(), GameError>(GameError::ActionNotAllowed) && *final(self) == *old(self),
            old(self).rules_kept(*final(self), player_id, action, r),
            exists|roll: DoubleDiceRoll, pick: usize|
                roll.wf() && #[trigger] old(self).dispatched(*final(self), player_id, action, roll, pick, r),
    {
        let roll = DoubleDiceRoll::roll();
        let pick = self.robbery_pick(action.data);
        let r = self.perform_action_with(player_id, action, roll, pick);
        assert(old(self).dispatched(*self, player_id, action, roll, pick, r));
        r
    }

    /// Validates and applies one action of `player_id` in the current state, with `roll`
    /// as the dice (where the action rolls them) and `pick` as the position, among the
    /// kinds the victim holds, of the kind a robbery takes.
    #[verifier::rlimit(100)]
    pub fn perform_action_with(
        &mut self,
        player_id: PlayerId,
        action: GameAction,
        roll: DoubleDiceRoll,
        pick: usize,
    ) -> (r: Result<(), GameError>)
        requires
            old(self).wf(),
            player_id < old(self).players@.len(),
            roll.wf(),
        ensures
            final(self).wf(),
            old(self).current_state() == StateId::GameError ==> r == Err::<(), GameError>(
                GameError::ActionNotAllowed,
            ) && *final(self) == *old(self),
            turn_checked(old(self).current_state()) && player_id != old(self).current_player_index
                ==> r == Err::<(), GameError>(GameError::NotPlayerTurn) && *final(self) == *old(self),
            (turn_checked(old(self).current_state()) ==> player_id == old(self).current_player_index)
                && !accepts(
                old(self).current_state(),
                action.id,
                player_id == old(self).current_player_index,
            ) ==> r == Err::<(), GameError>(GameError::ActionNotAllowed) && *final(self) == *old(self),
            old(self).rules_kept(*final(self), player_id, action, r),
            old(self).dispatched(*final(self), player_id, action, roll, pick, r),
    {
        let state = self.state_machine.get_current_state_id();
        let turn_holder = self.is_player_turn(player_id);
        let ghost g = *self;
        if state == StateId::GameError {
            return Err(GameError::ActionNotAllowed);
        }
        if state != StateId::RobberRemoveCards && state != StateId::Trading && !turn_holder {
            return Err(GameError::NotPlayerTurn);
        }
        let data = action.data;
        let r = match (state, action.id) {
            (StateId::StartVillagePlacement, ActionKind::BuildSettlement) => {
                let r = self.process_place_village(player_id, data);
                proof {
                    if let ActionData::PlaceSettlement(d) = data {
                        if village_result(g.board.settlement_map, d.settlement_id) is Ok {
                            lemma_built_keeps_rules(
                                g.board.settlement_map,
                                self.board.settlement_map,
                                d.settlement_id,
                                SettlementType::Village,
                                player_id,
                                false,
                                g.last_placed_settlement,
                            );
                        }
                    }
                }
                r
            },
            (StateId::StartRoadPlacement, ActionKind::BuildRoad) => {
                let r = self.process_place_start_road(player_id, data);
                proof {
                    if let ActionData::PlaceRoad(d) = data {
                        if road_result(
                            g.board.settlement_map,
                            d.road_id,
                            player_id,
                            true,
                            g.last_placed_settlement,
                        ) is Ok {
                            lemma_claimed_keeps_rules(
                                g.board.settlement_map,
                                self.board.settlement_map,
                                d.road_id,
                                player_id,
                                true,
                                g.last_placed_settlement,
                            );
                        }
                    }
                }
                r
            },
            (StateId::RollDice, ActionKind::RollDice) => self.apply_dice_roll(roll),
            (StateId::SelectAction, ActionKind::BuildSettlement) => {
                let r = self.process_build_settlement(player_id, data);
                proof {
                    if let ActionData::PlaceSettlement(d) = data {
                        let outcome = settlement_result(
                            g.board.settlement_map,
                            d.settlement_id,
                            d.settlement_type,
                            player_id,
                        );
                        if outcome is Ok && r is Ok {
                            lemma_built_keeps_rules(
                                g.board.settlement_map,
                                self.board.settlement_map,
                                d.settlement_id,
                                d.settlement_type,
                                player_id,
                                false,
                                g.last_placed_settlement,
                            );
                        }
                    }
                }
                r
            },
            (StateId::SelectAction, ActionKind::BuildRoad) => {
                let r = self.process_build_road(player_id, data);
                proof {
                    if let ActionData::PlaceRoad(d) = data {
                        let outcome = road_result(g.board.settlement_map, d.road_id, player_id, false, None);
                        if outcome is Ok && r is Ok {
                            lemma_claimed_keeps_rules(
                                g.board.settlement_map,
                                self.board.settlement_map,
                                d.road_id,
                                player_id,
                                false,
                                g.last_placed_settlement,
                            );
                        }
                    }
                }
                r
            },
            (StateId::SelectAction, ActionKind::DrawDevelopmentCard) => {
                self.process_action(player_id, data)
            },
            (StateId::SelectAction, ActionKind::EndTurn) => self.process_end_turn(),
            (StateId::SelectAction, ActionKind::OfferTrade) => {
                self.process_trade_offer(player_id, data)
            },
            (StateId::SelectAction, ActionKind::OfferBankTrade) => {
                self.process_bank_trade_offer(player_id, data)
            },
            (StateId::RobberRemoveCards, ActionKind::RemoveCards) => {
                self.process_remove_cards(player_id, data)
            },
            (StateId::RobberRelocate, ActionKind::PlaceRobber) => {
                self.place_robber_with(player_id, data, pick)
            },
            (StateId::BuildNFreeRoads, ActionKind::BuildRoad) => {
                let r = self.process_build_free_road(player_id, data);
                proof {
                    if let ActionData::PlaceRoad(d) = data {
                        let outcome = road_result(g.board.settlement_map, d.road_id, player_id, false, None);
                        if g.state_machine.free_roads_left() > 0 && outcome is Ok {
                            lemma_claimed_keeps_rules(
                                g.board.settlement_map,
                                self.board.settlement_map,
                                d.road_id,
                                player_id,
                                false,
                                g.last_placed_settlement,
                            );
                        }
                    }
                }
                r
            },
            (StateId::Trading, ActionKind::CompleteTrade) => {
                if turn_holder {
                    self.process_complete_trade(data)
                } else {
                    Err(GameError::ActionNotAllowed)
                }
            },
            (StateId::Trading, ActionKind::CancelTrade) => {
                if turn_holder {
                    self.process_cancel_trade()
                } else {
                    Err(GameError::ActionNotAllowed)
                }
            },
            (StateId::Trading, ActionKind::OfferTrade) => {
                if turn_holder {
                    self.process_trade_offer(player_id, data)
                } else {
                    Err(GameError::ActionNotAllowed)
                }
            },
            (StateId::Trading, ActionKind::OfferBankTrade) => {
                if turn_holder {
                    self.process_bank_trade_offer(player_id, data)
                } else {
                    Err(GameError::ActionNotAllowed)
                }
            },
            (StateId::Trading, ActionKind::AcceptTrade) => {
                if !turn_holder {
                    self.process_accept_trade_offer(player_id)
                } else {
                    Err(GameError::ActionNotAllowed)
                }
            },
            (StateId::Trading, ActionKind::RejectTrade) => {
                if !turn_holder {
                    self.process_reject_trade_offer(player_id)
                } else {
                    Err(GameError::ActionNotAllowed)
                }
            },
            _ => Err(GameError::ActionNotAllowed),
        };
        proof {
            if self.board.settlement_map == g.board.settlement_map {
                lemma_unchanged_map(
                    g.board.settlement_map,
                    self.board.settlement_map,
                    player_id,
                    state == StateId::StartRoadPlacement,
                    g.last_placed_settlement,
                );
            }
        }
        r
    }
}

/// Resources change hands without being created or destroyed: a robbery, a monopoly and
/// a completed trade keep the players' total, and an invention adds exactly two units
/// (taken from the bank).
pub proof fn lemma_resources_conserved(
    g: Game,
    next: Game,
    player_id: PlayerId,
    action: GameAction,
    roll: DoubleDiceRoll,
    pick: usize,
    r: Result<(), GameError>,
)
    requires
        g.wf(),
        player_id == g.current_player_index,
        g.dispatched(next, player_id, action, roll, pick, r),
    ensures
        g.current_state() == StateId::RobberRelocate && action.id == ActionKind::PlaceRobber
            ==> total_held(next.players@) == total_held(g.players@),
        g.current_state() == StateId::Trading && action.id == ActionKind::CompleteTrade
            ==> total_held(next.players@) == total_held(g.players@),
        g.current_state() == StateId::SelectAction && action.id == ActionKind::DrawDevelopmentCard
            && (action.data matches ActionData::DrawDevelopmentCard(c) && c.card
            != DevelopmentCard::Invention) ==> total_held(next.players@) == total_held(g.players@),
        g.current_state() == StateId::SelectAction && action.id == ActionKind::DrawDevelopmentCard
            && (action.data matches ActionData::DrawDevelopmentCard(c) && c.card
            == DevelopmentCard::Invention) && r is Ok ==> total_held(next.players@) == total_held(
            g.players@,
        ) + 2,
{
    if g.current_state() == StateId::SelectAction && action.id == ActionKind::DrawDevelopmentCard {
        if let ActionData::DrawDevelopmentCard(c) = action.data {
            let p = player_id as int;
            let held = g.players@[p].development_cards.count(c.card);
            if held > 0 && (c.card == DevelopmentCard::Knight || c.card
                == DevelopmentCard::StreetConstruction) {
                assert forall|j: int| 0 <= j < g.players@.len() implies (#[trigger] g.players@[j]).resources@
                    == next.players@[j].resources@ by {
                    assert(next.held(j) == g.held(j));
                }
                lemma_same_ledgers_same_total(g.players@, next.players@);
            }
        }
    }
}

/// Equal ledgers, player by player, hold the same total.
pub proof fn lemma_same_ledgers_same_total(a: Seq<Player>, b: Seq<Player>)
    requires
        a.len() == b.len(),
        forall|j: int| 0 <= j < a.len() ==> (#[trigger] a[j]).resources@ == b[j].resources@,
    ensures
        total_held(a) == total_held(b),
    decreases a.len(),
{
    if a.len() > 0 {
        lemma_same_ledgers_same_total(a.drop_last(), b.drop_last());
    }
}

} // verus!
