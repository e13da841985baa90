//! Offering, answering, completing and withdrawing trades.
use vstd::prelude::*;
use crate::actions::ActionData;
use crate::game::{lemma_total_held_bounds, lemma_total_held_update, total_held, Game, GameError};
use crate::player::PlayerId;
use crate::state_machine::StateId;
use crate::trade::TradeOffer;

verus! {

impl Game {
    /// The ids of all players but `player_id`.
    fn other_player_ids(&self, player_id: PlayerId) -> (ids: Vec<PlayerId>)
        requires
            self.wf(),
        ensures
            !ids@.contains(player_id),
            forall|p: PlayerId| #[trigger] ids@.contains(p) <==> p < self.players@.len() && p != player_id,
    {
        let mut ids: Vec<PlayerId> = Vec::new();
        let mut i: usize = 0;
        while i < self.players.len()
            invariant
                i <= self.players@.len(),
                forall|p: PlayerId| #[trigger] ids@.contains(p) <==> p < i && p != player_id,
            decreases self.players.len() - i,
        {
            if i != player_id {
                let ghost before = ids@;
                ids.push(i);
                proof {
                    assert forall|p: PlayerId| #[trigger] ids@.contains(p) <==> p < i + 1 && p != player_id by {
                        if p == i {
                            assert(ids@[before.len() as int] == p);
                        }
                        if ids@.contains(p) && p != i {
                            let k = choose|k: int| 0 <= k < ids@.len() && ids@[k] == p;
                            assert(before[k] == p);
                            assert(before.contains(p));
                        }
                        if p < i && p != player_id {
                            assert(before.contains(p));
                            let k = choose|k: int| 0 <= k < before.len() && before[k] == p;
                            assert(ids@[k] == p);
                        }
                    }
                }
            }
            i = i + 1;
        }
        ids
    }

    /// The outcome of `process_trade_offer`: how `next` and `r` follow from `self`.
    pub open spec fn trade_offer_outcome(
        self,
        next: Game,
        player_id: PlayerId,
        data: ActionData,
        r: Result<(), GameError>,
    ) -> bool {
        &&& !(data is TradeOffer) ==> r == Err::<(), GameError>(GameError::ActionDataInvalid)
            && next == self
        &&& data matches ActionData::TradeOffer(d) ==> {
            &&& !self.held(player_id as int).covers(d.resource_offer) ==> r == Err::<
                (),
                GameError,
            >(GameError::NotEnoughResources) && next == self
            &&& self.held(player_id as int).covers(d.resource_offer) ==> {
                &&& next.active_trade_offer matches Some(o) && o.creator == player_id
                    && o.resource_offer == d.resource_offer && o.resource_receive
                    == d.resource_receive && (forall|p: PlayerId|
                    #[trigger] o.is_invitee(p) <==> p < self.players@.len() && p
                        != player_id) && (forall|p: PlayerId| !(#[trigger] o.has_accepted(p)))
                &&& self.state_machine.transition_outcome(
                    next.state_machine,
                    StateId::Trading,
                    r is Ok,
                )
                &&& r is Err ==> r == Err::<(), GameError>(GameError::ActionFailed)
                &&& next.players == self.players
                &&& next.board == self.board
            }
        }
    }

    /// Opens an offer to every other player; the creator must hold what it offers.
    pub fn process_trade_offer(&mut self, player_id: PlayerId, data: ActionData) -> (r: Result<
        (),
        GameError,
    >)
        requires
            old(self).wf(),
            player_id < old(self).players@.len(),
        ensures
            final(self).wf(),
            old(self).trade_offer_outcome(*final(self), player_id, data, r),
    {
        let d = match data {
            ActionData::TradeOffer(d) => d,
            _ => return Err(GameError::ActionDataInvalid),
        };
        if !self.players[player_id].resources.has_resources(&d.resource_offer) {
            return Err(GameError::NotEnoughResources);
        }
        let others = self.other_player_ids(player_id);
        let offer = TradeOffer::new(player_id, d.resource_offer, d.resource_receive, others);
        self.create_trade_offer(offer);
        self.transition(StateId::Trading)
    }

    /// Trades with the bank are not offered: the action always fails.
    pub fn process_bank_trade_offer(&mut self, player_id: PlayerId, data: ActionData) -> (r: Result<
        (),
        GameError,
    >)
        ensures
            r == Err::<(), GameError>(GameError::ActionFailed),
            *final(self) == *old(self),
    {
        Err(GameError::ActionFailed)
    }

    /// The outcome of `process_accept_trade_offer`: how `next` and `r` follow from `self`.
    pub open spec fn accept_outcome(
        self,
        next: Game,
        player_id: PlayerId,
        r: Result<(), GameError>,
    ) -> bool {
        &&& self.active_trade_offer is None ==> r == Err::<(), GameError>(
            GameError::ActionFailed,
        ) && next == self
        &&& self.active_trade_offer matches Some(o) ==> {
            &&& o.creator == player_id ==> r == Err::<(), GameError>(GameError::ActionNotAllowed)
                && next == self
            &&& o.creator != player_id && !self.held(player_id as int).covers(
                o.resource_receive,
            ) ==> r == Err::<(), GameError>(GameError::NotEnoughResources) && next
                == self
            &&& o.creator != player_id && self.held(player_id as int).covers(o.resource_receive)
                ==> {
                &&& r is Ok
                &&& next.players == self.players
                &&& next.board == self.board
                &&& next.state_machine == self.state_machine
                &&& next.active_trade_offer matches Some(n) && n.creator == o.creator
                    && n.resource_offer == o.resource_offer && n.resource_receive
                    == o.resource_receive && n.has_accepted(player_id) && (forall|p: PlayerId|
                    p != player_id ==> #[trigger] n.has_accepted(p) == o.has_accepted(p))
            }
        }
    }

    /// An invitee accepts the open offer; it must hold what the creator asks for.
    pub fn process_accept_trade_offer(&mut self, player_id: PlayerId) -> (r: Result<(), GameError>)
        requires
            old(self).wf(),
            player_id < old(self).players@.len(),
        ensures
            final(self).wf(),
            old(self).accept_outcome(*final(self), player_id, r),
    {
        let covers = match &self.active_trade_offer {
            None => return Err(GameError::ActionFailed),
            Some(offer) => {
                if offer.creator == player_id {
                    return Err(GameError::ActionNotAllowed);
                }
                self.players[player_id].resources.has_resources(&offer.resource_receive)
            },
        };
        if !covers {
            return Err(GameError::NotEnoughResources);
        }
        let mut offer = self.active_trade_offer.take().unwrap();
        offer.set_answer(player_id, true);
        self.active_trade_offer = Some(offer);
        Ok(())
    }

    /// The outcome of `process_reject_trade_offer`: how `next` and `r` follow from `self`.
    pub open spec fn reject_outcome(
        self,
        next: Game,
        player_id: PlayerId,
        r: Result<(), GameError>,
    ) -> bool {
        &&& self.active_trade_offer is None ==> r == Err::<(), GameError>(
            GameError::ActionFailed,
        ) && next == self
        &&& self.active_trade_offer matches Some(o) ==> {
            &&& o.creator == player_id ==> r == Err::<(), GameError>(GameError::ActionNotAllowed)
                && next == self
            &&& o.creator != player_id ==> {
                &&& r is Ok
                &&& next.players == self.players
                &&& next.board == self.board
                &&& next.state_machine == self.state_machine
                &&& next.active_trade_offer matches Some(n) && n.creator == o.creator
                    && n.resource_offer == o.resource_offer && n.resource_receive
                    == o.resource_receive && !n.has_accepted(player_id) && (forall|p: PlayerId|
                    p != player_id ==> #[trigger] n.has_accepted(p) == o.has_accepted(p))
            }
        }
    }

    /// An invitee rejects the open offer.
    pub fn process_reject_trade_offer(&mut self, player_id: PlayerId) -> (r: Result<(), GameError>)
        requires
            old(self).wf(),
            player_id < old(self).players@.len(),
        ensures
            final(self).wf(),
            old(self).reject_outcome(*final(self), player_id, r),
    {
        match &self.active_trade_offer {
            None => return Err(GameError::ActionFailed),
            Some(offer) => {
                if offer.creator == player_id {
                    return Err(GameError::ActionNotAllowed);
                }
            },
        }
        let mut offer = self.active_trade_offer.take().unwrap();
        offer.set_answer(player_id, false);
        self.active_trade_offer = Some(offer);
        Ok(())
    }

    /// The outcome of `process_complete_trade`: how `next` and `r` follow from `self`.
    pub open spec fn complete_trade_outcome(
        self,
        next: Game,
        data: ActionData,
        r: Result<(), GameError>,
    ) -> bool {
        &&& !(data is CompletePlayerTrade) ==> r == Err::<(), GameError>(
            GameError::ActionDataInvalid,
        ) && next == self
        &&& data matches ActionData::CompletePlayerTrade(d) ==> {
            let a = d.accepted_player_id;
            &&& self.active_trade_offer is None ==> r == Err::<(), GameError>(
                GameError::ActionFailed,
            ) && next == self
            &&& self.active_trade_offer matches Some(o) ==> {
                let c = o.creator;
                &&& !o.has_accepted(a) ==> r == Err::<(), GameError>(
                    GameError::ActionNotAllowed,
                ) && next == self
                &&& o.has_accepted(a) && a >= self.players@.len() ==> r == Err::<
                    (),
                    GameError,
                >(GameError::ActionFailed) && next == self
                &&& o.has_accepted(a) && a < self.players@.len() && !(self.held(
                    a as int,
                ).covers(o.resource_receive) && self.held(c as int).covers(
                    o.resource_offer,
                )) ==> r == Err::<(), GameError>(GameError::NotEnoughResources) && next
                    == self
                &&& o.has_accepted(a) && a < self.players@.len() && self.held(
                    a as int,
                ).covers(o.resource_receive) && self.held(c as int).covers(
                    o.resource_offer,
                ) ==> {
                    &&& a != c
                    &&& self.ledgers_changed(next, set![a as int, c as int])
                    &&& next.held(a as int) == self.held(a as int).minus(
                        o.resource_receive,
                    ).plus(o.resource_offer)
                    &&& next.held(c as int) == self.held(c as int).minus(
                        o.resource_offer,
                    ).plus(o.resource_receive)
                    &&& total_held(next.players@) == total_held(self.players@)
                    &&& next.active_trade_offer is None
                    &&& next.board == self.board
                    &&& self.state_machine.transition_outcome(
                        next.state_machine,
                        StateId::SelectAction,
                        r is Ok,
                    )
                    &&& r is Err ==> r == Err::<(), GameError>(GameError::ActionFailed)
                }
            }
        }
    }

    /// The creator closes the offer with one player who accepted it: the creator's
    /// offered resources go to that player, and what it asked for comes back.
    pub fn process_complete_trade(&mut self, data: ActionData) -> (r: Result<(), GameError>)
        requires
            old(self).wf(),
        ensures
            final(self).wf(),
            old(self).complete_trade_outcome(*final(self), data, r),
    {
        let d = match data {
            ActionData::CompletePlayerTrade(d) => d,
            _ => return Err(GameError::ActionDataInvalid),
        };
        let accepted = d.accepted_player_id;
        let (creator, offered, received) = match &self.active_trade_offer {
            None => return Err(GameError::ActionFailed),
            Some(offer) => {
                if !offer.is_accepted(accepted) {
                    return Err(GameError::ActionNotAllowed);
                }
                proof {
                    let k = choose|k: int|
                        0 <= k < offer.players_accepted@.len()
                            && #[trigger] offer.players_accepted@[k] == (accepted, true);
                    assert(offer.players_accepted@[k].0 != offer.creator);
                }
                (offer.creator, offer.resource_offer, offer.resource_receive)
            },
        };
        if accepted >= self.players.len() {
            return Err(GameError::ActionFailed);
        }
        if !self.players[accepted].resources.has_resources(&received)
            || !self.players[creator].resources.has_resources(&offered) {
            return Err(GameError::NotEnoughResources);
        }
        let ghost start = self.players@;
        let mut acceptor = self.players[accepted];
        acceptor.resources.remove_resources(&received);
        proof {
            lemma_total_held_update(self.players@, accepted as int, acceptor);
        }
        self.players.set(accepted, acceptor);
        let mut offerer = self.players[creator];
        offerer.resources.remove_resources(&offered);
        proof {
            lemma_total_held_update(self.players@, creator as int, offerer);
        }
        self.players.set(creator, offerer);
        let mut acceptor = self.players[accepted];
        proof {
            lemma_total_held_bounds(self.players@, accepted as int);
            lemma_total_held_bounds(start, creator as int);
        }
        acceptor.resources.add_resources(offered);
        proof {
            lemma_total_held_update(self.players@, accepted as int, acceptor);
        }
        self.players.set(accepted, acceptor);
        let mut offerer = self.players[creator];
        proof {
            lemma_total_held_bounds(self.players@, creator as int);
            lemma_total_held_bounds(start, accepted as int);
        }
        offerer.resources.add_resources(received);
        proof {
            lemma_total_held_update(self.players@, creator as int, offerer);
        }
        self.players.set(creator, offerer);
        self.complete_trade_offer();
        self.transition(StateId::SelectAction)
    }

    /// The outcome of `process_cancel_trade`: how `next` and `r` follow from `self`.
    pub open spec fn cancel_trade_outcome(
        self,
        next: Game,
        r: Result<(), GameError>,
    ) -> bool {
        &&& self.active_trade_offer is None ==> r == Err::<(), GameError>(
            GameError::ActionNotAllowed,
        ) && next == self
        &&& self.active_trade_offer is Some ==> {
            &&& next.active_trade_offer is None
            &&& self.state_machine.transition_outcome(next.state_machine, StateId::SelectAction, r is Ok)
            &&& r is Err ==> r == Err::<(), GameError>(GameError::ActionFailed)
            &&& next.players == self.players
            &&& next.board == self.board
        }
    }

    /// The creator withdraws the open offer.
    pub fn process_cancel_trade(&mut self) -> (r: Result<(), GameError>)
        requires
            old(self).wf(),
        ensures
            final(self).wf(),
            old(self).cancel_trade_outcome(*final(self), r),
    {
        if self.active_trade_offer.is_none() {
            return Err(GameError::ActionNotAllowed);
        }
        self.cancel_trade_offer();
        self.transition(StateId::SelectAction)
    }
}

} // verus!
