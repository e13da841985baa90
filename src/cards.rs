//! Playing development cards.
use vstd::prelude::*;
use crate::actions::ActionData;
use crate::board::DevelopmentCard;
use crate::game::{lemma_total_held_bounds, lemma_total_held_update, total_held, Game, GameError};
use crate::player::{Player, PlayerId};
use crate::resources::ResourceKind;
use crate::state_machine::StateId;

verus! {

/// How many units of `kind` the players other than `player_id` among `players` hold.
pub open spec fn others_count(players: Seq<Player>, player_id: PlayerId, kind: ResourceKind) -> nat
    decreases players.len(),
{
    if players.len() == 0 {
        0
    } else {
        others_count(players.drop_last(), player_id, kind) + if players.last().id == player_id {
            0
        } else {
            players.last().resources@.count(kind)
        }
    }
}

impl Game {
    /// Gives up one of `player_id`'s cards of kind `card`; refuses, changing nothing,
    /// where it holds none.
    pub fn play_card(&mut self, player_id: PlayerId, card: DevelopmentCard) -> (r: Result<
        (),
        GameError,
    >)
        requires
            old(self).wf(),
            player_id < old(self).players@.len(),
        ensures
            final(self).wf(),
            old(self).players@[player_id as int].development_cards.count(card) == 0 ==> r == Err::<
                (),
                GameError,
            >(GameError::NotEnoughResources) && *final(self) == *old(self),
            old(self).players@[player_id as int].development_cards.count(card) > 0 ==> {
                let cards = old(self).players@[player_id as int].development_cards;
                &&& r is Ok
                &&& final(self).players@ == old(self).players@.update(
                    player_id as int,
                    Player {
                        development_cards: cards.with_count(card, (cards.count(card) - 1) as usize),
                        ..old(self).players@[player_id as int]
                    },
                )
                &&& final(self).board == old(self).board
                &&& final(self).state_machine == old(self).state_machine
                &&& final(self).current_player_index == old(self).current_player_index
                &&& final(self).active_trade_offer == old(self).active_trade_offer
            },
    {
        let mut p = self.players[player_id];
        let card_count = p.development_cards.get(card);
        if card_count == 0 {
            return Err(GameError::NotEnoughResources);
        }
        p.development_cards = p.development_cards.set_count(card, card_count - 1);
        proof {
            lemma_total_held_update(self.players@, player_id as int, p);
        }
        self.players.set(player_id, p);
        Ok(())
    }

    /// A knight moves the robber.
    pub fn process_knight(&mut self) -> (r: Result<(), GameError>)
        requires
            old(self).wf(),
        ensures
            final(self).wf(),
            old(self).state_machine.transition_outcome(final(self).state_machine, StateId::RobberRelocate, r is Ok),
            r is Err ==> r == Err::<(), GameError>(GameError::ActionFailed),
            final(self).board == old(self).board,
            old(self).same_except_map_and_machine(*final(self)),
    {
        self.transition(StateId::RobberRelocate)
    }

    /// A street construction grants free roads.
    pub fn process_street_construction(&mut self) -> (r: Result<(), GameError>)
        requires
            old(self).wf(),
        ensures
            final(self).wf(),
            old(self).state_machine.transition_outcome(final(self).state_machine, StateId::BuildNFreeRoads, r is Ok),
            r is Err ==> r == Err::<(), GameError>(GameError::ActionFailed),
            final(self).board == old(self).board,
            old(self).same_except_map_and_machine(*final(self)),
    {
        self.transition(StateId::BuildNFreeRoads)
    }

    /// A monopoly takes every unit of `resource` from the other players and gives them
    /// all to `player_id`.
    pub fn process_monopoly(&mut self, player_id: PlayerId, resource: ResourceKind)
        requires
            old(self).wf(),
            player_id < old(self).players@.len(),
        ensures
            final(self).wf(),
            old(self).ledgers_changed(*final(self), Set::new(|j: int| 0 <= j < old(self).players@.len())),
            forall|j: int|
                0 <= j < old(self).players@.len() && j != player_id ==> #[trigger] final(self).held(j)
                    == old(self).held(j).with_count(resource, 0),
            final(self).held(player_id as int) == old(self).held(player_id as int).with_count(
                resource,
                (old(self).held(player_id as int).count(resource) + others_count(
                    old(self).players@,
                    player_id,
                    resource,
                )) as usize,
            ),
            total_held(final(self).players@) == total_held(old(self).players@),
            final(self).board == old(self).board,
            final(self).state_machine == old(self).state_machine,
            final(self).current_player_index == old(self).current_player_index,
            final(self).active_trade_offer == old(self).active_trade_offer,
    {
        let ghost start = self.players@;
        let mut resource_count: usize = 0;
        let mut i: usize = 0;
        while i < self.players.len()
            invariant
                i <= self.players@.len(),
                self.players@.len() == start.len(),
                player_id < start.len(),
                self.board == old(self).board,
                self.state_machine == old(self).state_machine,
                self.current_player_index == old(self).current_player_index,
                self.active_trade_offer == old(self).active_trade_offer,
                self.settings == old(self).settings,
                start == old(self).players@,
                old(self).wf(),
                resource_count == others_count(start.subrange(0, i as int), player_id, resource),
                total_held(self.players@) + resource_count == total_held(start),
                forall|j: int|
                    0 <= j < start.len() ==> (#[trigger] self.players@[j]).id == j
                        && self.players@[j].resources.wf() && self.players@[j].development_cards
                        == start[j].development_cards,
                forall|j: int|
                    0 <= j < i && j != player_id ==> #[trigger] self.players@[j].resources@
                        == start[j].resources@.with_count(resource, 0),
                forall|j: int|
                    i <= j < start.len() || j == player_id ==> #[trigger] self.players@[j]
                        == start[j],
            decreases self.players.len() - i,
        {
            proof {
                assert(start.subrange(0, i + 1).drop_last() =~= start.subrange(0, i as int));
                assert(start[i as int].id == i);
            }
            if i != player_id {
                let mut p = self.players[i];
                let player_resource_count = p.resources.get_resource(resource);
                p.resources.remove_resource(resource, player_resource_count);
                proof {
                    lemma_total_held_update(self.players@, i as int, p);
                    lemma_total_held_bounds(start, i as int);
                }
                self.players.set(i, p);
                resource_count = resource_count + player_resource_count;
            }
            i = i + 1;
        }
        proof {
            assert(start.subrange(0, start.len() as int) =~= start);
            lemma_total_held_bounds(self.players@, player_id as int);
        }
        let mut p = self.players[player_id];
        p.resources.add_resource(resource, resource_count);
        proof {
            lemma_total_held_update(self.players@, player_id as int, p);
        }
        self.players.set(player_id, p);
    }

    /// An invention gives `player_id` one unit each of `resource_a` and `resource_b`.
    pub fn process_invention(
        &mut self,
        player_id: PlayerId,
        resource_a: ResourceKind,
        resource_b: ResourceKind,
    )
        requires
            old(self).wf(),
            player_id < old(self).players@.len(),
            total_held(old(self).players@) + 2 <= usize::MAX,
        ensures
            final(self).wf(),
            old(self).ledgers_changed(*final(self), set![player_id as int]),
            final(self).held(player_id as int) == ({
                let h = old(self).held(player_id as int);
                let h1 = h.with_count(resource_a, (h.count(resource_a) + 1) as usize);
                h1.with_count(resource_b, (h1.count(resource_b) + 1) as usize)
            }),
            total_held(final(self).players@) == total_held(old(self).players@) + 2,
            final(self).board == old(self).board,
            final(self).state_machine == old(self).state_machine,
            final(self).current_player_index == old(self).current_player_index,
            final(self).active_trade_offer == old(self).active_trade_offer,
    {
        let mut p = self.players[player_id];
        proof {
            lemma_total_held_bounds(self.players@, player_id as int);
        }
        p.resources.add_resource(resource_a, 1);
        p.resources.add_resource(resource_b, 1);
        proof {
            lemma_total_held_update(self.players@, player_id as int, p);
        }
        self.players.set(player_id, p);
    }

    /// The outcome of `process_action`: how `next` and `r` follow from `self`.
    pub open spec fn card_outcome(
        self,
        next: Game,
        player_id: PlayerId,
        data: ActionData,
        r: Result<(), GameError>,
    ) -> bool {
        &&& next.board == self.board
        &&& next.current_player_index == self.current_player_index
        &&& !(data is DrawDevelopmentCard) ==> r == Err::<(), GameError>(GameError::ActionDataInvalid)
            && next == self
        &&& data matches ActionData::DrawDevelopmentCard(d) ==> {
            let held = self.players@[player_id as int].development_cards.count(d.card);
            &&& d.card == DevelopmentCard::VictoryPoint ==> r == Err::<(), GameError>(
                GameError::ActionNotAllowed,
            ) && next == self
            &&& d.card != DevelopmentCard::VictoryPoint && held == 0 ==> r == Err::<
                (),
                GameError,
            >(GameError::NotEnoughResources) && next == self
            &&& d.card == DevelopmentCard::Monopoly && held > 0 && d.monopoly is None ==> r
                == Err::<(), GameError>(GameError::ActionDataInvalid) && next == self
            &&& d.card == DevelopmentCard::Invention && held > 0 && d.invention is None ==> r
                == Err::<(), GameError>(GameError::ActionDataInvalid) && next == self
            &&& d.card == DevelopmentCard::Invention && held > 0 && d.invention is Some
                && total_held(self.players@) + 2 > usize::MAX ==> r == Err::<
                (),
                GameError,
            >(GameError::ActionFailed) && next == self
            &&& d.card == DevelopmentCard::Knight && held > 0 ==> {
                &&& self.card_spent(next, player_id, d.card)
                &&& forall|j: int| 0 <= j < self.players@.len() ==> #[trigger] next.held(j) == self.held(j)
                &&& self.state_machine.transition_outcome(
                    next.state_machine,
                    StateId::RobberRelocate,
                    r is Ok,
                )
                &&& r is Err ==> r == Err::<(), GameError>(GameError::ActionFailed)
            }
            &&& d.card == DevelopmentCard::StreetConstruction && held > 0 ==> {
                &&& self.card_spent(next, player_id, d.card)
                &&& forall|j: int| 0 <= j < self.players@.len() ==> #[trigger] next.held(j) == self.held(j)
                &&& self.state_machine.transition_outcome(
                    next.state_machine,
                    StateId::BuildNFreeRoads,
                    r is Ok,
                )
                &&& r is Err ==> r == Err::<(), GameError>(GameError::ActionFailed)
            }
            &&& d.card == DevelopmentCard::Monopoly && held > 0 && d.monopoly is Some ==> {
                let m = d.monopoly->Some_0;
                &&& r is Ok
                &&& self.card_spent(next, player_id, d.card)
                &&& next.state_machine == self.state_machine
                &&& forall|j: int|
                    0 <= j < self.players@.len() && j != player_id ==> #[trigger] next.held(j)
                        == self.held(j).with_count(m.resource, 0)
                &&& next.held(player_id as int) == self.held(player_id as int).with_count(
                    m.resource,
                    (self.held(player_id as int).count(m.resource) + others_count(
                        self.players@,
                        player_id,
                        m.resource,
                    )) as usize,
                )
                &&& total_held(next.players@) == total_held(self.players@)
            }
            &&& d.card == DevelopmentCard::Invention && held > 0 && d.invention is Some
                && total_held(self.players@) + 2 <= usize::MAX ==> {
                let inv = d.invention->Some_0;
                &&& r is Ok
                &&& self.card_spent(next, player_id, d.card)
                &&& next.state_machine == self.state_machine
                &&& forall|j: int|
                    0 <= j < self.players@.len() && j != player_id ==> #[trigger] next.held(j)
                        == self.held(j)
                &&& next.held(player_id as int) == ({
                    let h = self.held(player_id as int);
                    let h1 = h.with_count(inv.resource_a, (h.count(inv.resource_a) + 1) as usize);
                    h1.with_count(inv.resource_b, (h1.count(inv.resource_b) + 1) as usize)
                })
                &&& total_held(next.players@) == total_held(self.players@) + 2
            }
        }
    }

    /// `next` is `self` with one of `player_id`'s cards of kind `card` given up; every
    /// other card holding stays.
    pub open spec fn card_spent(self, next: Game, player_id: PlayerId, card: DevelopmentCard) -> bool {
        let cards = self.players@[player_id as int].development_cards;
        &&& next.players@.len() == self.players@.len()
        &&& next.players@[player_id as int].development_cards == cards.with_count(
            card,
            (cards.count(card) - 1) as usize,
        )
        &&& forall|j: int|
            0 <= j < self.players@.len() ==> (#[trigger] next.players@[j]).id == self.players@[j].id
                && (j != player_id ==> next.players@[j].development_cards
                == self.players@[j].development_cards)
    }

    /// Plays one of `player_id`'s development cards: a knight moves the robber, a street
    /// construction grants two free roads, a monopoly takes one kind from everyone
    /// else, an invention grants two units. Victory points cannot be played.
    pub fn process_action(&mut self, player_id: PlayerId, data: ActionData) -> (r: Result<
        (),
        GameError,
    >)
        requires
            old(self).wf(),
            player_id < old(self).players@.len(),
        ensures
            final(self).wf(),
            old(self).card_outcome(*final(self), player_id, data, r),
    {
        let card_data = match data {
            ActionData::DrawDevelopmentCard(d) => d,
            _ => return Err(GameError::ActionDataInvalid),
        };
        if card_data.card == DevelopmentCard::VictoryPoint {
            return Err(GameError::ActionNotAllowed);
        }
        if self.players[player_id].development_cards.get(card_data.card) == 0 {
            return Err(GameError::NotEnoughResources);
        }
        match card_data.card {
            DevelopmentCard::Monopoly => {
                if card_data.monopoly.is_none() {
                    return Err(GameError::ActionDataInvalid);
                }
            },
            DevelopmentCard::Invention => {
                if card_data.invention.is_none() {
                    return Err(GameError::ActionDataInvalid);
                }
                let held_now = self.total_resources();
                if held_now > usize::MAX - 2 {
                    return Err(GameError::ActionFailed);
                }
            },
            _ => {},
        }
        let ghost start = *self;
        let r = match card_data.card {
            DevelopmentCard::Knight => self.process_knight(),
            DevelopmentCard::StreetConstruction => self.process_street_construction(),
            DevelopmentCard::Monopoly => {
                let m = card_data.monopoly.unwrap();
                self.process_monopoly(player_id, m.resource);
                Ok(())
            },
            DevelopmentCard::Invention => {
                let inv = card_data.invention.unwrap();
                self.process_invention(player_id, inv.resource_a, inv.resource_b);
                Ok(())
            },
            DevelopmentCard::VictoryPoint => Err(GameError::ActionNotAllowed),
        };
        let ghost mid = *self;
        assert(mid.players@[player_id as int].development_cards == start.players@[player_id as int].development_cards);
        let played = self.play_card(player_id, card_data.card);
        proof {
            lemma_total_held_update(mid.players@, player_id as int, self.players@[player_id as int]);
            assert forall|j: int| 0 <= j < self.players@.len() implies #[trigger] self.held(j) == mid.held(j) by {
                if j != player_id {
                    assert(self.players@[j] == mid.players@[j]);
                }
            }
        }
        r
    }
}

} // verus!
