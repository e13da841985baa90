//! The game aggregate: board, players, turn, open offer and state machine.
use vstd::prelude::*;
use crate::board::GameBoard;
use crate::locations::SettlementLocationId;
use crate::player::{Player, PlayerId};
use crate::state_machine::{StateId, StateMachine};
use crate::trade::TradeOffer;

verus! {

/// Why an action was refused.
#[derive(Debug, Clone, Copy, PartialEq, Eq, Structural)]
pub enum GameError {
    /// An internal invariant or lookup failed while processing an otherwise valid action.
    ActionFailed,
    /// The payload does not have the shape the action needs.
    ActionDataInvalid,
    /// The action is not valid in the current state.
    ActionNotAllowed,
    /// The acting player does not hold the turn.
    NotPlayerTurn,
    /// The target corner, road or tile is occupied, disconnected or unknown.
    InvalidLocation,
    /// A ledger holds too little for a cost or a trade.
    NotEnoughResources,
}

/// The settings a game starts with.
#[derive(Debug, Clone, Copy, PartialEq, Eq, Structural)]
pub struct GameSettings {
    pub players: u8,
}

/// A running game: the board, the players in turn order, whose turn it is, the open
/// trade offer and the state machine.
pub struct Game {
    pub board: GameBoard,
    pub settings: GameSettings,
    pub state_machine: StateMachine,
    pub current_player_index: usize,
    pub players: Vec<Player>,
    pub active_trade_offer: Option<TradeOffer>,
    /// The corner of the latest opening village, which the opening road must touch.
    pub last_placed_settlement: Option<SettlementLocationId>,
}

/// Every building of `m` belongs to one of the first `count` players.
pub open spec fn owners_known(m: crate::settlement_map::SettlementMap, count: nat) -> bool {
    forall|c: int|
        0 <= c < m.corners().len() && (#[trigger] m.corners()[c]).settlement is Some
            ==> m.corners()[c].settlement->Some_0.player_id < count
}

/// The number of resource units held by `players` together.
pub open spec fn total_held(players: Seq<Player>) -> nat
    decreases players.len(),
{
    if players.len() == 0 {
        0
    } else {
        total_held(players.drop_last()) + players.last().resources@.total()
    }
}

/// Replacing one player changes the total by the difference of the two ledgers.
pub proof fn lemma_total_held_update(players: Seq<Player>, i: int, p: Player)
    requires
        0 <= i < players.len(),
    ensures
        total_held(players.update(i, p)) + players[i].resources@.total() == total_held(players)
            + p.resources@.total(),
    decreases players.len(),
{
    let u = players.update(i, p);
    if i == players.len() - 1 {
        assert(u.drop_last() =~= players.drop_last());
    } else {
        assert(u.drop_last() =~= players.drop_last().update(i, p));
        lemma_total_held_update(players.drop_last(), i, p);
    }
}

/// A single ledger is part of the total.
pub proof fn lemma_total_held_bounds(players: Seq<Player>, i: int)
    requires
        0 <= i < players.len(),
    ensures
        players[i].resources@.total() <= total_held(players),
    decreases players.len(),
{
    if i < players.len() - 1 {
        lemma_total_held_bounds(players.drop_last(), i);
    }
}

proof fn lemma_total_held_zero_prefix_base()
    ensures
        total_held(Seq::<Player>::empty()) == 0,
{
}

/// Two distinct ledgers together are part of the total.
pub proof fn lemma_total_held_pair(players: Seq<Player>, i: int, j: int)
    requires
        0 <= i < players.len(),
        0 <= j < players.len(),
        i != j,
    ensures
        players[i].resources@.total() + players[j].resources@.total() <= total_held(players),
    decreases players.len(),
{
    let n = players.len() - 1;
    if i == n {
        lemma_total_held_bounds(players.drop_last(), j);
    } else if j == n {
        lemma_total_held_bounds(players.drop_last(), i);
    } else {
        lemma_total_held_pair(players.drop_last(), i, j);
    }
}

impl Game {
    pub open spec fn wf(self) -> bool {
        &&& self.board.wf()
        &&& self.state_machine.wf()
        &&& self.players@.len() > 0
        &&& self.current_player_index < self.players@.len()
        &&& forall|i: int|
            0 <= i < self.players@.len() ==> (#[trigger] self.players@[i]).id == i
                && self.players@[i].resources.wf()
        &&& self.active_trade_offer matches Some(o) ==> o.wf() && o.creator
            < self.players@.len()
        &&& total_held(self.players@) <= usize::MAX
        &&& owners_known(self.board.settlement_map, self.players@.len())
    }

    /// `next` differs from `self` at most in the corners and roads and in the state machine.
    pub open spec fn same_except_map_and_machine(self, next: Game) -> bool {
        &&& next.players == self.players
        &&& next.current_player_index == self.current_player_index
        &&& next.active_trade_offer == self.active_trade_offer
        &&& next.settings == self.settings
        &&& next.board.tile_map == self.board.tile_map
        &&& next.board.dice_chips == self.board.dice_chips
        &&& next.board.robber == self.board.robber
        &&& next.board.board_resources == self.board.board_resources
        &&& next.board.development_cards == self.board.development_cards
    }

    /// Enters state `state_id`; a missing state faults the machine and fails the action.
    pub fn transition(&mut self, state_id: StateId) -> (r: Result<(), GameError>)
        requires
            old(self).wf(),
        ensures
            final(self).wf(),
            old(self).state_machine.transition_outcome(final(self).state_machine, state_id, r is Ok),
            r is Err ==> r == Err::<(), GameError>(GameError::ActionFailed),
            final(self).board == old(self).board,
            old(self).same_except_map_and_machine(*final(self)),
            final(self).last_placed_settlement == old(self).last_placed_settlement,
    {
        match self.state_machine.transition_to(state_id) {
            Ok(()) => Ok(()),
            Err(_) => Err(GameError::ActionFailed),
        }
    }

    pub open spec fn current_state(self) -> StateId {
        self.state_machine.current_state_id
    }

    /// The resources held by player `i`.
    pub open spec fn held(self, i: int) -> crate::resources::ResourceCollection {
        self.players@[i].resources@
    }

    /// `next` differs from `self` at most in the ledgers of the players in `changed`.
    pub open spec fn ledgers_changed(self, next: Game, changed: Set<int>) -> bool {
        &&& next.players@.len() == self.players@.len()
        &&& forall|j: int|
            0 <= j < self.players@.len() && !changed.contains(j) ==> #[trigger] next.players@[j]
                == self.players@[j]
        &&& forall|j: int|
            0 <= j < self.players@.len() ==> (#[trigger] next.players@[j]).id
                == self.players@[j].id && next.players@[j].development_cards
                == self.players@[j].development_cards
    }

    /// A game of `settings.players` players with empty ledgers; player 0 starts.
    pub fn from(board: GameBoard, settings: GameSettings, state_machine: StateMachine) -> (g: Self)
        requires
            settings.players > 0,
            board.wf(),
            owners_known(board.settlement_map, settings.players as nat),
            state_machine.wf(),
        ensures
            g.wf(),
            g.board == board,
            g.settings == settings,
            g.state_machine == state_machine,
            g.current_player_index == 0,
            g.players@.len() == settings.players,
            forall|i: int| 0 <= i < g.players@.len() ==> (#[trigger] g.held(i)).total() == 0,
            g.active_trade_offer is None,
            g.last_placed_settlement is None,
    {
        proof {
            lemma_total_held_zero_prefix_base();
        }
        let mut players: Vec<Player> = Vec::new();
        let mut i: usize = 0;
        while i < settings.players as usize
            invariant
                i <= settings.players,
                players@.len() == i,
                forall|k: int|
                    0 <= k < i ==> (#[trigger] players@[k]).id == k && players@[k].resources.wf()
                        && players@[k].resources@.total() == 0,
                total_held(players@) == 0,
            decreases settings.players - i,
        {
            let ghost before = players@;
            players.push(Player::new(i));
            proof {
                assert(players@.drop_last() =~= before);
            }
            i = i + 1;
        }
        Game {
            board,
            settings,
            state_machine,
            current_player_index: 0,
            players,
            active_trade_offer: None,
            last_placed_settlement: None,
        }
    }

    pub fn get_board(&self) -> (b: &GameBoard)
        ensures
            *b == self.board,
    {
        &self.board
    }

    pub fn get_current_player_index(&self) -> (i: usize)
        ensures
            i == self.current_player_index,
    {
        self.current_player_index
    }

    pub fn get_state_machine(&self) -> (m: &StateMachine)
        ensures
            *m == self.state_machine,
    {
        &self.state_machine
    }

    /// Passes the turn to the next player, cyclically.
    pub fn end_turn(&mut self)
        requires
            old(self).wf(),
        ensures
            final(self).wf(),
            final(self).current_player_index == (old(self).current_player_index + 1) % old(self).players@.len() as int,
            final(self).board == old(self).board,
            final(self).settings == old(self).settings,
            final(self).state_machine == old(self).state_machine,
            final(self).players == old(self).players,
            final(self).active_trade_offer == old(self).active_trade_offer,
    {
        let n = self.players.len();
        self.current_player_index = (self.current_player_index + 1) % n;
    }

    /// Whether `player_id` holds the turn.
    pub fn is_player_turn(&self, player_id: PlayerId) -> (b: bool)
        requires
            self.wf(),
        ensures
            b == (player_id == self.current_player_index),
    {
        self.players[self.current_player_index].id == player_id
    }

    pub fn get_player(&self, player_id: PlayerId) -> (p: &Player)
        requires
            player_id < self.players@.len(),
        ensures
            *p == self.players@[player_id as int],
    {
        &self.players[player_id]
    }

    pub fn get_players(&self) -> (p: &Vec<Player>)
        ensures
            p@ == self.players@,
    {
        &self.players
    }

    pub fn get_player_count(&self) -> (n: usize)
        ensures
            n == self.players@.len(),
    {
        self.players.len()
    }

    pub fn get_current_player(&self) -> (p: &Player)
        requires
            self.wf(),
        ensures
            *p == self.players@[self.current_player_index as int],
    {
        &self.players[self.current_player_index]
    }

    /// Opens `offer`, replacing any open one.
    pub fn create_trade_offer(&mut self, offer: TradeOffer)
        ensures
            final(self).active_trade_offer == Some(offer),
            final(self).board == old(self).board,
            final(self).settings == old(self).settings,
            final(self).state_machine == old(self).state_machine,
            final(self).players == old(self).players,
            final(self).current_player_index == old(self).current_player_index,
    {
        self.active_trade_offer = Some(offer);
    }

    pub fn get_trade_offer(&self) -> (o: &Option<TradeOffer>)
        ensures
            *o == self.active_trade_offer,
    {
        &self.active_trade_offer
    }

    /// Withdraws the open offer, if any.
    pub fn cancel_trade_offer(&mut self)
        ensures
            final(self).active_trade_offer is None,
            final(self).board == old(self).board,
            final(self).settings == old(self).settings,
            final(self).state_machine == old(self).state_machine,
            final(self).players == old(self).players,
            final(self).current_player_index == old(self).current_player_index,
    {
        self.active_trade_offer = None;
    }

    /// Closes the open offer after its exchange, if any.
    pub fn complete_trade_offer(&mut self)
        ensures
            final(self).active_trade_offer is None,
            final(self).board == old(self).board,
            final(self).settings == old(self).settings,
            final(self).state_machine == old(self).state_machine,
            final(self).players == old(self).players,
            final(self).current_player_index == old(self).current_player_index,
    {
        self.active_trade_offer = None;
    }

    /// Gives `player_id` resources from outside the players' ledgers (the bank).
    pub fn grant_resources(
        &mut self,
        player_id: PlayerId,
        resources: crate::resources::ResourceCollection,
    )
        requires
            old(self).wf(),
            player_id < old(self).players@.len(),
            total_held(old(self).players@) + resources.total() <= usize::MAX,
        ensures
            final(self).wf(),
            old(self).ledgers_changed(*final(self), set![player_id as int]),
            final(self).held(player_id as int) == old(self).held(player_id as int).plus(resources),
            final(self).board == old(self).board,
            final(self).state_machine == old(self).state_machine,
            final(self).current_player_index == old(self).current_player_index,
            final(self).active_trade_offer == old(self).active_trade_offer,
    {
        let mut p = self.players[player_id];
        proof {
            lemma_total_held_bounds(self.players@, player_id as int);
        }
        p.resources.add_resources(resources);
        proof {
            lemma_total_held_update(self.players@, player_id as int, p);
        }
        self.players.set(player_id, p);
    }

    /// Gives `player_id` one development card.
    pub fn grant_development_card(
        &mut self,
        player_id: PlayerId,
        card: crate::board::DevelopmentCard,
    )
        requires
            old(self).wf(),
            player_id < old(self).players@.len(),
            old(self).players@[player_id as int].development_cards.count(card) < usize::MAX,
        ensures
            final(self).wf(),
            final(self).players@ == old(self).players@.update(
                player_id as int,
                Player {
                    development_cards: old(self).players@[player_id as int].development_cards.with_count(
                        card,
                        (old(self).players@[player_id as int].development_cards.count(card) + 1) as usize,
                    ),
                    ..old(self).players@[player_id as int]
                },
            ),
            final(self).board == old(self).board,
            final(self).state_machine == old(self).state_machine,
            final(self).current_player_index == old(self).current_player_index,
            final(self).active_trade_offer == old(self).active_trade_offer,
    {
        let mut p = self.players[player_id];
        let n = p.development_cards.get(card);
        p.development_cards = p.development_cards.set_count(card, n + 1);
        proof {
            lemma_total_held_update(self.players@, player_id as int, p);
        }
        self.players.set(player_id, p);
    }
}

} // verus!
