//! Players and the development cards they hold.
use vstd::prelude::*;
use crate::board::DevelopmentCard;
use crate::resources::PlayerResources;

verus! {

/// A player's index in the game's player list.
pub type PlayerId = usize;

/// How many cards of each kind a player holds.
#[derive(Debug, Clone, Copy, PartialEq, Eq, Default, Structural)]
pub struct DevelopmentCards {
    pub knight: usize,
    pub invention: usize,
    pub street_construction: usize,
    pub monopoly: usize,
    pub victory_point: usize,
}

impl DevelopmentCards {
    pub open spec fn count(self, card: DevelopmentCard) -> nat {
        match card {
            DevelopmentCard::Knight => self.knight as nat,
            DevelopmentCard::Invention => self.invention as nat,
            DevelopmentCard::StreetConstruction => self.street_construction as nat,
            DevelopmentCard::Monopoly => self.monopoly as nat,
            DevelopmentCard::VictoryPoint => self.victory_point as nat,
        }
    }

    /// `self` with the count of `card` replaced by `value`.
    pub open spec fn with_count(self, card: DevelopmentCard, value: usize) -> DevelopmentCards {
        match card {
            DevelopmentCard::Knight => DevelopmentCards { knight: value, ..self },
            DevelopmentCard::Invention => DevelopmentCards { invention: value, ..self },
            DevelopmentCard::StreetConstruction => DevelopmentCards {
                street_construction: value,
                ..self
            },
            DevelopmentCard::Monopoly => DevelopmentCards { monopoly: value, ..self },
            DevelopmentCard::VictoryPoint => DevelopmentCards { victory_point: value, ..self },
        }
    }

    pub fn new() -> (c: Self)
        ensures
            forall|card: DevelopmentCard| c.count(card) == 0,
    {
        DevelopmentCards {
            knight: 0,
            invention: 0,
            street_construction: 0,
            monopoly: 0,
            victory_point: 0,
        }
    }

    pub fn get(&self, card: DevelopmentCard) -> (n: usize)
        ensures
            n == self.count(card),
    {
        match card {
            DevelopmentCard::Knight => self.knight,
            DevelopmentCard::Invention => self.invention,
            DevelopmentCard::StreetConstruction => self.street_construction,
            DevelopmentCard::Monopoly => self.monopoly,
            DevelopmentCard::VictoryPoint => self.victory_point,
        }
    }

    /// A copy of `self` with the count of `card` set to `value`.
    pub fn set_count(self, card: DevelopmentCard, value: usize) -> (c: Self)
        ensures
            c == self.with_count(card, value),
    {
        match card {
            DevelopmentCard::Knight => DevelopmentCards { knight: value, ..self },
            DevelopmentCard::Invention => DevelopmentCards { invention: value, ..self },
            DevelopmentCard::StreetConstruction => DevelopmentCards {
                street_construction: value,
                ..self
            },
            DevelopmentCard::Monopoly => DevelopmentCards { monopoly: value, ..self },
            DevelopmentCard::VictoryPoint => DevelopmentCards { victory_point: value, ..self },
        }
    }
}

/// A participant: its id, its resource ledger and its development cards.
#[derive(Debug, Clone, Copy, PartialEq, Eq, Structural)]
pub struct Player {
    pub id: PlayerId,
    pub resources: PlayerResources,
    pub development_cards: DevelopmentCards,
}

impl Player {
    /// A player with an empty ledger and no cards.
    pub fn new(id: PlayerId) -> (p: Self)
        ensures
            p.id == id,
            p.resources.wf(),
            p.resources@.total() == 0,
            forall|card: DevelopmentCard| p.development_cards.count(card) == 0,
    {
        Player { id, resources: PlayerResources::new(), development_cards: DevelopmentCards::new() }
    }

    pub fn get_id(&self) -> (i: PlayerId)
        ensures
            i == self.id,
    {
        self.id
    }

    pub fn get_resources(&self) -> (r: &PlayerResources)
        ensures
            *r == self.resources,
    {
        &self.resources
    }

    pub fn get_development_cards(&self) -> (c: &DevelopmentCards)
        ensures
            *c == self.development_cards,
    {
        &self.development_cards
    }
}

} // verus!
