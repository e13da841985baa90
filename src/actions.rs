//! The actions players send, with their payloads.
use vstd::prelude::*;
use crate::board::DevelopmentCard;
use crate::coordinates::CubeCoordinates;
use crate::locations::{RoadLocationId, SettlementLocationId, SettlementType};
use crate::player::PlayerId;
use crate::resources::{ResourceCollection, ResourceKind};

verus! {

/// Which action a player asks for; `Unknown` stands for an id no state accepts.
#[derive(Debug, Clone, Copy, PartialEq, Eq, Structural)]
pub enum ActionKind {
    BuildSettlement,
    BuildRoad,
    RollDice,
    EndTurn,
    OfferTrade,
    OfferBankTrade,
    AcceptTrade,
    RejectTrade,
    CompleteTrade,
    CancelTrade,
    PlaceRobber,
    RemoveCards,
    DrawDevelopmentCard,
    Unknown,
}

/// The id under which an action kind travels (`Unknown` has none).
pub open spec fn action_id(kind: ActionKind) -> Seq<char> {
    match kind {
        ActionKind::BuildSettlement => "BuildSettlement"@,
        ActionKind::BuildRoad => "BuildRoad"@,
        ActionKind::RollDice => "RollDice"@,
        ActionKind::EndTurn => "EndTurn"@,
        ActionKind::OfferTrade => "OfferTrade"@,
        ActionKind::OfferBankTrade => "OfferBankTrade"@,
        ActionKind::AcceptTrade => "AcceptTrade"@,
        ActionKind::RejectTrade => "RejectTrade"@,
        ActionKind::CompleteTrade => "CompleteTrade"@,
        ActionKind::CancelTrade => "CancelTrade"@,
        ActionKind::PlaceRobber => "PlaceRobber"@,
        ActionKind::RemoveCards => "RemoveCards"@,
        ActionKind::DrawDevelopmentCard => "DrawDevelopmentCard"@,
        ActionKind::Unknown => Seq::empty(),
    }
}

fn is_id(id: &String, literal: &str) -> (b: bool)
    ensures
        b == (id@ == literal@),
{
    *id == literal.to_owned()
}

impl ActionKind {
    /// The kind an action id names; `Unknown` for any other text.
    pub fn from_id(id: &str) -> (k: ActionKind)
        ensures
            k != ActionKind::Unknown ==> action_id(k) == id@,
            k == ActionKind::Unknown ==> forall|known: ActionKind|
                known != ActionKind::Unknown ==> action_id(known) != id@,
    {
        let s = id.to_owned();
        if is_id(&s, "BuildSettlement") {
            ActionKind::BuildSettlement
        } else if is_id(&s, "BuildRoad") {
            ActionKind::BuildRoad
        } else if is_id(&s, "RollDice") {
            ActionKind::RollDice
        } else if is_id(&s, "EndTurn") {
            ActionKind::EndTurn
        } else if is_id(&s, "OfferTrade") {
            ActionKind::OfferTrade
        } else if is_id(&s, "OfferBankTrade") {
            ActionKind::OfferBankTrade
        } else if is_id(&s, "AcceptTrade") {
            ActionKind::AcceptTrade
        } else if is_id(&s, "RejectTrade") {
            ActionKind::RejectTrade
        } else if is_id(&s, "CompleteTrade") {
            ActionKind::CompleteTrade
        } else if is_id(&s, "CancelTrade") {
            ActionKind::CancelTrade
        } else if is_id(&s, "PlaceRobber") {
            ActionKind::PlaceRobber
        } else if is_id(&s, "RemoveCards") {
            ActionKind::RemoveCards
        } else if is_id(&s, "DrawDevelopmentCard") {
            ActionKind::DrawDevelopmentCard
        } else {
            ActionKind::Unknown
        }
    }
}

#[derive(Debug, Clone, Copy, PartialEq, Eq, Structural)]
pub struct PlaceSettlementData {
    pub settlement_type: SettlementType,
    pub settlement_id: SettlementLocationId,
}

#[derive(Debug, Clone, Copy, PartialEq, Eq, Structural)]
pub struct PlaceRoadData {
    pub road_id: RoadLocationId,
}

#[derive(Debug, Clone, Copy, PartialEq, Eq, Structural)]
pub struct PlaceRobberData {
    pub tile_location: CubeCoordinates,
    pub robbed_player_id: PlayerId,
}

#[derive(Debug, Clone, Copy, PartialEq, Eq, Structural)]
pub struct MonopolyData {
    pub resource: ResourceKind,
}

#[derive(Debug, Clone, Copy, PartialEq, Eq, Structural)]
pub struct InventionData {
    pub resource_a: ResourceKind,
    pub resource_b: ResourceKind,
}

/// The card to play, with the choices that a monopoly or an invention needs.
#[derive(Debug, Clone, Copy, PartialEq, Eq, Structural)]
pub struct DrawDevelopmentCardData {
    pub card: DevelopmentCard,
    pub monopoly: Option<MonopolyData>,
    pub invention: Option<InventionData>,
}

#[derive(Debug, Clone, Copy, PartialEq, Eq, Structural)]
pub struct TradeOfferData {
    pub resource_offer: ResourceCollection,
    pub resource_receive: ResourceCollection,
}

#[derive(Debug, Clone, Copy, PartialEq, Eq, Structural)]
pub struct CompletePlayerTradeData {
    pub accepted_player_id: PlayerId,
}

/// An action's payload. `Invalid` stands for a payload that did not have the expected
/// shape; `Empty` for an action that carries none.
#[derive(Debug, Clone, Copy, PartialEq, Eq, Structural)]
pub enum ActionData {
    Empty,
    Invalid,
    PlaceSettlement(PlaceSettlementData),
    PlaceRoad(PlaceRoadData),
    PlaceRobber(PlaceRobberData),
    Resources(ResourceCollection),
    DrawDevelopmentCard(DrawDevelopmentCardData),
    TradeOffer(TradeOfferData),
    CompletePlayerTrade(CompletePlayerTradeData),
}

/// An action as received from a player.
#[derive(Debug, Clone, Copy, PartialEq, Eq, Structural)]
pub struct GameAction {
    pub id: ActionKind,
    pub data: ActionData,
}

impl GameAction {
    pub fn new(id: ActionKind, data: ActionData) -> (a: Self)
        ensures
            a.id == id,
            a.data == data,
    {
        GameAction { id, data }
    }
}

} // verus!
