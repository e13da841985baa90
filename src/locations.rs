//! The places on a board: corners and their buildings, roads, dice chips and the robber.
use vstd::prelude::*;
use crate::coordinates::CubeCoordinates;
use crate::trade_contract::SeaportLocation;

verus! {

/// A corner's id: the componentwise minimum and maximum of the tiles that meet there,
/// so that every tile sharing the corner derives the same id.
#[derive(Debug, Clone, Copy, PartialEq, Eq, Hash, Structural)]
pub struct SettlementLocationId {
    pub min: CubeCoordinates,
    pub max: CubeCoordinates,
}

/// A road's id: its two end corners, in the order the road was created with.
#[derive(Debug, Clone, Copy, PartialEq, Eq, Hash, Structural)]
pub struct RoadLocationId {
    pub a: SettlementLocationId,
    pub b: SettlementLocationId,
}

/// A dice chip: the number it shows and the tile it lies on.
#[derive(Debug, Clone, Copy, PartialEq, Eq, Structural)]
pub struct DiceChipLocation {
    pub dice_value: u8,
    pub assigned_tile: CubeCoordinates,
}

impl DiceChipLocation {
    pub fn from(dice_value: u8, assigned_tile: CubeCoordinates) -> (d: Self)
        ensures
            d.dice_value == dice_value,
            d.assigned_tile == assigned_tile,
    {
        DiceChipLocation { dice_value, assigned_tile }
    }

    pub fn get_dice_value(&self) -> (v: u8)
        ensures
            v == self.dice_value,
    {
        self.dice_value
    }

    pub fn get_assigned_tile(&self) -> (t: &CubeCoordinates)
        ensures
            *t == self.assigned_tile,
    {
        &self.assigned_tile
    }
}

/// The tile the robber stands on.
#[derive(Debug, Clone, Copy, PartialEq, Eq, Structural)]
pub struct RobberLocation {
    pub assigned_tile: CubeCoordinates,
}

impl RobberLocation {
    pub fn from(assigned_tile: CubeCoordinates) -> (r: Self)
        ensures
            r.assigned_tile == assigned_tile,
    {
        RobberLocation { assigned_tile }
    }

    pub fn get_assigned_tile(&self) -> (t: &CubeCoordinates)
        ensures
            *t == self.assigned_tile,
    {
        &self.assigned_tile
    }
}

/// A claimed road: its owner.
#[derive(Debug, Clone, Copy, PartialEq, Eq, Structural)]
pub struct PlayerRoad {
    pub player_id: usize,
}

impl PlayerRoad {
    pub fn from(player_id: usize) -> (r: Self)
        ensures
            r.player_id == player_id,
    {
        PlayerRoad { player_id }
    }

    pub fn get_player_id(&self) -> (p: usize)
        ensures
            p == self.player_id,
    {
        self.player_id
    }
}

/// A road between two corners, claimed by at most one player.
#[derive(Debug, Clone, Copy, PartialEq, Eq, Structural)]
pub struct RoadLocation {
    pub id: RoadLocationId,
    pub player_road: Option<PlayerRoad>,
    pub settlement_a_id: SettlementLocationId,
    pub settlement_b_id: SettlementLocationId,
}

impl RoadLocation {
    /// The spec-level id of a road between `a` and `b`.
    pub open spec fn id_of(a: SettlementLocationId, b: SettlementLocationId) -> RoadLocationId {
        RoadLocationId { a, b }
    }

    /// The road touches corner `c`.
    pub open spec fn touches(self, c: SettlementLocationId) -> bool {
        self.settlement_a_id == c || self.settlement_b_id == c
    }

    /// The road is claimed by `player_id`.
    pub open spec fn owned_by(self, player_id: usize) -> bool {
        self.player_road == Some(PlayerRoad { player_id })
    }

    pub fn from(settlement_a_id: SettlementLocationId, settlement_b_id: SettlementLocationId) -> (r:
        Self)
        ensures
            r.id == RoadLocation::id_of(settlement_a_id, settlement_b_id),
            r.player_road is None,
            r.settlement_a_id == settlement_a_id,
            r.settlement_b_id == settlement_b_id,
    {
        RoadLocation {
            id: RoadLocationId { a: settlement_a_id, b: settlement_b_id },
            player_road: None,
            settlement_a_id,
            settlement_b_id,
        }
    }

    pub fn has_road(&self) -> (b: bool)
        ensures
            b == self.player_road is Some,
    {
        self.player_road.is_some()
    }

    /// Claims the road; refuses, changing nothing, where it is claimed already.
    pub fn build_road(&mut self, road: PlayerRoad) -> (r: Result<(), String>)
        ensures
            r is Ok <==> old(self).player_road is None,
            r is Ok ==> *final(self) == (RoadLocation { player_road: Some(road), ..*old(self) }),
            r is Err ==> *final(self) == *old(self),
    {
        if self.has_road() {
            return Err("road is already built".to_string());
        }
        self.player_road = Some(road);
        Ok(())
    }

    pub fn get_id(&self) -> (i: &RoadLocationId)
        ensures
            *i == self.id,
    {
        &self.id
    }

    pub fn get_settlement_a_id(&self) -> (i: &SettlementLocationId)
        ensures
            *i == self.settlement_a_id,
    {
        &self.settlement_a_id
    }

    pub fn get_settlement_b_id(&self) -> (i: &SettlementLocationId)
        ensures
            *i == self.settlement_b_id,
    {
        &self.settlement_b_id
    }

    pub fn get_player_road(&self) -> (p: &Option<PlayerRoad>)
        ensures
            *p == self.player_road,
    {
        &self.player_road
    }
}

/// The two building tiers.
#[derive(Debug, Clone, Copy, PartialEq, Eq, Hash, Structural)]
pub enum SettlementType {
    Village,
    City,
}

/// A building on a corner: its owner and tier.
#[derive(Debug, Clone, Copy, PartialEq, Eq, Structural)]
pub struct PlayerSettlement {
    pub player_id: usize,
    pub settlement_type: SettlementType,
}

impl PlayerSettlement {
    /// A new village of `player_id`.
    pub fn from(player_id: usize) -> (s: Self)
        ensures
            s.player_id == player_id,
            s.settlement_type == SettlementType::Village,
    {
        PlayerSettlement { player_id, settlement_type: SettlementType::Village }
    }

    pub fn get_player_id(&self) -> (p: usize)
        ensures
            p == self.player_id,
    {
        self.player_id
    }

    pub fn get_settlement_type(&self) -> (t: SettlementType)
        ensures
            t == self.settlement_type,
    {
        self.settlement_type
    }

    /// Upgrades a village to a city; refuses, changing nothing, on a city.
    pub fn build_city(&mut self) -> (r: Result<(), String>)
        ensures
            r is Ok <==> old(self).settlement_type == SettlementType::Village,
            r is Ok ==> *final(self) == (PlayerSettlement {
                settlement_type: SettlementType::City,
                ..*old(self)
            }),
            r is Err ==> *final(self) == *old(self),
    {
        match self.settlement_type {
            SettlementType::Village => {
                self.settlement_type = SettlementType::City;
                Ok(())
            },
            SettlementType::City => Err("settlement is a city already".to_string()),
        }
    }
}

/// The spec-level id of the corner where the tiles `tiles` meet.
pub open spec fn corner_id_of(tiles: Seq<CubeCoordinates>, min: CubeCoordinates, max: CubeCoordinates) -> bool {
    &&& forall|i: int|
        0 <= i < tiles.len() ==> min.q <= #[trigger] tiles[i].q && min.r <= tiles[i].r && min.s
            <= tiles[i].s
    &&& forall|i: int|
        0 <= i < tiles.len() ==> max.q >= #[trigger] tiles[i].q && max.r >= tiles[i].r && max.s
            >= tiles[i].s
    &&& exists|i: int| 0 <= i < tiles.len() && min.q == #[trigger] tiles[i].q
    &&& exists|i: int| 0 <= i < tiles.len() && min.r == #[trigger] tiles[i].r
    &&& exists|i: int| 0 <= i < tiles.len() && min.s == #[trigger] tiles[i].s
    &&& exists|i: int| 0 <= i < tiles.len() && max.q == #[trigger] tiles[i].q
    &&& exists|i: int| 0 <= i < tiles.len() && max.r == #[trigger] tiles[i].r
    &&& exists|i: int| 0 <= i < tiles.len() && max.s == #[trigger] tiles[i].s
}

/// A corner where up to three tiles meet, holding at most one building.
#[derive(Debug, Clone)]
pub struct SettlementLocation {
    pub id: SettlementLocationId,
    pub neighbor_tiles: Vec<CubeCoordinates>,
    pub settlement: Option<PlayerSettlement>,
    pub seaport: Option<SeaportLocation>,
}

impl SettlementLocation {
    /// The corner is held by `player_id`.
    pub open spec fn owned_by(self, player_id: usize) -> bool {
        self.settlement matches Some(s) && s.player_id == player_id
    }

    pub fn from(neighbor_tiles: Vec<CubeCoordinates>, seaport: Option<SeaportLocation>) -> (s:
        Self)
        requires
            neighbor_tiles.len() > 0,
        ensures
            corner_id_of(neighbor_tiles@, s.id.min, s.id.max),
            s.neighbor_tiles@ == neighbor_tiles@,
            s.settlement is None,
            s.seaport == seaport,
    {
        let id = SettlementLocation::id_from_tiles(&neighbor_tiles);
        SettlementLocation { id, neighbor_tiles, settlement: None, seaport }
    }

    fn id_from_tiles(tiles: &Vec<CubeCoordinates>) -> (id: SettlementLocationId)
        requires
            tiles.len() > 0,
        ensures
            corner_id_of(tiles@, id.min, id.max),
    {
        let min = CubeCoordinates::min(tiles);
        let max = CubeCoordinates::max(tiles);
        SettlementLocationId { min, max }
    }

    pub fn get_id(&self) -> (i: &SettlementLocationId)
        ensures
            *i == self.id,
    {
        &self.id
    }

    pub fn get_settlement(&self) -> (s: &Option<PlayerSettlement>)
        ensures
            *s == self.settlement,
    {
        &self.settlement
    }

    /// Clears the corner's building; the corner itself stays.
    pub fn destroy_settlement(&mut self)
        ensures
            final(self).settlement is None,
            final(self).id == old(self).id,
            final(self).neighbor_tiles@ == old(self).neighbor_tiles@,
            final(self).seaport == old(self).seaport,
    {
        self.settlement = None
    }

    /// Builds a village on a free corner, or upgrades `player_id`'s village to a city.
    /// Refuses, changing nothing, where that is not possible.
    pub fn build_settlement(&mut self, settlement_type: SettlementType, player_id: usize) -> (r:
        Result<(), String>)
        ensures
            r is Ok <==> SettlementLocation::can_build(*old(self), settlement_type, player_id),
            r is Ok ==> final(self).settlement == Some(
                PlayerSettlement { player_id, settlement_type },
            ),
            r is Err ==> final(self).settlement == old(self).settlement,
            final(self).id == old(self).id,
            final(self).neighbor_tiles@ == old(self).neighbor_tiles@,
            final(self).seaport == old(self).seaport,
    {
        match settlement_type {
            SettlementType::Village => self.build_village(player_id),
            SettlementType::City => self.build_city(player_id),
        }
    }

    /// A village needs a free corner; a city needs a village of the same player.
    pub open spec fn can_build(
        self,
        settlement_type: SettlementType,
        player_id: usize,
    ) -> bool {
        match settlement_type {
            SettlementType::Village => self.settlement is None,
            SettlementType::City => self.settlement == Some(
                PlayerSettlement { player_id, settlement_type: SettlementType::Village },
            ),
        }
    }

    /// Whether `can_build` holds.
    pub fn can_build_now(&self, settlement_type: SettlementType, player_id: usize) -> (b: bool)
        ensures
            b == self.can_build(settlement_type, player_id),
    {
        match settlement_type {
            SettlementType::Village => self.settlement.is_none(),
            SettlementType::City => match self.settlement {
                Some(s) => s.player_id == player_id && s.settlement_type == SettlementType::Village,
                None => false,
            },
        }
    }

    fn build_village(&mut self, player_id: usize) -> (r: Result<(), String>)
        ensures
            r is Ok <==> old(self).settlement is None,
            r is Ok ==> final(self).settlement == Some(
                PlayerSettlement { player_id, settlement_type: SettlementType::Village },
            ),
            r is Err ==> final(self).settlement == old(self).settlement,
            final(self).id == old(self).id,
            final(self).neighbor_tiles@ == old(self).neighbor_tiles@,
            final(self).seaport == old(self).seaport,
    {
        if self.settlement.is_some() {
            return Err("the corner is already claimed".to_string());
        }
        self.settlement = Some(PlayerSettlement::from(player_id));
        Ok(())
    }

    fn build_city(&mut self, player_id: usize) -> (r: Result<(), String>)
        ensures
            r is Ok <==> old(self).settlement == Some(
                PlayerSettlement { player_id, settlement_type: SettlementType::Village },
            ),
            r is Ok ==> final(self).settlement == Some(
                PlayerSettlement { player_id, settlement_type: SettlementType::City },
            ),
            r is Err ==> final(self).settlement == old(self).settlement,
            final(self).id == old(self).id,
            final(self).neighbor_tiles@ == old(self).neighbor_tiles@,
            final(self).seaport == old(self).seaport,
    {
        if !self.is_owner(player_id) {
            return Err("cities can only be placed on the player's own settlements".to_string());
        }
        match self.settlement {
            None => Err("cities can only be built from villages".to_string()),
            Some(s) => {
                let mut upgraded = s;
                match upgraded.build_city() {
                    Ok(()) => {
                        self.settlement = Some(upgraded);
                        Ok(())
                    },
                    Err(e) => Err(e),
                }
            },
        }
    }

    pub fn is_owner(&self, player_id: usize) -> (b: bool)
        ensures
            b == self.owned_by(player_id),
    {
        match &self.settlement {
            Some(s) => s.player_id == player_id,
            None => false,
        }
    }
}

} // verus!
