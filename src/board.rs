//! The board aggregate, dice rolls and the development-card deck.
use vstd::prelude::*;
use crate::coordinates::CubeCoordinates;
use crate::hexagon::{HexagonMap, HexagonTile};
use crate::locations::{DiceChipLocation, RobberLocation};
use crate::random::random_below;
use crate::resources::ResourceKind;
use crate::settlement_map::SettlementMap;

verus! {

/// The one-shot cards a player can hold.
#[derive(Debug, Clone, Copy, PartialEq, Eq, Hash, Structural)]
pub enum DevelopmentCard {
    Knight,
    Invention,
    StreetConstruction,
    Monopoly,
    VictoryPoint,
}

/// Two six-sided dice.
#[derive(Debug, Clone, Copy, PartialEq, Eq, Structural)]
pub struct DoubleDiceRoll {
    pub dice_a: u8,
    pub dice_b: u8,
}

impl DoubleDiceRoll {
    /// Both dice show 1 to 6.
    pub open spec fn wf(self) -> bool {
        1 <= self.dice_a <= 6 && 1 <= self.dice_b <= 6
    }

    pub fn from(dice_a: u8, dice_b: u8) -> (d: Self)
        requires
            1 <= dice_a <= 6,
            1 <= dice_b <= 6,
        ensures
            d.dice_a == dice_a,
            d.dice_b == dice_b,
            d.wf(),
    {
        DoubleDiceRoll { dice_a, dice_b }
    }

    /// Throws both dice.
    pub fn roll() -> (d: Self)
        ensures
            d.wf(),
    {
        let a = random_below(6) as u8 + 1;
        let b = random_below(6) as u8 + 1;
        DoubleDiceRoll { dice_a: a, dice_b: b }
    }

    pub fn get_total(&self) -> (t: u8)
        requires
            self.wf(),
        ensures
            t == self.dice_a + self.dice_b,
            2 <= t <= 12,
    {
        self.dice_a + self.dice_b
    }

    pub fn get_a(&self) -> (a: u8)
        ensures
            a == self.dice_a,
    {
        self.dice_a
    }

    pub fn get_b(&self) -> (b: u8)
        ensures
            b == self.dice_b,
    {
        self.dice_b
    }
}

/// Every corner a tile of `tiles` records is a corner of `corners`.
pub open spec fn corners_known(tiles: HexagonMap, corners: SettlementMap) -> bool {
    forall|t: int, k: int|
        0 <= t < tiles.tile_list().len() && 0 <= k < tiles.tile_list()[t].corner_settlements@.len()
            ==> corners.has_corner(#[trigger] tiles.tile_list()[t].corner_settlements@[k])
}

/// The board: tiles, corners and roads, dice chips, the robber, the resource kinds
/// laid out and the development-card deck (drawn from the end).
pub struct GameBoard {
    pub tile_map: HexagonMap,
    pub settlement_map: SettlementMap,
    pub dice_chips: Vec<DiceChipLocation>,
    pub robber: RobberLocation,
    pub board_resources: Vec<ResourceKind>,
    pub development_cards: Vec<DevelopmentCard>,
}

impl GameBoard {
    pub open spec fn wf(self) -> bool {
        self.tile_map.wf() && self.settlement_map.wf() && corners_known(
            self.tile_map,
            self.settlement_map,
        )
    }

    /// The tile at `c` (meaningful where there is one).
    pub open spec fn tile_at(self, c: CubeCoordinates) -> HexagonTile {
        let t = choose|t: int|
            0 <= t < self.tile_map.tile_list().len() && #[trigger] self.tile_map.tile_list()[t].coordinates
                == c;
        self.tile_map.tile_list()[t]
    }

    pub proof fn lemma_tile_at(self, c: CubeCoordinates, t: int)
        requires
            self.wf(),
            0 <= t < self.tile_map.tile_list().len(),
            self.tile_map.tile_list()[t].coordinates == c,
        ensures
            self.tile_at(c) == self.tile_map.tile_list()[t],
            self.tile_map.has_tile(c),
    {
        let u = choose|u: int|
            0 <= u < self.tile_map.tile_list().len() && #[trigger] self.tile_map.tile_list()[u].coordinates
                == c;
        assert(self.tile_map.tile_list()[u].coordinates == self.tile_map.tile_list()[t].coordinates);
    }

    /// A tile at `tile` bears a chip showing `number`.
    pub open spec fn chip_on(self, tile: CubeCoordinates, number: u8) -> bool {
        exists|c: int|
            0 <= c < self.dice_chips@.len() && #[trigger] self.dice_chips@[c].assigned_tile == tile
                && self.dice_chips@[c].dice_value == number
    }

    pub fn from(
        tile_map: HexagonMap,
        settlement_map: SettlementMap,
        dice_chips: Vec<DiceChipLocation>,
        robber: RobberLocation,
        board_resources: Vec<ResourceKind>,
        development_cards: Vec<DevelopmentCard>,
    ) -> (b: Self)
        ensures
            b == (GameBoard {
                tile_map,
                settlement_map,
                dice_chips,
                robber,
                board_resources,
                development_cards,
            }),
    {
        GameBoard {
            tile_map,
            settlement_map,
            dice_chips,
            robber,
            board_resources,
            development_cards,
        }
    }

    pub fn get_tile_map(&self) -> (m: &HexagonMap)
        ensures
            *m == self.tile_map,
    {
        &self.tile_map
    }

    pub fn get_settlement_map(&self) -> (m: &SettlementMap)
        ensures
            *m == self.settlement_map,
    {
        &self.settlement_map
    }

    pub fn roll_dice(&self) -> (d: DoubleDiceRoll)
        ensures
            d.wf(),
    {
        DoubleDiceRoll::roll()
    }

    /// The chips showing `number`, in board order.
    pub fn get_dice_chips_by_number(&self, number: u8) -> (r: Vec<DiceChipLocation>)
        ensures
            r@ == self.dice_chips@.filter(|c: DiceChipLocation| c.dice_value == number),
    {
        let ghost pred = |c: DiceChipLocation| c.dice_value == number;
        let mut result: Vec<DiceChipLocation> = Vec::new();
        let mut k: usize = 0;
        while k < self.dice_chips.len()
            invariant
                k <= self.dice_chips.len(),
                pred == (|c: DiceChipLocation| c.dice_value == number),
                result@ == self.dice_chips@.subrange(0, k as int).filter(pred),
            decreases self.dice_chips.len() - k,
        {
            let chip = self.dice_chips[k];
            proof {
                reveal(Seq::filter);
                let s1 = self.dice_chips@.subrange(0, k + 1);
                assert(s1.drop_last() =~= self.dice_chips@.subrange(0, k as int));
                assert(s1.last() == chip);
            }
            if chip.dice_value == number {
                result.push(chip);
            }
            k = k + 1;
        }
        assert(self.dice_chips@.subrange(0, self.dice_chips@.len() as int) =~= self.dice_chips@);
        result
    }

    /// The tiles bearing a chip that shows `number`.
    pub fn get_tiles_by_dice_value(&self, number: u8) -> (r: Vec<&HexagonTile>)
        ensures
            forall|k: int|
                0 <= k < r@.len() ==> self.tile_map.tile_list().contains(*#[trigger] r@[k])
                    && self.chip_on(r@[k].coordinates, number),
            forall|c: int|
                0 <= c < self.dice_chips@.len() && #[trigger] self.dice_chips@[c].dice_value
                    == number && self.tile_map.has_tile(self.dice_chips@[c].assigned_tile)
                    ==> exists|k: int|
                    0 <= k < r@.len() && r@[k].coordinates == self.dice_chips@[c].assigned_tile,
    {
        let mut result: Vec<&HexagonTile> = Vec::new();
        let mut k: usize = 0;
        while k < self.dice_chips.len()
            invariant
                k <= self.dice_chips.len(),
                forall|m: int|
                    0 <= m < result@.len() ==> self.tile_map.tile_list().contains(
                        *#[trigger] result@[m],
                    ) && self.chip_on(result@[m].coordinates, number),
                forall|c: int|
                    0 <= c < k && #[trigger] self.dice_chips@[c].dice_value == number
                        && self.tile_map.has_tile(self.dice_chips@[c].assigned_tile)
                        ==> exists|m: int|
                        0 <= m < result@.len() && result@[m].coordinates
                            == self.dice_chips@[c].assigned_tile,
            decreases self.dice_chips.len() - k,
        {
            let chip = self.dice_chips[k];
            if chip.dice_value == number {
                match self.tile_map.get_tile(&chip.assigned_tile) {
                    Some(tile) => {
                        let ghost before = result@;
                        result.push(tile);
                        proof {
                            assert(self.dice_chips@[k as int] == chip);
                            assert forall|m: int| 0 <= m < result@.len() implies self.tile_map.tile_list().contains(
                                *#[trigger] result@[m],
                            ) && self.chip_on(result@[m].coordinates, number) by {
                                if m < before.len() {
                                    assert(result@[m] == before[m]);
                                } else {
                                    assert(self.dice_chips@[k as int].assigned_tile == result@[m].coordinates);
                                }
                            }
                            assert forall|c: int|
                                0 <= c < k + 1 && #[trigger] self.dice_chips@[c].dice_value == number
                                    && self.tile_map.has_tile(self.dice_chips@[c].assigned_tile)
                                    implies exists|m: int|
                                    0 <= m < result@.len() && result@[m].coordinates
                                        == self.dice_chips@[c].assigned_tile by {
                                if c < k {
                                    let m = choose|m: int|
                                        0 <= m < before.len() && before[m].coordinates
                                            == self.dice_chips@[c].assigned_tile;
                                    assert(result@[m] == before[m]);
                                } else {
                                    assert(result@[before.len() as int].coordinates
                                        == self.dice_chips@[c].assigned_tile);
                                }
                            }
                        }
                    },
                    None => {},
                }
            }
            k = k + 1;
        }
        result
    }

    pub fn get_robber(&self) -> (r: &RobberLocation)
        ensures
            *r == self.robber,
    {
        &self.robber
    }

    pub fn get_development_cards_left(&self) -> (n: usize)
        ensures
            n == self.development_cards@.len(),
    {
        self.development_cards.len()
    }

    /// Takes the card at the end of the deck, if any is left.
    pub fn draw_development_card(&mut self) -> (c: Option<DevelopmentCard>)
        ensures
            old(self).development_cards@.len() == 0 ==> c is None && final(self).development_cards@
                == old(self).development_cards@,
            old(self).development_cards@.len() > 0 ==> c == Some(
                old(self).development_cards@.last(),
            ) && final(self).development_cards@ == old(self).development_cards@.drop_last(),
            final(self).tile_map == old(self).tile_map,
            final(self).settlement_map == old(self).settlement_map,
            final(self).dice_chips == old(self).dice_chips,
            final(self).robber == old(self).robber,
            final(self).board_resources == old(self).board_resources,
    {
        self.development_cards.pop()
    }
}

} // verus!
