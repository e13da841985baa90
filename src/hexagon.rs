//! Tiles and the map from positions to tiles.
use vstd::prelude::*;
use crate::coordinates::CubeCoordinates;
use crate::locations::SettlementLocationId;
use crate::resources::ResourceKind;
use crate::seq_facts::lemma_filter_push;

verus! {

/// What a tile is: the non-producing filler at the centre, or a producer of one kind.
#[derive(Debug, Clone, Copy, PartialEq, Eq, Structural)]
pub enum TileType {
    FillerTile,
    ResourceTile(ResourceKind),
}

/// A tile: its position, its type and the corners around it.
#[derive(Debug, Clone)]
pub struct HexagonTile {
    pub coordinates: CubeCoordinates,
    pub tile_type: TileType,
    pub corner_settlements: Vec<SettlementLocationId>,
}

impl HexagonTile {
    pub fn from(coordinates: CubeCoordinates, tile_type: TileType) -> (t: Self)
        ensures
            t.coordinates == coordinates,
            t.tile_type == tile_type,
            t.corner_settlements@.len() == 0,
    {
        HexagonTile { coordinates, tile_type, corner_settlements: Vec::new() }
    }

    pub fn get_coordinates(&self) -> (c: &CubeCoordinates)
        ensures
            *c == self.coordinates,
    {
        &self.coordinates
    }

    pub fn get_type(&self) -> (t: &TileType)
        ensures
            *t == self.tile_type,
    {
        &self.tile_type
    }

    pub fn get_corner_settlement_ids(&self) -> (c: &Vec<SettlementLocationId>)
        ensures
            c@ == self.corner_settlements@,
    {
        &self.corner_settlements
    }

    /// Records an adjacent corner; refuses, changing nothing, one already recorded.
    pub fn add_corner_settlement(&mut self, settlement_id: SettlementLocationId) -> (r: Result<
        (),
        String,
    >)
        ensures
            r is Ok <==> !old(self).corner_settlements@.contains(settlement_id),
            r is Ok ==> final(self).corner_settlements@ == old(self).corner_settlements@.push(settlement_id),
            r is Err ==> final(self).corner_settlements@ == old(self).corner_settlements@,
            final(self).coordinates == old(self).coordinates,
            final(self).tile_type == old(self).tile_type,
    {
        let mut k: usize = 0;
        while k < self.corner_settlements.len()
            invariant
                k <= self.corner_settlements.len(),
                forall|m: int| 0 <= m < k ==> self.corner_settlements@[m] != settlement_id,
            decreases self.corner_settlements.len() - k,
        {
            if self.corner_settlements[k] == settlement_id {
                return Err("corner is already recorded".to_string());
            }
            k = k + 1;
        }
        self.corner_settlements.push(settlement_id);
        Ok(())
    }
}

/// The tiles of a board, at most one per position.
pub struct HexagonMap {
    tiles: Vec<HexagonTile>,
}

impl HexagonMap {
    pub closed spec fn tile_list(self) -> Seq<HexagonTile> {
        self.tiles@
    }

    pub open spec fn wf(self) -> bool {
        forall|i: int, k: int|
            0 <= i < self.tile_list().len() && 0 <= k < self.tile_list().len()
                && #[trigger] self.tile_list()[i].coordinates
                == #[trigger] self.tile_list()[k].coordinates ==> i == k
    }

    pub open spec fn has_tile(self, coordinates: CubeCoordinates) -> bool {
        exists|i: int|
            0 <= i < self.tile_list().len() && #[trigger] self.tile_list()[i].coordinates
                == coordinates
    }

    pub fn new() -> (m: Self)
        ensures
            m.wf(),
            m.tile_list().len() == 0,
    {
        HexagonMap { tiles: Vec::new() }
    }

    /// The position of the tile at `coordinates`, if there is one.
    pub fn find_tile(&self, coordinates: &CubeCoordinates) -> (r: Option<usize>)
        ensures
            r matches Some(i) ==> i < self.tile_list().len() && self.tile_list()[i as int].coordinates
                == *coordinates,
            r is None <==> !self.has_tile(*coordinates),
    {
        let mut i: usize = 0;
        while i < self.tiles.len()
            invariant
                i <= self.tiles.len(),
                forall|k: int| 0 <= k < i ==> self.tiles@[k].coordinates != *coordinates,
            decreases self.tiles.len() - i,
        {
            if self.tiles[i].coordinates == *coordinates {
                return Some(i);
            }
            i = i + 1;
        }
        None
    }

    /// Adds a tile; refuses, changing nothing, where its position is taken.
    pub fn add_tile(&mut self, tile: HexagonTile) -> (r: Result<(), String>)
        requires
            old(self).wf(),
        ensures
            final(self).wf(),
            r is Ok <==> !old(self).has_tile(tile.coordinates),
            r is Ok ==> final(self).tile_list() == old(self).tile_list().push(tile),
            r is Err ==> final(self).tile_list() == old(self).tile_list(),
    {
        if self.find_tile(&tile.coordinates).is_some() {
            return Err("coordinates already blocked".to_string());
        }
        self.tiles.push(tile);
        Ok(())
    }

    pub fn get_tile(&self, coordinates: &CubeCoordinates) -> (t: Option<&HexagonTile>)
        ensures
            t matches Some(tile) ==> tile.coordinates == *coordinates && self.tile_list().contains(
                *tile,
            ),
            t is None <==> !self.has_tile(*coordinates),
    {
        match self.find_tile(coordinates) {
            Some(i) => Some(&self.tiles[i]),
            None => None,
        }
    }

    /// Whether a position holds a tile, as a predicate.
    pub open spec fn tile_pred(self) -> spec_fn(CubeCoordinates) -> bool {
        |c: CubeCoordinates| self.has_tile(c)
    }

    /// The neighbours of `coordinates` that hold a tile, in the canonical neighbour order.
    pub open spec fn present_neighbors(self, coordinates: CubeCoordinates) -> Seq<CubeCoordinates> {
        coordinates.neighbors().filter(self.tile_pred())
    }

    /// The tiles around `coordinates` that are on the map, in the canonical neighbour order.
    pub fn get_tile_neighbors(&self, coordinates: &CubeCoordinates) -> (n: Vec<&HexagonTile>)
        requires
            coordinates.in_range(),
        ensures
            n@.len() <= 6,
            n@.len() == self.present_neighbors(*coordinates).len(),
            forall|k: int|
                0 <= k < n@.len() ==> (#[trigger] n@[k]).coordinates == self.present_neighbors(
                    *coordinates,
                )[k] && self.tile_list().contains(*n@[k]),
    {
        let around = coordinates.get_neighbor_coordinates();
        let ghost pred = self.tile_pred();
        let mut result: Vec<&HexagonTile> = Vec::new();
        let mut d: usize = 0;
        while d < around.len()
            invariant
                d <= around.len(),
                around@ == coordinates.neighbors(),
                pred == self.tile_pred(),
                result@.len() == around@.subrange(0, d as int).filter(pred).len(),
                forall|k: int|
                    0 <= k < result@.len() ==> (#[trigger] result@[k]).coordinates == around@.subrange(
                        0,
                        d as int,
                    ).filter(pred)[k] && self.tile_list().contains(*result@[k]),
            decreases around.len() - d,
        {
            let ghost prefix = around@.subrange(0, d as int);
            proof {
                assert(around@.subrange(0, d + 1) =~= prefix.push(around@[d as int]));
                lemma_filter_push(prefix, around@[d as int], pred);
            }
            match self.get_tile(&around[d]) {
                Some(tile) => {
                    let ghost before = result@;
                    result.push(tile);
                    proof {
                        assert(pred(around@[d as int]));
                        assert forall|k: int| 0 <= k < result@.len() implies (
                        #[trigger] result@[k]).coordinates == around@.subrange(0, d + 1).filter(pred)[k]
                            && self.tile_list().contains(*result@[k]) by {
                            if k < before.len() {
                                assert(result@[k] == before[k]);
                            }
                        }
                    }
                },
                None => {
                    proof {
                        assert(!pred(around@[d as int]));
                    }
                },
            }
            d = d + 1;
        }
        proof {
            assert(around@.subrange(0, around@.len() as int) =~= around@);
            around@.lemma_filter_len(pred);
        }
        result
    }

    /// All tiles, in the order they were added.
    pub fn get_tiles(&self) -> (t: &Vec<HexagonTile>)
        ensures
            t@ == self.tile_list(),
    {
        &self.tiles
    }

    /// Records corner `settlement_id` on the tile at position `index`.
    pub fn add_corner_settlement(&mut self, index: usize, settlement_id: SettlementLocationId) -> (r:
        Result<(), String>)
        requires
            old(self).wf(),
            index < old(self).tile_list().len(),
        ensures
            final(self).wf(),
            final(self).tile_list().len() == old(self).tile_list().len(),
            forall|i: int|
                0 <= i < old(self).tile_list().len() && i != index ==> final(self).tile_list()[i]
                    == #[trigger] old(self).tile_list()[i],
            final(self).tile_list()[index as int].coordinates == old(self).tile_list()[index as int].coordinates,
            final(self).tile_list()[index as int].tile_type == old(self).tile_list()[index as int].tile_type,
            r is Ok <==> !old(self).tile_list()[index as int].corner_settlements@.contains(
                settlement_id,
            ),
            r is Ok ==> final(self).tile_list()[index as int].corner_settlements@
                == old(self).tile_list()[index as int].corner_settlements@.push(settlement_id),
            r is Err ==> final(self).tile_list()[index as int].corner_settlements@
                == old(self).tile_list()[index as int].corner_settlements@,
    {
        let ghost before = self.tiles@;
        let tile = &mut self.tiles[index];
        let r = tile.add_corner_settlement(settlement_id);
        proof {
            assert(self.tiles@ == before.update(index as int, *tile));
            assert forall|i: int, k: int|
                0 <= i < self.tile_list().len() && 0 <= k < self.tile_list().len()
                    && #[trigger] self.tile_list()[i].coordinates
                    == #[trigger] self.tile_list()[k].coordinates implies i == k by {
                assert(before[i].coordinates == self.tiles@[i].coordinates);
                assert(before[k].coordinates == self.tiles@[k].coordinates);
            }
        }
        r
    }
}

} // verus!
