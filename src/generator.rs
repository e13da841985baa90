//! Generation of the reference board: tiles, dice chips, corners, roads and the deck.
use vstd::prelude::*;
use crate::board::{corners_known, DevelopmentCard, GameBoard};
use crate::coordinates::CubeCoordinates;
use crate::hexagon::{HexagonMap, HexagonTile, TileType};
use crate::locations::{
    DiceChipLocation, RoadLocation, RoadLocationId, RobberLocation, SettlementLocation,
    SettlementLocationId,
};
use crate::random::shuffle;
use crate::resources::ResourceKind;
use vstd::multiset::Multiset;
use crate::seq_facts::{lemma_filter_push, lemma_filter_prefix_mono, lemma_filter_prefix_step};
use crate::settlement_map::SettlementMap;
use crate::trade_contract::{AcceptsNAnyTradeContract, SeaportLocation, SeaportTradeContract};

verus! {

/// The board's radius: a position is on the board where every coordinate is below it in magnitude.
pub const BOARD_SIZE: i32 = 3;

/// The number of resource tiles on a board of the reference size.
pub const RESOURCE_TILE_COUNT: usize = 18;

/// The number of cards in a fresh development-card deck.
pub const DEVELOPMENT_CARD_COUNT: usize = 25;

pub open spec fn in_board(c: CubeCoordinates, board_size: int) -> bool {
    -board_size < c.q < board_size && -board_size < c.r < board_size && -board_size < c.s
        < board_size
}

pub open spec fn is_resource_tile(t: HexagonTile) -> bool {
    t.tile_type is ResourceTile
}

pub open spec fn resource_pred() -> spec_fn(HexagonTile) -> bool {
    |t: HexagonTile| is_resource_tile(t)
}

/// The resource tiles among `tiles`.
pub open spec fn resource_tiles(tiles: Seq<HexagonTile>) -> Seq<HexagonTile> {
    tiles.filter(resource_pred())
}

/// The kinds of the resource tiles among `tiles`, in order.
pub open spec fn resource_kinds(tiles: Seq<HexagonTile>) -> Seq<ResourceKind> {
    resource_tiles(tiles).map_values(|t: HexagonTile| t.tile_type->ResourceTile_0)
}

/// The values of `chips`, in order.
pub open spec fn chip_values(chips: Seq<DiceChipLocation>) -> Seq<u8> {
    chips.map_values(|c: DiceChipLocation| c.dice_value)
}

proof fn lemma_resource_kinds_push(tiles: Seq<HexagonTile>, t: HexagonTile)
    ensures
        resource_kinds(tiles.push(t)) == if is_resource_tile(t) {
            resource_kinds(tiles).push(t.tile_type->ResourceTile_0)
        } else {
            resource_kinds(tiles)
        },
{
    lemma_filter_push(tiles, t, resource_pred());
    if is_resource_tile(t) {
        assert(resource_tiles(tiles).push(t).map_values(|x: HexagonTile| x.tile_type->ResourceTile_0)
            =~= resource_kinds(tiles).push(t.tile_type->ResourceTile_0));
    }
}

proof fn lemma_pop_multiset<A>(s: Seq<A>)
    requires
        s.len() > 0,
    ensures
        s.to_multiset() == s.drop_last().to_multiset().insert(s.last()),
{
    broadcast use vstd::seq_lib::group_to_multiset_ensures;

    assert(s =~= s.drop_last().push(s.last()));
}

/// Position `(q, r)` of the reference board holds a resource tile.
pub open spec fn is_resource_cell(q: int, r: int) -> bool {
    -3 < q < 3 && -3 < r < 3 && -3 < -(q + r) < 3 && !(q == 0 && r == 0)
}

/// Resource cells `(q, r')` with `-2 <= r' < r_end`.
pub open spec fn row_cells(q: int, r_end: int) -> nat
    decreases r_end + 2,
{
    if r_end <= -2 {
        0
    } else {
        row_cells(q, r_end - 1) + if is_resource_cell(q, r_end - 1) {
            1nat
        } else {
            0nat
        }
    }
}

/// Resource cells `(q', r')` with `-2 <= q' < q_end` and `-2 <= r' < 3`.
pub open spec fn grid_cells(q_end: int) -> nat
    decreases q_end + 2,
{
    if q_end <= -2 {
        0
    } else {
        grid_cells(q_end - 1) + row_cells(q_end - 1, 3)
    }
}

proof fn lemma_row_cells_mono(q: int, r: int)
    requires
        -2 <= r <= 3,
    ensures
        row_cells(q, r) <= row_cells(q, 3),
    decreases 3 - r,
{
    if r < 3 {
        lemma_row_cells_mono(q, r + 1);
    }
}

proof fn lemma_grid_cells_mono(q: int)
    requires
        -2 <= q <= 3,
    ensures
        grid_cells(q) <= grid_cells(3),
    decreases 3 - q,
{
    if q < 3 {
        lemma_grid_cells_mono(q + 1);
    }
}

proof fn lemma_grid_total()
    ensures
        grid_cells(3) == RESOURCE_TILE_COUNT,
{
    reveal_with_fuel(grid_cells, 6);
    reveal_with_fuel(row_cells, 6);
    assert(row_cells(-2, 3) == 3);
    assert(row_cells(-1, 3) == 4);
    assert(row_cells(0, 3) == 4);
    assert(row_cells(1, 3) == 4);
    assert(row_cells(2, 3) == 3);
}

/// Some resource tile among `tiles` lies at `c`.
pub open spec fn on_resource_tile(tiles: Seq<HexagonTile>, c: CubeCoordinates) -> bool {
    exists|t: int| 0 <= t < tiles.len() && #[trigger] tiles[t].coordinates == c && is_resource_tile(tiles[t])
}

/// No two of `chips` lie on the same tile.
pub open spec fn chips_apart(chips: Seq<DiceChipLocation>) -> bool {
    forall|a: int, b: int|
        0 <= a < chips.len() && 0 <= b < chips.len() && (#[trigger] chips[a]).assigned_tile
            == (#[trigger] chips[b]).assigned_tile ==> a == b
}

/// The facts every board made by the generator satisfies.
pub open spec fn generated_board(b: GameBoard) -> bool {
    &&& b.wf()
    &&& resource_tiles(b.tile_map.tile_list()).len() == RESOURCE_TILE_COUNT
    &&& b.tile_map.tile_list().len() == RESOURCE_TILE_COUNT + 1
    &&& b.dice_chips@.len() == RESOURCE_TILE_COUNT
    &&& chips_apart(b.dice_chips@)
    &&& forall|k: int|
        0 <= k < b.dice_chips@.len() ==> on_resource_tile(
            b.tile_map.tile_list(),
            #[trigger] b.dice_chips@[k].assigned_tile,
        )
    &&& b.robber.assigned_tile == (CubeCoordinates { q: 0, r: 0, s: 0 })
    &&& forall|t: int|
        0 <= t < b.tile_map.tile_list().len() ==> in_board(
            #[trigger] b.tile_map.tile_list()[t].coordinates,
            BOARD_SIZE as int,
        )
    &&& all_free(b.settlement_map)
    &&& forall|t: int|
        0 <= t < b.tile_map.tile_list().len() ==> #[trigger] tile_done(
            b.tile_map,
            b.settlement_map,
            t,
        )
}

/// The resource kinds of the reference board: 3 clay, 4 wood, 3 ore, 4 sheep, 4 wheat.
pub open spec fn reference_resources() -> Seq<ResourceKind> {
    seq![
        ResourceKind::Clay, ResourceKind::Clay, ResourceKind::Clay,
        ResourceKind::Wood, ResourceKind::Wood, ResourceKind::Wood, ResourceKind::Wood,
        ResourceKind::Ore, ResourceKind::Ore, ResourceKind::Ore,
        ResourceKind::Sheep, ResourceKind::Sheep, ResourceKind::Sheep, ResourceKind::Sheep,
        ResourceKind::Wheat, ResourceKind::Wheat, ResourceKind::Wheat, ResourceKind::Wheat,
    ]
}

/// The dice-chip values of the reference board.
pub open spec fn reference_dice_values() -> Seq<u8> {
    seq![1u8, 2, 3, 3, 4, 4, 5, 5, 6, 6, 8, 8, 9, 9, 10, 10, 11, 12]
}

/// A fresh deck: 14 knights, 2 inventions, 2 street constructions, 2 monopolies and
/// 5 victory points.
pub open spec fn reference_deck() -> Seq<DevelopmentCard> {
    Seq::new(14, |i: int| DevelopmentCard::Knight) + seq![
        DevelopmentCard::Invention, DevelopmentCard::Invention,
        DevelopmentCard::StreetConstruction, DevelopmentCard::StreetConstruction,
        DevelopmentCard::Monopoly, DevelopmentCard::Monopoly,
    ] + Seq::new(5, |i: int| DevelopmentCard::VictoryPoint)
}

/// The resource kinds of the reference board, in a fixed order.
pub fn board_resource_list() -> (v: Vec<ResourceKind>)
    ensures
        v@ == reference_resources(),
        v@.len() == RESOURCE_TILE_COUNT,
{
    let v = vec![
        ResourceKind::Clay, ResourceKind::Clay, ResourceKind::Clay,
        ResourceKind::Wood, ResourceKind::Wood, ResourceKind::Wood, ResourceKind::Wood,
        ResourceKind::Ore, ResourceKind::Ore, ResourceKind::Ore,
        ResourceKind::Sheep, ResourceKind::Sheep, ResourceKind::Sheep, ResourceKind::Sheep,
        ResourceKind::Wheat, ResourceKind::Wheat, ResourceKind::Wheat, ResourceKind::Wheat,
    ];
    assert(v@ =~= reference_resources());
    v
}

/// The dice-chip values of the reference board, in a fixed order; 7 is not among them.
pub fn dice_chip_value_list() -> (v: Vec<u8>)
    ensures
        v@ == reference_dice_values(),
        v@.len() == RESOURCE_TILE_COUNT,
        !v@.contains(7u8),
{
    let v: Vec<u8> = vec![1, 2, 3, 3, 4, 4, 5, 5, 6, 6, 8, 8, 9, 9, 10, 10, 11, 12];
    assert(v@ =~= reference_dice_values());
    assert(forall|k: int| 0 <= k < v@.len() ==> v@[k] != 7u8);
    v
}

/// A fresh deck, in a fixed order.
pub fn development_card_list() -> (v: Vec<DevelopmentCard>)
    ensures
        v@ == reference_deck(),
        v@.len() == DEVELOPMENT_CARD_COUNT,
{
    let mut cards: Vec<DevelopmentCard> = Vec::new();
    let mut k: usize = 0;
    while k < 14
        invariant
            k <= 14,
            cards@ == Seq::new(k as nat, |i: int| DevelopmentCard::Knight),
        decreases 14 - k,
    {
        cards.push(DevelopmentCard::Knight);
        k = k + 1;
        assert(cards@ =~= Seq::new(k as nat, |i: int| DevelopmentCard::Knight));
    }
    cards.push(DevelopmentCard::Invention);
    cards.push(DevelopmentCard::Invention);
    cards.push(DevelopmentCard::StreetConstruction);
    cards.push(DevelopmentCard::StreetConstruction);
    cards.push(DevelopmentCard::Monopoly);
    cards.push(DevelopmentCard::Monopoly);
    let ghost middle = cards@;
    let mut k: usize = 0;
    while k < 5
        invariant
            k <= 5,
            cards@ == middle + Seq::new(k as nat, |i: int| DevelopmentCard::VictoryPoint),
        decreases 5 - k,
    {
        cards.push(DevelopmentCard::VictoryPoint);
        k = k + 1;
        assert(cards@ =~= middle + Seq::new(k as nat, |i: int| DevelopmentCard::VictoryPoint));
    }
    assert(cards@ =~= reference_deck());
    cards
}

/// Whether `coordinates` lies on a board of radius `board_size`.
pub fn is_tile_in_map(coordinates: &CubeCoordinates, board_size: i32) -> (b: bool)
    requires
        board_size > i32::MIN,
    ensures
        b == in_board(*coordinates, board_size as int),
{
    -board_size < coordinates.q && coordinates.q < board_size && -board_size < coordinates.r
        && coordinates.r < board_size && -board_size < coordinates.s && coordinates.s
        < board_size
}

/// Whether any of `coordinates` lies off a board of radius `board_size` (at sea).
pub fn is_any_sea_tile(coordinates: &Vec<CubeCoordinates>, board_size: i32) -> (b: bool)
    requires
        board_size > i32::MIN,
    ensures
        b == exists|k: int|
            0 <= k < coordinates@.len() && !in_board(#[trigger] coordinates@[k], board_size as int),
{
    let mut k: usize = 0;
    while k < coordinates.len()
        invariant
            k <= coordinates.len(),
            board_size > i32::MIN,
            forall|m: int| 0 <= m < k ==> in_board(#[trigger] coordinates@[m], board_size as int),
        decreases coordinates.len() - k,
    {
        if !is_tile_in_map(&coordinates[k], board_size) {
            return true;
        }
        k = k + 1;
    }
    false
}

/// The robber starts on the centre tile.
pub fn get_robber_location() -> (r: RobberLocation)
    ensures
        r.assigned_tile == (CubeCoordinates { q: 0, r: 0, s: 0 }),
{
    RobberLocation::from(CubeCoordinates::from(0, 0, 0))
}


/// Lays out the tiles of the reference board: the filler at the centre and, on every
/// other position, the next kind taken from the end of `resource_list`. Fails unless
/// `resource_list` holds exactly one kind per resource tile.
pub fn generate_hexagon_map(resource_list: Vec<ResourceKind>) -> (r: Result<
    (HexagonMap, Vec<ResourceKind>),
    String,
>)
    ensures
        r is Ok <==> resource_list@.len() == RESOURCE_TILE_COUNT,
        r matches Ok((m, kinds)) ==> {
            &&& m.wf()
            &&& resource_tiles(m.tile_list()).len() == RESOURCE_TILE_COUNT
            &&& forall|t: int|
                0 <= t < m.tile_list().len() ==> in_board(
                    #[trigger] m.tile_list()[t].coordinates,
                    BOARD_SIZE as int,
                )
            &&& kinds@.len() == 5
            &&& forall|t: int|
                0 <= t < m.tile_list().len() ==> (#[trigger] m.tile_list()[t]).corner_settlements@.len()
                    == 0
            &&& m.tile_list().len() == RESOURCE_TILE_COUNT + 1
            &&& resource_kinds(m.tile_list()).to_multiset() == resource_list@.to_multiset()
            &&& m.has_tile(CubeCoordinates { q: 0, r: 0, s: 0 })
            &&& forall|t: int|
                0 <= t < m.tile_list().len() ==> ((#[trigger] m.tile_list()[t]).tile_type
                    == TileType::FillerTile <==> m.tile_list()[t].coordinates == CubeCoordinates {
                    q: 0,
                    r: 0,
                    s: 0,
                })
        },
{
    if resource_list.len() != RESOURCE_TILE_COUNT {
        return Err("resource list and resource tile count do not match".to_string());
    }
    let ghost given = resource_list@;
    let mut resource_list = resource_list;
    let mut hexagon_map = HexagonMap::new();
    let board_resources: Vec<ResourceKind> = vec![
        ResourceKind::Clay,
        ResourceKind::Wood,
        ResourceKind::Ore,
        ResourceKind::Sheep,
        ResourceKind::Wheat,
    ];
    let board_size: i32 = BOARD_SIZE;
    proof {
        lemma_grid_total();
        assert(resource_tiles(hexagon_map.tile_list()) =~= Seq::<HexagonTile>::empty()) by {
            reveal(Seq::filter);
        }
    }
    let ghost mut placed_origin = false;
    proof {
        broadcast use vstd::seq_lib::group_to_multiset_ensures;

        assert(resource_kinds(hexagon_map.tile_list()) =~= Seq::<ResourceKind>::empty()) by {
            reveal(Seq::filter);
        }
        assert(resource_kinds(hexagon_map.tile_list()).to_multiset() =~= Multiset::empty());
        assert(resource_kinds(hexagon_map.tile_list()).to_multiset().add(resource_list@.to_multiset())
            =~= given.to_multiset());
    }
    let mut q: i32 = -(board_size - 1);
    while q < board_size
        invariant
            -2 <= q <= 3,
            board_size == 3,
            grid_cells(3) == RESOURCE_TILE_COUNT,
            hexagon_map.wf(),
            resource_tiles(hexagon_map.tile_list()).len() == grid_cells(q as int),
            resource_list@.len() + grid_cells(q as int) == RESOURCE_TILE_COUNT,
            forall|t: int|
                0 <= t < hexagon_map.tile_list().len() ==> in_board(
                    #[trigger] hexagon_map.tile_list()[t].coordinates,
                    3,
                ) && hexagon_map.tile_list()[t].coordinates.q < q,
            forall|t: int|
                0 <= t < hexagon_map.tile_list().len() ==> (
                #[trigger] hexagon_map.tile_list()[t]).corner_settlements@.len() == 0,
            hexagon_map.tile_list().len() == resource_tiles(hexagon_map.tile_list()).len() + if placed_origin {
                1int
            } else {
                0int
            },
            placed_origin ==> hexagon_map.has_tile(CubeCoordinates { q: 0, r: 0, s: 0 }),
            !placed_origin ==> q <= 0,
            resource_kinds(hexagon_map.tile_list()).to_multiset().add(resource_list@.to_multiset())
                == given.to_multiset(),
            forall|t: int|
                0 <= t < hexagon_map.tile_list().len() ==> ((#[trigger] hexagon_map.tile_list()[t]).tile_type
                    == TileType::FillerTile <==> hexagon_map.tile_list()[t].coordinates == CubeCoordinates {
                    q: 0,
                    r: 0,
                    s: 0,
                }),
        decreases 3 - q,
    {
        let mut r: i32 = -(board_size - 1);
        while r < board_size
            invariant
                -2 <= q < 3,
                -2 <= r <= 3,
                board_size == 3,
                grid_cells(3) == RESOURCE_TILE_COUNT,
                hexagon_map.wf(),
                resource_tiles(hexagon_map.tile_list()).len() == grid_cells(q as int) + row_cells(
                    q as int,
                    r as int,
                ),
                resource_list@.len() + grid_cells(q as int) + row_cells(q as int, r as int)
                    == RESOURCE_TILE_COUNT,
                forall|t: int|
                    0 <= t < hexagon_map.tile_list().len() ==> in_board(
                        #[trigger] hexagon_map.tile_list()[t].coordinates,
                        3,
                    ) && (hexagon_map.tile_list()[t].coordinates.q < q || (
                    hexagon_map.tile_list()[t].coordinates.q == q
                        && hexagon_map.tile_list()[t].coordinates.r < r)),
                forall|t: int|
                    0 <= t < hexagon_map.tile_list().len() ==> (
                    #[trigger] hexagon_map.tile_list()[t]).corner_settlements@.len() == 0,
                hexagon_map.tile_list().len() == resource_tiles(hexagon_map.tile_list()).len() + if placed_origin {
                    1int
                } else {
                    0int
                },
                placed_origin ==> hexagon_map.has_tile(CubeCoordinates { q: 0, r: 0, s: 0 }),
                !placed_origin ==> q < 0 || (q == 0 && r <= 0),
                resource_kinds(hexagon_map.tile_list()).to_multiset().add(resource_list@.to_multiset())
                    == given.to_multiset(),
                forall|t: int|
                    0 <= t < hexagon_map.tile_list().len() ==> ((#[trigger] hexagon_map.tile_list()[t]).tile_type
                        == TileType::FillerTile <==> hexagon_map.tile_list()[t].coordinates == CubeCoordinates {
                        q: 0,
                        r: 0,
                        s: 0,
                    }),
            decreases 3 - r,
        {
            let coordinates = CubeCoordinates::from_qr(q, r);
            assert(row_cells(q as int, r + 1) == row_cells(q as int, r as int) + if is_resource_cell(
                q as int,
                r as int,
            ) {
                1nat
            } else {
                0nat
            });
            if is_tile_in_map(&coordinates, board_size) {
                let ghost before = hexagon_map.tile_list();
                let tile = if coordinates.q == 0 && coordinates.r == 0 && coordinates.s == 0 {
                    HexagonTile::from(coordinates, TileType::FillerTile)
                } else {
                    proof {
                        lemma_row_cells_mono(q as int, r + 1);
                        lemma_grid_cells_mono(q + 1);
                        assert(grid_cells(q + 1) == grid_cells(q as int) + row_cells(q as int, 3));
                    }
                    let ghost list_before = resource_list@;
                    let kind = match resource_list.pop() {
                        Some(kind) => kind,
                        None => {
                            assert(false);
                            return Err("not enough resources generated".to_string());
                        },
                    };
                    proof {
                        lemma_pop_multiset(list_before);
                        assert(resource_list@ == list_before.drop_last());
                    }
                    HexagonTile::from(coordinates, TileType::ResourceTile(kind))
                };
                assert(!hexagon_map.has_tile(coordinates)) by {
                    if hexagon_map.has_tile(coordinates) {
                        let t = choose|t: int|
                            0 <= t < hexagon_map.tile_list().len()
                                && #[trigger] hexagon_map.tile_list()[t].coordinates == coordinates;
                        assert(in_board(hexagon_map.tile_list()[t].coordinates, 3));
                    }
                }
                match hexagon_map.add_tile(tile) {
                    Ok(()) => {},
                    Err(e) => {
                        assert(false);
                        return Err(e);
                    },
                }
                proof {
                    if coordinates.q == 0 && coordinates.r == 0 && coordinates.s == 0 {
                        placed_origin = true;
                        assert(hexagon_map.tile_list()[before.len() as int].coordinates == coordinates);
                    }
                    if placed_origin && !(coordinates.q == 0 && coordinates.r == 0 && coordinates.s == 0) {
                        let w = choose|w: int|
                            0 <= w < before.len() && #[trigger] before[w].coordinates == CubeCoordinates {
                                q: 0,
                                r: 0,
                                s: 0,
                            };
                        assert(hexagon_map.tile_list()[w] == before[w]);
                    }
                    assert forall|t: int|
                        0 <= t < hexagon_map.tile_list().len() implies ((#[trigger] hexagon_map.tile_list()[t]).tile_type
                            == TileType::FillerTile <==> hexagon_map.tile_list()[t].coordinates == CubeCoordinates {
                            q: 0,
                            r: 0,
                            s: 0,
                        }) by {
                        if t < before.len() {
                            assert(hexagon_map.tile_list()[t] == before[t]);
                        }
                    }
                    lemma_filter_push(before, tile, resource_pred());
                    lemma_resource_kinds_push(before, tile);
                    assert(hexagon_map.tile_list() == before.push(tile));
                    broadcast use vstd::seq_lib::group_to_multiset_ensures;
                    assert(resource_kinds(hexagon_map.tile_list()).to_multiset().add(
                        resource_list@.to_multiset(),
                    ) =~= given.to_multiset());
                    assert forall|t: int|
                        0 <= t < hexagon_map.tile_list().len() implies in_board(
                            #[trigger] hexagon_map.tile_list()[t].coordinates,
                            3,
                        ) && (hexagon_map.tile_list()[t].coordinates.q < q || (
                        hexagon_map.tile_list()[t].coordinates.q == q
                            && hexagon_map.tile_list()[t].coordinates.r < r + 1)) by {
                        if t < before.len() {
                            assert(hexagon_map.tile_list()[t] == before[t]);
                        }
                    }
                    assert forall|t: int|
                        0 <= t < hexagon_map.tile_list().len() implies (
                        #[trigger] hexagon_map.tile_list()[t]).corner_settlements@.len() == 0 by {
                        if t < before.len() {
                            assert(hexagon_map.tile_list()[t] == before[t]);
                        }
                    }
                }
            }
            r = r + 1;
        }
        assert(grid_cells(q + 1) == grid_cells(q as int) + row_cells(q as int, 3));
        q = q + 1;
    }
    Ok((hexagon_map, board_resources))
}

/// Lays one chip on each resource tile, taking the values from the end of
/// `dice_chip_values`. Fails unless there is exactly one value per resource tile.
pub fn generate_dice_chips(hexagon_map: &HexagonMap, dice_chip_values: Vec<u8>) -> (r: Result<
    Vec<DiceChipLocation>,
    String,
>)
    requires
        hexagon_map.wf(),
    ensures
        r is Ok <==> dice_chip_values@.len() == resource_tiles(hexagon_map.tile_list()).len(),
        r matches Ok(chips) ==> {
            &&& chips_apart(chips@)
            &&& chips@.len() == dice_chip_values@.len()
            &&& chip_values(chips@).to_multiset() == dice_chip_values@.to_multiset()
            &&& forall|k: int|
                0 <= k < chips@.len() ==> dice_chip_values@.contains(
                    (#[trigger] chips@[k]).dice_value,
                ) && on_resource_tile(hexagon_map.tile_list(), chips@[k].assigned_tile)
        },
{
    let tiles = hexagon_map.get_tiles();
    let ghost pred = resource_pred();
    let mut count: usize = 0;
    let mut i: usize = 0;
    while i < tiles.len()
        invariant
            i <= tiles.len(),
            tiles@ == hexagon_map.tile_list(),
            pred == resource_pred(),
            count == tiles@.subrange(0, i as int).filter(pred).len(),
            count <= i,
        decreases tiles.len() - i,
    {
        proof {
            lemma_filter_prefix_step(tiles@, pred, i as int);
        }
        match tiles[i].tile_type {
            TileType::ResourceTile(_) => {
                count = count + 1;
            },
            TileType::FillerTile => {},
        }
        i = i + 1;
    }
    assert(tiles@.subrange(0, tiles@.len() as int) =~= tiles@);
    if dice_chip_values.len() != count {
        return Err("dice chip and resource tile count do not match".to_string());
    }
    let ghost given_values = dice_chip_values@;
    let mut values = dice_chip_values;
    let mut chips: Vec<DiceChipLocation> = Vec::new();
    let ghost mut witness: Seq<int> = Seq::empty();
    proof {
        broadcast use vstd::seq_lib::group_to_multiset_ensures;

        assert(chip_values(chips@) =~= Seq::<u8>::empty());
        assert(chip_values(chips@).to_multiset().add(values@.to_multiset()) =~= given_values.to_multiset());
    }
    let mut i: usize = 0;
    while i < tiles.len()
        invariant
            i <= tiles.len(),
            tiles@ == hexagon_map.tile_list(),
            pred == resource_pred(),
            count == tiles@.filter(pred).len(),
            given_values.len() == count,
            values@ == given_values.subrange(0, values@.len() as int),
            values@.len() + tiles@.subrange(0, i as int).filter(pred).len() == count,
            chips@.len() + values@.len() == count,
            chip_values(chips@).to_multiset().add(values@.to_multiset()) == given_values.to_multiset(),
            hexagon_map.wf(),
            witness.len() == chips@.len(),
            forall|k: int|
                0 <= k < witness.len() ==> 0 <= #[trigger] witness[k] < i
                    && chips@[k].assigned_tile == tiles@[witness[k]].coordinates,
            forall|a: int, b: int| 0 <= a < b < witness.len() ==> witness[a] < witness[b],
            forall|k: int|
                0 <= k < chips@.len() ==> given_values.contains((#[trigger] chips@[k]).dice_value)
                    && on_resource_tile(tiles@, chips@[k].assigned_tile),
        decreases tiles.len() - i,
    {
        proof {
            lemma_filter_prefix_step(tiles@, pred, i as int);
            lemma_filter_prefix_mono(tiles@, pred, i + 1, tiles@.len() as int);
            assert(tiles@.subrange(0, tiles@.len() as int) =~= tiles@);
        }
        let tile = &tiles[i];
        match tile.tile_type {
            TileType::ResourceTile(_) => {
                let ghost before_values = values@;
                let value = match values.pop() {
                    Some(v) => v,
                    None => {
                        assert(false);
                        return Err("not enough dice chip values".to_string());
                    },
                };
                proof {
                    assert(values@ =~= given_values.subrange(0, values@.len() as int));
                    assert(given_values[values@.len() as int] == value);
                    assert(given_values.contains(value));
                }
                let ghost before = chips@;
                chips.push(DiceChipLocation::from(value, tile.coordinates));
                proof {
                    witness = witness.push(i as int);
                    assert(tiles@[i as int] == *tile);
                    broadcast use vstd::seq_lib::group_to_multiset_ensures;

                    lemma_pop_multiset(before_values);
                    assert(values@ == before_values.drop_last());
                    assert(chip_values(chips@) =~= chip_values(before).push(value));
                    assert(chip_values(chips@).to_multiset().add(values@.to_multiset())
                        =~= given_values.to_multiset());
                    assert(tiles@[i as int] == *tile);
                    assert forall|k: int|
                        0 <= k < chips@.len() implies given_values.contains(
                            (#[trigger] chips@[k]).dice_value,
                        ) && on_resource_tile(tiles@, chips@[k].assigned_tile) by {
                        if k < before.len() {
                            assert(chips@[k] == before[k]);
                        } else {
                            assert(tiles@[i as int].coordinates == chips@[k].assigned_tile);
                        }
                    }
                }
            },
            TileType::FillerTile => {},
        }
        i = i + 1;
    }
    assert(tiles@.subrange(0, tiles@.len() as int) =~= tiles@);
    proof {
        broadcast use vstd::seq_lib::group_to_multiset_ensures;

        assert(values@.len() == 0);
        assert(values@.to_multiset() =~= Multiset::empty());
        assert(chip_values(chips@).to_multiset() =~= given_values.to_multiset());
        assert forall|a: int, b: int|
            0 <= a < chips@.len() && 0 <= b < chips@.len() && (#[trigger] chips@[a]).assigned_tile
                == (#[trigger] chips@[b]).assigned_tile implies a == b by {
            if a != b {
                assert(tiles@[witness[a]].coordinates == tiles@[witness[b]].coordinates);
                if a < b {
                    assert(witness[a] < witness[b]);
                } else {
                    assert(witness[b] < witness[a]);
                }
            }
        }
    }
    Ok(chips)
}

/// The tiles of `m` are those of `old_map` in the same order, with the same positions
/// and types.
pub open spec fn same_layout(m: HexagonMap, old_map: HexagonMap) -> bool {
    &&& m.tile_list().len() == old_map.tile_list().len()
    &&& forall|t: int|
        0 <= t < m.tile_list().len() ==> (#[trigger] m.tile_list()[t]).coordinates
            == old_map.tile_list()[t].coordinates && m.tile_list()[t].tile_type
            == old_map.tile_list()[t].tile_type
}

pub open spec fn min_of(a: int, b: int, c: int) -> int {
    if a <= b && a <= c {
        a
    } else if b <= c {
        b
    } else {
        c
    }
}

pub open spec fn max_of(a: int, b: int, c: int) -> int {
    if a >= b && a >= c {
        a
    } else if b >= c {
        b
    } else {
        c
    }
}

/// The id of the corner where tile `t` meets its neighbours `i` and `i + 1` (mod 6).
pub open spec fn corner_at(t: CubeCoordinates, i: int) -> SettlementLocationId {
    let a = t.neighbor(i);
    let b = t.neighbor((i + 1) % 6);
    SettlementLocationId {
        min: CubeCoordinates {
            q: min_of(t.q as int, a.q as int, b.q as int) as i32,
            r: min_of(t.r as int, a.r as int, b.r as int) as i32,
            s: min_of(t.s as int, a.s as int, b.s as int) as i32,
        },
        max: CubeCoordinates {
            q: max_of(t.q as int, a.q as int, b.q as int) as i32,
            r: max_of(t.r as int, a.r as int, b.r as int) as i32,
            s: max_of(t.s as int, a.s as int, b.s as int) as i32,
        },
    }
}

/// A road of `m` joins corners `x` and `y`, in either direction.
pub open spec fn joined(m: SettlementMap, x: SettlementLocationId, y: SettlementLocationId) -> bool {
    m.has_road_id(RoadLocation::id_of(x, y)) || m.has_road_id(RoadLocation::id_of(y, x))
}

/// Every corner and every road of `m` is still in `n`.
pub open spec fn grows(m: SettlementMap, n: SettlementMap) -> bool {
    &&& forall|id: SettlementLocationId| m.has_corner(id) ==> #[trigger] n.has_corner(id)
    &&& forall|id: RoadLocationId| m.has_road_id(id) ==> #[trigger] n.has_road_id(id)
}

/// Tile `x` of `hm` records its six corners, each is in `m`, and `m` joins each two
/// consecutive ones by a road.
pub open spec fn tile_done(hm: HexagonMap, m: SettlementMap, x: int) -> bool {
    forall|i: int| 0 <= i < 6 ==> #[trigger] corner_done(hm, m, x, i)
}

/// Corner `i` of tile `x` of `hm` is recorded on the tile and in `m`, and joined in `m`
/// to the next corner around the tile.
pub open spec fn corner_done(hm: HexagonMap, m: SettlementMap, x: int, i: int) -> bool {
    let c = hm.tile_list()[x].coordinates;
    &&& hm.tile_list()[x].corner_settlements@.contains(corner_at(c, i))
    &&& m.has_corner(corner_at(c, i))
    &&& joined(m, corner_at(c, i), corner_at(c, (i + 1) % 6))
}

/// No corner of `m` holds a building and no road is claimed.
pub open spec fn all_free(m: SettlementMap) -> bool {
    &&& forall|c: int| 0 <= c < m.corners().len() ==> (#[trigger] m.corners()[c]).settlement is None
    &&& forall|j: int|
        0 <= j < m.road_list().len() ==> (#[trigger] m.road_list()[j]).player_road is None
}

proof fn lemma_tile_done_grows(hm: HexagonMap, m: SettlementMap, hm2: HexagonMap, m2: SettlementMap, x: int)
    requires
        tile_done(hm, m, x),
        grows(m, m2),
        hm2.tile_list()[x].coordinates == hm.tile_list()[x].coordinates,
        forall|id: SettlementLocationId|
            hm.tile_list()[x].corner_settlements@.contains(id) ==> #[trigger] hm2.tile_list()[x].corner_settlements@.contains(id),
    ensures
        tile_done(hm2, m2, x),
{
    assert forall|i: int| 0 <= i < 6 implies #[trigger] corner_done(hm2, m2, x, i) by {
        let c = hm.tile_list()[x].coordinates;
        assert(corner_done(hm, m, x, i));
        assert(hm.tile_list()[x].corner_settlements@.contains(corner_at(c, i)));
        if m.has_road_id(RoadLocation::id_of(corner_at(c, i), corner_at(c, (i + 1) % 6))) {
            assert(m2.has_road_id(RoadLocation::id_of(corner_at(c, i), corner_at(c, (i + 1) % 6))));
        } else {
            assert(m2.has_road_id(RoadLocation::id_of(corner_at(c, (i + 1) % 6), corner_at(c, i))));
        }
    }
}

proof fn lemma_push_corner_grows(m: SettlementMap, n: SettlementMap, s: SettlementLocation)
    requires
        n.corners() == m.corners().push(s),
        n.road_list() == m.road_list(),
    ensures
        grows(m, n),
        n.has_corner(s.id),
{
    assert(n.corners()[m.corners().len() as int] == s);
    assert forall|id: SettlementLocationId| m.has_corner(id) implies #[trigger] n.has_corner(id) by {
        let i = choose|i: int| 0 <= i < m.corners().len() && #[trigger] m.corners()[i].id == id;
        assert(n.corners()[i] == m.corners()[i]);
    }
}

proof fn lemma_push_road_grows(m: SettlementMap, n: SettlementMap, road: RoadLocation)
    requires
        n.road_list() == m.road_list().push(road),
        n.corners() == m.corners(),
    ensures
        grows(m, n),
        n.has_road_id(road.id),
{
    assert(n.road_list()[m.road_list().len() as int] == road);
    assert forall|id: RoadLocationId| m.has_road_id(id) implies #[trigger] n.has_road_id(id) by {
        let j = choose|j: int| 0 <= j < m.road_list().len() && #[trigger] m.road_list()[j].id == id;
        assert(n.road_list()[j] == m.road_list()[j]);
    }
}

proof fn lemma_corner_at(center: CubeCoordinates, i: int, tiles: Seq<CubeCoordinates>, id: SettlementLocationId)
    requires
        0 <= i < 6,
        center.in_range(),
        tiles == seq![center, center.neighbor(i), center.neighbor((i + 1) % 6)],
        crate::locations::corner_id_of(tiles, id.min, id.max),
    ensures
        id == corner_at(center, i),
{
    assert(tiles[0] == center);
    assert(tiles[1] == center.neighbor(i));
    assert(tiles[2] == center.neighbor((i + 1) % 6));
}

/// Derives the corners and roads of a board from its tiles: for each tile and each pair
/// of consecutive neighbours, the corner where the three meet (with a seaport where one
/// of them is at sea), recorded on the tile; and a road between each pair of consecutive
/// corners around the tile, once.
#[verifier::rlimit(60)]
pub fn generate_settlement_map(hexagon_map: &mut HexagonMap) -> (r: Result<SettlementMap, String>)
    requires
        old(hexagon_map).wf(),
        forall|t: int|
            0 <= t < old(hexagon_map).tile_list().len() ==> (#[trigger] old(
                hexagon_map,
            ).tile_list()[t]).corner_settlements@.len() == 0,
        forall|t: int|
            0 <= t < old(hexagon_map).tile_list().len() ==> in_board(
                #[trigger] old(hexagon_map).tile_list()[t].coordinates,
                BOARD_SIZE as int,
            ),
    ensures
        r is Ok,
        r matches Ok(m) ==> {
            &&& m.wf()
            &&& all_free(m)
            &&& corners_known(*final(hexagon_map), m)
            &&& forall|t: int|
                0 <= t < final(hexagon_map).tile_list().len() ==> #[trigger] tile_done(
                    *final(hexagon_map),
                    m,
                    t,
                )
        },
        final(hexagon_map).wf(),
        same_layout(*final(hexagon_map), *old(hexagon_map)),
{
    let mut settlement_map = SettlementMap::new();
    let n = hexagon_map.get_tiles().len();
    let mut t: usize = 0;
    while t < n
        invariant
            t <= n,
            n == old(hexagon_map).tile_list().len(),
            hexagon_map.wf(),
            same_layout(*hexagon_map, *old(hexagon_map)),
            forall|x: int|
                0 <= x < old(hexagon_map).tile_list().len() ==> in_board(
                    #[trigger] old(hexagon_map).tile_list()[x].coordinates,
                    BOARD_SIZE as int,
                ),
            settlement_map.wf(),
            all_free(settlement_map),
            forall|x: int| 0 <= x < t ==> #[trigger] tile_done(*hexagon_map, settlement_map, x),
            corners_known(*hexagon_map, settlement_map),
        decreases n - t,
    {
        let center = hexagon_map.get_tiles()[t].coordinates;
        assert(hexagon_map.tile_list()[t as int].coordinates == old(hexagon_map).tile_list()[t as int].coordinates);
        let tile_neighbors = center.get_neighbor_coordinates();
        let ghost tiles_before = *hexagon_map;
        let ghost map_before = settlement_map;
        let mut corner_settlements: Vec<SettlementLocationId> = Vec::new();
        let mut i: usize = 0;
        while i < tile_neighbors.len()
            invariant
                i <= tile_neighbors.len(),
                tile_neighbors@ == center.neighbors(),
                center.in_range(),
                center == hexagon_map.tile_list()[t as int].coordinates,
                t < n,
                n == old(hexagon_map).tile_list().len(),
                hexagon_map.wf(),
                same_layout(*hexagon_map, *old(hexagon_map)),
                settlement_map.wf(),
                all_free(settlement_map),
                grows(map_before, settlement_map),
                same_layout(*hexagon_map, tiles_before),
                forall|x: int|
                    0 <= x < n && x != t ==> #[trigger] hexagon_map.tile_list()[x]
                        == tiles_before.tile_list()[x],
                forall|id: SettlementLocationId|
                    tiles_before.tile_list()[t as int].corner_settlements@.contains(id)
                        ==> #[trigger] hexagon_map.tile_list()[t as int].corner_settlements@.contains(id),
                corner_settlements@.len() == i,
                forall|k: int|
                    0 <= k < i ==> #[trigger] corner_settlements@[k] == corner_at(center, k)
                        && settlement_map.has_corner(corner_at(center, k))
                        && hexagon_map.tile_list()[t as int].corner_settlements@.contains(
                        corner_at(center, k),
                    ),
                corners_known(*hexagon_map, settlement_map),
            decreases tile_neighbors.len() - i,
        {
            let neighbor_1 = tile_neighbors[i];
            let neighbor_2 = tile_neighbors[(i + 1) % tile_neighbors.len()];
            let neighbor_tiles: Vec<CubeCoordinates> = vec![center, neighbor_1, neighbor_2];
            let seaport = if is_any_sea_tile(&neighbor_tiles, BOARD_SIZE) {
                Some(
                    SeaportLocation::new(
                        SeaportTradeContract::AnyResource(AcceptsNAnyTradeContract::new(1, 3)),
                    ),
                )
            } else {
                None
            };
            let ghost triple = neighbor_tiles@;
            let settlement = SettlementLocation::from(neighbor_tiles, seaport);
            let id = settlement.id;
            proof {
                assert(triple == seq![center, center.neighbor(i as int), center.neighbor((i + 1) % 6)]);
                lemma_corner_at(center, i as int, triple, id);
            }
            let ghost map_mid = settlement_map;
            if !settlement_map.has_settlement(&id) {
                match settlement_map.add_settlement(settlement) {
                    Ok(()) => {},
                    Err(e) => {
                        assert(false);
                        return Err(e);
                    },
                }
                proof {
                    lemma_push_corner_grows(map_mid, settlement_map, settlement);
                    assert forall|c: int| 0 <= c < settlement_map.corners().len() implies (
                    #[trigger] settlement_map.corners()[c]).settlement is None by {
                        if c < map_mid.corners().len() {
                            assert(settlement_map.corners()[c] == map_mid.corners()[c]);
                        }
                    }
                }
            }
            proof {
                assert(grows(map_before, settlement_map));
                assert(settlement_map.has_corner(id));
                if map_mid != settlement_map {
                    assert(grows(map_mid, settlement_map));
                }
                assert forall|x: int, k: int|
                    0 <= x < hexagon_map.tile_list().len() && 0 <= k
                        < hexagon_map.tile_list()[x].corner_settlements@.len() implies settlement_map.has_corner(
                    #[trigger] hexagon_map.tile_list()[x].corner_settlements@[k],
                ) by {
                    assert(map_mid.has_corner(hexagon_map.tile_list()[x].corner_settlements@[k]));
                }
            }
            let ghost ids_before = corner_settlements@;
            corner_settlements.push(id);
            let ghost pre = *hexagon_map;
            let _recorded = hexagon_map.add_corner_settlement(t, id);
            proof {
                assert forall|x: int| 0 <= x < hexagon_map.tile_list().len() implies (
                #[trigger] hexagon_map.tile_list()[x]).coordinates
                    == old(hexagon_map).tile_list()[x].coordinates
                    && hexagon_map.tile_list()[x].tile_type
                    == old(hexagon_map).tile_list()[x].tile_type by {
                    assert(pre.tile_list()[x].coordinates == old(hexagon_map).tile_list()[x].coordinates);
                    if x != t {
                        assert(hexagon_map.tile_list()[x] == pre.tile_list()[x]);
                    }
                }
                assert forall|x: int| 0 <= x < hexagon_map.tile_list().len() implies (
                #[trigger] hexagon_map.tile_list()[x]).coordinates
                    == tiles_before.tile_list()[x].coordinates
                    && hexagon_map.tile_list()[x].tile_type
                    == tiles_before.tile_list()[x].tile_type by {
                    assert(pre.tile_list()[x].coordinates == tiles_before.tile_list()[x].coordinates);
                    if x != t {
                        assert(hexagon_map.tile_list()[x] == pre.tile_list()[x]);
                    }
                }
                assert forall|x: int| 0 <= x < n && x != t implies #[trigger] hexagon_map.tile_list()[x]
                    == tiles_before.tile_list()[x] by {
                    assert(hexagon_map.tile_list()[x] == pre.tile_list()[x]);
                }
                let after = hexagon_map.tile_list()[t as int].corner_settlements@;
                let before_list = pre.tile_list()[t as int].corner_settlements@;
                assert forall|e: SettlementLocationId| before_list.contains(e) implies #[trigger] after.contains(e) by {
                    if !before_list.contains(id) {
                        let k = choose|k: int| 0 <= k < before_list.len() && before_list[k] == e;
                        assert(after[k] == e);
                    }
                }
                assert(after.contains(id)) by {
                    if !before_list.contains(id) {
                        assert(after[before_list.len() as int] == id);
                    }
                }
                assert forall|x: int, k: int|
                    0 <= x < hexagon_map.tile_list().len() && 0 <= k
                        < hexagon_map.tile_list()[x].corner_settlements@.len() implies settlement_map.has_corner(
                    #[trigger] hexagon_map.tile_list()[x].corner_settlements@[k],
                ) by {
                    if x != t {
                        assert(hexagon_map.tile_list()[x] == pre.tile_list()[x]);
                        assert(pre.tile_list()[x].corner_settlements@[k] == hexagon_map.tile_list()[x].corner_settlements@[k]);
                    } else if k < before_list.len() {
                        assert(before_list[k] == after[k]);
                    } else {
                        assert(after[k] == id);
                    }
                }
                assert forall|id2: SettlementLocationId|
                    tiles_before.tile_list()[t as int].corner_settlements@.contains(id2)
                        implies #[trigger] hexagon_map.tile_list()[t as int].corner_settlements@.contains(id2) by {
                    assert(before_list.contains(id2));
                }
                assert forall|k: int|
                    0 <= k < i + 1 implies #[trigger] corner_settlements@[k] == corner_at(center, k)
                        && settlement_map.has_corner(corner_at(center, k))
                        && hexagon_map.tile_list()[t as int].corner_settlements@.contains(
                        corner_at(center, k),
                    ) by {
                    if k < i {
                        assert(corner_settlements@[k] == ids_before[k]);
                        assert(map_mid.has_corner(corner_at(center, k)));
                        assert(before_list.contains(corner_at(center, k)));
                    }
                }
            }
            i = i + 1;
        }
        let ghost map_roads_start = settlement_map;
        assert forall|k: int| 0 <= k < 6 implies map_roads_start.has_corner(#[trigger] corner_at(center, k)) by {
            assert(corner_settlements@[k] == corner_at(center, k));
        }
        let mut c: usize = 0;
        while c < corner_settlements.len()
            invariant
                c <= corner_settlements.len(),
                corner_settlements@.len() == 6,
                settlement_map.wf(),
                all_free(settlement_map),
                grows(map_roads_start, settlement_map),
                settlement_map.corners() == map_roads_start.corners(),
                corners_known(*hexagon_map, map_roads_start),
                forall|k: int|
                    0 <= k < 6 ==> #[trigger] corner_settlements@[k] == corner_at(center, k),
                forall|k: int| 0 <= k < 6 ==> map_roads_start.has_corner(#[trigger] corner_at(center, k)),
                forall|k: int|
                    0 <= k < c ==> #[trigger] joined(
                        settlement_map,
                        corner_at(center, k),
                        corner_at(center, (k + 1) % 6),
                    ),
            decreases corner_settlements.len() - c,
        {
            let settlement_a_id = corner_settlements[c];
            let settlement_b_id = corner_settlements[(c + 1) % corner_settlements.len()];
            let road_a = RoadLocation::from(settlement_a_id, settlement_b_id);
            let road_b = RoadLocation::from(settlement_b_id, settlement_a_id);
            let ghost map_mid = settlement_map;
            let ghost added = false;
            if !(settlement_map.has_road(&road_a.id) || settlement_map.has_road(&road_b.id)) {
                assert(corner_settlements@[c as int] == corner_at(center, c as int));
                assert(corner_settlements@[(c + 1) % 6] == corner_at(center, (c + 1) % 6));
                assert(map_roads_start.has_corner(settlement_a_id));
                assert(map_roads_start.has_corner(settlement_b_id));
                match settlement_map.add_road(road_a) {
                    Ok(()) => {},
                    Err(e) => {
                        assert(false);
                        return Err(e);
                    },
                }
                proof {
                    added = true;
                    lemma_push_road_grows(map_mid, settlement_map, road_a);
                    assert forall|j: int| 0 <= j < settlement_map.road_list().len() implies (
                    #[trigger] settlement_map.road_list()[j]).player_road is None by {
                        if j < map_mid.road_list().len() {
                            assert(settlement_map.road_list()[j] == map_mid.road_list()[j]);
                        }
                    }
                }
            }
            proof {
                if !added {
                    assert(settlement_map == map_mid);
                }
                assert(grows(map_mid, settlement_map));
                assert forall|k: int| 0 <= k < c + 1 implies #[trigger] joined(
                    settlement_map,
                    corner_at(center, k),
                    corner_at(center, (k + 1) % 6),
                ) by {
                    let x = corner_at(center, k);
                    let y = corner_at(center, (k + 1) % 6);
                    if k < c {
                        assert(joined(map_mid, x, y));
                        if map_mid.has_road_id(RoadLocation::id_of(x, y)) {
                            assert(settlement_map.has_road_id(RoadLocation::id_of(x, y)));
                        } else {
                            assert(settlement_map.has_road_id(RoadLocation::id_of(y, x)));
                        }
                    } else {
                        assert(corner_settlements@[(c + 1) % 6] == y);
                    }
                }
            }
            c = c + 1;
        }
        proof {
            assert(grows(map_before, settlement_map));
            assert(settlement_map.corners() == map_roads_start.corners());
            assert(tile_done(*hexagon_map, settlement_map, t as int)) by {
                assert forall|i: int| 0 <= i < 6 implies #[trigger] corner_done(*hexagon_map, settlement_map, t as int, i) by {
                    assert(corner_settlements@[i] == corner_at(center, i));
                    assert(map_roads_start.has_corner(corner_at(center, i)));
                }
            }
            assert forall|x: int| 0 <= x < t + 1 implies #[trigger] tile_done(*hexagon_map, settlement_map, x) by {
                if x < t {
                    assert(tile_done(tiles_before, map_before, x));
                    assert(hexagon_map.tile_list()[x] == tiles_before.tile_list()[x]);
                    lemma_tile_done_grows(
                        tiles_before,
                        map_before,
                        *hexagon_map,
                        settlement_map,
                        x,
                    );
                }
            }
        }
        t = t + 1;
    }
    Ok(settlement_map)
}

proof fn lemma_same_layout_resource_tiles(m: HexagonMap, o: HexagonMap)
    requires
        same_layout(m, o),
    ensures
        resource_tiles(m.tile_list()).len() == resource_tiles(o.tile_list()).len(),
        forall|c: CubeCoordinates|
            on_resource_tile(o.tile_list(), c) ==> #[trigger] on_resource_tile(m.tile_list(), c),
{
    lemma_filter_same_len(m.tile_list(), o.tile_list());
    assert forall|c: CubeCoordinates|
        on_resource_tile(o.tile_list(), c) implies #[trigger] on_resource_tile(m.tile_list(), c) by {
        let t = choose|t: int|
            0 <= t < o.tile_list().len() && #[trigger] o.tile_list()[t].coordinates == c
                && is_resource_tile(o.tile_list()[t]);
        assert(m.tile_list()[t].coordinates == c);
    }
}

proof fn lemma_same_kinds(a: Seq<HexagonTile>, b: Seq<HexagonTile>)
    requires
        a.len() == b.len(),
        forall|t: int| 0 <= t < a.len() ==> (#[trigger] a[t]).tile_type == b[t].tile_type,
    ensures
        resource_kinds(a) == resource_kinds(b),
    decreases a.len(),
{
    if a.len() > 0 {
        lemma_same_kinds(a.drop_last(), b.drop_last());
        lemma_resource_kinds_push(a.drop_last(), a.last());
        lemma_resource_kinds_push(b.drop_last(), b.last());
        assert(a.drop_last().push(a.last()) =~= a);
        assert(b.drop_last().push(b.last()) =~= b);
    } else {
        assert(a =~= b);
    }
}

proof fn lemma_filter_same_len(a: Seq<HexagonTile>, b: Seq<HexagonTile>)
    requires
        a.len() == b.len(),
        forall|t: int| 0 <= t < a.len() ==> (#[trigger] a[t]).tile_type == b[t].tile_type,
    ensures
        a.filter(resource_pred()).len() == b.filter(resource_pred()).len(),
    decreases a.len(),
{
    reveal(Seq::filter);
    if a.len() > 0 {
        lemma_filter_same_len(a.drop_last(), b.drop_last());
    }
}

/// Builds a board from the given resource layout, dice-chip values and deck: the
/// deterministic part of board generation. Fails unless there are exactly as many
/// resource kinds and dice-chip values as resource tiles.
pub fn generate_board_from(
    resource_list: Vec<ResourceKind>,
    dice_chip_values: Vec<u8>,
    development_cards: Vec<DevelopmentCard>,
) -> (r: Result<GameBoard, String>)
    ensures
        r is Ok <==> resource_list@.len() == RESOURCE_TILE_COUNT && dice_chip_values@.len()
            == RESOURCE_TILE_COUNT,
        r matches Ok(b) ==> {
            &&& generated_board(b)
            &&& b.development_cards@ == development_cards@
            &&& resource_kinds(b.tile_map.tile_list()).to_multiset() == resource_list@.to_multiset()
            &&& chip_values(b.dice_chips@).to_multiset() == dice_chip_values@.to_multiset()
            &&& forall|k: int|
                0 <= k < b.dice_chips@.len() ==> dice_chip_values@.contains(
                    (#[trigger] b.dice_chips@[k]).dice_value,
                )
        },
{
    let ghost given_resources = resource_list@;
    let (mut tile_map, board_resources) = match generate_hexagon_map(resource_list) {
        Ok(values) => values,
        Err(err) => return Err(err),
    };
    let dice_chips = match generate_dice_chips(&tile_map, dice_chip_values) {
        Ok(chips) => chips,
        Err(err) => return Err(err),
    };
    let robber_location = get_robber_location();
    let ghost laid_out = tile_map;
    let settlement_map = match generate_settlement_map(&mut tile_map) {
        Ok(map) => map,
        Err(err) => return Err(err),
    };
    proof {
        lemma_same_layout_resource_tiles(tile_map, laid_out);
        lemma_same_kinds(tile_map.tile_list(), laid_out.tile_list());
        assert forall|t: int| 0 <= t < tile_map.tile_list().len() implies in_board(
            #[trigger] tile_map.tile_list()[t].coordinates,
            BOARD_SIZE as int,
        ) by {
            assert(laid_out.tile_list()[t].coordinates == tile_map.tile_list()[t].coordinates);
        }
        assert forall|k: int| 0 <= k < dice_chips@.len() implies on_resource_tile(
            tile_map.tile_list(),
            #[trigger] dice_chips@[k].assigned_tile,
        ) by {
            assert(on_resource_tile(laid_out.tile_list(), dice_chips@[k].assigned_tile));
        }
    }
    Ok(
        GameBoard::from(
            tile_map,
            settlement_map,
            dice_chips,
            robber_location,
            board_resources,
            development_cards,
        ),
    )
}

/// Generates a board of the reference size: shuffled resources, shuffled dice chips
/// (none showing 7) and a shuffled deck of 25 development cards.
pub fn generate_board() -> (r: Result<GameBoard, String>)
    ensures
        r is Ok,
        r matches Ok(b) ==> {
            &&& generated_board(b)
            &&& b.development_cards@.len() == DEVELOPMENT_CARD_COUNT
            &&& b.development_cards@.to_multiset() == reference_deck().to_multiset()
            &&& resource_kinds(b.tile_map.tile_list()).to_multiset()
                == reference_resources().to_multiset()
            &&& chip_values(b.dice_chips@).to_multiset() == reference_dice_values().to_multiset()
            &&& forall|k: int|
                0 <= k < b.dice_chips@.len() ==> (#[trigger] b.dice_chips@[k]).dice_value != 7
        },
{
    let mut resources = board_resource_list();
    shuffle(&mut resources);
    let mut dice = dice_chip_value_list();
    let ghost fixed = dice@;
    shuffle(&mut dice);
    let mut cards = development_card_list();
    shuffle(&mut cards);
    proof {
        broadcast use vstd::seq_lib::group_to_multiset_ensures;

        assert forall|v: u8| dice@.contains(v) implies v != 7 by {
            assert(dice@.to_multiset().count(v) > 0);
            assert(fixed.to_multiset().count(v) > 0);
            assert(fixed.contains(v));
        }
    }
    generate_board_from(resources, dice, cards)
}

} // verus!
