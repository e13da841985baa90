use settler_island::state_machine::{BuildNFreeRoads, GameState, StateId, StateMachine};
use settler_island::actions::ActionKind;
use settler_island::coordinates::CubeCoordinates;
use settler_island::hexagon::{HexagonMap, HexagonTile, TileType};
use settler_island::locations::{
    PlayerRoad, PlayerSettlement, RoadLocation, SettlementLocation, SettlementLocationId,
    SettlementType,
};
use settler_island::resources::{
    get_city_cost, get_development_card_cost, get_road_cost, get_total_resources,
    get_village_cost, PlayerResources, ResourceCollection, ResourceKind,
};
use settler_island::settlement_map::SettlementMap;
use settler_island::trade_contract::{
    AcceptsNAnyTradeContract, AcceptsNSingleResourceTradeContract, TradeContract,
};

fn coll(clay: usize, wood: usize, ore: usize, sheep: usize, wheat: usize) -> ResourceCollection {
    ResourceCollection { clay, wood, ore, sheep, wheat }
}

fn c(q: i32, r: i32, s: i32) -> CubeCoordinates {
    CubeCoordinates::from(q, r, s)
}

#[test]
fn cube_coordinates_constructors_complete_the_third_axis() {
    assert_eq!(CubeCoordinates::from_qr(1, -2), c(1, -2, 1));
    assert_eq!(CubeCoordinates::from_rs(2, 0), c(-2, 2, 0));
    assert_eq!(CubeCoordinates::from_qs(-1, -1), c(-1, 2, -1));
}

#[test]
fn neighbors_come_in_canonical_order() {
    let n = c(1, -1, 0).get_neighbor_coordinates();
    assert_eq!(
        n,
        vec![c(2, -1, -1), c(1, 0, -1), c(0, 0, 0), c(0, -1, 1), c(1, -2, 1), c(2, -2, 0)]
    );
}

#[test]
fn min_and_max_are_componentwise() {
    let tiles = vec![c(0, 0, 0), c(1, -1, 0), c(1, 0, -1)];
    assert_eq!(CubeCoordinates::min(&tiles), c(0, -1, -1));
    assert_eq!(CubeCoordinates::max(&tiles), c(1, 0, 0));
}

#[test]
fn ledger_adds_and_removes_atomically() {
    let mut p = PlayerResources::new();
    p.add_resource(ResourceKind::Wood, 3);
    p.add_resources(coll(1, 1, 0, 2, 0));
    assert_eq!(p.get_resource(ResourceKind::Wood), 4);
    assert_eq!(p.get_total_resources(), 7);
    assert!(p.has_resource(ResourceKind::Sheep, 2));
    assert!(!p.has_resource(ResourceKind::Sheep, 3));
    assert!(!p.remove_resource(ResourceKind::Ore, 1));
    assert!(p.remove_resource(ResourceKind::Wood, 4));
    assert_eq!(p.get_resource(ResourceKind::Wood), 0);
    // a removal that is short in one kind removes nothing
    assert!(!p.remove_resources(&coll(1, 1, 0, 0, 0)));
    assert_eq!(p.get_resources(), coll(1, 0, 0, 2, 0));
    assert!(p.remove_resources(&coll(1, 0, 0, 1, 0)));
    assert_eq!(p.get_resources(), coll(0, 0, 0, 1, 0));
    assert!(p.has_resources(&coll(0, 0, 0, 1, 0)));
    assert!(!p.has_resources(&coll(0, 0, 0, 2, 0)));
}

#[test]
fn totals_and_costs() {
    assert_eq!(get_total_resources(&coll(1, 2, 3, 4, 5)), 15);
    assert_eq!(coll(usize::MAX, 1, 0, 0, 0).checked_total(), None);
    assert_eq!(get_road_cost(), coll(1, 1, 0, 0, 0));
    assert_eq!(get_village_cost(), coll(1, 1, 0, 1, 1));
    assert_eq!(get_city_cost(), coll(0, 0, 3, 0, 2));
    assert_eq!(get_development_card_cost(), coll(0, 0, 1, 1, 1));
    assert_eq!(ResourceCollection::single(ResourceKind::Ore, 4), coll(0, 0, 4, 0, 0));
}

#[test]
fn any_resource_contract_checks_the_ratio() {
    let contract = AcceptsNAnyTradeContract::new(1, 3);
    assert!(contract.accepts_offer(coll(1, 0, 0, 0, 0), coll(0, 2, 1, 0, 0)));
    assert!(contract.accepts_offer(coll(1, 1, 0, 0, 0), coll(0, 0, 6, 0, 0)));
    assert!(!contract.accepts_offer(coll(1, 0, 0, 0, 0), coll(0, 2, 0, 0, 0)));
    assert!(!contract.accepts_offer(coll(0, 0, 0, 0, 0), coll(0, 0, 0, 0, 0)));
    let two_for_one = AcceptsNAnyTradeContract::new(2, 1);
    assert!(!two_for_one.accepts_offer(coll(3, 0, 0, 0, 0), coll(0, 1, 0, 0, 0)));
    assert!(two_for_one.accepts_offer(coll(4, 0, 0, 0, 0), coll(0, 2, 0, 0, 0)));
}

#[test]
fn single_resource_contract_needs_one_kind() {
    let contract = AcceptsNSingleResourceTradeContract::new(1, 2, ResourceKind::Wheat);
    assert!(contract.accepts_offer(coll(0, 0, 0, 0, 2), coll(4, 0, 0, 0, 0)));
    assert!(!contract.accepts_offer(coll(0, 1, 0, 0, 1), coll(4, 0, 0, 0, 0)));
}

#[test]
fn hexagon_map_refuses_a_taken_position() {
    let mut m = HexagonMap::new();
    assert!(m.add_tile(HexagonTile::from(c(0, 0, 0), TileType::FillerTile)).is_ok());
    assert!(m
        .add_tile(HexagonTile::from(c(0, 0, 0), TileType::ResourceTile(ResourceKind::Ore)))
        .is_err());
    assert!(m
        .add_tile(HexagonTile::from(c(1, 0, -1), TileType::ResourceTile(ResourceKind::Ore)))
        .is_ok());
    assert_eq!(m.get_tiles().len(), 2);
    assert!(m.get_tile(&c(1, 0, -1)).is_some());
    assert!(m.get_tile(&c(2, 0, -2)).is_none());
    let around = m.get_tile_neighbors(&c(0, 0, 0));
    assert_eq!(around.len(), 1);
    assert_eq!(around[0].coordinates, c(1, 0, -1));
}

#[test]
fn tile_records_each_corner_once() {
    let mut t = HexagonTile::from(c(0, 0, 0), TileType::FillerTile);
    let id = SettlementLocationId { min: c(0, 0, 0), max: c(1, 1, 1) };
    assert!(t.add_corner_settlement(id).is_ok());
    assert!(t.add_corner_settlement(id).is_err());
    assert_eq!(t.get_corner_settlement_ids().len(), 1);
}

fn corner(tiles: Vec<CubeCoordinates>) -> SettlementLocation {
    SettlementLocation::from(tiles, None)
}

#[test]
fn corner_id_is_min_and_max_of_its_tiles() {
    let s = corner(vec![c(0, 0, 0), c(1, 0, -1), c(1, -1, 0)]);
    assert_eq!(s.get_id().min, c(0, -1, -1));
    assert_eq!(s.get_id().max, c(1, 0, 0));
    // the same three tiles in another order give the same id
    let t = corner(vec![c(1, -1, 0), c(0, 0, 0), c(1, 0, -1)]);
    assert_eq!(s.get_id(), t.get_id());
}

#[test]
fn village_then_city() {
    let mut s = corner(vec![c(0, 0, 0), c(1, 0, -1), c(1, -1, 0)]);
    assert!(s.build_settlement(SettlementType::City, 0).is_err());
    assert!(s.build_settlement(SettlementType::Village, 0).is_ok());
    assert!(s.is_owner(0));
    assert!(s.build_settlement(SettlementType::Village, 1).is_err());
    assert!(s.build_settlement(SettlementType::City, 1).is_err());
    assert!(s.build_settlement(SettlementType::City, 0).is_ok());
    assert_eq!(
        *s.get_settlement(),
        Some(PlayerSettlement { player_id: 0, settlement_type: SettlementType::City })
    );
    assert!(s.build_settlement(SettlementType::City, 0).is_err());
    s.destroy_settlement();
    assert!(s.get_settlement().is_none());
}

#[test]
fn road_is_claimed_once() {
    let a = SettlementLocationId { min: c(0, 0, 0), max: c(1, 1, 1) };
    let b = SettlementLocationId { min: c(0, 0, 0), max: c(2, 2, 2) };
    let mut road = RoadLocation::from(a, b);
    assert!(!road.has_road());
    assert!(road.build_road(PlayerRoad::from(1)).is_ok());
    assert!(road.build_road(PlayerRoad::from(0)).is_err());
    assert_eq!(road.get_player_road().unwrap().get_player_id(), 1);
}

#[test]
fn settlement_map_links_corners_by_roads() {
    let mut m = SettlementMap::new();
    let s1 = corner(vec![c(0, 0, 0), c(1, 0, -1), c(1, -1, 0)]);
    let s2 = corner(vec![c(0, 0, 0), c(1, 0, -1), c(0, 1, -1)]);
    let s3 = corner(vec![c(0, 0, 0), c(0, 1, -1), c(-1, 1, 0)]);
    let (a, b, d) = (s1.id, s2.id, s3.id);
    assert!(m.add_settlement(s1.clone()).is_ok());
    assert!(m.add_settlement(s1).is_err());
    assert!(m.add_settlement(s2).is_ok());
    // a road to a corner that is not in the map is refused
    assert!(m.add_road(RoadLocation::from(b, d)).is_err());
    assert!(m.add_settlement(s3).is_ok());
    assert!(m.add_road(RoadLocation::from(a, b)).is_ok());
    assert!(m.add_road(RoadLocation::from(a, b)).is_err());
    assert!(m.add_road(RoadLocation::from(b, d)).is_ok());
    assert_eq!(m.get_settlement_roads(&b).len(), 2);
    assert_eq!(m.get_neighbor_settlements(&b).len(), 2);
    assert!(!m.is_neighbor_occupied(&a));
    assert!(m.build_settlement(&b, SettlementType::Village, 0).is_ok());
    assert!(m.is_neighbor_occupied(&a));
    assert!(m.is_neighbor_occupied(&d));
    assert!(SettlementMap::any_settlement_occupied(&m.get_neighbor_settlements(&a)));
    assert_eq!(m.get_player_settlements(0), vec![b]);
    assert!(m.get_player_settlements(1).is_empty());
    assert!(!m.has_settlement_player_roads(&a, 0));
    let ab = RoadLocation::from(a, b).id;
    assert!(m.build_road(&ab, 0).is_ok());
    assert!(m.has_settlement_player_roads(&a, 0));
    assert!(m.build_road(&ab, 1).is_err());
}

#[test]
fn action_ids_map_to_kinds() {
    assert_eq!(ActionKind::from_id("BuildSettlement"), ActionKind::BuildSettlement);
    assert_eq!(ActionKind::from_id("DrawDevelopmentCard"), ActionKind::DrawDevelopmentCard);
    assert_eq!(ActionKind::from_id("CancelTrade"), ActionKind::CancelTrade);
    assert_eq!(ActionKind::from_id("SelectSettlement"), ActionKind::Unknown);
    assert_eq!(ActionKind::from_id(""), ActionKind::Unknown);
}

#[test]
fn trade_offer_tracks_answers() {
    let mut offer = settler_island::trade::TradeOffer::new(
        1,
        coll(1, 0, 0, 0, 0),
        coll(0, 1, 0, 0, 0),
        vec![0, 2, 2],
    );
    assert_eq!(offer.players_accepted.len(), 2);
    assert!(!offer.is_accepted(0));
    offer.set_answer(0, true);
    assert!(offer.is_accepted(0));
    assert!(!offer.is_accepted(2));
    offer.set_answer(0, false);
    assert!(!offer.is_accepted(0));
    assert!(offer.find(1).is_none());
}

#[test]
fn chips_and_tiles_by_number() {
    let board = settler_island::generator::generate_board_from(
        settler_island::generator::board_resource_list(),
        settler_island::generator::dice_chip_value_list(),
        settler_island::generator::development_card_list(),
    )
    .unwrap();
    assert_eq!(board.get_dice_chips_by_number(3).len(), 2);
    assert_eq!(board.get_dice_chips_by_number(12).len(), 1);
    assert_eq!(board.get_dice_chips_by_number(7).len(), 0);
    let tiles = board.get_tiles_by_dice_value(8);
    assert_eq!(tiles.len(), 2);
    assert!(tiles.iter().all(|t| matches!(t.get_type(), TileType::ResourceTile(_))));
}

#[test]
fn registry_keeps_the_last_state_per_id() {
    let states = vec![
        GameState::BuildNFreeRoads(BuildNFreeRoads::new(1)),
        GameState::BuildNFreeRoads(BuildNFreeRoads::new(3)),
    ];
    let mut m = StateMachine::from(states, StateId::SelectAction);
    assert_eq!(m.states.len(), 1);
    assert!(m.get_current_state().is_none());
    assert!(m.transition_to(StateId::BuildNFreeRoads).is_ok());
    assert_eq!(m.get_free_roads_left(), 3);
    m.use_free_road();
    assert_eq!(m.get_free_roads_left(), 2);
    m.to_error_state();
    assert_eq!(m.get_current_state_id(), StateId::GameError);
}
