use settler_island::actions::{
    ActionData, ActionKind, CompletePlayerTradeData, DrawDevelopmentCardData, GameAction,
    MonopolyData, PlaceRoadData, PlaceRobberData, PlaceSettlementData, TradeOfferData,
};
use settler_island::board::{DevelopmentCard, DoubleDiceRoll};
use settler_island::coordinates::CubeCoordinates;
use settler_island::game::{Game, GameError, GameSettings};
use settler_island::generator::{
    board_resource_list, development_card_list, dice_chip_value_list, generate_board_from,
};
use settler_island::hexagon::TileType;
use settler_island::locations::{RoadLocationId, SettlementLocationId, SettlementType};
use settler_island::resources::{ResourceCollection, ResourceKind};
use settler_island::state_machine::{
    GameState, StartRoadPlacement, StartVillagePlacement, StateId, StateMachine,
};

fn coll(clay: usize, wood: usize, ore: usize, sheep: usize, wheat: usize) -> ResourceCollection {
    ResourceCollection { clay, wood, ore, sheep, wheat }
}

fn new_game(players: u8) -> Game {
    let board =
        generate_board_from(board_resource_list(), dice_chip_value_list(), development_card_list())
            .unwrap();
    Game::from(board, GameSettings { players }, StateMachine::standard())
}

fn state(g: &Game) -> StateId {
    g.get_state_machine().get_current_state_id()
}

fn village(id: SettlementLocationId) -> GameAction {
    GameAction::new(
        ActionKind::BuildSettlement,
        ActionData::PlaceSettlement(PlaceSettlementData {
            settlement_type: SettlementType::Village,
            settlement_id: id,
        }),
    )
}

fn city(id: SettlementLocationId) -> GameAction {
    GameAction::new(
        ActionKind::BuildSettlement,
        ActionData::PlaceSettlement(PlaceSettlementData {
            settlement_type: SettlementType::City,
            settlement_id: id,
        }),
    )
}

fn road(id: RoadLocationId) -> GameAction {
    GameAction::new(ActionKind::BuildRoad, ActionData::PlaceRoad(PlaceRoadData { road_id: id }))
}

fn bare(kind: ActionKind) -> GameAction {
    GameAction::new(kind, ActionData::Empty)
}

fn corner(g: &Game, i: usize) -> SettlementLocationId {
    g.board.settlement_map.get_settlements()[i].id
}

fn roads_at(g: &Game, id: SettlementLocationId) -> Vec<RoadLocationId> {
    g.board.settlement_map.get_settlement_roads(&id).iter().map(|r| r.id).collect()
}

fn other_end(g: &Game, road_id: RoadLocationId, id: SettlementLocationId) -> SettlementLocationId {
    let r = g.board.settlement_map.get_road(&road_id).unwrap();
    if r.settlement_a_id == id {
        r.settlement_b_id
    } else {
        r.settlement_a_id
    }
}

/// A corner that is neither `a` nor one road away from any corner of `taken`.
fn free_corner(g: &Game, taken: &[SettlementLocationId]) -> SettlementLocationId {
    for s in g.board.settlement_map.get_settlements() {
        let id = s.id;
        let clash = taken.iter().any(|t| {
            *t == id || roads_at(g, *t).iter().any(|r| other_end(g, *r, *t) == id)
        });
        if !clash {
            return id;
        }
    }
    panic!("no free corner");
}

#[test]
fn opening_village_then_road_passes_the_turn() {
    let mut g = new_game(2);
    assert_eq!(state(&g), StateId::StartVillagePlacement);
    let a = corner(&g, 0);
    assert_eq!(g.perform_action(0, village(a)), Ok(()));
    assert_eq!(state(&g), StateId::StartRoadPlacement);
    let r = roads_at(&g, a)[0];
    assert_eq!(g.perform_action(0, road(r)), Ok(()));
    assert_eq!(g.get_current_player_index(), 1);
    assert_eq!(state(&g), StateId::StartVillagePlacement);
    assert_eq!(g.get_player_settlement_count(0), 1);
}

#[test]
fn seven_without_full_hands_moves_the_robber() {
    let mut g = new_game(2);
    assert_eq!(g.transition(StateId::RollDice), Ok(()));
    assert_eq!(g.apply_dice_roll(DoubleDiceRoll::from(3, 4)), Ok(()));
    assert_eq!(state(&g), StateId::RobberRelocate);
}

#[test]
fn seven_with_a_full_hand_asks_for_discards() {
    let mut g = new_game(2);
    g.grant_resources(1, coll(2, 2, 2, 2, 1));
    assert_eq!(g.transition(StateId::RollDice), Ok(()));
    assert!(g.has_a_player_too_many_cards());
    assert_eq!(g.apply_dice_roll(DoubleDiceRoll::from(5, 2)), Ok(()));
    assert_eq!(state(&g), StateId::RobberRemoveCards);
}

#[test]
fn village_next_to_a_building_is_refused() {
    let mut g = new_game(2);
    let a = corner(&g, 0);
    assert_eq!(g.perform_action(0, village(a)), Ok(()));
    let r = roads_at(&g, a)[0];
    assert_eq!(g.perform_action(0, road(r)), Ok(()));
    let neighbour = other_end(&g, r, a);
    assert_eq!(g.perform_action(1, village(neighbour)), Err(GameError::InvalidLocation));
    assert_eq!(g.perform_action(1, village(a)), Err(GameError::ActionFailed));
    assert_eq!(state(&g), StateId::StartVillagePlacement);
}

#[test]
fn opening_road_must_touch_own_corner() {
    let mut g = new_game(2);
    let a = corner(&g, 0);
    assert_eq!(g.perform_action(0, village(a)), Ok(()));
    let far = free_corner(&g, &[a]);
    let far_road = roads_at(&g, far)[0];
    if other_end(&g, far_road, far) != a {
        assert_eq!(g.perform_action(0, road(far_road)), Err(GameError::InvalidLocation));
    }
    let unknown = RoadLocationId { a, b: a };
    assert_eq!(g.perform_action(0, road(unknown)), Err(GameError::ActionFailed));
    assert_eq!(state(&g), StateId::StartRoadPlacement);
}

#[test]
fn main_phase_roads_extend_own_network() {
    let mut g = new_game(2);
    let a = corner(&g, 0);
    assert_eq!(g.perform_action(0, village(a)), Ok(()));
    assert_eq!(g.transition(StateId::SelectAction), Ok(()));
    g.grant_resources(0, coll(3, 3, 0, 0, 0));
    let first = roads_at(&g, a)[0];
    assert_eq!(g.perform_action(0, road(first)), Ok(()));
    let b = other_end(&g, first, a);
    let next = roads_at(&g, b).into_iter().find(|r| *r != first).unwrap();
    // continues the player's road at b although b holds no building
    assert_eq!(g.perform_action(0, road(next)), Ok(()));
    let far = free_corner(&g, &[a, b, other_end(&g, next, b)]);
    let far_road = roads_at(&g, far)
        .into_iter()
        .find(|r| {
            let e = other_end(&g, *r, far);
            e != a && e != b && e != other_end(&g, next, b)
        })
        .unwrap();
    assert_eq!(g.perform_action(0, road(far_road)), Err(GameError::InvalidLocation));
    assert_eq!(g.perform_action(0, road(first)), Err(GameError::InvalidLocation));
    assert_eq!(g.get_player(0).get_resources().get_resources(), coll(1, 1, 0, 0, 0));
}

#[test]
fn building_costs_resources() {
    let mut g = new_game(2);
    let a = corner(&g, 0);
    assert_eq!(g.perform_action(0, village(a)), Ok(()));
    let first = roads_at(&g, a)[0];
    assert_eq!(g.perform_action(0, road(first)), Ok(()));
    assert_eq!(g.transition(StateId::SelectAction), Ok(()));
    assert_eq!(g.get_current_player_index(), 1);
    g.end_turn();
    // no resources yet
    assert_eq!(g.perform_action(0, road(roads_at(&g, a)[1])), Err(GameError::NotEnoughResources));
    g.grant_resources(0, coll(1, 1, 3, 1, 3));
    assert_eq!(g.perform_action(0, city(a)), Ok(()));
    assert_eq!(g.get_player(0).get_resources().get_resources(), coll(1, 1, 0, 1, 1));
    // a village two roads away along the player's road
    let b = other_end(&g, first, a);
    let next = roads_at(&g, b).into_iter().find(|r| *r != first).unwrap();
    let c = other_end(&g, next, b);
    assert_eq!(g.perform_action(0, village(c)), Err(GameError::InvalidLocation));
    assert_eq!(g.get_player(0).get_resources().get_resources(), coll(1, 1, 0, 1, 1));
    assert_eq!(g.perform_action(0, village(b)), Err(GameError::InvalidLocation));
}

#[test]
fn refusals_leave_the_game_unchanged() {
    let mut g = new_game(3);
    let a = corner(&g, 0);
    assert_eq!(g.perform_action(1, village(a)), Err(GameError::NotPlayerTurn));
    assert_eq!(g.perform_action(0, bare(ActionKind::RollDice)), Err(GameError::ActionNotAllowed));
    assert_eq!(
        g.perform_action(0, GameAction::new(ActionKind::BuildSettlement, ActionData::Invalid)),
        Err(GameError::ActionDataInvalid)
    );
    assert_eq!(g.perform_action(0, bare(ActionKind::Unknown)), Err(GameError::ActionNotAllowed));
    assert_eq!(state(&g), StateId::StartVillagePlacement);
    assert_eq!(g.get_player_settlement_count(0), 0);
}

#[test]
fn missing_state_faults_the_machine() {
    let states = vec![
        GameState::StartVillagePlacement(StartVillagePlacement::new()),
        GameState::StartRoadPlacement(StartRoadPlacement::new()),
    ];
    let mut machine = StateMachine::from(states, StateId::StartVillagePlacement);
    assert!(machine.transition_to(StateId::RollDice).is_err());
    assert_eq!(machine.get_current_state_id(), StateId::GameError);
    assert!(machine.get_current_state().is_none());
    let board =
        generate_board_from(board_resource_list(), dice_chip_value_list(), development_card_list())
            .unwrap();
    let mut g = Game::from(board, GameSettings { players: 2 }, machine);
    let a = g.board.settlement_map.get_settlements()[0].id;
    assert_eq!(g.perform_action(0, village(a)), Err(GameError::ActionNotAllowed));
}

#[test]
fn discarding_ends_at_the_hand_limit() {
    let mut g = new_game(2);
    g.grant_resources(1, coll(2, 2, 2, 2, 1));
    assert_eq!(g.transition(StateId::RobberRemoveCards), Ok(()));
    let discard = |c: ResourceCollection| GameAction::new(ActionKind::RemoveCards, ActionData::Resources(c));
    assert_eq!(g.perform_action(0, discard(coll(0, 0, 0, 0, 0))), Err(GameError::ActionNotAllowed));
    assert_eq!(g.perform_action(1, discard(coll(1, 0, 0, 0, 0))), Err(GameError::ActionFailed));
    assert_eq!(g.perform_action(1, discard(coll(0, 0, 0, 0, 2))), Err(GameError::NotEnoughResources));
    assert_eq!(g.perform_action(1, bare(ActionKind::RemoveCards)), Err(GameError::ActionDataInvalid));
    assert_eq!(g.perform_action(1, discard(coll(1, 1, 0, 0, 0))), Ok(()));
    assert_eq!(state(&g), StateId::RobberRelocate);
    assert_eq!(g.get_player(1).get_resources().get_total_resources(), 7);
}

fn offer(give: ResourceCollection, want: ResourceCollection) -> GameAction {
    GameAction::new(
        ActionKind::OfferTrade,
        ActionData::TradeOffer(TradeOfferData { resource_offer: give, resource_receive: want }),
    )
}

fn complete(p: usize) -> GameAction {
    GameAction::new(
        ActionKind::CompleteTrade,
        ActionData::CompletePlayerTrade(CompletePlayerTradeData { accepted_player_id: p }),
    )
}

#[test]
fn trade_needs_acceptance() {
    let mut g = new_game(3);
    g.grant_resources(0, coll(2, 0, 0, 0, 0));
    g.grant_resources(1, coll(0, 0, 1, 0, 0));
    g.grant_resources(2, coll(0, 0, 1, 0, 0));
    assert_eq!(g.transition(StateId::SelectAction), Ok(()));
    assert_eq!(g.perform_action(0, offer(coll(3, 0, 0, 0, 0), coll(0, 0, 1, 0, 0))), Err(GameError::NotEnoughResources));
    assert_eq!(g.perform_action(0, offer(coll(2, 0, 0, 0, 0), coll(0, 0, 1, 0, 0))), Ok(()));
    assert_eq!(state(&g), StateId::Trading);
    assert_eq!(g.perform_action(0, complete(1)), Err(GameError::ActionNotAllowed));
    assert_eq!(g.perform_action(0, complete(9)), Err(GameError::ActionNotAllowed));
    assert_eq!(g.perform_action(0, bare(ActionKind::AcceptTrade)), Err(GameError::ActionNotAllowed));
    assert_eq!(g.perform_action(2, bare(ActionKind::RejectTrade)), Ok(()));
    assert_eq!(g.perform_action(1, bare(ActionKind::AcceptTrade)), Ok(()));
    assert_eq!(g.perform_action(0, complete(2)), Err(GameError::ActionNotAllowed));
    assert_eq!(g.perform_action(0, complete(1)), Ok(()));
    assert_eq!(g.get_player(0).get_resources().get_resources(), coll(0, 0, 1, 0, 0));
    assert_eq!(g.get_player(1).get_resources().get_resources(), coll(2, 0, 0, 0, 0));
    assert!(g.get_trade_offer().is_none());
    assert_eq!(state(&g), StateId::SelectAction);
}

#[test]
fn accepting_needs_the_requested_resources() {
    let mut g = new_game(2);
    g.grant_resources(0, coll(1, 0, 0, 0, 0));
    assert_eq!(g.transition(StateId::SelectAction), Ok(()));
    assert_eq!(g.perform_action(0, offer(coll(1, 0, 0, 0, 0), coll(0, 1, 0, 0, 0))), Ok(()));
    assert_eq!(g.perform_action(1, bare(ActionKind::AcceptTrade)), Err(GameError::NotEnoughResources));
    assert_eq!(g.perform_action(0, bare(ActionKind::CancelTrade)), Ok(()));
    assert!(g.get_trade_offer().is_none());
    assert_eq!(state(&g), StateId::SelectAction);
    assert_eq!(
        g.perform_action(0, GameAction::new(ActionKind::OfferBankTrade, ActionData::Empty)),
        Err(GameError::ActionFailed)
    );
}

fn total(g: &Game) -> usize {
    g.get_players().iter().map(|p| p.get_resources().get_total_resources()).sum()
}

#[test]
fn robbing_moves_one_unit() {
    let mut g = new_game(2);
    let a = corner(&g, 0);
    assert_eq!(g.perform_action(0, village(a)), Ok(()));
    let tile = g.board.settlement_map.get_settlement(&a).unwrap().neighbor_tiles[0];
    let on_board = g.board.tile_map.get_tile(&tile).is_some();
    assert!(on_board);
    g.grant_resources(0, coll(0, 0, 0, 2, 0));
    g.grant_resources(1, coll(1, 0, 0, 0, 0));
    assert_eq!(g.transition(StateId::RobberRelocate), Ok(()));
    g.end_turn();
    let place = |t: CubeCoordinates, p: usize| {
        GameAction::new(
            ActionKind::PlaceRobber,
            ActionData::PlaceRobber(PlaceRobberData { tile_location: t, robbed_player_id: p }),
        )
    };
    assert_eq!(g.perform_action(1, place(CubeCoordinates::from(9, -9, 0), 0)), Err(GameError::InvalidLocation));
    let before = total(&g);
    assert_eq!(g.perform_action(1, place(tile, 1)), Err(GameError::ActionFailed));
    assert_eq!(g.perform_action(1, place(tile, 0)), Ok(()));
    assert_eq!(total(&g), before);
    assert_eq!(g.get_player(0).get_resources().get_resources(), coll(0, 0, 0, 1, 0));
    assert_eq!(g.get_player(1).get_resources().get_resources(), coll(1, 0, 0, 1, 0));
    assert_eq!(*g.get_board().get_robber().get_assigned_tile(), tile);
    assert_eq!(state(&g), StateId::SelectAction);
}

#[test]
fn robbing_an_empty_hand_fails() {
    let mut g = new_game(2);
    let a = corner(&g, 0);
    assert_eq!(g.perform_action(0, village(a)), Ok(()));
    let tile = g.board.settlement_map.get_settlement(&a).unwrap().neighbor_tiles[0];
    assert_eq!(g.transition(StateId::RobberRelocate), Ok(()));
    let data = ActionData::PlaceRobber(PlaceRobberData { tile_location: tile, robbed_player_id: 0 });
    assert_eq!(g.place_robber_with(0, data, 0), Err(GameError::ActionFailed));
    g.grant_resources(0, coll(1, 0, 0, 0, 2));
    // the pick chooses among the kinds held: clay, then wheat
    assert_eq!(g.place_robber_with(0, data, 1), Ok(()));
    assert_eq!(g.get_player(0).get_resources().get_resources(), coll(1, 0, 0, 0, 2));
}

fn play(card: DevelopmentCard, monopoly: Option<MonopolyData>) -> GameAction {
    GameAction::new(
        ActionKind::DrawDevelopmentCard,
        ActionData::DrawDevelopmentCard(DrawDevelopmentCardData { card, monopoly, invention: None }),
    )
}

#[test]
fn monopoly_collects_one_kind() {
    let mut g = new_game(3);
    g.grant_resources(0, coll(0, 1, 0, 0, 0));
    g.grant_resources(1, coll(0, 2, 1, 0, 0));
    g.grant_resources(2, coll(0, 3, 0, 0, 0));
    assert_eq!(g.transition(StateId::SelectAction), Ok(()));
    let m = Some(MonopolyData { resource: ResourceKind::Wood });
    assert_eq!(g.perform_action(0, play(DevelopmentCard::Monopoly, m)), Err(GameError::NotEnoughResources));
    g.grant_development_card(0, DevelopmentCard::Monopoly);
    assert_eq!(g.perform_action(0, play(DevelopmentCard::Monopoly, None)), Err(GameError::ActionDataInvalid));
    let before = total(&g);
    assert_eq!(g.perform_action(0, play(DevelopmentCard::Monopoly, m)), Ok(()));
    assert_eq!(total(&g), before);
    assert_eq!(g.get_player(0).get_resources().get_resources(), coll(0, 6, 0, 0, 0));
    assert_eq!(g.get_player(1).get_resources().get_resources(), coll(0, 0, 1, 0, 0));
    assert_eq!(g.get_player(2).get_resources().get_resources(), coll(0, 0, 0, 0, 0));
    assert_eq!(g.get_player(0).get_development_cards().get(DevelopmentCard::Monopoly), 0);
}

#[test]
fn invention_adds_two_units() {
    let mut g = new_game(2);
    assert_eq!(g.transition(StateId::SelectAction), Ok(()));
    g.grant_development_card(0, DevelopmentCard::Invention);
    let action = GameAction::new(
        ActionKind::DrawDevelopmentCard,
        ActionData::DrawDevelopmentCard(DrawDevelopmentCardData {
            card: DevelopmentCard::Invention,
            monopoly: None,
            invention: Some(settler_island::actions::InventionData {
                resource_a: ResourceKind::Ore,
                resource_b: ResourceKind::Ore,
            }),
        }),
    );
    assert_eq!(g.perform_action(0, action), Ok(()));
    assert_eq!(g.get_player(0).get_resources().get_resources(), coll(0, 0, 2, 0, 0));
}

#[test]
fn knight_and_street_construction_change_state() {
    let mut g = new_game(2);
    assert_eq!(g.transition(StateId::SelectAction), Ok(()));
    g.grant_development_card(0, DevelopmentCard::VictoryPoint);
    assert_eq!(g.perform_action(0, play(DevelopmentCard::VictoryPoint, None)), Err(GameError::ActionNotAllowed));
    g.grant_development_card(0, DevelopmentCard::Knight);
    assert_eq!(g.perform_action(0, play(DevelopmentCard::Knight, None)), Ok(()));
    assert_eq!(state(&g), StateId::RobberRelocate);
    assert_eq!(g.transition(StateId::SelectAction), Ok(()));
    g.grant_development_card(0, DevelopmentCard::StreetConstruction);
    assert_eq!(g.perform_action(0, play(DevelopmentCard::StreetConstruction, None)), Ok(()));
    assert_eq!(state(&g), StateId::BuildNFreeRoads);
    assert_eq!(g.get_state_machine().get_free_roads_left(), 2);
}

#[test]
fn free_roads_then_back_to_main_phase() {
    let mut g = new_game(2);
    let a = corner(&g, 0);
    assert_eq!(g.perform_action(0, village(a)), Ok(()));
    assert_eq!(g.transition(StateId::BuildNFreeRoads), Ok(()));
    let first = roads_at(&g, a)[0];
    assert_eq!(g.perform_action(0, road(first)), Ok(()));
    assert_eq!(state(&g), StateId::BuildNFreeRoads);
    let second = roads_at(&g, a)[1];
    assert_eq!(g.perform_action(0, road(second)), Ok(()));
    assert_eq!(state(&g), StateId::SelectAction);
    assert_eq!(g.get_player(0).get_resources().get_total_resources(), 0);
}

#[test]
fn rolled_number_yields_for_adjacent_villages() {
    let mut g = new_game(2);
    let chip = *g
        .board
        .dice_chips
        .iter()
        .find(|c| c.get_dice_value() >= 2 && c.get_dice_value() != 7)
        .unwrap();
    let tile = g.board.tile_map.get_tile(chip.get_assigned_tile()).unwrap();
    let kind = match tile.get_type() {
        TileType::ResourceTile(k) => *k,
        TileType::FillerTile => panic!("chips lie on resource tiles"),
    };
    let a = tile.get_corner_settlement_ids()[0];
    assert_eq!(g.perform_action(0, village(a)), Ok(()));
    assert_eq!(g.transition(StateId::RollDice), Ok(()));
    let v = chip.get_dice_value();
    let roll = if v > 6 { DoubleDiceRoll::from(6, v - 6) } else { DoubleDiceRoll::from(1, v - 1) };
    assert_eq!(g.apply_dice_roll(roll), Ok(()));
    assert!(g.get_player(0).get_resources().get_resource(kind) >= 1);
    assert_eq!(g.get_player(1).get_resources().get_total_resources(), 0);
    assert_eq!(state(&g), StateId::SelectAction);
}

#[test]
fn end_turn_passes_to_the_next_roller() {
    let mut g = new_game(3);
    assert_eq!(g.transition(StateId::SelectAction), Ok(()));
    assert_eq!(g.perform_action(0, bare(ActionKind::EndTurn)), Ok(()));
    assert_eq!(g.get_current_player_index(), 1);
    assert_eq!(state(&g), StateId::RollDice);
    assert!(g.is_player_turn(1));
}

#[test]
fn full_opening_leads_to_the_dice() {
    let mut g = new_game(2);
    let mut taken: Vec<SettlementLocationId> = Vec::new();
    // 0, 1, 1, 0: the last player places both its settlements in a row
    for expected in [0usize, 1, 1, 0] {
        assert_eq!(g.get_current_player_index(), expected);
        let c = free_corner(&g, &taken);
        assert_eq!(g.perform_action(expected, village(c)), Ok(()));
        taken.push(c);
        let r = roads_at(&g, c)[0];
        assert_eq!(g.perform_action(expected, road(r)), Ok(()));
    }
    assert!(g.all_players_have_at_least_n_settlements(2));
    assert_eq!(state(&g), StateId::RollDice);
}

#[test]
fn cities_yield_twice_what_villages_yield() {
    let mut g = new_game(2);
    let chip = *g
        .board
        .dice_chips
        .iter()
        .find(|c| c.get_dice_value() >= 2 && c.get_dice_value() != 7)
        .unwrap();
    let tile = g.board.tile_map.get_tile(chip.get_assigned_tile()).unwrap();
    let kind = match tile.get_type() {
        TileType::ResourceTile(k) => *k,
        TileType::FillerTile => panic!("chips lie on resource tiles"),
    };
    let a = tile.get_corner_settlement_ids()[0];
    assert_eq!(g.perform_action(0, village(a)), Ok(()));
    assert_eq!(g.perform_action(0, road(roads_at(&g, a)[0])), Ok(()));
    let v = chip.get_dice_value();
    let roll = if v > 6 { DoubleDiceRoll::from(6, v - 6) } else { DoubleDiceRoll::from(1, v - 1) };
    assert_eq!(g.transition(StateId::RollDice), Ok(()));
    let before = g.get_player(0).get_resources().get_resource(kind);
    assert_eq!(g.apply_dice_roll(roll), Ok(()));
    let village_yield = g.get_player(0).get_resources().get_resource(kind) - before;
    assert!(village_yield >= 1);
    g.current_player_index = 0;
    g.grant_resources(0, coll(0, 0, 3, 0, 2));
    assert_eq!(g.perform_action(0, city(a)), Ok(()));
    assert_eq!(g.transition(StateId::RollDice), Ok(()));
    let before = g.get_player(0).get_resources().get_resource(kind);
    assert_eq!(g.apply_dice_roll(roll), Ok(()));
    assert_eq!(g.get_player(0).get_resources().get_resource(kind) - before, 2 * village_yield);
}

#[test]
fn robber_tile_yields_nothing() {
    let mut g = new_game(2);
    let chip = *g
        .board
        .dice_chips
        .iter()
        .find(|c| c.get_dice_value() >= 2 && c.get_dice_value() != 7)
        .unwrap();
    let tile = g.board.tile_map.get_tile(chip.get_assigned_tile()).unwrap();
    let corners = tile.get_corner_settlement_ids().clone();
    assert_eq!(g.perform_action(0, village(corners[0])), Ok(()));
    g.board.robber = settler_island::locations::RobberLocation::from(*chip.get_assigned_tile());
    let v = chip.get_dice_value();
    let roll = if v > 6 { DoubleDiceRoll::from(6, v - 6) } else { DoubleDiceRoll::from(1, v - 1) };
    let kind = match g.board.tile_map.get_tile(chip.get_assigned_tile()).unwrap().get_type() {
        TileType::ResourceTile(k) => *k,
        TileType::FillerTile => panic!("chips lie on resource tiles"),
    };
    let neighbours_with_same = g
        .board
        .dice_chips
        .iter()
        .filter(|c| c.get_dice_value() == v && c.get_assigned_tile() != chip.get_assigned_tile())
        .count();
    assert_eq!(g.transition(StateId::RollDice), Ok(()));
    assert_eq!(g.apply_dice_roll(roll), Ok(()));
    if neighbours_with_same == 0 {
        assert_eq!(g.get_player(0).get_resources().get_resource(kind), 0);
    }
    assert_eq!(state(&g), StateId::SelectAction);
}

#[test]
fn opening_road_must_touch_the_latest_village() {
    let mut g = new_game(2);
    // player 0 places, then player 1 (the last player) places twice in a row
    let a = corner(&g, 0);
    assert_eq!(g.perform_action(0, village(a)), Ok(()));
    assert_eq!(g.perform_action(0, road(roads_at(&g, a)[0])), Ok(()));
    let b = free_corner(&g, &[a]);
    assert_eq!(g.perform_action(1, village(b)), Ok(()));
    assert_eq!(g.perform_action(1, road(roads_at(&g, b)[0])), Ok(()));
    let c = free_corner(&g, &[a, b]);
    assert_eq!(g.perform_action(1, village(c)), Ok(()));
    // a free road at the earlier village b is refused: the road must touch c
    let at_b = roads_at(&g, b)[1];
    if other_end(&g, at_b, b) != c {
        assert_eq!(g.perform_action(1, road(at_b)), Err(GameError::InvalidLocation));
    }
    assert_eq!(state(&g), StateId::StartRoadPlacement);
    assert_eq!(g.perform_action(1, road(roads_at(&g, c)[0])), Ok(()));
}

#[test]
fn injected_roll_of_seven_skips_discards() {
    let mut g = new_game(2);
    assert_eq!(g.transition(StateId::RollDice), Ok(()));
    let r = g.perform_action_with(0, bare(ActionKind::RollDice), DoubleDiceRoll::from(6, 1), 0);
    assert_eq!(r, Ok(()));
    assert_eq!(state(&g), StateId::RobberRelocate);
    assert_eq!(total(&g), 0);
}

#[test]
fn injected_pick_chooses_the_stolen_kind() {
    let mut g = new_game(2);
    let a = corner(&g, 0);
    assert_eq!(g.perform_action(0, village(a)), Ok(()));
    let tile = g.board.settlement_map.get_settlement(&a).unwrap().neighbor_tiles[0];
    g.grant_resources(0, coll(1, 0, 0, 0, 2));
    assert_eq!(g.transition(StateId::RobberRelocate), Ok(()));
    g.end_turn();
    let action = GameAction::new(
        ActionKind::PlaceRobber,
        ActionData::PlaceRobber(PlaceRobberData { tile_location: tile, robbed_player_id: 0 }),
    );
    // the kinds held are clay and wheat; pick 1 takes wheat
    assert_eq!(g.perform_action_with(1, action, DoubleDiceRoll::from(1, 1), 1), Ok(()));
    assert_eq!(g.get_player(0).get_resources().get_resources(), coll(1, 0, 0, 0, 1));
    assert_eq!(g.get_player(1).get_resources().get_resources(), coll(0, 0, 0, 0, 1));
    assert_eq!(*g.get_board().get_robber().get_assigned_tile(), tile);
    assert_eq!(state(&g), StateId::SelectAction);
}

#[test]
fn neighbour_and_ownership_queries_are_complete() {
    let mut g = new_game(2);
    let a = corner(&g, 0);
    let roads = roads_at(&g, a);
    let neighbours = g.board.settlement_map.get_neighbor_settlements(&a);
    assert_eq!(neighbours.len(), roads.len());
    for (n, r) in neighbours.iter().zip(roads.iter()) {
        assert_eq!(n.id, other_end(&g, *r, a));
    }
    assert_eq!(g.perform_action(0, village(a)), Ok(()));
    assert_eq!(g.perform_action(0, road(roads[0])), Ok(()));
    let c = free_corner(&g, &[a]);
    assert_eq!(g.perform_action(1, village(c)), Ok(()));
    assert_eq!(g.board.settlement_map.get_player_settlements(0), vec![a]);
    assert_eq!(g.board.settlement_map.get_player_settlements(1), vec![c]);
}

#[test]
fn tile_neighbours_keep_direction_order() {
    let g = new_game(2);
    let centre = CubeCoordinates::from(0, 0, 0);
    let around = g.board.tile_map.get_tile_neighbors(&centre);
    let expected = centre.get_neighbor_coordinates();
    assert_eq!(around.len(), 6);
    for (t, c) in around.iter().zip(expected.iter()) {
        assert_eq!(t.coordinates, *c);
    }
    let edge = CubeCoordinates::from(2, -2, 0);
    assert_eq!(g.board.tile_map.get_tile_neighbors(&edge).len(), 3);
    let far = CubeCoordinates::from(i32::MAX - 1, 0, -(i32::MAX - 1));
    assert_eq!(g.board.tile_map.get_tile_neighbors(&far).len(), 0);
}

#[test]
fn chips_lie_on_distinct_resource_tiles() {
    let g = new_game(2);
    let mut tiles: Vec<CubeCoordinates> = g.board.dice_chips.iter().map(|c| c.assigned_tile).collect();
    let n = tiles.len();
    tiles.sort_by_key(|c| (c.q, c.r, c.s));
    tiles.dedup();
    assert_eq!(tiles.len(), n);
    assert!(!tiles.contains(&CubeCoordinates::from(0, 0, 0)));
}
