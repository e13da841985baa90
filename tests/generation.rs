use settler_island::board::{DevelopmentCard, DoubleDiceRoll};
use settler_island::coordinates::CubeCoordinates;
use settler_island::generator::{
    board_resource_list, development_card_list, dice_chip_value_list, generate_board,
    generate_board_from, generate_dice_chips, generate_hexagon_map, is_any_sea_tile,
    is_tile_in_map, RESOURCE_TILE_COUNT,
};
use settler_island::hexagon::TileType;
use settler_island::resources::ResourceKind;

fn resource_tile_count(board: &settler_island::board::GameBoard) -> usize {
    board
        .get_tile_map()
        .get_tiles()
        .iter()
        .filter(|t| matches!(t.get_type(), TileType::ResourceTile(_)))
        .count()
}

#[test]
fn generated_board_has_reference_counts() {
    let board = generate_board().expect("generation succeeds");
    assert_eq!(board.get_tile_map().get_tiles().len(), 19);
    assert_eq!(resource_tile_count(&board), 18);
    assert_eq!(board.dice_chips.len(), resource_tile_count(&board));
    assert!(board.dice_chips.iter().all(|chip| chip.get_dice_value() != 7));
    assert_eq!(board.get_development_cards_left(), 25);
    assert_eq!(*board.get_robber().get_assigned_tile(), CubeCoordinates::from(0, 0, 0));
    // 54 corners and 72 roads on a board of radius 3
    assert_eq!(board.get_settlement_map().get_settlements().len(), 54);
    assert_eq!(board.get_settlement_map().get_roads().len(), 72);
    // every tile records its six corners
    for tile in board.get_tile_map().get_tiles() {
        assert_eq!(tile.get_corner_settlement_ids().len(), 6);
    }
}

#[test]
fn generated_board_has_fixed_distributions() {
    let board = generate_board().unwrap();
    let count = |k: ResourceKind| {
        board
            .get_tile_map()
            .get_tiles()
            .iter()
            .filter(|t| *t.get_type() == TileType::ResourceTile(k))
            .count()
    };
    assert_eq!(count(ResourceKind::Clay), 3);
    assert_eq!(count(ResourceKind::Wood), 4);
    assert_eq!(count(ResourceKind::Ore), 3);
    assert_eq!(count(ResourceKind::Sheep), 4);
    assert_eq!(count(ResourceKind::Wheat), 4);
    let mut values: Vec<u8> = board.dice_chips.iter().map(|c| c.get_dice_value()).collect();
    values.sort();
    assert_eq!(values, vec![1, 2, 3, 3, 4, 4, 5, 5, 6, 6, 8, 8, 9, 9, 10, 10, 11, 12]);
    let knights =
        board.development_cards.iter().filter(|c| **c == DevelopmentCard::Knight).count();
    assert_eq!(knights, 14);
    let points =
        board.development_cards.iter().filter(|c| **c == DevelopmentCard::VictoryPoint).count();
    assert_eq!(points, 5);
}

#[test]
fn shuffles_vary_between_boards() {
    let layout = |b: &settler_island::board::GameBoard| -> Vec<TileType> {
        b.get_tile_map().get_tiles().iter().map(|t| *t.get_type()).collect()
    };
    let first = generate_board().unwrap();
    let differs = (0..30).any(|_| layout(&generate_board().unwrap()) != layout(&first));
    assert!(differs);
}

#[test]
fn board_from_given_lists_is_deterministic() {
    let a = generate_board_from(board_resource_list(), dice_chip_value_list(), development_card_list())
        .unwrap();
    let b = generate_board_from(board_resource_list(), dice_chip_value_list(), development_card_list())
        .unwrap();
    let kinds = |x: &settler_island::board::GameBoard| -> Vec<TileType> {
        x.get_tile_map().get_tiles().iter().map(|t| *t.get_type()).collect()
    };
    assert_eq!(kinds(&a), kinds(&b));
    // resources are taken from the end of the list: the first resource tile gets wheat
    assert_eq!(
        *a.get_tile_map().get_tiles()[0].get_type(),
        TileType::ResourceTile(ResourceKind::Wheat)
    );
}

#[test]
fn mismatched_resource_list_is_fatal() {
    let mut short = board_resource_list();
    short.pop();
    assert!(generate_board_from(short, dice_chip_value_list(), development_card_list()).is_err());
    let mut long = board_resource_list();
    long.push(ResourceKind::Ore);
    assert!(generate_hexagon_map(long).is_err());
}

#[test]
fn mismatched_dice_list_is_fatal() {
    let (map, kinds) = generate_hexagon_map(board_resource_list()).unwrap();
    assert_eq!(kinds.len(), 5);
    let mut values = dice_chip_value_list();
    values.pop();
    assert!(generate_dice_chips(&map, values).is_err());
    assert_eq!(generate_dice_chips(&map, dice_chip_value_list()).unwrap().len(), RESOURCE_TILE_COUNT);
}

#[test]
fn sea_detection() {
    assert!(is_tile_in_map(&CubeCoordinates::from(2, -2, 0), 3));
    assert!(!is_tile_in_map(&CubeCoordinates::from(3, -3, 0), 3));
    let coastal = vec![
        CubeCoordinates::from(2, 0, -2),
        CubeCoordinates::from(3, 0, -3),
        CubeCoordinates::from(2, 1, -3),
    ];
    assert!(is_any_sea_tile(&coastal, 3));
    let inland = vec![
        CubeCoordinates::from(0, 0, 0),
        CubeCoordinates::from(1, 0, -1),
        CubeCoordinates::from(0, 1, -1),
    ];
    assert!(!is_any_sea_tile(&inland, 3));
}

#[test]
fn coastal_corners_carry_a_seaport() {
    let board = generate_board().unwrap();
    let settlements = board.get_settlement_map().get_settlements();
    let with_port = settlements.iter().filter(|s| s.seaport.is_some()).count();
    // 30 corners touch the sea, 24 do not
    assert_eq!(with_port, 30);
}

#[test]
fn dice_rolls_stay_in_range_and_vary() {
    let rolls: Vec<DoubleDiceRoll> = (0..200).map(|_| DoubleDiceRoll::roll()).collect();
    assert!(rolls.iter().all(|r| (1..=6).contains(&r.get_a()) && (1..=6).contains(&r.get_b())));
    assert!(rolls.iter().all(|r| (2..=12).contains(&r.get_total())));
    assert!(rolls.iter().any(|r| r.get_total() != rolls[0].get_total()));
    assert_eq!(DoubleDiceRoll::from(3, 4).get_total(), 7);
}

#[test]
fn deck_is_drawn_from_the_end() {
    let mut board =
        generate_board_from(board_resource_list(), dice_chip_value_list(), development_card_list())
            .unwrap();
    assert_eq!(board.draw_development_card(), Some(DevelopmentCard::VictoryPoint));
    assert_eq!(board.get_development_cards_left(), 24);
}
