use arena::games_api::{
    build_game_list_item, check_create_game_request, check_game_snakes, default_board,
    default_game_type, default_limit, find_winner, first_inaccessible, inaccessible_snake_message,
    list_limit, parse_board_size, parse_game_type, sorted_unique_ids, check_snake_filter,
    CreateGameRequest, GameSnakesError,
};
use arena::models::{Game, GameBattlesnakeWithDetails, GameBoardSize, GameStatus, GameType, Visibility};

#[test]
fn test_parse_game_type() {
    assert!(matches!(parse_game_type("standard"), Ok(GameType::Standard)));
    assert!(matches!(parse_game_type("Standard"), Ok(GameType::Standard)));
    assert!(matches!(parse_game_type("STANDARD"), Ok(GameType::Standard)));
    assert!(matches!(parse_game_type("royale"), Ok(GameType::Royale)));
    assert!(matches!(parse_game_type("Royale"), Ok(GameType::Royale)));
    assert!(matches!(parse_game_type("constrictor"), Ok(GameType::Constrictor)));
    assert!(matches!(parse_game_type("snail"), Ok(GameType::SnailMode)));
    assert!(matches!(parse_game_type("snailmode"), Ok(GameType::SnailMode)));
    assert!(matches!(parse_game_type("snail_mode"), Ok(GameType::SnailMode)));
    assert!(matches!(parse_game_type("Snail Mode"), Ok(GameType::SnailMode)));
    assert!(parse_game_type("invalid").is_err());
}

#[test]
fn test_parse_board_size() {
    assert!(matches!(parse_board_size("7x7"), Ok(GameBoardSize::Small)));
    assert!(matches!(parse_board_size("11x11"), Ok(GameBoardSize::Medium)));
    assert!(matches!(parse_board_size("19x19"), Ok(GameBoardSize::Large)));
    assert!(parse_board_size("10x10").is_err());
    assert!(parse_board_size("invalid").is_err());
}

#[test]
fn test_create_game_request_defaults() {
    assert_eq!(default_board(), "11x11");
    assert_eq!(default_game_type(), "standard");
    assert_eq!(default_limit(), 20);
}

#[test]
fn parse_errors_carry_the_api_messages() {
    assert_eq!(
        parse_board_size("10x10").unwrap_err(),
        "Invalid board size. Use 7x7, 11x11, or 19x19"
    );
    assert_eq!(
        parse_game_type("chess").unwrap_err(),
        "Invalid game type. Use standard, royale, constrictor, or snail"
    );
}

fn request(snakes: Vec<u128>, board: &str, game_type: &str) -> CreateGameRequest {
    CreateGameRequest { snakes, board: board.to_string(), game_type: game_type.to_string() }
}

#[test]
fn create_request_checks_board_type_then_count() {
    assert_eq!(
        check_create_game_request(&request(vec![1], "19X19", "Royale")).unwrap(),
        (GameBoardSize::Large, GameType::Royale)
    );
    assert_eq!(
        check_create_game_request(&request(vec![], "12x12", "chess")).unwrap_err(),
        "Invalid board size. Use 7x7, 11x11, or 19x19"
    );
    assert_eq!(
        check_create_game_request(&request(vec![], "7x7", "chess")).unwrap_err(),
        "Invalid game type. Use standard, royale, constrictor, or snail"
    );
    assert_eq!(
        check_create_game_request(&request(vec![], "7x7", "standard")).unwrap_err(),
        "At least one snake is required"
    );
    assert_eq!(
        check_create_game_request(&request(vec![1, 2, 3, 4, 5], "7x7", "standard")).unwrap_err(),
        "Maximum of 4 snakes allowed"
    );
    assert!(check_create_game_request(&request(vec![1, 1, 1, 1], "7x7", "standard")).is_ok());
}

#[test]
fn unique_ids_are_sorted_without_repeats() {
    assert_eq!(sorted_unique_ids(&vec![5, 1, 5, 3, 1]), vec![1, 3, 5]);
    assert_eq!(sorted_unique_ids(&vec![]), Vec::<u128>::new());
    assert_eq!(sorted_unique_ids(&vec![u128::MAX, 0]), vec![0, u128::MAX]);
}

#[test]
fn first_inaccessible_snake_is_reported() {
    assert_eq!(first_inaccessible(&vec![1, 3, 5], &vec![5, 1]), Some(3));
    assert_eq!(first_inaccessible(&vec![1, 3], &vec![3, 1]), None);
    assert_eq!(
        inaccessible_snake_message(0x550e8400_e29b_41d4_a716_446655440000),
        "Snake 550e8400-e29b-41d4-a716-446655440000 not found or not accessible"
    );
}

#[test]
fn listing_limit_is_capped_at_one_hundred() {
    assert_eq!(list_limit(20), 20);
    assert_eq!(list_limit(100), 100);
    assert_eq!(list_limit(5000), 100);
}

#[test]
fn game_snakes_must_be_one_to_four_distinct() {
    assert_eq!(check_game_snakes(&vec![]), Err(GameSnakesError::NoSnakes));
    assert_eq!(check_game_snakes(&vec![1, 2, 3, 4, 5]), Err(GameSnakesError::TooManySnakes));
    assert_eq!(check_game_snakes(&vec![1, 2, 1]), Err(GameSnakesError::DuplicateSnakes));
    assert_eq!(check_game_snakes(&vec![1, 2, 3, 4]), Ok(()));
    assert_eq!(
        GameSnakesError::DuplicateSnakes.message(),
        "Duplicate battlesnake IDs are not allowed"
    );
}

fn entry(id: u128, placement: Option<i32>) -> GameBattlesnakeWithDetails {
    GameBattlesnakeWithDetails {
        game_battlesnake_id: id + 1000,
        game_id: 9,
        battlesnake_id: id,
        placement,
        created_at: 0,
        updated_at: 0,
        name: format!("snake {id}"),
        url: format!("http://snake{id}.test"),
        user_id: 1,
    }
}

#[test]
fn list_item_names_the_first_winner_and_every_snake() {
    let game = Game {
        game_id: 9,
        board_size: GameBoardSize::Small,
        game_type: GameType::Constrictor,
        status: GameStatus::Finished,
        enqueued_at: None,
        created_at: 1_700_000_000_000_000,
        updated_at: 1_700_000_000_000_000,
    };
    let entries = vec![entry(1, Some(2)), entry(2, Some(1)), entry(3, Some(1))];
    assert_eq!(find_winner(&entries), Some(2));
    let item = build_game_list_item(&game, &entries);
    assert_eq!(item.id, 9);
    assert_eq!(item.status, "finished");
    assert_eq!(item.winner, Some(2));
    assert_eq!(item.board, "7x7");
    assert_eq!(item.game_type, "Constrictor");
    assert_eq!(item.snakes.len(), 3);
    assert_eq!(item.snakes[2].name, "snake 3");
    assert_eq!(item.snakes[0].url, "http://snake1.test");
    assert_eq!(item.created_at, game.created_at);
    assert_eq!(find_winner(&[entry(1, None)]), None);
}

#[test]
fn snake_filter_allows_own_and_public_snakes_only() {
    assert_eq!(check_snake_filter(Some((7, Visibility::Private)), 7), Ok(()));
    assert_eq!(check_snake_filter(Some((8, Visibility::Public)), 7), Ok(()));
    assert_eq!(check_snake_filter(Some((8, Visibility::Private)), 7), Err("Snake not found or not accessible"));
    assert_eq!(check_snake_filter(None, 7), Err("Snake not found or not accessible"));
}
