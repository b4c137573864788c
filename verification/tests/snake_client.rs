use std::collections::VecDeque;

use arena::engine::wire::{BattleSnake, Board, Game, Move, NestedGame, Position, Ruleset};
use arena::snake_client::{
    build_endpoint_url, build_request_for_snake, move_result, parse_direction,
    request_targets_for, trim_end_matches_char, MoveOutcome, MoveResponse, MoveResult,
};

#[test]
fn test_build_endpoint_url_simple() {
    assert_eq!(build_endpoint_url("https://example.com", "move"), "https://example.com/move");
}

#[test]
fn test_build_endpoint_url_with_trailing_slash() {
    assert_eq!(build_endpoint_url("https://example.com/", "move"), "https://example.com/move");
}

#[test]
fn test_build_endpoint_url_with_path() {
    assert_eq!(
        build_endpoint_url("https://example.com/api/v1", "move"),
        "https://example.com/api/v1/move"
    );
}

#[test]
fn test_build_endpoint_url_with_query_params() {
    assert_eq!(
        build_endpoint_url("https://example.com?token=secret", "move"),
        "https://example.com/move?token=secret"
    );
}

#[test]
fn test_build_endpoint_url_with_path_and_query_params() {
    assert_eq!(
        build_endpoint_url("https://example.com/api?token=secret&version=2", "move"),
        "https://example.com/api/move?token=secret&version=2"
    );
}

#[test]
fn test_build_endpoint_url_with_trailing_slash_and_query_params() {
    assert_eq!(
        build_endpoint_url("https://example.com/api/?token=secret", "start"),
        "https://example.com/api/start?token=secret"
    );
}

#[test]
fn test_build_endpoint_url_all_endpoints() {
    let base = "https://snake.example.com?auth=abc123";
    assert_eq!(build_endpoint_url(base, "move"), "https://snake.example.com/move?auth=abc123");
    assert_eq!(build_endpoint_url(base, "start"), "https://snake.example.com/start?auth=abc123");
    assert_eq!(build_endpoint_url(base, "end"), "https://snake.example.com/end?auth=abc123");
}

#[test]
fn endpoint_url_of_a_text_that_is_no_url_is_joined_by_hand() {
    assert_eq!(build_endpoint_url("not a url//", "move"), "not a url/move");
    assert_eq!(build_endpoint_url("", "end"), "/end");
}

#[test]
fn trailing_characters_are_trimmed() {
    assert_eq!(trim_end_matches_char("a//b///", '/'), "a//b");
    assert_eq!(trim_end_matches_char("///", '/'), "");
    assert_eq!(trim_end_matches_char("abc", '/'), "abc");
}

fn create_test_snake(id: &str) -> BattleSnake {
    BattleSnake {
        id: id.to_string(),
        name: format!("Snake {}", id),
        head: Position::new(5, 5),
        body: VecDeque::from([Position::new(5, 5), Position::new(5, 4), Position::new(5, 3)]),
        health: 100,
        shout: None,
        actual_length: None,
    }
}

fn create_test_game_with_snakes(snakes: Vec<BattleSnake>) -> Game {
    let you = match snakes.first() {
        Some(s) => s.duplicate(),
        None => create_test_snake("default"),
    };
    Game {
        you,
        board: Board { height: 11, width: 11, food: vec![Position::new(3, 3)], snakes, hazards: vec![] },
        turn: 5,
        game: NestedGame {
            id: "test-game".to_string(),
            ruleset: Ruleset {
                name: "standard".to_string(),
                version: "v1.0.0".to_string(),
                settings: None,
            },
            timeout: 500,
            map: None,
            source: None,
        },
    }
}

#[test]
fn test_parse_direction() {
    assert_eq!(parse_direction("up"), Some(Move::Up));
    assert_eq!(parse_direction("UP"), Some(Move::Up));
    assert_eq!(parse_direction("Down"), Some(Move::Down));
    assert_eq!(parse_direction("left"), Some(Move::Left));
    assert_eq!(parse_direction("RIGHT"), Some(Move::Right));
    assert_eq!(parse_direction("invalid"), None);
    assert_eq!(parse_direction(""), None);
}

#[test]
fn test_move_result_clone() {
    let result = MoveResult {
        snake_id: "test".to_string(),
        direction: Move::Up,
        latency_ms: Some(100),
        timed_out: false,
        shout: Some("hello".to_string()),
    };
    let cloned = result.clone();
    assert_eq!(cloned.snake_id, "test");
    assert_eq!(cloned.direction, Move::Up);
    assert_eq!(cloned.latency_ms, Some(100));
    assert!(!cloned.timed_out);
    assert_eq!(cloned.shout, Some("hello".to_string()));
}

#[test]
fn test_build_request_for_snake_sets_you_field() {
    let snake1 = create_test_snake("snake-1");
    let snake2 = create_test_snake("snake-2");
    let game = create_test_game_with_snakes(vec![snake1.duplicate(), snake2.duplicate()]);
    let request = build_request_for_snake(&game, &snake2);
    assert_eq!(request.you.id, "snake-2");
    assert_eq!(request.you.name, "Snake snake-2");
    assert_eq!(request.board.snakes.len(), 2);
    assert_eq!(request.turn, 5);
    assert_eq!(request.game.id, "test-game");
}

#[test]
fn test_build_request_for_snake_preserves_board() {
    let snake1 = create_test_snake("snake-1");
    let game = create_test_game_with_snakes(vec![snake1.duplicate()]);
    let request = build_request_for_snake(&game, &snake1);
    assert_eq!(request.board.height, 11);
    assert_eq!(request.board.width, 11);
    assert_eq!(request.board.food.len(), 1);
    assert_eq!(request.board.food[0].x, 3);
    assert_eq!(request.board.food[0].y, 3);
}

#[test]
fn test_move_response_deserialization_case_sensitivity() {
    let response = MoveResponse { direction: "LEFT".to_string(), shout: None };
    assert_eq!(response.direction, "LEFT");
    assert_eq!(parse_direction(&response.direction), Some(Move::Left));
}

#[test]
fn reply_with_a_direction_is_used() {
    let id = "s1".to_string();
    let r = move_result(
        &id,
        MoveOutcome::Replied(MoveResponse { direction: "Down".to_string(), shout: Some("hi".to_string()) }),
        37,
        Some(Move::Left),
    );
    assert_eq!(r.snake_id, "s1");
    assert_eq!(r.direction, Move::Down);
    assert_eq!(r.latency_ms, Some(37));
    assert!(!r.timed_out);
    assert_eq!(r.shout, Some("hi".to_string()));
}

#[test]
fn reply_without_a_direction_falls_back_to_last_move() {
    let id = "s1".to_string();
    let r = move_result(
        &id,
        MoveOutcome::Replied(MoveResponse { direction: "sideways".to_string(), shout: None }),
        12,
        Some(Move::Left),
    );
    assert_eq!(r.direction, Move::Left);
    assert_eq!(r.latency_ms, Some(12));
    let r = move_result(&id, MoveOutcome::Unreadable, 15, None);
    assert_eq!(r.direction, Move::Up);
    assert_eq!(r.latency_ms, Some(15));
    assert!(!r.timed_out);
}

#[test]
fn failures_and_timeouts_count_as_timed_out() {
    let id = "s1".to_string();
    let r = move_result(&id, MoveOutcome::NetworkError, 99, Some(Move::Right));
    assert_eq!(r.direction, Move::Right);
    assert_eq!(r.latency_ms, None);
    assert!(r.timed_out);
    let r = move_result(&id, MoveOutcome::TimedOut, 500, None);
    assert_eq!(r.direction, Move::Up);
    assert!(r.timed_out);
    assert_eq!(r.shout, None);
}

#[test]
fn move_requests_go_to_living_snakes_with_a_url() {
    let mut dead = create_test_snake("b");
    dead.health = 0;
    let game = create_test_game_with_snakes(vec![
        create_test_snake("a"),
        dead,
        create_test_snake("c"),
        create_test_snake("d"),
    ]);
    let urls = vec![
        ("c".to_string(), "http://c".to_string()),
        ("a".to_string(), "http://a1".to_string()),
        ("a".to_string(), "http://a2".to_string()),
        ("b".to_string(), "http://b".to_string()),
    ];
    assert_eq!(
        request_targets_for(&game, &urls, true),
        vec![(0, "http://a1".to_string()), (2, "http://c".to_string())]
    );
    assert_eq!(
        request_targets_for(&game, &urls, false),
        vec![(0, "http://a1".to_string()), (1, "http://b".to_string()), (2, "http://c".to_string())]
    );
}
