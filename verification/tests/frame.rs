use std::collections::VecDeque;

use arena::engine::frame::{game_to_frame, generate_snake_color, DeathInfo};
use arena::engine::wire::{BattleSnake, Board, Game, Move, NestedGame, Position, Ruleset};
use arena::snake_client::MoveResult;

fn create_test_game() -> Game {
    let snake = BattleSnake {
        id: "snake-1".to_string(),
        name: "Test Snake".to_string(),
        head: Position::new(5, 5),
        body: VecDeque::from([Position::new(5, 5), Position::new(5, 4), Position::new(5, 3)]),
        health: 100,
        shout: Some("Hello!".to_string()),
        actual_length: None,
    };
    Game {
        you: snake.duplicate(),
        board: Board { height: 11, width: 11, food: vec![], snakes: vec![snake], hazards: vec![] },
        turn: 0,
        game: NestedGame {
            id: "test-game".to_string(),
            ruleset: Ruleset {
                name: "standard".to_string(),
                version: "v1.0.0".to_string(),
                settings: None,
            },
            timeout: 500,
            map: None,
            source: None,
        },
    }
}

#[test]
fn test_generate_snake_color() {
    let color1 = generate_snake_color("snake-1");
    let color2 = generate_snake_color("snake-2");
    assert_ne!(color1, color2);
    assert_eq!(color1, generate_snake_color("snake-1"));
    assert!(color1.starts_with('#'));
    assert_eq!(color1.len(), 7);
}

/// The single-precision HSL conversion the colours are defined by.
fn reference_color(id: &str) -> String {
    let hash: u32 = id.bytes().fold(0u32, |acc, b| acc.wrapping_mul(31).wrapping_add(b as u32));
    let hue = (hash % 360) as f32;
    let saturation: f32 = 0.7;
    let lightness: f32 = 0.5;
    let c: f32 = (1.0 - (2.0 * lightness - 1.0).abs()) * saturation;
    let x: f32 = c * (1.0 - ((hue / 60.0) % 2.0 - 1.0).abs());
    let m: f32 = lightness - c / 2.0;
    let (r, g, b) = match hue as i32 {
        0..=59 => (c, x, 0.0),
        60..=119 => (x, c, 0.0),
        120..=179 => (0.0, c, x),
        180..=239 => (0.0, x, c),
        240..=299 => (x, 0.0, c),
        _ => (c, 0.0, x),
    };
    let r = ((r + m) * 255.0) as u8;
    let g = ((g + m) * 255.0) as u8;
    let b = ((b + m) * 255.0) as u8;
    format!("#{:02x}{:02x}{:02x}", r, g, b)
}

#[test]
fn snake_color_matches_hsl_for_every_hue() {
    let mut hues_seen = [false; 360];
    for a in b'0'..=b'z' {
        for b in b'0'..=b'z' {
            let id = String::from_utf8(vec![a, b]).unwrap();
            let hash = (a as u32) * 31 + (b as u32);
            hues_seen[(hash % 360) as usize] = true;
            assert_eq!(generate_snake_color(&id), reference_color(&id), "id {id}");
        }
    }
    assert!(hues_seen.iter().all(|s| *s));
    assert_eq!(generate_snake_color(""), reference_color(""));
    assert_eq!(generate_snake_color("snake-1"), reference_color("snake-1"));
}

#[test]
fn snake_color_of_empty_id_is_pure_red_hue() {
    // hash 0, hue 0: full red, rising green at its lowest, blue at its lowest.
    assert_eq!(generate_snake_color(""), "#d82626");
}

#[test]
fn test_death_info_struct() {
    let death = DeathInfo {
        snake_id: "snake-1".to_string(),
        turn: 42,
        cause: "wall-collision".to_string(),
        eliminated_by: "snake-2".to_string(),
    };
    assert_eq!(death.snake_id, "snake-1");
    assert_eq!(death.turn, 42);
    assert_eq!(death.cause, "wall-collision");
    assert_eq!(death.eliminated_by, "snake-2");
}

#[test]
fn test_death_info_clone() {
    let death = DeathInfo {
        snake_id: "snake-1".to_string(),
        turn: 10,
        cause: "head-collision".to_string(),
        eliminated_by: "snake-2".to_string(),
    };
    let cloned = death.clone();
    assert_eq!(death.snake_id, cloned.snake_id);
    assert_eq!(death.turn, cloned.turn);
    assert_eq!(death.cause, cloned.cause);
    assert_eq!(death.eliminated_by, cloned.eliminated_by);
}

#[test]
fn test_game_to_frame_basic() {
    let game = create_test_game();
    let death_info: Vec<DeathInfo> = vec![];
    let frame = game_to_frame(&game, &death_info, &[]);
    assert_eq!(frame.turn, 0);
    assert_eq!(frame.snakes.len(), 1);
    assert_eq!(frame.snakes[0].id, "snake-1");
    assert_eq!(frame.snakes[0].name, "Test Snake");
    assert_eq!(frame.snakes[0].health, 100);
    assert!(frame.snakes[0].death.is_none());
    assert_eq!(frame.snakes[0].eliminated_cause, "");
    assert_eq!(frame.snakes[0].eliminated_by, "");
}

#[test]
fn test_game_to_frame_with_death_info() {
    let mut game = create_test_game();
    game.board.snakes[0].health = 0;
    let death_info = vec![DeathInfo {
        snake_id: "snake-1".to_string(),
        turn: 5,
        cause: "wall-collision".to_string(),
        eliminated_by: "".to_string(),
    }];
    let frame = game_to_frame(&game, &death_info, &[]);
    assert_eq!(frame.snakes.len(), 1);
    assert!(frame.snakes[0].death.is_some());
    let death = frame.snakes[0].death.as_ref().unwrap();
    assert_eq!(death.cause, "wall-collision");
    assert_eq!(death.turn, 5);
    assert_eq!(frame.snakes[0].eliminated_cause, "wall-collision");
}

#[test]
fn test_game_to_frame_with_eliminated_by() {
    let mut game = create_test_game();
    game.board.snakes[0].health = 0;
    let death_info = vec![DeathInfo {
        snake_id: "snake-1".to_string(),
        turn: 10,
        cause: "head-collision".to_string(),
        eliminated_by: "snake-2".to_string(),
    }];
    let frame = game_to_frame(&game, &death_info, &[]);
    let death = frame.snakes[0].death.as_ref().unwrap();
    assert_eq!(death.eliminated_by, "snake-2");
    assert_eq!(frame.snakes[0].eliminated_by, "snake-2");
}

#[test]
fn test_game_to_frame_multiple_snakes() {
    let mut game = create_test_game();
    game.board.snakes.push(BattleSnake {
        id: "snake-2".to_string(),
        name: "Second Snake".to_string(),
        head: Position::new(3, 3),
        body: VecDeque::from([Position::new(3, 3), Position::new(3, 2), Position::new(3, 1)]),
        health: 80,
        shout: None,
        actual_length: None,
    });
    let death_info: Vec<DeathInfo> = vec![];
    let frame = game_to_frame(&game, &death_info, &[]);
    assert_eq!(frame.snakes.len(), 2);
    assert_eq!(frame.snakes[0].id, "snake-1");
    assert_eq!(frame.snakes[1].id, "snake-2");
    assert_eq!(frame.snakes[1].health, 80);
}

#[test]
fn test_game_to_frame_with_food() {
    let mut game = create_test_game();
    game.board.food = vec![Position::new(5, 5), Position::new(7, 7)];
    let frame = game_to_frame(&game, &[], &[]);
    assert_eq!(frame.food.len(), 2);
    assert_eq!(frame.food[0].x, 5);
    assert_eq!(frame.food[0].y, 5);
    assert_eq!(frame.food[1].x, 7);
    assert_eq!(frame.food[1].y, 7);
}

#[test]
fn test_game_to_frame_with_hazards() {
    let mut game = create_test_game();
    game.board.hazards = vec![Position::new(0, 0), Position::new(10, 10)];
    let frame = game_to_frame(&game, &[], &[]);
    assert_eq!(frame.hazards.len(), 2);
    assert_eq!(frame.hazards[0].x, 0);
    assert_eq!(frame.hazards[0].y, 0);
}

#[test]
fn test_game_to_frame_snake_body_coords() {
    let game = create_test_game();
    let frame = game_to_frame(&game, &[], &[]);
    assert_eq!(frame.snakes[0].body.len(), 3);
    assert_eq!(frame.snakes[0].body[0].x, 5);
    assert_eq!(frame.snakes[0].body[0].y, 5);
}

#[test]
fn test_game_to_frame_alive_snake_no_death() {
    let game = create_test_game();
    let death_info = vec![DeathInfo {
        snake_id: "snake-1".to_string(),
        turn: 5,
        cause: "test".to_string(),
        eliminated_by: "".to_string(),
    }];
    let frame = game_to_frame(&game, &death_info, &[]);
    assert!(frame.snakes[0].death.is_some());
    assert_eq!(frame.snakes[0].eliminated_cause, "");
    assert_eq!(frame.snakes[0].eliminated_by, "");
}

#[test]
fn test_game_to_frame_latency_basic() {
    let game = create_test_game();
    let death_info: Vec<DeathInfo> = vec![];
    let move_results = vec![MoveResult {
        snake_id: "snake-1".to_string(),
        direction: Move::Up,
        latency_ms: Some(42),
        timed_out: false,
        shout: None,
    }];
    let frame = game_to_frame(&game, &death_info, &move_results);
    assert_eq!(frame.snakes[0].latency, "42");
}

#[test]
fn test_game_to_frame_latency_timeout() {
    let game = create_test_game();
    let death_info: Vec<DeathInfo> = vec![];
    let move_results = vec![MoveResult {
        snake_id: "snake-1".to_string(),
        direction: Move::Up,
        latency_ms: None,
        timed_out: true,
        shout: None,
    }];
    let frame = game_to_frame(&game, &death_info, &move_results);
    assert_eq!(frame.snakes[0].latency, "timeout");
}

#[test]
fn test_game_to_frame_shout_from_move_result() {
    let game = create_test_game();
    let death_info: Vec<DeathInfo> = vec![];
    let move_results = vec![MoveResult {
        snake_id: "snake-1".to_string(),
        direction: Move::Up,
        latency_ms: Some(100),
        timed_out: false,
        shout: Some("Hello from move!".to_string()),
    }];
    let frame = game_to_frame(&game, &death_info, &move_results);
    assert_eq!(frame.snakes[0].shout, "Hello from move!");
}

#[test]
fn test_game_to_frame_fallback_shout() {
    let game = create_test_game();
    let death_info: Vec<DeathInfo> = vec![];
    let move_results = vec![MoveResult {
        snake_id: "snake-1".to_string(),
        direction: Move::Up,
        latency_ms: Some(100),
        timed_out: false,
        shout: None,
    }];
    let frame = game_to_frame(&game, &death_info, &move_results);
    assert_eq!(frame.snakes[0].shout, "Hello!");
}

#[test]
fn test_game_to_frame_no_matching_latency_result() {
    let game = create_test_game();
    let death_info: Vec<DeathInfo> = vec![];
    let move_results = vec![MoveResult {
        snake_id: "other-snake".to_string(),
        direction: Move::Down,
        latency_ms: Some(50),
        timed_out: false,
        shout: None,
    }];
    let frame = game_to_frame(&game, &death_info, &move_results);
    assert_eq!(frame.snakes[0].latency, "0");
}

#[test]
fn frame_snake_has_fixed_display_fields() {
    let game = create_test_game();
    let frame = game_to_frame(&game, &[], &[]);
    let s = &frame.snakes[0];
    assert_eq!(s.head_type, "default");
    assert_eq!(s.tail_type, "default");
    assert_eq!(s.api_version, "1");
    assert_eq!(s.squad, "");
    assert_eq!(s.author, "");
    assert_eq!(s.color, generate_snake_color("snake-1"));
}
