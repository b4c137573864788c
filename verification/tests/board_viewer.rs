use arena::board_viewer::{game_info, game_state_to_frame, get_snake_color, viewer_status};
use arena::models::{GameBoardSize, GameStatus};
use arena::engine::game_state::{Coordinate, Food, GameState, Snake};
use std::collections::HashMap;

#[test]
fn snake_colors_cycle_through_the_palette() {
    assert_eq!(get_snake_color(0), "#FF5733");
    assert_eq!(get_snake_color(1), "#33FF57");
    assert_eq!(get_snake_color(7), "#8C33FF");
    assert_eq!(get_snake_color(8), "#FF5733");
    assert_eq!(get_snake_color(13), get_snake_color(5));
}

#[test]
fn game_state_frame_shows_every_snake_once() {
    let mut state = GameState::new(11, 11);
    state.turn = 12;
    let a: u128 = 0x12345678_9abc_def0_1234_56789abcdef0;
    let b: u128 = 0xfedcba98_7654_3210_fedc_ba9876543210;
    state.snakes.insert(a, Snake::new(a, Coordinate { x: 1, y: 2 }));
    let mut dead = Snake::new(b, Coordinate { x: 4, y: 4 });
    dead.is_alive = false;
    state.snakes.insert(b, dead);
    state.food.push(Food { position: Coordinate { x: 3, y: 3 } });
    let mut colors = HashMap::new();
    colors.insert(a, "#123456".to_string());
    assert_eq!(state.get_alive_snake_count(), 1);
    let alive = state.get_alive_snakes();
    assert_eq!(alive.len(), 1);
    assert_eq!(alive[0].id, a);
    let frame = game_state_to_frame(&state, &colors);
    assert_eq!(frame.turn, 12);
    assert_eq!(frame.snakes.len(), 2);
    let sa = frame.snakes.iter().find(|s| s.id == "12345678-9abc-def0-1234-56789abcdef0").unwrap();
    assert_eq!(sa.name, "Snake 12345678");
    assert_eq!(sa.color, "#123456");
    assert!(sa.death.is_none());
    assert_eq!(sa.body.len(), 3);
    assert_eq!(sa.body[0].x, 1);
    assert_eq!(sa.health, 100);
    let sb = frame.snakes.iter().find(|s| s.id == "fedcba98-7654-3210-fedc-ba9876543210").unwrap();
    assert_eq!(sb.color, "#888888");
    let death = sb.death.as_ref().unwrap();
    assert_eq!(death.cause, "collision");
    assert_eq!(death.turn, 12);
    assert!(sb.is_bot);
    assert_eq!(sb.latency, "0");
    assert_eq!(frame.food.len(), 1);
    assert_eq!(frame.food[0].y, 3);
    assert!(frame.hazards.is_empty());
}

#[test]
fn viewer_game_info_and_status_names() {
    assert_eq!(game_info(GameBoardSize::Large).game.width, 19);
    assert_eq!(game_info(GameBoardSize::Small).game.height, 7);
    assert_eq!(viewer_status(GameStatus::Finished), "complete");
    assert_eq!(viewer_status(GameStatus::Waiting), "waiting");
    assert_eq!(viewer_status(GameStatus::Running), "running");
}
