use arena::engine::game_state::{Board, Coordinate, Direction, Snake};

#[test]
fn test_coordinate_apply_direction() {
    let coord = Coordinate { x: 5, y: 5 };
    assert_eq!(coord.apply_direction(Direction::Up), Coordinate { x: 5, y: 6 });
    assert_eq!(coord.apply_direction(Direction::Down), Coordinate { x: 5, y: 4 });
    assert_eq!(coord.apply_direction(Direction::Left), Coordinate { x: 4, y: 5 });
    assert_eq!(coord.apply_direction(Direction::Right), Coordinate { x: 6, y: 5 });
}

#[test]
fn test_coordinate_apply_direction_boundaries() {
    let coord = Coordinate { x: 0, y: 0 };
    assert_eq!(coord.apply_direction(Direction::Down), Coordinate { x: 0, y: 0 });
    assert_eq!(coord.apply_direction(Direction::Left), Coordinate { x: 0, y: 0 });
}

#[test]
fn game_state_test_snake_movement() {
    let mut snake = Snake::new(uuid::Uuid::new_v4().as_u128(), Coordinate { x: 5, y: 5 });
    assert_eq!(snake.body.len(), 3);
    assert_eq!(*snake.get_head(), Coordinate { x: 5, y: 5 });
    snake.move_to(Coordinate { x: 5, y: 6 });
    assert_eq!(snake.body.len(), 3);
    assert_eq!(*snake.get_head(), Coordinate { x: 5, y: 6 });
    snake.grow(Coordinate { x: 5, y: 7 });
    assert_eq!(snake.body.len(), 4);
    assert_eq!(*snake.get_head(), Coordinate { x: 5, y: 7 });
}

#[test]
fn test_direction_from_str() {
    assert_eq!(Direction::from_str("up"), Some(Direction::Up));
    assert_eq!(Direction::from_str("DOWN"), Some(Direction::Down));
    assert_eq!(Direction::from_str("Left"), Some(Direction::Left));
    assert_eq!(Direction::from_str("RIGHT"), Some(Direction::Right));
    assert_eq!(Direction::from_str("invalid"), None);
}

#[test]
fn direction_names_read_back() {
    for d in [Direction::Up, Direction::Down, Direction::Left, Direction::Right] {
        assert_eq!(Direction::from_str(d.as_str()), Some(d));
    }
    assert_eq!(Direction::Up.as_str(), "up");
    assert_eq!(Direction::Right.as_str(), "right");
}

#[test]
fn snake_starts_alive_at_full_health() {
    let snake = Snake::new(7, Coordinate { x: 1, y: 2 });
    assert_eq!(snake.id, 7);
    assert_eq!(snake.health, 100);
    assert!(snake.is_alive);
    assert_eq!(snake.get_next_head(Direction::Right), Coordinate { x: 2, y: 2 });
}

#[test]
fn move_keeps_length_and_drops_tail() {
    let mut snake = Snake::new(1, Coordinate { x: 2, y: 2 });
    snake.move_to(Coordinate { x: 2, y: 3 });
    snake.move_to(Coordinate { x: 2, y: 4 });
    assert_eq!(
        snake.body,
        vec![Coordinate { x: 2, y: 4 }, Coordinate { x: 2, y: 3 }, Coordinate { x: 2, y: 2 }]
    );
}

#[test]
fn board_positions_inside_are_valid() {
    let board = Board::new(11, 7);
    assert!(board.is_valid_position(&Coordinate { x: 0, y: 0 }));
    assert!(board.is_valid_position(&Coordinate { x: 10, y: 6 }));
    assert!(!board.is_valid_position(&Coordinate { x: 11, y: 0 }));
    assert!(!board.is_valid_position(&Coordinate { x: 0, y: 7 }));
}

#[test]
fn direction_reading_ignores_case() {
    for d in [Direction::Up, Direction::Down, Direction::Left, Direction::Right] {
        assert_eq!(Direction::from_str(d.as_str()), Some(d));
        assert_eq!(Direction::from_str(&d.as_str().to_uppercase()), Some(d));
    }
    for s in ["Up", "dOWN", "LEFT", "nope"] {
        assert_eq!(Direction::from_str(s), Direction::from_str(&s.to_lowercase()));
    }
}
