use std::collections::VecDeque;

use arena::engine::random_play::{can_draw, game_seed, run_game_with_random_moves, SeededGame};
use arena::engine::rules::{apply_turn, apply_turn_internal, eliminate_snakes, SNAKE_MAX_HEALTH};
use arena::engine::run::{is_game_over, GameRun, MAX_TURNS};
use arena::engine::setup::{create_initial_game, generate_initial_food, generate_spawn_positions};
use arena::engine::wire::{BattleSnake, Board, Game, Move, NestedGame, Position, Ruleset};
use arena::models::{GameBattlesnakeWithDetails, GameBoardSize, GameType};

fn create_test_game(num_snakes: usize) -> Game {
    let snakes: Vec<BattleSnake> = (0..num_snakes)
        .map(|i| BattleSnake {
            id: format!("snake-{}", i),
            name: format!("Snake {}", i),
            head: Position::new(i as i32 * 2 + 1, i as i32 * 2 + 1),
            body: VecDeque::from([Position::new(i as i32 * 2 + 1, i as i32 * 2 + 1); 3]),
            health: 100,
            shout: None,
            actual_length: None,
        })
        .collect();
    Game {
        you: snakes[0].duplicate(),
        board: Board {
            height: 11,
            width: 11,
            food: vec![Position::new(5, 5)],
            snakes,
            hazards: vec![],
        },
        turn: 0,
        game: NestedGame {
            id: "test-game".to_string(),
            ruleset: Ruleset {
                name: "standard".to_string(),
                version: "v1.0.0".to_string(),
                settings: None,
            },
            timeout: 500,
            map: None,
            source: None,
        },
    }
}

#[test]
fn test_generate_spawn_positions() {
    let positions = generate_spawn_positions(11, 11, 4);
    assert_eq!(positions.len(), 4);
    for (i, p1) in positions.iter().enumerate() {
        for (j, p2) in positions.iter().enumerate() {
            if i != j {
                assert_ne!(p1, p2, "Positions should be unique");
            }
        }
    }
    for pos in &positions {
        assert!(pos.x >= 0 && pos.x < 11);
        assert!(pos.y >= 0 && pos.y < 11);
    }
}

#[test]
fn spawn_positions_are_capped_at_eight() {
    let positions = generate_spawn_positions(11, 11, 12);
    assert_eq!(positions.len(), 8);
    for (i, p1) in positions.iter().enumerate() {
        for p2 in positions.iter().skip(i + 1) {
            assert_ne!(p1, p2);
        }
    }
}

#[test]
fn spawn_positions_for_one_snake_are_a_corner_or_edge_middle() {
    for _ in 0..20 {
        let p = generate_spawn_positions(11, 11, 1)[0];
        let corner = (p.x == 1 || p.x == 9) && (p.y == 1 || p.y == 9);
        let edge_middle = (p.x == 5 && (p.y == 1 || p.y == 9)) || (p.y == 5 && (p.x == 1 || p.x == 9));
        assert!(corner || edge_middle, "{:?}", p);
    }
}

#[test]
fn test_is_game_over() {
    let game = create_test_game(2);
    assert!(!is_game_over(&game));
    let mut game_one_alive = create_test_game(2);
    game_one_alive.board.snakes[0].health = 0;
    assert!(is_game_over(&game_one_alive));
}

#[test]
fn test_run_full_game() {
    for _ in 0..10 {
        let result = run_game_with_random_moves(create_test_game(4))
            .expect("three-segment snakes always have a move to draw");
        assert_eq!(result.placements.len(), 4, "All snakes should have placements");
        let mut ids = result.placements.clone();
        ids.sort();
        ids.dedup();
        assert_eq!(ids.len(), 4, "All placements should be unique snakes");
        assert!(result.final_turn <= MAX_TURNS, "Game should end within MAX_TURNS");
        assert!(result.final_turn > 0, "Game should have run for at least one turn");
    }
}

#[test]
fn test_apply_turn_movement() {
    let mut game = create_test_game(1);
    game.board.snakes[0].head = Position::new(5, 5);
    game.board.snakes[0].body =
        VecDeque::from([Position::new(5, 5), Position::new(5, 4), Position::new(5, 3)]);
    let moves = vec![("snake-0".to_string(), Move::Up)];
    let game = apply_turn(game, &moves);
    assert_eq!(game.board.snakes[0].head, Position::new(5, 6));
    assert_eq!(game.board.snakes[0].body[0], Position::new(5, 6));
    assert_eq!(game.board.snakes[0].body[1], Position::new(5, 5));
    assert_eq!(game.board.snakes[0].body[2], Position::new(5, 4));
}

#[test]
fn test_apply_turn_health_decrease() {
    let mut game = create_test_game(1);
    game.board.snakes[0].health = 100;
    let moves = vec![("snake-0".to_string(), Move::Up)];
    let game = apply_turn(game, &moves);
    assert_eq!(game.board.snakes[0].health, 99);
}

#[test]
fn test_apply_turn_eating_food() {
    let mut game = create_test_game(1);
    game.board.snakes[0].head = Position::new(5, 4);
    game.board.snakes[0].body =
        VecDeque::from([Position::new(5, 4), Position::new(5, 3), Position::new(5, 2)]);
    game.board.snakes[0].health = 50;
    game.board.food = vec![Position::new(5, 5)];
    let moves = vec![("snake-0".to_string(), Move::Up)];
    let game = apply_turn(game, &moves);
    assert_eq!(game.board.snakes[0].health, SNAKE_MAX_HEALTH);
    assert_eq!(game.board.snakes[0].body.len(), 4);
    assert!(game.board.food.is_empty());
}

#[test]
fn test_wall_collision_elimination() {
    let mut game = create_test_game(1);
    game.board.snakes[0].head = Position::new(0, 5);
    game.board.snakes[0].body =
        VecDeque::from([Position::new(0, 5), Position::new(1, 5), Position::new(2, 5)]);
    let moves = vec![("snake-0".to_string(), Move::Left)];
    let game = apply_turn(game, &moves);
    assert_eq!(game.board.snakes[0].health, 0);
}

#[test]
fn snake_without_a_move_goes_up() {
    let game = create_test_game(1);
    let game = apply_turn(game, &[]);
    assert_eq!(game.board.snakes[0].head, Position::new(1, 2));
}

#[test]
fn dead_snakes_do_not_move_or_starve() {
    let mut game = create_test_game(2);
    game.board.snakes[1].health = 0;
    let before = game.board.snakes[1].head;
    let game = apply_turn(game, &[("snake-1".to_string(), Move::Right)]);
    assert_eq!(game.board.snakes[1].head, before);
    assert_eq!(game.board.snakes[1].health, 0);
}

#[test]
fn head_on_collision_eliminates_the_shorter_snake() {
    let mut game = create_test_game(2);
    game.board.food = vec![];
    game.board.snakes[0].head = Position::new(4, 5);
    game.board.snakes[0].body =
        VecDeque::from([Position::new(4, 5), Position::new(3, 5), Position::new(2, 5), Position::new(1, 5)]);
    game.board.snakes[1].head = Position::new(6, 5);
    game.board.snakes[1].body =
        VecDeque::from([Position::new(6, 5), Position::new(7, 5), Position::new(8, 5)]);
    let moves = vec![("snake-0".to_string(), Move::Right), ("snake-1".to_string(), Move::Left)];
    let game = apply_turn(game, &moves);
    assert!(game.board.snakes[0].health > 0);
    assert_eq!(game.board.snakes[1].health, 0);
}

#[test]
fn head_on_collision_of_equal_lengths_eliminates_both() {
    let mut game = create_test_game(2);
    game.board.food = vec![];
    game.board.snakes[0].head = Position::new(4, 5);
    game.board.snakes[0].body =
        VecDeque::from([Position::new(4, 5), Position::new(3, 5), Position::new(2, 5)]);
    game.board.snakes[1].head = Position::new(6, 5);
    game.board.snakes[1].body =
        VecDeque::from([Position::new(6, 5), Position::new(7, 5), Position::new(8, 5)]);
    let moves = vec![("snake-0".to_string(), Move::Right), ("snake-1".to_string(), Move::Left)];
    let game = apply_turn(game, &moves);
    assert_eq!(game.board.snakes[0].health, 0);
    assert_eq!(game.board.snakes[1].health, 0);
}

#[test]
fn running_into_another_body_eliminates() {
    let mut game = create_test_game(2);
    game.board.food = vec![];
    game.board.snakes[0].head = Position::new(4, 4);
    game.board.snakes[0].body =
        VecDeque::from([Position::new(4, 4), Position::new(3, 4), Position::new(2, 4)]);
    game.board.snakes[1].head = Position::new(5, 6);
    game.board.snakes[1].body =
        VecDeque::from([Position::new(5, 6), Position::new(5, 5), Position::new(5, 4), Position::new(5, 3)]);
    let moves = vec![("snake-0".to_string(), Move::Right), ("snake-1".to_string(), Move::Up)];
    let game = apply_turn(game, &moves);
    assert_eq!(game.board.snakes[0].health, 0);
    assert!(game.board.snakes[1].health > 0);
}

#[test]
fn starving_snake_is_eliminated() {
    let mut game = create_test_game(1);
    game.board.food = vec![];
    game.board.snakes[0].health = 1;
    let game = apply_turn(game, &[("snake-0".to_string(), Move::Right)]);
    assert_eq!(game.board.snakes[0].health, 0);
}

fn double_eat_game(food: Vec<Position>) -> Game {
    let mut game = create_test_game(2);
    game.board.food = food;
    game.board.snakes[0].head = Position::new(5, 4);
    game.board.snakes[0].body =
        VecDeque::from([Position::new(5, 4), Position::new(5, 3), Position::new(5, 2)]);
    game.board.snakes[1].head = Position::new(5, 6);
    game.board.snakes[1].body =
        VecDeque::from([Position::new(5, 6), Position::new(5, 7), Position::new(5, 8)]);
    game
}

fn double_eat_moves() -> Vec<(String, Move)> {
    vec![("snake-0".to_string(), Move::Up), ("snake-1".to_string(), Move::Down)]
}

#[test]
fn two_snakes_on_the_last_food_remove_it_once() {
    let game = apply_turn(double_eat_game(vec![Position::new(5, 5)]), &double_eat_moves());
    assert!(game.board.food.is_empty());
    assert_eq!(game.board.snakes[0].health, 0);
    assert_eq!(game.board.snakes[1].health, 0);
    let same = apply_turn_internal(double_eat_game(vec![Position::new(5, 5)]), &double_eat_moves());
    assert!(same.board.food.is_empty());
}

#[test]
fn two_snakes_on_one_of_several_food_items_leave_the_others() {
    let food = vec![Position::new(1, 1), Position::new(5, 5), Position::new(9, 9)];
    let game = apply_turn(double_eat_game(food), &double_eat_moves());
    assert_eq!(game.board.food, vec![Position::new(1, 1), Position::new(9, 9)]);
}

#[test]
fn eliminate_snakes_marks_out_of_bounds_snake() {
    let mut game = create_test_game(2);
    game.board.snakes[0].body =
        VecDeque::from([Position::new(1, 1), Position::new(1, 0), Position::new(0, 0)]);
    game.board.snakes[1].head = Position::new(11, 3);
    eliminate_snakes(&mut game);
    assert_eq!(game.board.snakes[1].health, 0);
    assert_eq!(game.board.snakes[0].health, 100);
}

#[test]
fn stacked_start_body_counts_as_running_into_itself() {
    let mut game = create_test_game(1);
    eliminate_snakes(&mut game);
    assert_eq!(game.board.snakes[0].health, 0);
}

#[test]
fn game_run_ranks_survivor_then_eliminated_in_reverse() {
    let mut game = create_test_game(3);
    game.board.food = vec![];
    // snake-0 runs into the left wall at once; snake-2 leaves the board later.
    game.board.snakes[0].head = Position::new(0, 1);
    game.board.snakes[0].body = VecDeque::from([Position::new(0, 1); 3]);
    let mut run = GameRun::new(game);
    let newly = run.advance(&[
        ("snake-0".to_string(), Move::Left),
        ("snake-1".to_string(), Move::Up),
        ("snake-2".to_string(), Move::Up),
    ]);
    assert_eq!(newly, vec!["snake-0".to_string()]);
    assert_eq!(run.game.turn, 1);
    let newly = run.advance(&[("snake-1".to_string(), Move::Up), ("snake-2".to_string(), Move::Right)]);
    assert!(newly.is_empty());
    let mut g = run;
    let result = {
        // Move snake-2 off the board.
        g.game.board.snakes[2].head = Position::new(10, 6);
        let _ = g.advance(&[("snake-1".to_string(), Move::Up), ("snake-2".to_string(), Move::Right)]);
        g.finish()
    };
    assert_eq!(
        result.placements,
        vec!["snake-1".to_string(), "snake-2".to_string(), "snake-0".to_string()]
    );
    assert_eq!(result.final_turn, 3);
}

fn entry(id: u128, name: &str) -> GameBattlesnakeWithDetails {
    GameBattlesnakeWithDetails {
        game_battlesnake_id: id,
        game_id: 7,
        battlesnake_id: id + 100,
        placement: None,
        created_at: 0,
        updated_at: 0,
        name: name.to_string(),
        url: "http://localhost:8080".to_string(),
        user_id: 1,
    }
}

#[test]
fn initial_game_places_every_snake_at_full_health() {
    let snakes = vec![entry(1, "a"), entry(2, "b"), entry(3, "c")];
    let game = create_initial_game(42, GameBoardSize::Medium, GameType::Standard, &snakes);
    assert_eq!(game.board.width, 11);
    assert_eq!(game.board.height, 11);
    assert_eq!(game.board.snakes.len(), 3);
    for s in &game.board.snakes {
        assert_eq!(s.health, 100);
        assert_eq!(s.body.len(), 3);
        assert!(s.body.iter().all(|p| *p == s.head));
    }
    assert_eq!(game.board.snakes[0].name, "a");
    assert_eq!(game.turn, 0);
    assert_eq!(game.game.ruleset.name, "standard");
    assert_eq!(game.you.id, game.board.snakes[0].id);
    // The center is free, so there is food on it.
    assert!(game.board.food.contains(&Position::new(5, 5)));
}

#[test]
fn initial_food_is_on_the_board_and_off_the_snakes() {
    let snakes = vec![entry(1, "a"), entry(2, "b")];
    let game = create_initial_game(9, GameBoardSize::Small, GameType::Royale, &snakes);
    let food = generate_initial_food(7, 7, &game.board.snakes);
    for f in &food {
        assert!(f.x >= 0 && f.x < 7 && f.y >= 0 && f.y < 7);
        assert!(!((f.x == 0 || f.x == 6) && (f.y == 0 || f.y == 6)), "no food in a corner");
    }
    assert_eq!(*food.last().unwrap(), Position::new(3, 3));
    assert!(food.len() <= 3);
    for (i, a) in food.iter().enumerate() {
        for b in food.iter().skip(i + 1) {
            assert_ne!(a, b);
        }
    }
}

#[test]
fn random_game_from_initial_state_ranks_all_snakes() {
    let snakes = vec![entry(1, "a"), entry(2, "b"), entry(3, "c"), entry(4, "d")];
    let mut done = 0;
    while done < 5 {
        let game = create_initial_game(1, GameBoardSize::Large, GameType::Standard, &snakes);
        let ids: Vec<String> = game.board.snakes.iter().map(|s| s.id.clone()).collect();
        if let Some(result) = run_game_with_random_moves(game) {
            let mut got = result.placements.clone();
            got.sort();
            let mut want = ids.clone();
            want.sort();
            assert_eq!(got, want);
            done += 1;
        }
    }
}

#[test]
fn random_play_of_a_finished_game_ranks_it_as_it_stands() {
    let mut game = create_test_game(2);
    game.board.snakes[1].health = 0;
    let result = run_game_with_random_moves(game).expect("a finished game is ranked");
    assert_eq!(result.final_turn, 0);
    assert_eq!(result.placements, vec!["snake-0".to_string()]);
}

#[test]
fn one_segment_snake_without_a_move_cannot_be_played() {
    let mut game = create_test_game(2);
    game.board.width = 1;
    game.board.height = 1;
    game.board.snakes[0].head = Position::new(0, 0);
    game.board.snakes[0].body = VecDeque::from([Position::new(0, 0)]);
    assert!(!can_draw(&game));
    assert!(run_game_with_random_moves(game).is_none());
}

#[test]
fn one_segment_snake_with_room_can_be_played() {
    let mut game = create_test_game(2);
    game.board.snakes[0].head = Position::new(5, 5);
    game.board.snakes[0].body = VecDeque::from([Position::new(5, 5)]);
    assert!(can_draw(&game));
}

#[test]
fn wrapped_board_plays_a_one_segment_snake_with_room() {
    let mut game = create_test_game(2);
    game.game.ruleset.name = "wrapped".to_string();
    assert!(can_draw(&game));
    game.board.snakes[1].body = VecDeque::from([Position::new(3, 3)]);
    assert!(can_draw(&game));
}

#[test]
fn wrapped_board_without_width_cannot_be_played() {
    let mut game = create_test_game(2);
    game.game.ruleset.name = "wrapped".to_string();
    game.board.width = 0;
    assert!(!can_draw(&game));
    assert!(run_game_with_random_moves(game).is_none());
}

#[test]
fn wrapped_one_segment_snake_boxed_in_cannot_be_played() {
    let mut game = create_test_game(2);
    game.game.ruleset.name = "wrapped".to_string();
    game.board.width = 1;
    game.board.height = 1;
    game.board.snakes[0].head = Position::new(0, 0);
    game.board.snakes[0].body = VecDeque::from([Position::new(0, 0)]);
    assert!(!can_draw(&game));
}

fn play_seeded(game_id: u128) -> (Vec<String>, i32, usize) {
    let mut seeded = SeededGame::new(create_test_game(4), game_id);
    let opening = seeded.frame();
    assert_eq!(opening.turn, 0);
    let mut frames = 0;
    while !seeded.is_over() {
        let frame = seeded.step().expect("three-segment snakes always have a move");
        frames += 1;
        assert_eq!(frame.turn, seeded.run.game.turn);
    }
    assert_eq!(seeded.death_info.len(), seeded.run.elimination_order.len());
    for d in &seeded.death_info {
        assert_eq!(d.cause, "eliminated");
    }
    let result = seeded.finish();
    (result.placements, result.final_turn, frames)
}

#[test]
fn seeded_games_with_the_same_id_play_the_same() {
    let a = play_seeded(0x550e8400_e29b_41d4_a716_446655440000);
    let b = play_seeded(0x550e8400_e29b_41d4_a716_446655440000);
    assert_eq!(a, b);
    assert_eq!(a.0.len(), 4);
    assert!(a.1 > 0 && a.1 <= MAX_TURNS);
    assert_eq!(a.2 as i32, a.1);
}

#[test]
fn seeded_game_without_a_move_changes_nothing() {
    let mut game = create_test_game(2);
    game.board.width = 1;
    game.board.height = 1;
    game.board.snakes[0].head = Position::new(0, 0);
    game.board.snakes[0].body = VecDeque::from([Position::new(0, 0)]);
    let mut seeded = SeededGame::new(game, 7);
    assert!(seeded.step().is_none());
    assert_eq!(seeded.run.game.turn, 0);
    assert!(seeded.death_info.is_empty());
}

#[test]
fn random_play_ranks_a_snake_already_dead_at_the_start() {
    let mut game = create_test_game(3);
    game.board.snakes[2].health = 0;
    let result = run_game_with_random_moves(game).expect("two-segment bodies can always be played");
    let mut ids = result.placements.clone();
    ids.sort();
    assert_eq!(ids, vec!["snake-0".to_string(), "snake-1".to_string(), "snake-2".to_string()]);
    assert!(result.final_turn > 0);
}

#[test]
fn game_seed_is_the_id_bytes_then_zeros() {
    let id = 0x550e8400_e29b_41d4_a716_446655440000u128;
    let seed = game_seed(id);
    assert_eq!(seed.len(), 32);
    assert_eq!(&seed[..16], &id.to_be_bytes());
    assert!(seed[16..].iter().all(|b| *b == 0));
}
