use std::collections::VecDeque;

use arena::engine::live::LiveGame;
use arena::engine::wire::{BattleSnake, Board, Game, Move, NestedGame, Position, Ruleset};
use arena::snake_client::MoveResult;

fn snake(id: &str, cells: &[(i32, i32)]) -> BattleSnake {
    let body: VecDeque<Position> = cells.iter().map(|&(x, y)| Position::new(x, y)).collect();
    BattleSnake {
        id: id.to_string(),
        name: id.to_uppercase(),
        head: body[0],
        body,
        health: 100,
        shout: None,
        actual_length: None,
    }
}

fn two_snake_game() -> Game {
    let a = snake("a", &[(0, 5), (1, 5), (2, 5)]);
    let b = snake("b", &[(8, 8), (8, 7), (8, 6)]);
    Game {
        you: a.duplicate(),
        board: Board { height: 11, width: 11, food: vec![Position::new(5, 5)], snakes: vec![a, b], hazards: vec![] },
        turn: 0,
        game: NestedGame {
            id: "live".to_string(),
            ruleset: Ruleset { name: "standard".to_string(), version: "v1.0.0".to_string(), settings: None },
            timeout: 500,
            map: None,
            source: None,
        },
    }
}

fn result(id: &str, direction: Move, latency: Option<i64>, timed_out: bool) -> MoveResult {
    MoveResult { snake_id: id.to_string(), direction, latency_ms: latency, timed_out, shout: None }
}

#[test]
fn live_game_starts_with_nothing_remembered() {
    let live = LiveGame::new(two_snake_game());
    assert_eq!(live.last_move(&"a".to_string()), None);
    assert!(!live.is_over());
    let frame = live.opening_frame();
    assert_eq!(frame.turn, 0);
    assert_eq!(frame.snakes.len(), 2);
    assert_eq!(frame.snakes[0].latency, "0");
}

#[test]
fn live_turn_eliminates_a_snake_running_into_the_wall() {
    let mut live = LiveGame::new(two_snake_game());
    let results = vec![result("a", Move::Left, None, true), result("b", Move::Up, Some(42), false)];
    let frame = live.play_turn(&results);
    assert_eq!(live.run.game.turn, 1);
    assert_eq!(live.run.game.board.snakes[0].health, 0);
    assert_eq!(live.death_info.len(), 1);
    assert_eq!(live.death_info[0].snake_id, "a");
    assert_eq!(live.death_info[0].turn, 1);
    assert_eq!(live.death_info[0].cause, "eliminated");
    assert_eq!(live.death_info[0].eliminated_by, "");
    assert_eq!(frame.turn, 1);
    assert_eq!(frame.snakes[0].latency, "timeout");
    assert_eq!(frame.snakes[0].eliminated_cause, "eliminated");
    assert_eq!(frame.snakes[1].latency, "42");
    assert!(live.is_over());
    let res = live.finish();
    assert_eq!(res.placements, vec!["b".to_string(), "a".to_string()]);
    assert_eq!(res.final_turn, 1);
}

#[test]
fn live_game_remembers_the_last_move_of_each_snake() {
    let mut live = LiveGame::new(two_snake_game());
    live.play_turn(&[result("a", Move::Up, Some(5), false), result("b", Move::Left, Some(6), false)]);
    assert_eq!(live.last_move(&"a".to_string()), Some(Move::Up));
    assert_eq!(live.last_move(&"b".to_string()), Some(Move::Left));
    live.play_turn(&[result("a", Move::Right, Some(5), false)]);
    assert_eq!(live.last_move(&"a".to_string()), Some(Move::Right));
    assert_eq!(live.last_move(&"b".to_string()), Some(Move::Left));
    assert_eq!(live.last_moves.len(), 2);
    assert_eq!(live.run.game.turn, 2);
    assert!(live.death_info.is_empty());
}

#[test]
fn live_game_later_result_for_a_snake_wins() {
    let mut live = LiveGame::new(two_snake_game());
    live.play_turn(&[result("a", Move::Up, None, true), result("a", Move::Down, None, true)]);
    assert_eq!(live.last_move(&"a".to_string()), Some(Move::Down));
    // the turn rules take the first move given for a snake
    assert_eq!(live.run.game.board.snakes[0].head, Position::new(0, 6));
}
