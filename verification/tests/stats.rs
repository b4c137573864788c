use arena::models::{GameBoardSize, GameStatus, GameType};
use arena::stats::{compute_stats, owner_display, profile_created_text, GameHistoryEntry};

fn entry(status: GameStatus, placement: Option<i32>) -> GameHistoryEntry {
    GameHistoryEntry {
        game_id: 1,
        game_type: GameType::Standard,
        board_size: GameBoardSize::Medium,
        status,
        placement,
        snake_count: 4,
        winner_name: None,
        created_at: 0,
    }
}

#[test]
fn stats_count_finished_games_and_places() {
    let history = vec![
        entry(GameStatus::Finished, Some(1)),
        entry(GameStatus::Finished, Some(2)),
        entry(GameStatus::Finished, Some(1)),
        entry(GameStatus::Finished, Some(4)),
        entry(GameStatus::Finished, None),
        entry(GameStatus::Running, Some(1)),
        entry(GameStatus::Waiting, None),
        entry(GameStatus::Finished, Some(7)),
    ];
    let s = compute_stats(&history);
    assert_eq!(s.total_games, 8);
    assert_eq!(s.finished_games, 6);
    assert_eq!(s.wins, 2);
    assert_eq!(s.second_places, 1);
    assert_eq!(s.third_places, 0);
    assert_eq!(s.fourth_places, 1);
    assert_eq!(s.placement_sum, 15);
    assert_eq!(s.placement_count, 5);
}

#[test]
fn stats_of_no_games_are_zero() {
    let s = compute_stats(&[]);
    assert_eq!(s.total_games, 0);
    assert_eq!(s.finished_games, 0);
    assert_eq!(s.placement_count, 0);
}

#[test]
fn profile_shows_owner_or_unknown_user() {
    let (login, avatar) = owner_display(Some(("octo".to_string(), Some("https://a/x.png".to_string()))));
    assert_eq!((login.as_str(), avatar.as_str()), ("octo", "https://a/x.png"));
    let (login, avatar) = owner_display(Some(("octo".to_string(), None)));
    assert_eq!((login.as_str(), avatar.as_str()), ("octo", ""));
    let (login, avatar) = owner_display(None);
    assert_eq!((login.as_str(), avatar.as_str()), ("Unknown User", ""));
}

#[test]
fn profile_shows_creation_minute_in_utc() {
    assert_eq!(profile_created_text(1_700_000_000_000_000), Some("2023-11-14 22:13".to_string()));
}
