use arena::models::{GameBoardSize, GameStatus, GameType, Visibility};

#[test]
fn board_sizes_and_dimensions() {
    assert_eq!(GameBoardSize::Small.dimensions(), (7, 7));
    assert_eq!(GameBoardSize::Medium.dimensions(), (11, 11));
    assert_eq!(GameBoardSize::Large.dimensions(), (19, 19));
    for b in [GameBoardSize::Small, GameBoardSize::Medium, GameBoardSize::Large] {
        assert_eq!(GameBoardSize::from_str(b.as_str()).unwrap(), b);
    }
    assert_eq!(GameBoardSize::from_str("9x9").unwrap_err().message, "Invalid board size: 9x9");
}

#[test]
fn game_type_and_status_names_read_back() {
    for t in [GameType::Standard, GameType::Royale, GameType::Constrictor, GameType::SnailMode] {
        assert_eq!(GameType::from_str(t.as_str()).unwrap(), t);
    }
    for s in [GameStatus::Waiting, GameStatus::Running, GameStatus::Finished] {
        assert_eq!(GameStatus::from_str(s.as_str()).unwrap(), s);
    }
    assert_eq!(GameType::SnailMode.as_str(), "Snail Mode");
    assert_eq!(GameStatus::Finished.as_str(), "finished");
    assert!(GameStatus::from_str("Finished").is_err());
}

#[test]
fn visibility_parses_in_any_case_and_defaults_to_public() {
    assert_eq!(Visibility::from_str("PUBLIC").unwrap(), Visibility::Public);
    assert_eq!(Visibility::from_str("Private").unwrap(), Visibility::Private);
    assert_eq!(Visibility::from_str("secret").unwrap_err().message, "Invalid visibility: secret");
    assert_eq!(Visibility::default(), Visibility::Public);
    assert_eq!(Visibility::Private.as_str(), "private");
}
