use arena::game_flow::{ConfigureGameForm, FlowError, GameCreationFlow, GameCreationFlowRaw};
use arena::models::{GameBoardSize, GameType};

fn flow(selected: Vec<u128>) -> GameCreationFlow {
    GameCreationFlow {
        flow_id: 1,
        board_size: GameBoardSize::Medium,
        game_type: GameType::Standard,
        selected_battlesnake_ids: selected,
        search_query: None,
        user_id: 2,
        created_at: 0,
        updated_at: 0,
    }
}

#[test]
fn picks_stop_at_four_and_may_repeat() {
    let mut f = flow(vec![]);
    assert!(f.add_battlesnake(10));
    assert!(f.add_battlesnake(10));
    assert!(f.add_battlesnake(11));
    assert!(f.add_battlesnake(12));
    assert!(!f.add_battlesnake(13));
    assert_eq!(f.selected_battlesnake_ids, vec![10, 10, 11, 12]);
    assert_eq!(f.selected_count(), 4);
    assert_eq!(f.battlesnake_count(&10), 2);
    assert!(f.is_battlesnake_selected(&11));
    assert!(!f.is_battlesnake_selected(&13));
}

#[test]
fn remove_drops_the_last_pick() {
    let mut f = flow(vec![10, 11, 10, 12]);
    assert!(f.remove_battlesnake(10));
    assert_eq!(f.selected_battlesnake_ids, vec![10, 11, 12]);
    assert!(!f.remove_battlesnake(99));
    assert_eq!(f.selected_battlesnake_ids, vec![10, 11, 12]);
}

#[test]
fn add_then_remove_gives_back_the_selection() {
    let mut f = flow(vec![3, 5, 3]);
    assert!(f.add_battlesnake(5));
    assert!(f.remove_battlesnake(5));
    assert_eq!(f.selected_battlesnake_ids, vec![3, 5, 3]);
}

#[test]
fn flow_becomes_a_request_with_one_to_four_picks() {
    assert_eq!(flow(vec![]).validate(), Err(FlowError::NoSnakes));
    assert_eq!(flow(vec![1, 2, 3, 4, 5]).validate(), Err(FlowError::TooManySnakes));
    assert_eq!(flow(vec![1]).validate(), Ok(()));
    let req = flow(vec![4, 4]).to_create_game_request().unwrap();
    assert_eq!(req.battlesnake_ids, vec![4, 4]);
    assert_eq!(req.board_size, GameBoardSize::Medium);
    assert_eq!(req.game_type, GameType::Standard);
    assert!(flow(vec![]).to_create_game_request().is_err());
    assert_eq!(FlowError::NoSnakes.message(), "At least one battlesnake is required");
    assert_eq!(FlowError::TooManySnakes.message(), "Maximum of 4 battlesnakes allowed");
}

#[test]
fn form_settings_apply_where_they_name_a_setting() {
    let mut f = flow(vec![1]);
    f.configure(&ConfigureGameForm { board_size: "19x19".to_string(), game_type: "Snail Mode".to_string() });
    assert_eq!(f.board_size, GameBoardSize::Large);
    assert_eq!(f.game_type, GameType::SnailMode);
    f.configure(&ConfigureGameForm { board_size: "huge".to_string(), game_type: "Royale".to_string() });
    assert_eq!(f.board_size, GameBoardSize::Large);
    assert_eq!(f.game_type, GameType::Royale);
    assert_eq!(f.selected_battlesnake_ids, vec![1]);
}

#[test]
fn new_flow_and_reset() {
    let mut f = GameCreationFlow::new_for_user(5, 6, 77);
    assert_eq!(f.board_size, GameBoardSize::Medium);
    assert_eq!(f.game_type, GameType::Standard);
    assert!(f.selected_battlesnake_ids.is_empty());
    f.add_battlesnake(3);
    f.reset_selection();
    assert_eq!(f.selected_count(), 0);
    assert_eq!(f.flow_id, 5);
    assert_eq!(f.user_id, 6);
}

#[test]
fn notices_and_search_text() {
    let full = flow(vec![1, 2, 3, 4]);
    assert_eq!(full.add_notice(false), Some("Maximum of 4 battlesnakes allowed"));
    assert_eq!(full.add_notice(true), None);
    assert_eq!(flow(vec![]).add_notice(false), None);
    let mut f = flow(vec![]);
    assert_eq!(f.search_text(), None);
    f.search_query = Some(String::new());
    assert_eq!(f.search_text(), None);
    f.search_query = Some("nib".to_string());
    assert_eq!(f.search_text(), Some("nib"));
}

fn raw(board: &str, game_type: &str) -> GameCreationFlowRaw {
    GameCreationFlowRaw {
        flow_id: 7,
        board_size: board.to_string(),
        game_type: game_type.to_string(),
        selected_battlesnakes: vec![3, 3, 4],
        search_query: Some("viper".to_string()),
        user_id: 9,
        created_at: 10,
        updated_at: 11,
    }
}

#[test]
fn stored_flow_reads_its_settings_by_name() {
    let f = GameCreationFlow::from(raw("19x19", "Royale"));
    assert_eq!(f.board_size, GameBoardSize::Large);
    assert_eq!(f.game_type, GameType::Royale);
    assert_eq!(f.selected_battlesnake_ids, vec![3, 3, 4]);
    assert_eq!(f.search_query, Some("viper".to_string()));
    assert_eq!((f.flow_id, f.user_id, f.created_at, f.updated_at), (7, 9, 10, 11));
}

#[test]
fn stored_flow_with_unknown_names_falls_back_to_medium_standard() {
    let f = GameCreationFlow::from(raw("13x13", "royale"));
    assert_eq!(f.board_size, GameBoardSize::Medium);
    assert_eq!(f.game_type, GameType::Standard);
}
