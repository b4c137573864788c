use arena::frame_stream::{
    after_replay, next_action, opening_error_message, select_frames, OpeningError, StoredTurn,
    StreamAction, StreamEvent,
};

fn turn(n: i32, has_frame: bool) -> StoredTurn {
    StoredTurn { turn_number: n, has_frame }
}

#[test]
fn replay_sends_every_stored_frame() {
    let turns = vec![turn(0, true), turn(1, false), turn(2, true), turn(1, true)];
    let (idx, last) = select_frames(&turns, -1, true);
    assert_eq!(idx, vec![0, 2, 3]);
    assert_eq!(last, 1);
}

#[test]
fn live_updates_skip_turns_already_sent() {
    let turns = vec![turn(3, true), turn(4, true), turn(5, false), turn(6, true), turn(4, true)];
    let (idx, last) = select_frames(&turns, 3, false);
    assert_eq!(idx, vec![1, 3]);
    assert_eq!(last, 6);
    let (idx, last) = select_frames(&[], 9, false);
    assert!(idx.is_empty());
    assert_eq!(last, 9);
}

#[test]
fn events_map_to_actions() {
    assert_eq!(next_action(5, StreamEvent::TurnStored(5)), StreamAction::Wait);
    assert_eq!(next_action(5, StreamEvent::TurnStored(6)), StreamAction::SendFrom(6));
    assert_eq!(next_action(-1, StreamEvent::TurnStored(0)), StreamAction::SendFrom(0));
    assert_eq!(next_action(5, StreamEvent::ClientPing), StreamAction::Pong);
    assert_eq!(next_action(5, StreamEvent::ClientOther), StreamAction::Wait);
    assert_eq!(next_action(5, StreamEvent::ClientClosed), StreamAction::Stop);
    assert_eq!(next_action(5, StreamEvent::ClientError), StreamAction::Stop);
    assert_eq!(next_action(5, StreamEvent::Lagged), StreamAction::ReportLag);
    assert_eq!(next_action(5, StreamEvent::ChannelClosed), StreamAction::EndIfFinished);
}

#[test]
fn stream_opening_errors_name_their_cause() {
    assert_eq!(opening_error_message(OpeningError::GameNotFound), "Game not found");
    assert_eq!(opening_error_message(OpeningError::GameLookupFailed), "Internal server error");
    assert_eq!(opening_error_message(OpeningError::FramesFailed), "Failed to fetch game frames");
}

#[test]
fn finished_game_ends_after_its_replay() {
    assert_eq!(after_replay(true), StreamAction::EndIfFinished);
    assert_eq!(after_replay(false), StreamAction::Wait);
}
