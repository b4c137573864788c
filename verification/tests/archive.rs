use std::collections::HashMap;

use arena::engine_models::{
    backup_result, gcs_path, tally_outcomes, ArchiveOutcome, BackupError, BackupTally, EngineGame,
};

fn game(id: &str, width: i32, height: i32, ruleset_name: Option<&str>, created: i64) -> EngineGame {
    EngineGame {
        id: id.to_string(),
        status: "complete".to_string(),
        width,
        height,
        ruleset: HashMap::new(),
        snake_timeout: 500,
        max_turns: 0,
        food_spawns: vec![],
        hazard_spawns: vec![],
        source: None,
        ruleset_name: ruleset_name.map(|s| s.to_string()),
        rules_stages: None,
        map: None,
        created,
    }
}

#[test]
fn board_size_is_width_by_height() {
    assert_eq!(game("g", 11, 11, None, 0).board_size(), "11x11");
    assert_eq!(game("g", 7, 19, None, 0).board_size(), "7x19");
    assert_eq!(game("g", -1, 0, None, 0).board_size(), "-1x0");
}

#[test]
fn game_type_defaults_to_standard() {
    assert_eq!(game("g", 11, 11, None, 0).game_type(), "standard");
    assert_eq!(game("g", 11, 11, Some("royale"), 0).game_type(), "royale");
}

#[test]
fn archive_path_follows_the_creation_date() {
    // 2024-02-29T12:00:00Z
    let micros = 1_709_208_000_000_000i64;
    assert_eq!(gcs_path(&game("abc-123", 11, 11, None, micros)), "games/2024/02/29/abc-123.json.zst");
    assert_eq!(gcs_path(&game("x", 11, 11, None, 0)), "games/1970/01/01/x.json.zst");
    assert_eq!(gcs_path(&game("y", 11, 11, None, -1)), "games/1969/12/31/y.json.zst");
}

#[test]
fn out_of_range_creation_time_falls_back_to_the_epoch() {
    assert_eq!(gcs_path(&game("z", 11, 11, None, i64::MAX)), "games/1970/01/01/z.json.zst");
}

#[test]
fn backup_error_keeps_its_message() {
    let e = BackupError::new("upload failed".to_string());
    assert_eq!(e.message(), "upload failed");
}

#[test]
fn backup_tally_counts_each_outcome() {
    let outcomes = vec![
        ArchiveOutcome::Archived,
        ArchiveOutcome::AlreadyArchived,
        ArchiveOutcome::Failed,
        ArchiveOutcome::Archived,
        ArchiveOutcome::Failed,
    ];
    let t = tally_outcomes(&outcomes);
    assert_eq!(t, BackupTally { archived: 2, skipped: 1, errors: 2 });
    assert_eq!(backup_result(&t).unwrap_err().message(), "2 games failed to archive");
}

#[test]
fn backup_without_failures_succeeds() {
    let t = tally_outcomes(&vec![ArchiveOutcome::AlreadyArchived, ArchiveOutcome::Archived]);
    assert!(backup_result(&t).is_ok());
    assert!(backup_result(&tally_outcomes(&vec![])).is_ok());
}
