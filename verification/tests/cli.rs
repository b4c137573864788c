use arena::cli::{
    edit_public_flag, format_timestamp, format_uuid_short, games_list_url, split_snake_ids,
    status_color, status_colored, watch_should_stop, AuthConfig, CliConfig, OutputFormat,
    StatusColor,
};
use arena::ids::parse_uuid_text;

#[test]
fn test_format_from_flag_json() {
    assert_eq!(OutputFormat::from_flag(Some("json")).unwrap(), OutputFormat::Json);
}

#[test]
fn test_format_from_flag_human() {
    assert_eq!(OutputFormat::from_flag(Some("human")).unwrap(), OutputFormat::Human);
}

#[test]
fn test_format_from_flag_invalid() {
    assert!(OutputFormat::from_flag(Some("xml")).is_err());
    assert_eq!(
        OutputFormat::from_flag(Some("xml")).unwrap_err(),
        "Invalid format 'xml'. Use 'json' or 'human'."
    );
}

#[test]
fn format_without_flag_follows_the_terminal() {
    assert_eq!(OutputFormat::for_output(None, true).unwrap(), OutputFormat::Human);
    assert_eq!(OutputFormat::for_output(None, false).unwrap(), OutputFormat::Json);
    assert!(OutputFormat::from_flag(None).is_ok());
    assert_eq!(OutputFormat::for_output(Some("json"), true).unwrap(), OutputFormat::Json);
}

#[test]
fn test_format_uuid_short() {
    let uuid = uuid::Uuid::parse_str("12345678-1234-1234-1234-123456789012").unwrap();
    assert_eq!(format_uuid_short(uuid.as_u128()), "12345678...");
}

#[test]
fn short_uuid_keeps_leading_zeros() {
    assert_eq!(format_uuid_short(0xab), "00000000...");
    assert_eq!(format_uuid_short(u128::MAX), "ffffffff...");
}

#[test]
fn test_status_colored_public() {
    let result = status_colored("public");
    assert!(!result.is_empty());
}

#[test]
fn statuses_pick_their_colors_whatever_the_case() {
    assert_eq!(status_color("Complete"), StatusColor::Green);
    assert_eq!(status_color("DONE"), StatusColor::Green);
    assert_eq!(status_color("in_progress"), StatusColor::Yellow);
    assert_eq!(status_color("Pending"), StatusColor::Dimmed);
    assert_eq!(status_color("private"), StatusColor::Dimmed);
    assert_eq!(status_color("FAILED"), StatusColor::Red);
    assert_eq!(status_color("mystery"), StatusColor::Plain);
}

#[test]
fn colored_status_wraps_or_keeps_the_text() {
    assert_eq!(status_colored("mystery"), "mystery");
    let green = status_colored("finished");
    assert!(green == "finished" || green == "\x1b[32mfinished\x1b[0m", "{green:?}");
    let red = status_colored("error");
    assert!(red == "error" || red == "\x1b[31merror\x1b[0m", "{red:?}");
}

#[test]
fn api_url_defaults_to_the_public_arena() {
    let config = CliConfig::default();
    assert_eq!(config.api_url(), "https://arena.battlesnake.com");
    let config = CliConfig {
        auth: Some(AuthConfig { token: Some("t".to_string()) }),
        api_url: Some("http://localhost:3000".to_string()),
    };
    assert_eq!(config.api_url(), "http://localhost:3000");
}

#[test]
fn commands_need_a_stored_token() {
    let config = CliConfig::default();
    assert_eq!(config.token(), Err("Not logged in. Run 'arena auth login' first."));
    let config = CliConfig { auth: Some(AuthConfig { token: None }), api_url: None };
    assert!(config.token().is_err());
    let config = CliConfig { auth: Some(AuthConfig { token: Some("tok".to_string()) }), api_url: None };
    assert_eq!(config.token(), Ok("tok"));
}

#[test]
fn games_list_url_carries_limit_and_snake() {
    assert_eq!(games_list_url("http://a", 20, None), "http://a/api/games?limit=20");
    assert_eq!(games_list_url("http://a", 5, Some("s-1")), "http://a/api/games?limit=5&snake_id=s-1");
}

#[test]
fn snake_id_lists_split_on_commas_and_trim() {
    assert_eq!(split_snake_ids(" a , b,c "), vec!["a".to_string(), "b".to_string(), "c".to_string()]);
    assert_eq!(split_snake_ids(""), vec!["".to_string()]);
    assert_eq!(split_snake_ids("a,,b"), vec!["a".to_string(), "".to_string(), "b".to_string()]);
}

#[test]
fn edit_flags_choose_the_visibility() {
    assert_eq!(edit_public_flag(true, false), Some(true));
    assert_eq!(edit_public_flag(false, true), Some(false));
    assert_eq!(edit_public_flag(false, false), None);
}

#[test]
fn test_format_timestamp() {
    let micros = 1_769_515_200i64 * 1_000_000;
    assert_eq!(arena::cli::format_timestamp(micros).unwrap(), "2026-01-27 12:00:00 UTC");
    assert_eq!(arena::cli::format_timestamp(i64::MIN), None);
}

#[test]
fn watch_stops_only_on_a_finished_game() {
    assert!(watch_should_stop(Some("finished")));
    assert!(!watch_should_stop(Some("running")));
    assert!(!watch_should_stop(Some("Finished")));
    assert!(!watch_should_stop(None));
}

#[test]
fn timestamps_are_shown_in_utc() {
    assert_eq!(format_timestamp(0), Some("1970-01-01 00:00:00 UTC".to_string()));
    assert_eq!(format_timestamp(1_700_000_000_000_000), Some("2023-11-14 22:13:20 UTC".to_string()));
}

#[test]
fn uuid_text_is_read_in_any_of_its_forms() {
    let id = 0x550e8400_e29b_41d4_a716_446655440000u128;
    assert_eq!(parse_uuid_text("550e8400-e29b-41d4-a716-446655440000"), Some(id));
    assert_eq!(parse_uuid_text("550E8400E29B41D4A716446655440000"), Some(id));
    assert_eq!(parse_uuid_text("not a uuid"), None);
}
