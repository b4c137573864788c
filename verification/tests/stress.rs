use std::time::Duration;

use arena::stress::{
    calculate_percentiles, format_duration, parse_duration, parse_snake_list, sort_latencies,
    BatchPattern, Stats,
};

#[test]
fn test_parse_duration_seconds() {
    assert_eq!(parse_duration("30s").unwrap(), Duration::from_secs(30));
    assert_eq!(parse_duration("1s").unwrap(), Duration::from_secs(1));
    assert_eq!(parse_duration("0s").unwrap(), Duration::from_secs(0));
}

#[test]
fn test_parse_duration_minutes() {
    assert_eq!(parse_duration("5m").unwrap(), Duration::from_secs(300));
    assert_eq!(parse_duration("1m").unwrap(), Duration::from_secs(60));
}

#[test]
fn test_parse_duration_hours() {
    assert_eq!(parse_duration("1h").unwrap(), Duration::from_secs(3600));
    assert_eq!(parse_duration("2h").unwrap(), Duration::from_secs(7200));
}

#[test]
fn test_parse_duration_invalid() {
    assert!(parse_duration("30").is_err());
    assert!(parse_duration("abc").is_err());
    assert!(parse_duration("30x").is_err());
}

#[test]
fn parse_duration_trims_and_names_the_unit_in_errors() {
    assert_eq!(parse_duration("  45s ").unwrap(), Duration::from_secs(45));
    assert_eq!(parse_duration("+2m").unwrap(), Duration::from_secs(120));
    assert_eq!(parse_duration("xs").unwrap_err(), "Invalid seconds");
    assert_eq!(parse_duration("xm").unwrap_err(), "Invalid minutes");
    assert_eq!(parse_duration("xh").unwrap_err(), "Invalid hours");
    assert_eq!(parse_duration("").unwrap_err(), "Duration must end with 's', 'm', or 'h'");
}

#[test]
fn test_batch_pattern_parsing() {
    let pattern = BatchPattern::from_str("100,30s").unwrap();
    assert_eq!(pattern.batch_size, 100);
    assert_eq!(pattern.interval, Duration::from_secs(30));
    let pattern = BatchPattern::from_str("50, 1m").unwrap();
    assert_eq!(pattern.batch_size, 50);
    assert_eq!(pattern.interval, Duration::from_secs(60));
}

#[test]
fn test_batch_pattern_invalid() {
    assert!(BatchPattern::from_str("100").is_err());
    assert!(BatchPattern::from_str("100,30s,extra").is_err());
    assert!(BatchPattern::from_str("abc,30s").is_err());
    assert!(BatchPattern::from_str("0,30s").is_err());
}

#[test]
fn test_calculate_percentiles_empty() {
    assert!(calculate_percentiles(&vec![]).is_none());
}

#[test]
fn test_calculate_percentiles() {
    let latencies: Vec<u64> = (1..=100).map(|i| i * 1000).collect();
    let summary = calculate_percentiles(&latencies).unwrap();
    let avg = summary.sum_us as f64 / summary.count as f64 / 1000.0;
    let p50 = summary.p50_us as f64 / 1000.0;
    let p95 = summary.p95_us as f64 / 1000.0;
    let p99 = summary.p99_us as f64 / 1000.0;
    assert!((avg - 50.5).abs() < 0.1);
    assert!((p50 - 51.0).abs() < 1.0);
    assert!((p95 - 96.0).abs() < 1.0);
    assert!((p99 - 100.0).abs() < 1.0);
}

#[test]
fn percentiles_of_unsorted_latencies() {
    let summary = calculate_percentiles(&vec![30, 10, 20]).unwrap();
    assert_eq!(summary.sum_us, 60);
    assert_eq!(summary.count, 3);
    assert_eq!(summary.p50_us, 20);
    assert_eq!(summary.p95_us, 30);
    assert_eq!(summary.p99_us, 30);
    let one = calculate_percentiles(&vec![7]).unwrap();
    assert_eq!((one.p50_us, one.p95_us, one.p99_us), (7, 7, 7));
}

#[test]
fn latencies_sort_ascending() {
    assert_eq!(sort_latencies(&vec![5, 3, 9, 3, 1]), vec![1, 3, 3, 5, 9]);
}

#[test]
fn test_format_duration() {
    assert_eq!(format_duration(Duration::from_secs(0)), "00:00:00");
    assert_eq!(format_duration(Duration::from_secs(61)), "00:01:01");
    assert_eq!(format_duration(Duration::from_secs(3661)), "01:01:01");
    assert_eq!(format_duration(Duration::from_secs(90)), "00:01:30");
}

#[test]
fn format_duration_keeps_long_hours() {
    assert_eq!(format_duration(Duration::from_secs(360_000)), "100:00:00");
}

#[test]
fn stats_count_successes_and_failures() {
    let mut stats = Stats::new();
    stats.record_success(Duration::from_micros(1500));
    stats.record_failure();
    stats.record_success(Duration::from_millis(2));
    assert_eq!(stats.total_games, 3);
    assert_eq!(stats.successful, 2);
    assert_eq!(stats.failed, 1);
    assert_eq!(stats.latencies, vec![1500, 2000]);
}

#[test]
fn percentiles_ignore_the_order_of_latencies() {
    let a = calculate_percentiles(&vec![5000, 1000, 9000, 3000, 7000]).unwrap();
    let b = calculate_percentiles(&vec![9000, 7000, 5000, 3000, 1000]).unwrap();
    assert_eq!((a.sum_us, a.count, a.p50_us, a.p95_us, a.p99_us), (b.sum_us, b.count, b.p50_us, b.p95_us, b.p99_us));
}

#[test]
fn average_latency_lies_between_smallest_and_largest() {
    let latencies = vec![1200, 800, 4000, 2500];
    let s = calculate_percentiles(&latencies).unwrap();
    let avg = s.sum_us / s.count as u64;
    assert!(800 <= avg && avg <= 4000);
    assert!(800 <= s.p50_us && s.p99_us <= 4000);
}

#[test]
fn snake_list_reads_trimmed_uuids_and_skips_empty_pieces() {
    let ids = parse_snake_list(" 550e8400-e29b-41d4-a716-446655440000 ,, 6ba7b810-9dad-11d1-80b4-00c04fd430c8,")
        .unwrap();
    assert_eq!(ids, vec![0x550e8400_e29b_41d4_a716_446655440000, 0x6ba7b810_9dad_11d1_80b4_00c04fd430c8]);
}

#[test]
fn snake_list_refuses_a_bad_uuid() {
    assert_eq!(
        parse_snake_list("550e8400-e29b-41d4-a716-446655440000,not-a-uuid"),
        Err("Invalid snake UUID format".to_string())
    );
}

#[test]
fn snake_list_needs_at_least_one_uuid() {
    assert_eq!(parse_snake_list(" , ,"), Err("At least one snake UUID is required".to_string()));
    assert_eq!(parse_snake_list(""), Err("At least one snake UUID is required".to_string()));
}
