use macdiet::rules::{
    parse_diskutil_snapshot_count, parse_tmutil_local_snapshot_count, simctl_list_has_unavailable,
    summarize_docker_system_df, RuleContext,
};
use macdiet::simctl::parse_simctl_unavailable_devices;

#[test]
fn parse_tmutil_header_only_is_zero() {
    let stdout = "Snapshots for disk /:\n";
    assert_eq!(parse_tmutil_local_snapshot_count(stdout), 0);
}

#[test]
fn parse_tmutil_counts_snapshots() {
    let stdout = "Snapshots for disk /:\ncom.apple.TimeMachine.2026-01-01-000000.local\ncom.apple.TimeMachine.2026-01-02-000000.local\n";
    assert_eq!(parse_tmutil_local_snapshot_count(stdout), 2);
}

#[test]
fn parse_diskutil_snapshot_count_from_found_line() {
    let stdout = "Snapshots for disk1s1 (12 found)\n|\n+-- ABC\n";
    assert_eq!(parse_diskutil_snapshot_count(stdout), Some(12));
}

#[test]
fn parse_diskutil_snapshot_count_ignores_other_lines() {
    assert_eq!(parse_diskutil_snapshot_count(""), None);
    assert_eq!(parse_diskutil_snapshot_count("nothing to see\n"), None);
    assert_eq!(
        parse_diskutil_snapshot_count("found something odd\nSnapshots (3 found)\n"),
        None,
        "a `found` line without parentheses stops the parse"
    );
}

#[test]
fn simctl_list_has_unavailable_detects_device_lines() {
    let stdout = "== Devices ==\n-- iOS 17.0 --\n    iPhone 14 (AAAAAAAA-BBBB-CCCC-DDDD-EEEEEEEEEEEE) (Shutdown) (unavailable, runtime profile not found)\n";
    assert!(simctl_list_has_unavailable(stdout));
}

#[test]
fn simctl_list_has_unavailable_is_false_for_empty_or_headers() {
    assert!(!simctl_list_has_unavailable(""));
    assert!(!simctl_list_has_unavailable("== Devices ==\n"));
    assert!(!simctl_list_has_unavailable("-- iOS 17.0 --\n"));
}

#[test]
fn parse_simctl_unavailable_devices_extracts_uuid_and_name() {
    let stdout = "== Devices ==\n-- iOS 17.0 --\n    iPhone 14 (AAAAAAAA-BBBB-CCCC-DDDD-EEEEEEEEEEEE) (Shutdown) (unavailable, runtime profile not found)\n";
    assert_eq!(
        parse_simctl_unavailable_devices(stdout),
        vec![(
            "iPhone 14".to_string(),
            "AAAAAAAA-BBBB-CCCC-DDDD-EEEEEEEEEEEE".to_string()
        )]
    );
}

#[test]
fn parse_simctl_unavailable_devices_sorts_and_deduplicates() {
    let line = "    iPhone 14 (AAAAAAAA-BBBB-CCCC-DDDD-EEEEEEEEEEEE) (unavailable)\n";
    let stdout = format!(
        "{}    Apple Watch (BBBBBBBB-BBBB-CCCC-DDDD-EEEEEEEEEEEE) (unavailable)\n{}",
        line, line
    );
    assert_eq!(
        parse_simctl_unavailable_devices(&stdout),
        vec![
            (
                "Apple Watch".to_string(),
                "BBBBBBBB-BBBB-CCCC-DDDD-EEEEEEEEEEEE".to_string()
            ),
            (
                "iPhone 14".to_string(),
                "AAAAAAAA-BBBB-CCCC-DDDD-EEEEEEEEEEEE".to_string()
            ),
        ]
    );
}

#[test]
fn docker_df_summary_keeps_table_rows() {
    let stdout = "TYPE            TOTAL     ACTIVE    SIZE      RECLAIMABLE\nImages          10        2         5GB       3GB\nBuild Cache     4         0         1GB       1GB\n";
    let summary = summarize_docker_system_df(stdout);
    assert_eq!(
        summary,
        "docker system df:\nTYPE            TOTAL     ACTIVE    SIZE      RECLAIMABLE\nImages          10        2         5GB       3GB\nBuild Cache     4         0         1GB       1GB"
    );
    assert_eq!(
        summarize_docker_system_df(""),
        "docker system df: output was empty"
    );
    assert_eq!(
        summarize_docker_system_df("strange output\n"),
        "docker system df:\nstrange output",
        "unrecognized output falls back to the first lines"
    );
}

#[test]
fn command_timeout_is_capped_by_the_deadline() {
    let ctx = RuleContext {
        home_dir: "/Users/test".to_string(),
        timeout_ms: 8_000,
        deadline_ms: Some(12_000),
        privacy_mask_home: true,
    };
    assert_eq!(ctx.command_timeout(10_000), 2_000);
    assert_eq!(ctx.command_timeout(2_000), 8_000);
    assert_eq!(ctx.command_timeout(13_000), 0);
    let unbounded = RuleContext { deadline_ms: None, ..ctx };
    assert_eq!(unbounded.command_timeout(10_000), 8_000);
}
