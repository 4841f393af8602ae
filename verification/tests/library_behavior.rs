use macdiet::action::{ActionKind, ActionPlan};
use macdiet::config::{parse_bool, parse_risk_level, EffectiveConfig};
use macdiet::engine::{
    collect_unobserved_errors, finding_unobserved_bytes, parse_errors_count, parse_files_errors,
    Engine, EngineOptions,
};
use macdiet::evidence::{Evidence, EvidenceKind};
use macdiet::exit::{exit_code, invalid_args, ExitCode};
use macdiet::format::{format_bytes, logs_dir, mask_home};
use macdiet::risk::RiskLevel;
use macdiet::scan::{parse_du_kilobytes, validate_excludes};
use macdiet::trash::{
    choose_trash_dest, expand_tilde, file_name_of, record_trash_move, trash_dir_of, ApplyOutcome,
    TrashMoveEvent,
};

#[test]
fn expand_tilde_maps_home_forms() {
    assert_eq!(expand_tilde("~", "/Users/t"), "/Users/t");
    assert_eq!(expand_tilde("~/Library", "/Users/t"), "/Users/t/Library");
    assert_eq!(expand_tilde("  /tmp/x  ", "/Users/t"), "/tmp/x");
    assert_eq!(expand_tilde("relative/path", "/Users/t"), "relative/path");
}

#[test]
fn trash_dest_prefers_the_plain_name() {
    let occupied: Vec<String> = vec![];
    assert_eq!(
        choose_trash_dest("DerivedData", &occupied).unwrap(),
        "DerivedData"
    );
}

#[test]
fn trash_dest_suffixes_when_the_name_is_taken() {
    let occupied = vec!["DerivedData".to_string()];
    assert_eq!(
        choose_trash_dest("DerivedData", &occupied).unwrap(),
        "DerivedData.macdiet-1"
    );
    let occupied2 = vec!["DerivedData".to_string(), "DerivedData.macdiet-1".to_string()];
    assert_eq!(
        choose_trash_dest("DerivedData", &occupied2).unwrap(),
        "DerivedData.macdiet-2"
    );
}

#[test]
fn repeating_a_move_never_reuses_a_destination() {
    let mut occupied: Vec<String> = vec![];
    let first = choose_trash_dest("Caches", &occupied).unwrap();
    occupied.push(first.clone());
    let second = choose_trash_dest("Caches", &occupied).unwrap();
    assert_ne!(first, second);
    assert!(!occupied.contains(&second));
}

#[test]
fn missing_sources_are_skipped_not_errors() {
    let mut outcome = ApplyOutcome::empty();
    record_trash_move(
        &mut outcome,
        "/Users/t/.npm".to_string(),
        TrashMoveEvent::Missing,
    );
    record_trash_move(
        &mut outcome,
        "/Users/t/.cargo/registry".to_string(),
        TrashMoveEvent::Moved { to: "/Users/t/.Trash/registry".to_string() },
    );
    record_trash_move(
        &mut outcome,
        "/Users/t/.gradle/caches".to_string(),
        TrashMoveEvent::Failed { error: "busy".to_string() },
    );
    assert_eq!(outcome.skipped_missing, vec!["/Users/t/.npm".to_string()]);
    assert_eq!(outcome.moved.len(), 1);
    assert_eq!(outcome.moved[0].from, "/Users/t/.cargo/registry");
    assert_eq!(outcome.moved[0].to, "/Users/t/.Trash/registry");
    assert_eq!(outcome.errors.len(), 1);
    assert_eq!(outcome.errors[0].path, "/Users/t/.gradle/caches");
}

#[test]
fn file_name_and_trash_dir_follow_path_shape() {
    assert_eq!(
        file_name_of("/Users/t/Library/Developer/Xcode/DerivedData"),
        Some("DerivedData".to_string())
    );
    assert_eq!(file_name_of("/Users/t/dir/"), Some("dir".to_string()));
    assert_eq!(file_name_of("/"), None);
    assert_eq!(file_name_of("/Users/t/.."), None);
    assert_eq!(trash_dir_of("/Users/t"), "/Users/t/.Trash");
}

#[test]
fn format_bytes_uses_binary_units() {
    assert_eq!(format_bytes(512), "512 B");
    assert_eq!(format_bytes(1024), "1.0 KiB");
    assert_eq!(format_bytes(1536), "1.5 KiB");
    assert_eq!(format_bytes(1048576), "1.0 MiB");
    assert_eq!(format_bytes(5 * 1024 * 1024 * 1024), "5.0 GiB");
    assert_eq!(format_bytes(1099511627776), "1.0 TiB");
}

#[test]
fn mask_home_folds_the_home_prefix() {
    assert_eq!(mask_home("/Users/t/Library", "/Users/t", true), "~/Library");
    assert_eq!(mask_home("/Users/t", "/Users/t", true), "~");
    assert_eq!(mask_home("/etc", "/Users/t", true), "/etc");
    assert_eq!(mask_home("/Users/t/Library", "/Users/t", false), "/Users/t/Library");
    assert_eq!(logs_dir("/Users/t"), "/Users/t/.config/macdiet/logs");
}

#[test]
fn exit_codes_match_their_classes() {
    assert_eq!(ExitCode::Success.as_i32(), 0);
    assert_eq!(ExitCode::InvalidArgs.as_i32(), 2);
    assert_eq!(ExitCode::ScanFailed.as_i32(), 10);
    assert_eq!(ExitCode::ExternalCommandFailed.as_i32(), 20);
    let err = invalid_args("bad flag".to_string());
    assert_eq!(exit_code(&err), 2);
    assert_eq!(err.message, "bad flag");
}

#[test]
fn config_defaults_are_conservative() {
    let cfg = EffectiveConfig::default();
    assert!(cfg.privacy.mask_home);
    assert!(!cfg.report.include_evidence);
    assert_eq!(cfg.fix.default_risk_max, RiskLevel::R1);
    assert_eq!(cfg.scan.default_scope, "dev");
    assert_eq!(parse_bool(" TRUE "), Some(true));
    assert_eq!(parse_bool("off"), Some(false));
    assert_eq!(parse_bool("maybe"), None);
    assert_eq!(parse_risk_level("<= R2"), Some(RiskLevel::R2));
    assert_eq!(parse_risk_level("r3"), Some(RiskLevel::R3));
    assert_eq!(parse_risk_level("R9"), None);
}

#[test]
fn scan_roots_depend_on_the_scope() {
    let engine = Engine::new(
        EngineOptions {
            timeout_ms: 30_000,
            privacy_mask_home: true,
            include_evidence: false,
            show_progress: false,
        },
        "/Users/t".to_string(),
    );
    assert_eq!(engine.timeout(), 30_000);
    assert_eq!(engine.home_dir(), "/Users/t");
    let dev = engine.resolve_scan_roots(None);
    assert_eq!(dev.len(), 7);
    assert!(dev.iter().any(|r| r == "/Users/t/Library/Developer"));
    assert_eq!(engine.resolve_scan_roots(Some("userlib")), vec!["/Users/t/Library".to_string()]);
    assert_eq!(engine.resolve_scan_roots(Some("/opt")), vec!["/opt".to_string()]);
    assert_eq!(engine.resolve_scan_roots(Some("work")), vec!["/Users/t/work".to_string()]);
}

#[test]
fn stat_lines_feed_the_unobserved_estimate() {
    assert_eq!(parse_errors_count("root=~ files=10 errors=3"), Some(3));
    assert_eq!(parse_errors_count("no counts here"), None);
    assert_eq!(parse_files_errors("files=10 errors=2"), Some((10, 2)));
    let evidence = vec![
        Evidence::stat("files=10 errors=2".to_string()),
        Evidence::path("/Users/t/x".to_string(), true),
        Evidence::stat("errors=5".to_string()),
    ];
    let notes = vec!["scan: files=1 errors=1".to_string(), "plain note".to_string()];
    assert_eq!(collect_unobserved_errors(&evidence, &notes), 8);
    // average file size 100 over 10 files, 2 unobserved entries
    let est = finding_unobserved_bytes(1000, &evidence);
    assert_eq!(est, 200);
    let items = vec![
        (1000u64, evidence.clone()),
        (0u64, evidence.clone()),
        (500u64, vec![Evidence::stat("files=5 errors=1".to_string())]),
    ];
    assert_eq!(macdiet::engine::estimate_unobserved_bytes(&items), 300);
}

#[test]
fn guidance_actions_carry_their_text() {
    let plan = macdiet::action::show_instructions_action(
        "apfs-snapshots-disk-utility",
        "Review APFS snapshots in Disk Utility",
        RiskLevel::R3,
        vec!["apfs-snapshots-present".to_string()],
        "Open Disk Utility and review the volume's snapshots.",
    );
    assert_eq!(plan.id, "apfs-snapshots-disk-utility");
    assert_eq!(plan.risk_level, RiskLevel::R3);
    match plan.kind {
        ActionKind::ShowInstructions { markdown } => {
            assert!(markdown.contains("Disk Utility"));
        }
        other => panic!("expected ShowInstructions, got: {other:?}"),
    }
}

#[test]
fn du_output_parses_to_kilobytes() {
    assert_eq!(parse_du_kilobytes("1234\t/Users/t/Library\n"), Some(1234));
    assert_eq!(parse_du_kilobytes("  42 /x"), Some(42));
    assert_eq!(parse_du_kilobytes("du: cannot read"), None);
    assert_eq!(parse_du_kilobytes(""), None);
}

#[test]
fn exclude_globs_are_checked_before_use() {
    assert!(validate_excludes(&vec!["**/node_modules/**".to_string()]).is_ok());
    let err = validate_excludes(&vec!["a[".to_string()]).unwrap_err();
    assert_eq!(err, "invalid exclude glob: a[");
}

#[test]
fn trash_move_planning_end_to_end() {
    let home = "/Users/t";
    let action = ActionPlan {
        id: "xcode-derived-data-trash".to_string(),
        title: "Move DerivedData to Trash".to_string(),
        risk_level: RiskLevel::R1,
        estimated_reclaimed_bytes: 1,
        related_findings: vec![],
        kind: ActionKind::TrashMove {
            paths: vec!["~/Library/Developer/Xcode/DerivedData".to_string()],
        },
        notes: vec![],
    };
    macdiet::trash::validate_actions(&vec![action], home).expect("validates");
    let src = macdiet::trash::validate_trash_target("~/Library/Developer/Xcode/DerivedData", home)
        .expect("target");
    assert_eq!(src, "/Users/t/Library/Developer/Xcode/DerivedData");
    let name = file_name_of(&src).expect("file name");
    let trash_contents: Vec<String> = vec![];
    let dest_name = choose_trash_dest(&name, &trash_contents).expect("destination");
    assert_eq!(dest_name, "DerivedData");
    let mut outcome = ApplyOutcome::empty();
    let dest = format!("{}/{}", trash_dir_of(home), dest_name);
    record_trash_move(&mut outcome, src, TrashMoveEvent::Moved { to: dest });
    assert_eq!(outcome.moved.len(), 1);
    assert_eq!(outcome.errors.len(), 0);
    assert_eq!(outcome.moved[0].to, "/Users/t/.Trash/DerivedData");
}

#[test]
fn action_kind_names_are_stable() {
    let kind = ActionKind::TrashMove { paths: vec![] };
    assert_eq!(macdiet::action::action_kind_name(&kind), "TRASH_MOVE");
    let plan = ActionPlan {
        id: "x".to_string(),
        title: "x".to_string(),
        risk_level: RiskLevel::R0,
        estimated_reclaimed_bytes: 0,
        related_findings: vec![],
        kind: ActionKind::OpenInFinder { path: "/tmp".to_string() },
        notes: vec![],
    };
    assert_eq!(macdiet::action::action_kind_name(&plan.kind), "OPEN_IN_FINDER");
    assert_eq!(RiskLevel::R2.as_str(), "R2");
    assert_eq!(
        macdiet::evidence::evidence_kind_name(&EvidenceKind::Stat),
        "stat"
    );
}
