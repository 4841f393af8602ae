use macdiet::action::{ActionKind, ActionPlan};
use macdiet::risk::RiskLevel;
use macdiet::trash::validate_actions;

fn trash_plan(paths: Vec<&str>, risk: RiskLevel) -> ActionPlan {
    ActionPlan {
        id: "a".to_string(),
        title: "t".to_string(),
        risk_level: risk,
        estimated_reclaimed_bytes: 0,
        related_findings: vec![],
        kind: ActionKind::TrashMove { paths: paths.into_iter().map(str::to_string).collect() },
        notes: vec![],
    }
}

#[test]
fn validate_trash_move_allows_whitelisted_path() {
    let home = "/Users/test";
    let action = trash_plan(vec!["~/Library/Developer/Xcode/DerivedData"], RiskLevel::R1);
    validate_actions(&vec![action], home).expect("should validate");
}

#[test]
fn validate_trash_move_allows_xcode_docsets() {
    let home = "/Users/test";
    let action = trash_plan(
        vec!["~/Library/Developer/Shared/Documentation/DocSets"],
        RiskLevel::R1,
    );
    validate_actions(&vec![action], home).expect("should validate");
}

#[test]
fn validate_trash_move_allows_xcode_archives_subdir() {
    let home = "/Users/test";
    let action = trash_plan(
        vec!["~/Library/Developer/Xcode/Archives/2026-01-01/MyApp.xcarchive"],
        RiskLevel::R2,
    );
    validate_actions(&vec![action], home).expect("should validate");
}

#[test]
fn validate_trash_move_blocks_xcode_archives_root_dir() {
    let home = "/Users/test";
    let action = trash_plan(vec!["~/Library/Developer/Xcode/Archives"], RiskLevel::R2);
    assert!(validate_actions(&vec![action], home).is_err());
}

#[test]
fn validate_trash_move_blocks_outside_home() {
    let home = "/Users/test";
    let action = trash_plan(vec!["/etc"], RiskLevel::R1);
    assert!(validate_actions(&vec![action], home).is_err());
}

#[test]
fn validate_trash_move_blocks_unwhitelisted_under_home() {
    let home = "/Users/test";
    let action = trash_plan(vec!["~/Downloads"], RiskLevel::R1);
    assert!(validate_actions(&vec![action], home).is_err());
}

#[test]
fn validate_rejects_delete_actions() {
    let home = "/Users/test";
    let action = ActionPlan {
        id: "a".to_string(),
        title: "t".to_string(),
        risk_level: RiskLevel::R3,
        estimated_reclaimed_bytes: 0,
        related_findings: vec![],
        kind: ActionKind::Delete { paths: vec!["~/Library/Caches/Homebrew".to_string()] },
        notes: vec![],
    };
    let err = validate_actions(&vec![action], home).unwrap_err();
    assert_eq!(
        err.message(),
        "DELETE is not permitted; use TRASH_MOVE instead".to_string()
    );
}

#[test]
fn validate_rejects_root_and_relative_paths() {
    let home = "/Users/test";
    assert!(validate_actions(&vec![trash_plan(vec!["/"], RiskLevel::R1)], home).is_err());
    assert!(
        validate_actions(&vec![trash_plan(vec!["Library/Caches"], RiskLevel::R1)], home).is_err()
    );
}

#[test]
fn validate_error_names_the_offending_path() {
    let home = "/Users/test";
    let err = validate_actions(&vec![trash_plan(vec!["/etc"], RiskLevel::R1)], home).unwrap_err();
    assert_eq!(
        err.message(),
        "path must live under the home directory: /etc".to_string()
    );
    let err2 =
        validate_actions(&vec![trash_plan(vec!["~/Downloads"], RiskLevel::R1)], home).unwrap_err();
    assert_eq!(
        err2.message(),
        "path is not in the trash-move allowlist: ~/Downloads".to_string()
    );
}

#[test]
fn validate_ignores_trailing_slashes_on_targets() {
    let home = "/Users/test";
    validate_actions(
        &vec![trash_plan(vec!["~/Library/Developer/Xcode/DerivedData/"], RiskLevel::R1)],
        home,
    )
    .expect("trailing slash on an exact target still validates");
    assert!(
        validate_actions(
            &vec![trash_plan(vec!["~/Library/Developer/Xcode/Archives/"], RiskLevel::R2)],
            home,
        )
        .is_err(),
        "a trailing slash must not smuggle a prefix root past validation"
    );
}

#[test]
fn every_exact_allowlist_entry_validates() {
    let home = "/Users/test";
    for target in macdiet::trash::allowed_trash_targets(home) {
        validate_actions(&vec![trash_plan(vec![target.as_str()], RiskLevel::R1)], home)
            .expect("allowlisted directory");
    }
}

#[test]
fn every_prefix_root_is_rejected_but_children_pass() {
    let home = "/Users/test";
    for root in macdiet::trash::allowed_trash_target_prefixes(home) {
        assert!(
            validate_actions(&vec![trash_plan(vec![root.as_str()], RiskLevel::R2)], home)
                .is_err(),
            "root itself must be rejected: {root}"
        );
        let child = format!("{root}/one-item");
        validate_actions(&vec![trash_plan(vec![child.as_str()], RiskLevel::R2)], home)
            .expect("strict descendant of a prefix root");
    }
}
