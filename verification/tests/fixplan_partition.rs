use macdiet::action::{ActionKind, ActionPlan};
use macdiet::fixplan::partition_fix_apply_actions;
use macdiet::risk::RiskLevel;

fn trash_action(id: &str, risk: RiskLevel) -> ActionPlan {
    ActionPlan {
        id: id.to_string(),
        title: id.to_string(),
        risk_level: risk,
        estimated_reclaimed_bytes: 0,
        related_findings: vec![],
        kind: ActionKind::TrashMove { paths: vec!["~/Library/Caches/Test".to_string()] },
        notes: vec![],
    }
}

fn run_cmd_action(id: &str, risk: RiskLevel, cmd: &str, args: &[&str]) -> ActionPlan {
    ActionPlan {
        id: id.to_string(),
        title: id.to_string(),
        risk_level: risk,
        estimated_reclaimed_bytes: 0,
        related_findings: vec![],
        kind: ActionKind::RunCmd {
            cmd: cmd.to_string(),
            args: args.iter().map(|s| (*s).to_string()).collect(),
        },
        notes: vec![],
    }
}

fn instructions_action(id: &str, risk: RiskLevel) -> ActionPlan {
    ActionPlan {
        id: id.to_string(),
        title: id.to_string(),
        risk_level: risk,
        estimated_reclaimed_bytes: 0,
        related_findings: vec![],
        kind: ActionKind::ShowInstructions { markdown: "test".to_string() },
        notes: vec![],
    }
}

#[test]
fn partition_fix_apply_actions_separates_eligible_and_skipped() {
    let actions = vec![
        trash_action("t1", RiskLevel::R1),
        run_cmd_action("homebrew-cache-cleanup", RiskLevel::R1, "brew", &["cleanup"]),
        run_cmd_action(
            "coresimulator-simctl-delete-unavailable",
            RiskLevel::R2,
            "xcrun",
            &["simctl", "delete", "unavailable"],
        ),
        run_cmd_action("docker-system-prune", RiskLevel::R2, "docker", &["system", "prune", "-a", "-f"]),
        instructions_action("info", RiskLevel::R0),
    ];

    let part = partition_fix_apply_actions(actions);
    assert_eq!(part.trash_actions.len(), 1);
    assert_eq!(part.trash_actions[0].id, "t1");
    assert_eq!(part.allowlisted_run_cmd_actions.len(), 2);
    assert!(
        part.allowlisted_run_cmd_actions
            .iter()
            .any(|a| a.id == "homebrew-cache-cleanup")
    );
    assert!(
        part.allowlisted_run_cmd_actions
            .iter()
            .any(|a| a.id == "coresimulator-simctl-delete-unavailable")
    );
    assert_eq!(part.skipped_actions.len(), 2);
    assert!(part.skipped_actions.iter().any(|s| s.action.id == "docker-system-prune"));
    assert!(part.skipped_actions.iter().any(|s| s.action.id == "info"));
}

#[test]
fn partition_orders_by_reclaimable_bytes_then_id() {
    let mut small = trash_action("b-small", RiskLevel::R1);
    small.estimated_reclaimed_bytes = 10;
    let mut big = trash_action("a-big", RiskLevel::R1);
    big.estimated_reclaimed_bytes = 500;
    let mut tied = trash_action("a-tied", RiskLevel::R1);
    tied.estimated_reclaimed_bytes = 10;

    let part = partition_fix_apply_actions(vec![small, big, tied]);
    let ids: Vec<&str> = part.trash_actions.iter().map(|a| a.id.as_str()).collect();
    assert_eq!(ids, vec!["a-big", "a-tied", "b-small"]);
}

#[test]
fn partition_explains_every_skipped_action() {
    let actions = vec![
        trash_action("t2", RiskLevel::R2),
        run_cmd_action("free-form", RiskLevel::R1, "sh", &["-c", "true"]),
        instructions_action("info", RiskLevel::R0),
    ];
    let part = partition_fix_apply_actions(actions);
    assert_eq!(part.trash_actions.len(), 0);
    assert_eq!(part.allowlisted_run_cmd_actions.len(), 0);
    assert_eq!(part.skipped_actions.len(), 3);
    let reason_of = |id: &str| {
        part.skipped_actions
            .iter()
            .find(|s| s.action.id == id)
            .map(|s| s.reason.clone())
            .unwrap()
    };
    assert_eq!(
        reason_of("t2"),
        "only R1 TRASH_MOVE actions are applied (current: R2)"
    );
    assert_eq!(
        reason_of("free-form"),
        "RUN_CMD outside the allowlist is not run (proposal only): sh -c true"
    );
    assert_eq!(
        reason_of("info"),
        "not applied by this version (SHOW_INSTRUCTIONS)"
    );
}
