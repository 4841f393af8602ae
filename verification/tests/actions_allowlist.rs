use macdiet::action::{ActionKind, ActionPlan};
use macdiet::allowlist::allowlisted_run_cmd;
use macdiet::risk::RiskLevel;

fn run_cmd_plan(id: &str, risk: RiskLevel, cmd: &str, args: &[&str]) -> ActionPlan {
    ActionPlan {
        id: id.to_string(),
        title: id.to_string(),
        risk_level: risk,
        estimated_reclaimed_bytes: 0,
        related_findings: vec![],
        kind: ActionKind::RunCmd {
            cmd: cmd.to_string(),
            args: args.iter().map(|s| (*s).to_string()).collect(),
        },
        notes: vec![],
    }
}

#[test]
fn allowlisted_run_cmd_accepts_simctl_delete_unavailable() {
    let action = run_cmd_plan(
        "coresimulator-simctl-delete-unavailable",
        RiskLevel::R2,
        "xcrun",
        &["simctl", "delete", "unavailable"],
    );
    let spec = allowlisted_run_cmd(&action).expect("allowlisted");
    assert_eq!(spec.confirm_token, "unavailable");
    assert_eq!(spec.final_confirm_token, "run");
}

#[test]
fn allowlisted_run_cmd_accepts_docker_builder_prune() {
    let action = run_cmd_plan("docker-builder-prune", RiskLevel::R2, "docker", &["builder", "prune"]);
    let spec = allowlisted_run_cmd(&action).expect("allowlisted");
    assert_eq!(spec.confirm_token, "builder-prune");
    assert_eq!(spec.final_confirm_token, "run");
}

#[test]
fn allowlisted_run_cmd_accepts_docker_system_prune() {
    let action = run_cmd_plan("docker-system-prune", RiskLevel::R2, "docker", &["system", "prune"]);
    let spec = allowlisted_run_cmd(&action).expect("allowlisted");
    assert_eq!(spec.confirm_token, "system-prune");
    assert_eq!(spec.final_confirm_token, "run");
}

#[test]
fn allowlisted_run_cmd_accepts_docker_system_df() {
    let action = run_cmd_plan("docker-storage-df", RiskLevel::R2, "docker", &["system", "df"]);
    let spec = allowlisted_run_cmd(&action).expect("allowlisted");
    assert_eq!(spec.confirm_token, "df");
    assert_eq!(spec.final_confirm_token, "run");
}

#[test]
fn allowlisted_run_cmd_rejects_non_matching_command() {
    let action = run_cmd_plan(
        "coresimulator-simctl-delete-unavailable",
        RiskLevel::R2,
        "sh",
        &["-c", "echo nope"],
    );
    assert!(allowlisted_run_cmd(&action).is_none());
}

#[test]
fn allowlisted_run_cmd_accepts_brew_cleanup() {
    let action = run_cmd_plan("homebrew-cache-cleanup", RiskLevel::R1, "brew", &["cleanup"]);
    let spec = allowlisted_run_cmd(&action).expect("allowlisted");
    assert_eq!(spec.confirm_token, "cleanup");
    assert_eq!(spec.final_confirm_token, "run");
}

#[test]
fn allowlisted_run_cmd_accepts_npm_cache_cleanup() {
    let action = run_cmd_plan(
        "npm-cache-cleanup",
        RiskLevel::R1,
        "npm",
        &["cache", "clean", "--force"],
    );
    let spec = allowlisted_run_cmd(&action).expect("allowlisted");
    assert_eq!(spec.confirm_token, "npm");
    assert_eq!(spec.final_confirm_token, "run");
}

#[test]
fn allowlisted_run_cmd_accepts_yarn_cache_cleanup() {
    let action = run_cmd_plan("yarn-cache-cleanup", RiskLevel::R1, "yarn", &["cache", "clean"]);
    let spec = allowlisted_run_cmd(&action).expect("allowlisted");
    assert_eq!(spec.confirm_token, "yarn");
    assert_eq!(spec.final_confirm_token, "run");
}

#[test]
fn allowlisted_run_cmd_accepts_pnpm_store_prune() {
    let action = run_cmd_plan("pnpm-store-prune", RiskLevel::R1, "pnpm", &["store", "prune"]);
    let spec = allowlisted_run_cmd(&action).expect("allowlisted");
    assert_eq!(spec.confirm_token, "pnpm");
    assert_eq!(spec.final_confirm_token, "run");
}

#[test]
fn allowlisted_run_cmd_accepts_homebrew_cellar_permissions_chmod() {
    let action = run_cmd_plan(
        "homebrew-cellar-permissions-chmod",
        RiskLevel::R2,
        "chmod",
        &["-R", "u+rwX", "/opt/homebrew/Cellar/python@3.13/3.13.2"],
    );
    let spec = allowlisted_run_cmd(&action).expect("allowlisted");
    assert_eq!(spec.confirm_token, "chmod");
    assert_eq!(spec.final_confirm_token, "run");
}

#[test]
fn allowlisted_run_cmd_accepts_homebrew_cellar_permissions_chown() {
    let action = run_cmd_plan(
        "homebrew-cellar-permissions-chown",
        RiskLevel::R3,
        "chown",
        &["-R", "testuser", "/opt/homebrew/Cellar/python@3.13/3.13.2"],
    );
    let spec = allowlisted_run_cmd(&action).expect("allowlisted");
    assert_eq!(spec.confirm_token, "chown");
    assert_eq!(spec.final_confirm_token, "run");
}

#[test]
fn allowlisted_run_cmd_rejects_same_command_different_args() {
    let action = run_cmd_plan(
        "docker-system-prune",
        RiskLevel::R2,
        "docker",
        &["system", "prune", "-a"],
    );
    assert!(allowlisted_run_cmd(&action).is_none());
}

#[test]
fn allowlisted_run_cmd_rejects_wrong_risk_or_id() {
    let wrong_risk = run_cmd_plan("docker-system-prune", RiskLevel::R1, "docker", &["system", "prune"]);
    assert!(allowlisted_run_cmd(&wrong_risk).is_none());
    let wrong_id = run_cmd_plan("docker-prune", RiskLevel::R2, "docker", &["system", "prune"]);
    assert!(allowlisted_run_cmd(&wrong_id).is_none());
}

#[test]
fn allowlisted_run_cmd_rejects_chown_with_unsafe_owner() {
    let with_colon = run_cmd_plan(
        "homebrew-cellar-permissions-chown",
        RiskLevel::R3,
        "chown",
        &["-R", "user:group", "/opt/homebrew/Cellar/x/1.0"],
    );
    assert!(allowlisted_run_cmd(&with_colon).is_none());
    let with_dash = run_cmd_plan(
        "homebrew-cellar-permissions-chown",
        RiskLevel::R3,
        "chown",
        &["-R", "-user", "/opt/homebrew/Cellar/x/1.0"],
    );
    assert!(allowlisted_run_cmd(&with_dash).is_none());
}

#[test]
fn allowlisted_run_cmd_rejects_repair_outside_cellar_roots() {
    let action = run_cmd_plan(
        "homebrew-cellar-permissions-chmod",
        RiskLevel::R2,
        "chmod",
        &["-R", "u+rwX", "/etc"],
    );
    assert!(allowlisted_run_cmd(&action).is_none());
}
