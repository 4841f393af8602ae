use macdiet::action::{ActionKind, ActionPlan};
use macdiet::classify::{evaluate_allowlisted_run_cmd_output, AllowlistedRunCmdOutcome};
use macdiet::command::CommandOutput;
use macdiet::repair::{
    suggest_allowlisted_run_cmd_repair_action, suggest_allowlisted_run_cmd_repair_actions,
};
use macdiet::risk::RiskLevel;

fn brew_cleanup_plan() -> ActionPlan {
    ActionPlan {
        id: "homebrew-cache-cleanup".to_string(),
        title: "brew cleanup".to_string(),
        risk_level: RiskLevel::R1,
        estimated_reclaimed_bytes: 0,
        related_findings: vec!["homebrew-cache".to_string()],
        kind: ActionKind::RunCmd { cmd: "brew".to_string(), args: vec!["cleanup".to_string()] },
        notes: vec![],
    }
}

#[test]
fn evaluate_allowlisted_run_cmd_output_treats_brew_cleanup_exit_1_as_warning_without_error() {
    let action = brew_cleanup_plan();
    let out = CommandOutput {
        exit_code: 1,
        stdout: "Removing: ...\n==> This operation has freed approximately 1.0MB of disk space.\n"
            .to_string(),
        stderr: "Warning: Skipping foo: most recent version 1.2.3 not installed\n".to_string(),
    };
    match evaluate_allowlisted_run_cmd_output(&action, &out) {
        AllowlistedRunCmdOutcome::OkWithWarnings(_) => {},
        other => panic!("expected OkWithWarnings, got: {other:?}"),
    }
}

#[test]
fn evaluate_allowlisted_run_cmd_output_treats_brew_cleanup_exit_1_with_error_as_error() {
    let action = brew_cleanup_plan();
    let out = CommandOutput {
        exit_code: 1,
        stdout: "Removing: ...\n==> This operation has freed approximately 1.0MB of disk space.\n"
            .to_string(),
        stderr: "Warning: Skipping foo: most recent version 1.2.3 not installed\nError: Could not cleanup old kegs! Fix your permissions on:\n  /opt/homebrew/Cellar/python@3.13/3.13.2\n"
            .to_string(),
    };
    match evaluate_allowlisted_run_cmd_output(&action, &out) {
        AllowlistedRunCmdOutcome::Error(msg) => {
            assert!(msg.contains("Fix your permissions on:"), "msg={msg}");
            assert!(msg.contains("/opt/homebrew/Cellar/python@3.13/3.13.2"), "msg={msg}");
            assert!(msg.contains("brew doctor"), "msg={msg}");
        },
        other => panic!("expected Error, got: {other:?}"),
    }
}

#[test]
fn suggest_allowlisted_run_cmd_repair_action_suggests_chmod_for_brew_permissions_error() {
    let action = brew_cleanup_plan();
    let out = CommandOutput {
        exit_code: 1,
        stdout: "".to_string(),
        stderr: "Error: Could not cleanup old kegs! Fix your permissions on:\n  /opt/homebrew/Cellar/python@3.13/3.13.2\n"
            .to_string(),
    };
    let candidates = vec!["testuser".to_string()];
    let repair =
        suggest_allowlisted_run_cmd_repair_action(&action, &out, &candidates).expect("repair");
    assert_eq!(repair.id, "homebrew-cellar-permissions-chmod");
    assert_eq!(repair.risk_level, RiskLevel::R2);
    match &repair.kind {
        ActionKind::RunCmd { cmd, args } => {
            assert_eq!(cmd, "chmod");
            assert!(
                args.iter()
                    .map(String::as_str)
                    .any(|s| s == "/opt/homebrew/Cellar/python@3.13/3.13.2")
            );
        },
        other => panic!("expected RunCmd, got: {other:?}"),
    }
}

#[test]
fn suggest_allowlisted_run_cmd_repair_actions_suggests_chown_when_permission_denied() {
    let action = brew_cleanup_plan();
    let out = CommandOutput {
        exit_code: 1,
        stdout: "".to_string(),
        stderr: "Warning: Permission denied @ apply2files - /opt/homebrew/Cellar/python@3.13/3.13.2/foo\nError: Could not cleanup old kegs! Fix your permissions on:\n  /opt/homebrew/Cellar/python@3.13/3.13.2\n"
            .to_string(),
    };
    let candidates = vec!["testuser".to_string()];
    let repairs = suggest_allowlisted_run_cmd_repair_actions(&action, &out, &candidates);
    assert!(
        repairs.iter().any(|a| a.id == "homebrew-cellar-permissions-chmod"),
        "repairs={repairs:?}"
    );
    assert!(
        repairs.iter().any(|a| a.id == "homebrew-cellar-permissions-chown"),
        "repairs={repairs:?}"
    );
}

#[test]
fn classifier_flags_non_allowlisted_actions() {
    let action = ActionPlan {
        id: "made-up".to_string(),
        title: "t".to_string(),
        risk_level: RiskLevel::R1,
        estimated_reclaimed_bytes: 0,
        related_findings: vec![],
        kind: ActionKind::RunCmd { cmd: "rm".to_string(), args: vec!["-rf".to_string()] },
        notes: vec![],
    };
    let out = CommandOutput { exit_code: 0, stdout: String::new(), stderr: String::new() };
    match evaluate_allowlisted_run_cmd_output(&action, &out) {
        AllowlistedRunCmdOutcome::Error(msg) => {
            assert_eq!(msg, "RUN_CMD is not in the allowlist (action_id=made-up)");
        },
        other => panic!("expected Error, got: {other:?}"),
    }
}

#[test]
fn classifier_reads_docker_daemon_failures() {
    let action = ActionPlan {
        id: "docker-system-prune".to_string(),
        title: "t".to_string(),
        risk_level: RiskLevel::R2,
        estimated_reclaimed_bytes: 0,
        related_findings: vec![],
        kind: ActionKind::RunCmd {
            cmd: "docker".to_string(),
            args: vec!["system".to_string(), "prune".to_string()],
        },
        notes: vec![],
    };
    let out = CommandOutput {
        exit_code: 1,
        stdout: String::new(),
        stderr: "Cannot connect to the Docker daemon at unix:///var/run/docker.sock".to_string(),
    };
    match evaluate_allowlisted_run_cmd_output(&action, &out) {
        AllowlistedRunCmdOutcome::Error(msg) => {
            assert!(msg.contains("Docker Desktop"), "msg={msg}");
        },
        other => panic!("expected Error, got: {other:?}"),
    }
    let ok = CommandOutput { exit_code: 0, stdout: String::new(), stderr: String::new() };
    assert_eq!(
        evaluate_allowlisted_run_cmd_output(&action, &ok),
        AllowlistedRunCmdOutcome::Success
    );
}

#[test]
fn classifier_reports_plain_exit_codes() {
    let action = ActionPlan {
        id: "pnpm-store-prune".to_string(),
        title: "t".to_string(),
        risk_level: RiskLevel::R1,
        estimated_reclaimed_bytes: 0,
        related_findings: vec![],
        kind: ActionKind::RunCmd {
            cmd: "pnpm".to_string(),
            args: vec!["store".to_string(), "prune".to_string()],
        },
        notes: vec![],
    };
    let out = CommandOutput { exit_code: 7, stdout: String::new(), stderr: String::new() };
    match evaluate_allowlisted_run_cmd_output(&action, &out) {
        AllowlistedRunCmdOutcome::Error(msg) => {
            assert_eq!(msg, "Command failed (exit_code=7)");
        },
        other => panic!("expected Error, got: {other:?}"),
    }
}

#[test]
fn classifier_refuses_brew_as_root() {
    let action = brew_cleanup_plan();
    let out = CommandOutput {
        exit_code: 1,
        stdout: String::new(),
        stderr: "Error: Running Homebrew as root is extremely dangerous and no longer supported."
            .to_string(),
    };
    match evaluate_allowlisted_run_cmd_output(&action, &out) {
        AllowlistedRunCmdOutcome::Error(msg) => {
            assert!(msg.contains("root"), "msg={msg}");
            assert!(msg.contains("sudo"), "msg={msg}");
        },
        other => panic!("expected Error, got: {other:?}"),
    }
}

#[test]
fn repair_is_withheld_for_paths_outside_the_cellar() {
    let action = brew_cleanup_plan();
    let out = CommandOutput {
        exit_code: 1,
        stdout: "".to_string(),
        stderr: "Error: Could not cleanup old kegs! Fix your permissions on:\n  /etc/passwd\n"
            .to_string(),
    };
    let candidates = vec!["testuser".to_string()];
    assert!(suggest_allowlisted_run_cmd_repair_action(&action, &out, &candidates).is_none());
}

#[test]
fn chown_repair_owner_prefers_non_root_candidates() {
    let action = brew_cleanup_plan();
    let out = CommandOutput {
        exit_code: 1,
        stdout: "".to_string(),
        stderr: "Operation not permitted\nError: Could not cleanup old kegs! Fix your permissions on:\n  /opt/homebrew/Cellar/x/1.0\n"
            .to_string(),
    };
    let candidates = vec!["root".to_string(), "alice".to_string()];
    let repairs = suggest_allowlisted_run_cmd_repair_actions(&action, &out, &candidates);
    let chown = repairs
        .iter()
        .find(|a| a.id == "homebrew-cellar-permissions-chown")
        .expect("chown repair");
    match &chown.kind {
        ActionKind::RunCmd { cmd, args } => {
            assert_eq!(cmd, "chown");
            assert_eq!(args[1], "alice");
        },
        other => panic!("expected RunCmd, got: {other:?}"),
    }
    assert_eq!(chown.risk_level, RiskLevel::R3);

    let unsafe_only = vec!["user:group".to_string(), "-flag".to_string(), "root".to_string()];
    let repairs2 = suggest_allowlisted_run_cmd_repair_actions(&action, &out, &unsafe_only);
    let chown2 = repairs2
        .iter()
        .find(|a| a.id == "homebrew-cellar-permissions-chown")
        .expect("chown repair");
    match &chown2.kind {
        ActionKind::RunCmd { args, .. } => assert_eq!(args[1], "root"),
        other => panic!("expected RunCmd, got: {other:?}"),
    }
}
