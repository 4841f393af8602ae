//! The closed registry of subprocess invocations the engine may run.
//!
//! Matching is structural: an action is allowlisted only when its id, risk
//! level, command and full argument list match one registered entry.  Two
//! entries — the permission repairs — match their path arguments by
//! predicate instead of literally.  The registry only answers "is this
//! allowed, and what must the user type"; it never executes anything.

use vstd::prelude::*;
use crate::action::{ActionKind, ActionPlan};
use crate::risk::RiskLevel;
use crate::text::{has_prefix, str_eq, starts_with, views_of};

verus! {

/// The two words a user must type, on separate prompts, before the matched
/// command may run.
#[derive(Debug, Clone, Copy, PartialEq, Eq)]
pub struct AllowlistedRunCmdSpec {
    pub confirm_token: &'static str,
    pub final_confirm_token: &'static str,
}

/// A syntactically safe POSIX owner token: non-empty, no leading `-` (flag
/// injection), and only alphanumerics, `_`, `-` and `.` — which in
/// particular excludes `:` (group specifications).
pub open spec fn is_owner_char(c: char) -> bool {
    ('a' <= c && c <= 'z') || ('A' <= c && c <= 'Z') || ('0' <= c && c <= '9') || c == '_' || c
        == '-' || c == '.'
}

pub open spec fn safe_owner(s: Seq<char>) -> bool {
    &&& s.len() > 0
    &&& s[0] != '-'
    &&& forall|i: int| 0 <= i < s.len() ==> is_owner_char(s[i])
}

pub fn is_safe_posix_owner(owner: &str) -> (r: bool)
    ensures
        r == safe_owner(owner@),
{
    let n = owner.unicode_len();
    if n == 0 {
        return false;
    }
    if owner.get_char(0) == '-' {
        return false;
    }
    let mut i: usize = 0;
    while i < n
        invariant
            n == owner@.len(),
            i <= n,
            forall|j: int| 0 <= j < i ==> is_owner_char(owner@[j]),
        decreases n - i,
    {
        let c = owner.get_char(i);
        let ok = ('a' <= c && c <= 'z') || ('A' <= c && c <= 'Z') || ('0' <= c && c <= '9') || c
            == '_' || c == '-' || c == '.';
        if !ok {
            return false;
        }
        i += 1;
    }
    true
}

/// The two roots a permission-repair command may touch.
pub open spec fn cellar_path(p: Seq<char>) -> bool {
    has_prefix(p, "/opt/homebrew/Cellar/"@) || has_prefix(p, "/usr/local/Cellar/"@)
}

pub fn is_cellar_path(p: &str) -> (r: bool)
    ensures
        r == cellar_path(p@),
{
    starts_with(p, "/opt/homebrew/Cellar/") || starts_with(p, "/usr/local/Cellar/")
}

/// All arguments from position 2 on are Cellar paths.
pub open spec fn tail_all_cellar(args: Seq<String>) -> bool {
    forall|i: int| 2 <= i < args.len() ==> cellar_path(args[i]@)
}

fn args_tail_cellar(args: &Vec<String>) -> (r: bool)
    ensures
        r == tail_all_cellar(args@),
{
    let mut i: usize = 2;
    if args.len() < 2 {
        return true;
    }
    while i < args.len()
        invariant
            2 <= i <= args@.len() || args@.len() <= 2,
            i >= 2,
            forall|j: int| 2 <= j < i ==> cellar_path(args@[j]@),
        decreases args@.len() - i,
    {
        if !is_cellar_path(args[i].as_str()) {
            return false;
        }
        i += 1;
    }
    true
}

fn args_match1(args: &Vec<String>, e0: &str) -> (r: bool)
    ensures
        r == (views_of(args@) == seq![e0@]),
{
    proof {
        assert(views_of(args@).len() == args@.len());
    }
    if args.len() != 1 {
        return false;
    }
    let r = str_eq(args[0].as_str(), e0);
    proof {
        assert(views_of(args@)[0] == args@[0]@);
        if r {
            assert(views_of(args@) =~= seq![e0@]);
        }
    }
    r
}

fn args_match2(args: &Vec<String>, e0: &str, e1: &str) -> (r: bool)
    ensures
        r == (views_of(args@) == seq![e0@, e1@]),
{
    proof {
        assert(views_of(args@).len() == args@.len());
    }
    if args.len() != 2 {
        return false;
    }
    let r = str_eq(args[0].as_str(), e0) && str_eq(args[1].as_str(), e1);
    proof {
        assert(views_of(args@)[0] == args@[0]@);
        assert(views_of(args@)[1] == args@[1]@);
        if r {
            assert(views_of(args@) =~= seq![e0@, e1@]);
        }
    }
    r
}

fn args_match3(args: &Vec<String>, e0: &str, e1: &str, e2: &str) -> (r: bool)
    ensures
        r == (views_of(args@) == seq![e0@, e1@, e2@]),
{
    proof {
        assert(views_of(args@).len() == args@.len());
    }
    if args.len() != 3 {
        return false;
    }
    let r = str_eq(args[0].as_str(), e0) && str_eq(args[1].as_str(), e1) && str_eq(
        args[2].as_str(),
        e2,
    );
    proof {
        assert(views_of(args@)[0] == args@[0]@);
        assert(views_of(args@)[1] == args@[1]@);
        assert(views_of(args@)[2] == args@[2]@);
        if r {
            assert(views_of(args@) =~= seq![e0@, e1@, e2@]);
        }
    }
    r
}

/// The registry itself: the confirmation tokens owed to an action, or
/// `None` for anything that does not match an entry exactly.
pub open spec fn allowlist_spec(a: ActionPlan) -> Option<(Seq<char>, Seq<char>)> {
    match a.kind {
        ActionKind::RunCmd { cmd, args } => {
            if a.id@ == "coresimulator-simctl-delete-unavailable"@ && a.risk_level
                == RiskLevel::R2 && cmd@ == "xcrun"@ && views_of(args@) == seq![
                "simctl"@,
                "delete"@,
                "unavailable"@,
            ] {
                Some(("unavailable"@, "run"@))
            } else if a.id@ == "docker-builder-prune"@ && a.risk_level == RiskLevel::R2 && cmd@
                == "docker"@ && views_of(args@) == seq!["builder"@, "prune"@] {
                Some(("builder-prune"@, "run"@))
            } else if a.id@ == "docker-system-prune"@ && a.risk_level == RiskLevel::R2 && cmd@
                == "docker"@ && views_of(args@) == seq!["system"@, "prune"@] {
                Some(("system-prune"@, "run"@))
            } else if a.id@ == "docker-storage-df"@ && a.risk_level == RiskLevel::R2 && cmd@
                == "docker"@ && views_of(args@) == seq!["system"@, "df"@] {
                Some(("df"@, "run"@))
            } else if a.id@ == "homebrew-cache-cleanup"@ && a.risk_level == RiskLevel::R1 && cmd@
                == "brew"@ && views_of(args@) == seq!["cleanup"@] {
                Some(("cleanup"@, "run"@))
            } else if a.id@ == "npm-cache-cleanup"@ && a.risk_level == RiskLevel::R1 && cmd@
                == "npm"@ && views_of(args@) == seq!["cache"@, "clean"@, "--force"@] {
                Some(("npm"@, "run"@))
            } else if a.id@ == "yarn-cache-cleanup"@ && a.risk_level == RiskLevel::R1 && cmd@
                == "yarn"@ && views_of(args@) == seq!["cache"@, "clean"@] {
                Some(("yarn"@, "run"@))
            } else if a.id@ == "pnpm-store-prune"@ && a.risk_level == RiskLevel::R1 && cmd@
                == "pnpm"@ && views_of(args@) == seq!["store"@, "prune"@] {
                Some(("pnpm"@, "run"@))
            } else if a.id@ == "homebrew-cellar-permissions-chmod"@ && a.risk_level
                == RiskLevel::R2 && cmd@ == "chmod"@ && args@.len() >= 3 && args@[0]@ == "-R"@
                && args@[1]@ == "u+rwX"@ && tail_all_cellar(args@) {
                Some(("chmod"@, "run"@))
            } else if a.id@ == "homebrew-cellar-permissions-chown"@ && a.risk_level
                == RiskLevel::R3 && cmd@ == "chown"@ && args@.len() >= 3 && args@[0]@ == "-R"@
                && safe_owner(args@[1]@) && tail_all_cellar(args@) {
                Some(("chown"@, "run"@))
            } else {
                None
            }
        },
        _ => None,
    }
}

/// Answers whether `action` is allowlisted, and with which confirmation
/// tokens, exactly as [`allowlist_spec`] says.
pub fn allowlisted_run_cmd(action: &ActionPlan) -> (r: Option<AllowlistedRunCmdSpec>)
    ensures
        match r {
            Some(s) => allowlist_spec(*action) == Some(
                (s.confirm_token@, s.final_confirm_token@),
            ),
            None => allowlist_spec(*action) is None,
        },
{
    match &action.kind {
        ActionKind::RunCmd { cmd, args } => {
            if str_eq(action.id.as_str(), "coresimulator-simctl-delete-unavailable")
                && action.risk_level == RiskLevel::R2 && str_eq(cmd.as_str(), "xcrun")
                && args_match3(args, "simctl", "delete", "unavailable") {
                Some(
                    AllowlistedRunCmdSpec {
                        confirm_token: "unavailable",
                        final_confirm_token: "run",
                    },
                )
            } else if str_eq(action.id.as_str(), "docker-builder-prune") && action.risk_level
                == RiskLevel::R2 && str_eq(cmd.as_str(), "docker") && args_match2(
                args,
                "builder",
                "prune",
            ) {
                Some(
                    AllowlistedRunCmdSpec {
                        confirm_token: "builder-prune",
                        final_confirm_token: "run",
                    },
                )
            } else if str_eq(action.id.as_str(), "docker-system-prune") && action.risk_level
                == RiskLevel::R2 && str_eq(cmd.as_str(), "docker") && args_match2(
                args,
                "system",
                "prune",
            ) {
                Some(
                    AllowlistedRunCmdSpec {
                        confirm_token: "system-prune",
                        final_confirm_token: "run",
                    },
                )
            } else if str_eq(action.id.as_str(), "docker-storage-df") && action.risk_level
                == RiskLevel::R2 && str_eq(cmd.as_str(), "docker") && args_match2(
                args,
                "system",
                "df",
            ) {
                Some(AllowlistedRunCmdSpec { confirm_token: "df", final_confirm_token: "run" })
            } else if str_eq(action.id.as_str(), "homebrew-cache-cleanup") && action.risk_level
                == RiskLevel::R1 && str_eq(cmd.as_str(), "brew") && args_match1(args, "cleanup") {
                Some(
                    AllowlistedRunCmdSpec { confirm_token: "cleanup", final_confirm_token: "run" },
                )
            } else if str_eq(action.id.as_str(), "npm-cache-cleanup") && action.risk_level
                == RiskLevel::R1 && str_eq(cmd.as_str(), "npm") && args_match3(
                args,
                "cache",
                "clean",
                "--force",
            ) {
                Some(AllowlistedRunCmdSpec { confirm_token: "npm", final_confirm_token: "run" })
            } else if str_eq(action.id.as_str(), "yarn-cache-cleanup") && action.risk_level
                == RiskLevel::R1 && str_eq(cmd.as_str(), "yarn") && args_match2(
                args,
                "cache",
                "clean",
            ) {
                Some(AllowlistedRunCmdSpec { confirm_token: "yarn", final_confirm_token: "run" })
            } else if str_eq(action.id.as_str(), "pnpm-store-prune") && action.risk_level
                == RiskLevel::R1 && str_eq(cmd.as_str(), "pnpm") && args_match2(
                args,
                "store",
                "prune",
            ) {
                Some(AllowlistedRunCmdSpec { confirm_token: "pnpm", final_confirm_token: "run" })
            } else if str_eq(action.id.as_str(), "homebrew-cellar-permissions-chmod")
                && action.risk_level == RiskLevel::R2 && str_eq(cmd.as_str(), "chmod")
                && args.len() >= 3 && str_eq(args[0].as_str(), "-R") && str_eq(
                args[1].as_str(),
                "u+rwX",
            ) && args_tail_cellar(args) {
                Some(AllowlistedRunCmdSpec { confirm_token: "chmod", final_confirm_token: "run" })
            } else if str_eq(action.id.as_str(), "homebrew-cellar-permissions-chown")
                && action.risk_level == RiskLevel::R3 && str_eq(cmd.as_str(), "chown")
                && args.len() >= 3 && str_eq(args[0].as_str(), "-R") && is_safe_posix_owner(
                args[1].as_str(),
            ) && args_tail_cellar(args) {
                Some(AllowlistedRunCmdSpec { confirm_token: "chown", final_confirm_token: "run" })
            } else {
                None
            }
        },
        _ => None,
    }
}

/// Whether an allowlisted command should run as the invoking user rather
/// than the effective one: every cleanup command does, while the two
/// permission repairs keep the elevated identity they need.
pub fn runs_as_invoking_user(action: &ActionPlan) -> (r: bool)
    ensures
        r == (allowlist_spec(*action) is Some && action.id@
            != "homebrew-cellar-permissions-chmod"@ && action.id@
            != "homebrew-cellar-permissions-chown"@),
{
    if allowlisted_run_cmd(action).is_none() {
        return false;
    }
    !str_eq(action.id.as_str(), "homebrew-cellar-permissions-chmod") && !str_eq(
        action.id.as_str(),
        "homebrew-cellar-permissions-chown",
    )
}

/// The registry is closed: only a `RunCmd` action carrying one of the
/// ten registered ids can ever be allowlisted; anything else gets no
/// confirmation tokens at all.
pub proof fn lemma_allowlist_is_closed(a: ActionPlan)
    ensures
        allowlist_spec(a) is Some ==> a.kind matches ActionKind::RunCmd { .. },
        allowlist_spec(a) is Some ==> {
            ||| a.id@ == "coresimulator-simctl-delete-unavailable"@
            ||| a.id@ == "docker-builder-prune"@
            ||| a.id@ == "docker-system-prune"@
            ||| a.id@ == "docker-storage-df"@
            ||| a.id@ == "homebrew-cache-cleanup"@
            ||| a.id@ == "npm-cache-cleanup"@
            ||| a.id@ == "yarn-cache-cleanup"@
            ||| a.id@ == "pnpm-store-prune"@
            ||| a.id@ == "homebrew-cellar-permissions-chmod"@
            ||| a.id@ == "homebrew-cellar-permissions-chown"@
        },
{
}

/// Matching is exact down to the argument list: a `docker` invocation
/// whose arguments are not literally one of the three registered lists —
/// `docker system prune -a`, say — is refused, whatever its id and risk.
pub proof fn lemma_docker_args_must_match(a: ActionPlan)
    requires
        a.kind matches ActionKind::RunCmd { cmd, args } && cmd@ == "docker"@ && views_of(args@)
            != seq!["builder"@, "prune"@] && views_of(args@) != seq!["system"@, "prune"@]
            && views_of(args@) != seq!["system"@, "df"@],
    ensures
        allowlist_spec(a) is None,
{
    broadcast use vstd::string::group_string_axioms;

    reveal_strlit("docker");
    reveal_strlit("xcrun");
    reveal_strlit("brew");
    reveal_strlit("npm");
    reveal_strlit("yarn");
    reveal_strlit("pnpm");
    reveal_strlit("chmod");
    reveal_strlit("chown");
    assert("docker"@.len() == 6);
    assert("xcrun"@.len() == 5);
    assert("brew"@.len() == 4);
    assert("npm"@.len() == 3);
    assert("yarn"@.len() == 4);
    assert("pnpm"@.len() == 4);
    assert("chmod"@.len() == 5);
    assert("chown"@.len() == 5);
}

} // verus!
