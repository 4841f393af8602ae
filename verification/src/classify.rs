//! Classifies a finished allowlisted command's output into a tri-state
//! outcome.
//!
//! Exit code 0 is success and any other exit code an error, except where a
//! per-command rule knows better: Homebrew uses exit code 1 for mere
//! warnings, Docker failures deserve actionable guidance, and failed
//! permission repairs should point at the complementary repair.  The
//! classifier is total: every action, allowlisted or not, gets a variant,
//! and each message is pinned exactly by the contract.

use vstd::prelude::*;
use crate::action::ActionPlan;
use crate::allowlist::{allowlist_spec, allowlisted_run_cmd};
use crate::command::CommandOutput;
use crate::text::{
    contains_sub, dec_digits_i32, fmt_i32, has_prefix, join_seq, join_strings, lines_of,
    seq_contains, split_lines, starts_with, str_eq, trim, trim_spec, trim_start,
    trim_start_spec, views_of,
};

verus! {

/// Tri-state result of interpreting a finished command.
#[derive(Debug, Clone, PartialEq, Eq)]
pub enum AllowlistedRunCmdOutcome {
    Success,
    OkWithWarnings(String),
    Error(String),
}

/// Ghost model of an outcome: the variant together with its message text.
pub enum OutcomeModel {
    Success,
    Warn(Seq<char>),
    Fail(Seq<char>),
}

impl AllowlistedRunCmdOutcome {
    pub open spec fn model(self) -> OutcomeModel {
        match self {
            AllowlistedRunCmdOutcome::Success => OutcomeModel::Success,
            AllowlistedRunCmdOutcome::OkWithWarnings(m) => OutcomeModel::Warn(m@),
            AllowlistedRunCmdOutcome::Error(m) => OutcomeModel::Fail(m@),
        }
    }
}

/// Some line, once its leading whitespace is dropped, starts with `fatal:`.
pub open spec fn fatal_in_lines(ls: Seq<Seq<char>>) -> bool {
    exists|i: int| 0 <= i < ls.len() && has_prefix(trim_start_spec(ls[i]), "fatal:"@)
}

/// A hard Homebrew error: `Error:` anywhere, or a `fatal:` line, in either
/// stream.
pub open spec fn brew_hard_error(o: CommandOutput) -> bool {
    ||| seq_contains(o.stdout@, "Error:"@)
    ||| fatal_in_lines(split_lines(o.stdout@))
    ||| seq_contains(o.stderr@, "Error:"@)
    ||| fatal_in_lines(split_lines(o.stderr@))
}

fn stream_has_fatal(s: &str) -> (r: bool)
    ensures
        r == fatal_in_lines(split_lines(s@)),
{
    let ls = lines_of(s);
    let mut i: usize = 0;
    while i < ls.len()
        invariant
            views_of(ls@) == split_lines(s@),
            i <= ls@.len(),
            forall|j: int| 0 <= j < i ==> !has_prefix(
                trim_start_spec(#[trigger] split_lines(s@)[j]),
                "fatal:"@,
            ),
        decreases ls@.len() - i,
    {
        let t = trim_start(ls[i].as_str());
        proof {
            assert(split_lines(s@)[i as int] == ls@[i as int]@);
        }
        if starts_with(t, "fatal:") {
            return true;
        }
        i += 1;
    }
    false
}

pub fn brew_output_has_hard_error(output: &CommandOutput) -> (r: bool)
    ensures
        r == brew_hard_error(*output),
{
    if contains_sub(output.stdout.as_str(), "Error:") {
        return true;
    }
    if stream_has_fatal(output.stdout.as_str()) {
        return true;
    }
    if contains_sub(output.stderr.as_str(), "Error:") {
        return true;
    }
    stream_has_fatal(output.stderr.as_str())
}

/// The first `Error:` line of a stream, trimmed; scanned line by line.
pub open spec fn first_error_of_lines(ls: Seq<Seq<char>>) -> Option<Seq<char>>
    decreases ls.len(),
{
    if ls.len() == 0 {
        None
    } else if has_prefix(trim_start_spec(ls[0]), "Error:"@) {
        Some(trim_spec(ls[0]))
    } else {
        first_error_of_lines(ls.drop_first())
    }
}

proof fn lemma_first_error_skip(ls: Seq<Seq<char>>, i: int)
    requires
        0 <= i <= ls.len(),
        forall|j: int| 0 <= j < i ==> !has_prefix(trim_start_spec(#[trigger] ls[j]), "Error:"@),
    ensures
        first_error_of_lines(ls) == first_error_of_lines(ls.subrange(i, ls.len() as int)),
    decreases i,
{
    if i == 0 {
        assert(ls.subrange(0, ls.len() as int) =~= ls);
    } else {
        lemma_first_error_skip(ls.drop_first(), i - 1);
        assert(ls.drop_first().subrange(i - 1, ls.drop_first().len() as int) =~= ls.subrange(
            i,
            ls.len() as int,
        ));
    }
}

fn stream_first_error(s: &str) -> (r: Option<String>)
    ensures
        match r {
            Some(m) => first_error_of_lines(split_lines(s@)) == Some(m@),
            None => first_error_of_lines(split_lines(s@)) is None,
        },
{
    let ls = lines_of(s);
    let mut i: usize = 0;
    while i < ls.len()
        invariant
            views_of(ls@) == split_lines(s@),
            i <= ls@.len(),
            forall|j: int| 0 <= j < i ==> !has_prefix(
                trim_start_spec(#[trigger] split_lines(s@)[j]),
                "Error:"@,
            ),
        decreases ls@.len() - i,
    {
        let t = trim_start(ls[i].as_str());
        proof {
            assert(split_lines(s@)[i as int] == ls@[i as int]@);
        }
        if starts_with(t, "Error:") {
            let m = trim(ls[i].as_str()).to_owned();
            proof {
                lemma_first_error_skip(split_lines(s@), i as int);
                assert(split_lines(s@).subrange(i as int, split_lines(s@).len() as int)[0]
                    == split_lines(s@)[i as int]);
            }
            return Some(m);
        }
        i += 1;
    }
    proof {
        lemma_first_error_skip(split_lines(s@), ls@.len() as int);
    }
    None
}

/// The first `Error:` line of the command's output, stderr scanned first.
pub open spec fn brew_first_error_spec(o: CommandOutput) -> Option<Seq<char>> {
    match first_error_of_lines(split_lines(o.stderr@)) {
        Some(l) => Some(l),
        None => first_error_of_lines(split_lines(o.stdout@)),
    }
}

pub fn brew_first_error_line(output: &CommandOutput) -> (r: Option<String>)
    ensures
        match r {
            Some(m) => brew_first_error_spec(*output) == Some(m@),
            None => brew_first_error_spec(*output) is None,
        },
{
    match stream_first_error(output.stderr.as_str()) {
        Some(m) => Some(m),
        None => stream_first_error(output.stdout.as_str()),
    }
}

/// A line that belongs to a `Fix your permissions on:` block: indented, or
/// its trimmed text names an absolute path.
pub open spec fn line_is_path_entry(l: Seq<char>) -> bool {
    (l.len() > 0 && (l[0] == ' ' || l[0] == '\t')) || has_prefix(trim_spec(l), "/"@)
}

/// The paths listed after a `Fix your permissions on:` marker, each
/// trimmed; the block ends at a blank or non-entry line.
pub open spec fn fix_paths_from(ls: Seq<Seq<char>>, in_section: bool) -> Seq<Seq<char>>
    decreases ls.len(),
{
    if ls.len() == 0 {
        Seq::empty()
    } else if !in_section {
        if seq_contains(ls[0], "Fix your permissions on:"@) {
            fix_paths_from(ls.drop_first(), true)
        } else {
            fix_paths_from(ls.drop_first(), false)
        }
    } else {
        if trim_spec(ls[0]).len() == 0 {
            Seq::empty()
        } else if line_is_path_entry(ls[0]) {
            seq![trim_spec(ls[0])] + fix_paths_from(ls.drop_first(), true)
        } else {
            Seq::empty()
        }
    }
}

pub open spec fn brew_fix_paths_spec(o: CommandOutput) -> Seq<Seq<char>> {
    fix_paths_from(split_lines(o.stderr@), false)
}

pub fn brew_permission_fix_paths(output: &CommandOutput) -> (r: Vec<String>)
    ensures
        views_of(r@) == brew_fix_paths_spec(*output),
{
    let ls = lines_of(output.stderr.as_str());
    let ghost lv = split_lines(output.stderr@);
    let mut out: Vec<String> = Vec::new();
    let mut in_section = false;
    let mut i: usize = 0;
    proof {
        assert(lv.subrange(0, lv.len() as int) =~= lv);
    }
    while i < ls.len()
        invariant
            views_of(ls@) == lv,
            lv == split_lines(output.stderr@),
            i <= ls@.len(),
            views_of(out@) + fix_paths_from(lv.subrange(i as int, lv.len() as int), in_section)
                =~= fix_paths_from(lv, false),
        decreases ls@.len() - i,
    {
        proof {
            assert(lv.subrange(i as int, lv.len() as int)[0] == lv[i as int]);
            assert(lv.subrange(i as int, lv.len() as int).drop_first() =~= lv.subrange(
                i + 1,
                lv.len() as int,
            ));
            assert(lv[i as int] == ls@[i as int]@);
        }
        let line = ls[i].as_str();
        if !in_section {
            if contains_sub(line, "Fix your permissions on:") {
                in_section = true;
            }
        } else {
            let trimmed = trim(line);
            if trimmed.unicode_len() == 0 {
                proof {
                    assert(fix_paths_from(lv.subrange(i as int, lv.len() as int), true)
                        =~= Seq::<Seq<char>>::empty());
                }
                return out;
            }
            let is_entry = {
                let c0 = line.get_char(0);
                c0 == ' ' || c0 == '\t' || starts_with(trimmed, "/")
            };
            if is_entry {
                out.push(trimmed.to_owned());
                proof {
                    assert(views_of(out@) =~= views_of(out@.drop_last()).push(
                        trim_spec(lv[i as int]),
                    ));
                }
            } else {
                proof {
                    assert(fix_paths_from(lv.subrange(i as int, lv.len() as int), true)
                        =~= Seq::<Seq<char>>::empty());
                }
                return out;
            }
        }
        i += 1;
    }
    proof {
        assert(lv.subrange(lv.len() as int, lv.len() as int) =~= Seq::<Seq<char>>::empty());
    }
    out
}

/// The output smells of a permission problem.
pub open spec fn brew_perm_issue(o: CommandOutput) -> bool {
    seq_contains(o.stderr@, "Fix your permissions on:"@) || seq_contains(
        o.stderr@,
        "Permission denied"@,
    )
}

/// The composite message for a hard Homebrew-cleanup failure: exit code,
/// permission hint, first error line, paths to repair, and a `brew doctor`
/// hint.
pub open spec fn brew_fail_msg(o: CommandOutput) -> Seq<char> {
    let base = "`brew cleanup` failed (exit_code="@ + dec_digits_i32(o.exit_code as int) + ")"@;
    let m1 = if brew_perm_issue(o) {
        base + " (possible permission problem)"@
    } else {
        base
    };
    let m2 = match brew_first_error_spec(o) {
        Some(l) => m1 + ": "@ + l,
        None => m1,
    };
    let m3 = if brew_fix_paths_spec(o).len() > 0 {
        m2 + " Paths needing repair: "@ + join_seq(brew_fix_paths_spec(o), ", "@)
    } else {
        m2
    };
    m3 + " Hint: run `brew doctor` and follow its instructions to fix owners and permissions."@
}

/// What [`evaluate_allowlisted_run_cmd_output`] returns, in full.
pub open spec fn classify_spec(a: ActionPlan, o: CommandOutput) -> OutcomeModel {
    if allowlist_spec(a) is None {
        OutcomeModel::Fail("RUN_CMD is not in the allowlist (action_id="@ + a.id@ + ")"@)
    } else if a.id@ == "docker-builder-prune"@ || a.id@ == "docker-system-prune"@ {
        if o.exit_code == 0 {
            OutcomeModel::Success
        } else if seq_contains(o.stderr@, "Cannot connect to the Docker daemon"@) || seq_contains(
            o.stderr@,
            "Is the docker daemon running"@,
        ) {
            OutcomeModel::Fail(
                "Cannot connect to the Docker daemon. Start Docker Desktop, check that `docker system df` works, then retry."@,
            )
        } else if seq_contains(o.stderr@, "permission denied"@) || seq_contains(
            o.stderr@,
            "Permission denied"@,
        ) {
            OutcomeModel::Fail(
                "Docker failed with insufficient permissions. Check Docker Desktop's group and socket permissions, then retry."@,
            )
        } else {
            OutcomeModel::Fail(generic_fail_msg(o.exit_code as int))
        }
    } else if a.id@ == "homebrew-cache-cleanup"@ {
        if o.exit_code == 0 {
            OutcomeModel::Success
        } else if o.exit_code == 1 && !brew_hard_error(o) {
            OutcomeModel::Warn(
                "`brew cleanup` can return exit_code=1 when there are only warnings. Check the Warning lines in stderr."@,
            )
        } else if seq_contains(o.stderr@, "Running Homebrew as root is extremely dangerous"@) {
            OutcomeModel::Fail(
                "`brew cleanup` cannot run as root (a Homebrew safety constraint). If the tool was started with `sudo`, drop it and retry."@,
            )
        } else {
            OutcomeModel::Fail(brew_fail_msg(o))
        }
    } else if a.id@ == "homebrew-cellar-permissions-chmod"@ {
        if o.exit_code == 0 {
            OutcomeModel::Success
        } else if seq_contains(o.stderr@, "Operation not permitted"@) || seq_contains(
            o.stderr@,
            "Permission denied"@,
        ) {
            OutcomeModel::Fail(
                "`chmod` failed. The targets may be owned by root. Raise the risk ceiling to R3 and try the ownership repair (chown), or rerun the tool with elevated privileges."@,
            )
        } else {
            OutcomeModel::Fail(generic_fail_msg(o.exit_code as int))
        }
    } else if a.id@ == "homebrew-cellar-permissions-chown"@ {
        if o.exit_code == 0 {
            OutcomeModel::Success
        } else if seq_contains(o.stderr@, "Operation not permitted"@) || seq_contains(
            o.stderr@,
            "Permission denied"@,
        ) {
            OutcomeModel::Fail(
                "`chown` failed. It usually needs `sudo`, and the tool never elevates on its own. Rerun it with elevated privileges and retry."@,
            )
        } else {
            OutcomeModel::Fail(generic_fail_msg(o.exit_code as int))
        }
    } else {
        if o.exit_code == 0 {
            OutcomeModel::Success
        } else {
            OutcomeModel::Fail(generic_fail_msg(o.exit_code as int))
        }
    }
}

pub open spec fn generic_fail_msg(exit_code: int) -> Seq<char> {
    "Command failed (exit_code="@ + dec_digits_i32(exit_code) + ")"@
}

fn generic_failure(exit_code: i32) -> (m: String)
    ensures
        m@ == generic_fail_msg(exit_code as int),
{
    let mut m = String::from_str("Command failed (exit_code=");
    let digits = fmt_i32(exit_code);
    m.append(digits.as_str());
    m.append(")");
    proof {
        assert(m@ =~= generic_fail_msg(exit_code as int));
    }
    m
}

/// Interprets the output of a finished run of `action`, exactly as
/// [`classify_spec`] says; a non-allowlisted action is itself an error.
pub fn evaluate_allowlisted_run_cmd_output(action: &ActionPlan, output: &CommandOutput) -> (r:
    AllowlistedRunCmdOutcome)
    ensures
        r.model() == classify_spec(*action, *output),
{
    if allowlisted_run_cmd(action).is_none() {
        let mut m = String::from_str("RUN_CMD is not in the allowlist (action_id=");
        m.append(action.id.as_str());
        m.append(")");
        proof {
            assert(m@ =~= "RUN_CMD is not in the allowlist (action_id="@ + action.id@ + ")"@);
        }
        return AllowlistedRunCmdOutcome::Error(m);
    }
    let id = action.id.as_str();
    if str_eq(id, "docker-builder-prune") || str_eq(id, "docker-system-prune") {
        if output.exit_code == 0 {
            AllowlistedRunCmdOutcome::Success
        } else if contains_sub(output.stderr.as_str(), "Cannot connect to the Docker daemon")
            || contains_sub(output.stderr.as_str(), "Is the docker daemon running") {
            AllowlistedRunCmdOutcome::Error(
                String::from_str(
                    "Cannot connect to the Docker daemon. Start Docker Desktop, check that `docker system df` works, then retry.",
                ),
            )
        } else if contains_sub(output.stderr.as_str(), "permission denied") || contains_sub(
            output.stderr.as_str(),
            "Permission denied",
        ) {
            AllowlistedRunCmdOutcome::Error(
                String::from_str(
                    "Docker failed with insufficient permissions. Check Docker Desktop's group and socket permissions, then retry.",
                ),
            )
        } else {
            AllowlistedRunCmdOutcome::Error(generic_failure(output.exit_code))
        }
    } else if str_eq(id, "homebrew-cache-cleanup") {
        if output.exit_code == 0 {
            AllowlistedRunCmdOutcome::Success
        } else if output.exit_code == 1 && !brew_output_has_hard_error(output) {
            AllowlistedRunCmdOutcome::OkWithWarnings(
                String::from_str(
                    "`brew cleanup` can return exit_code=1 when there are only warnings. Check the Warning lines in stderr.",
                ),
            )
        } else if contains_sub(
            output.stderr.as_str(),
            "Running Homebrew as root is extremely dangerous",
        ) {
            AllowlistedRunCmdOutcome::Error(
                String::from_str(
                    "`brew cleanup` cannot run as root (a Homebrew safety constraint). If the tool was started with `sudo`, drop it and retry.",
                ),
            )
        } else {
            let error_line = brew_first_error_line(output);
            let permission_paths = brew_permission_fix_paths(output);
            let looks_like_permission_issue = contains_sub(
                output.stderr.as_str(),
                "Fix your permissions on:",
            ) || contains_sub(output.stderr.as_str(), "Permission denied");
            let mut m = String::from_str("`brew cleanup` failed (exit_code=");
            let digits = fmt_i32(output.exit_code);
            m.append(digits.as_str());
            m.append(")");
            if looks_like_permission_issue {
                m.append(" (possible permission problem)");
            }
            match &error_line {
                Some(line) => {
                    m.append(": ");
                    m.append(line.as_str());
                },
                None => {},
            }
            if permission_paths.len() > 0 {
                m.append(" Paths needing repair: ");
                let joined = join_strings(&permission_paths, ", ");
                m.append(joined.as_str());
            }
            m.append(
                " Hint: run `brew doctor` and follow its instructions to fix owners and permissions.",
            );
            proof {
                assert(m@ =~= brew_fail_msg(*output));
            }
            AllowlistedRunCmdOutcome::Error(m)
        }
    } else if str_eq(id, "homebrew-cellar-permissions-chmod") {
        if output.exit_code == 0 {
            AllowlistedRunCmdOutcome::Success
        } else if contains_sub(output.stderr.as_str(), "Operation not permitted") || contains_sub(
            output.stderr.as_str(),
            "Permission denied",
        ) {
            AllowlistedRunCmdOutcome::Error(
                String::from_str(
                    "`chmod` failed. The targets may be owned by root. Raise the risk ceiling to R3 and try the ownership repair (chown), or rerun the tool with elevated privileges.",
                ),
            )
        } else {
            AllowlistedRunCmdOutcome::Error(generic_failure(output.exit_code))
        }
    } else if str_eq(id, "homebrew-cellar-permissions-chown") {
        if output.exit_code == 0 {
            AllowlistedRunCmdOutcome::Success
        } else if contains_sub(output.stderr.as_str(), "Operation not permitted") || contains_sub(
            output.stderr.as_str(),
            "Permission denied",
        ) {
            AllowlistedRunCmdOutcome::Error(
                String::from_str(
                    "`chown` failed. It usually needs `sudo`, and the tool never elevates on its own. Rerun it with elevated privileges and retry.",
                ),
            )
        } else {
            AllowlistedRunCmdOutcome::Error(generic_failure(output.exit_code))
        }
    } else {
        if output.exit_code == 0 {
            AllowlistedRunCmdOutcome::Success
        } else {
            AllowlistedRunCmdOutcome::Error(generic_failure(output.exit_code))
        }
    }
}

} // verus!
