//! Synthesizes higher-risk repair actions for a failed Homebrew cleanup.
//!
//! The advisor re-reads the `Fix your permissions on:` block, refuses to
//! act on any path outside the two Cellar roots, and proposes a `chmod`
//! repair (risk `R2`); when the output also smells of an ownership problem
//! it proposes a `chown` repair (risk `R3`) under a safely chosen owner.
//! Both proposals re-enter the command allowlist and are run, if at all,
//! only after their own confirmation.

use vstd::prelude::*;
use crate::action::{ActionKind, ActionPlan};
use crate::allowlist::{cellar_path, is_cellar_path, is_safe_posix_owner, safe_owner};
use crate::classify::{brew_fix_paths_spec, brew_permission_fix_paths};
use crate::command::CommandOutput;
use crate::risk::RiskLevel;
use crate::text::{contains_sub, seq_contains, str_eq, views_of};

verus! {

/// Every path of the list lies under one of the Cellar roots.
pub open spec fn all_cellar(paths: Seq<Seq<char>>) -> bool {
    forall|i: int| 0 <= i < paths.len() ==> cellar_path(#[trigger] paths[i])
}

fn all_paths_cellar(paths: &Vec<String>) -> (r: bool)
    ensures
        r == all_cellar(views_of(paths@)),
{
    let mut i: usize = 0;
    while i < paths.len()
        invariant
            i <= paths@.len(),
            forall|j: int| 0 <= j < i ==> cellar_path(#[trigger] views_of(paths@)[j]),
        decreases paths@.len() - i,
    {
        proof {
            assert(views_of(paths@)[i as int] == paths@[i as int]@);
        }
        if !is_cellar_path(paths[i].as_str()) {
            return false;
        }
        i += 1;
    }
    true
}

/// Index of the first candidate that is a safe owner other than `root`,
/// or -1 if there is none.
pub open spec fn first_safe_nonroot(cands: Seq<Seq<char>>) -> int
    decreases cands.len(),
{
    if cands.len() == 0 {
        -1
    } else if safe_owner(cands[0]) && cands[0] != "root"@ {
        0
    } else {
        let r = first_safe_nonroot(cands.drop_first());
        if r < 0 {
            -1
        } else {
            1 + r
        }
    }
}

/// `root` itself always passes the owner-token check.
proof fn lemma_root_is_safe()
    ensures
        safe_owner("root"@),
{
    reveal_strlit("root");
}

proof fn lemma_first_safe_nonroot_found(cands: Seq<Seq<char>>, i: int)
    requires
        0 <= i < cands.len(),
        forall|j: int| 0 <= j < i ==> !(safe_owner(#[trigger] cands[j]) && cands[j] != "root"@),
        safe_owner(cands[i]) && cands[i] != "root"@,
    ensures
        first_safe_nonroot(cands) == i,
    decreases i,
{
    if i > 0 {
        lemma_first_safe_nonroot_found(cands.drop_first(), i - 1);
    }
}

proof fn lemma_first_safe_nonroot_none(cands: Seq<Seq<char>>)
    requires
        forall|j: int| 0 <= j < cands.len() ==> !(safe_owner(#[trigger] cands[j]) && cands[j]
            != "root"@),
    ensures
        first_safe_nonroot(cands) == -1,
    decreases cands.len(),
{
    if cands.len() > 0 {
        lemma_first_safe_nonroot_none(cands.drop_first());
    }
}

proof fn lemma_first_safe_nonroot_in_range(cands: Seq<Seq<char>>)
    ensures
        first_safe_nonroot(cands) >= 0 ==> first_safe_nonroot(cands) < cands.len() && safe_owner(
            cands[first_safe_nonroot(cands)],
        ) && cands[first_safe_nonroot(cands)] != "root"@,
    decreases cands.len(),
{
    if cands.len() > 0 && !(safe_owner(cands[0]) && cands[0] != "root"@) {
        lemma_first_safe_nonroot_in_range(cands.drop_first());
    }
}

/// The owner a chown repair should target, given the environment-derived
/// candidates in order of preference: the first safe non-root candidate,
/// falling back to `root` only when `root` itself is among the candidates
/// and nothing safer is.
pub open spec fn pick_owner(cands: Seq<Seq<char>>) -> Option<Seq<char>> {
    let i = first_safe_nonroot(cands);
    if i >= 0 {
        Some(cands[i])
    } else if exists|j: int| 0 <= j < cands.len() && cands[j] == "root"@ {
        Some("root"@)
    } else {
        None
    }
}

/// Picks the repair owner from the candidate list, exactly as
/// [`pick_owner`] says.
pub fn preferred_owner_from_candidates(candidates: &Vec<String>) -> (r: Option<String>)
    ensures
        match r {
            Some(o) => pick_owner(views_of(candidates@)) == Some(o@),
            None => pick_owner(views_of(candidates@)) is None,
        },
{
    let ghost cv = views_of(candidates@);
    let mut i: usize = 0;
    let mut root_seen = false;
    while i < candidates.len()
        invariant
            cv == views_of(candidates@),
            i <= candidates@.len(),
            forall|j: int| 0 <= j < i ==> !(safe_owner(#[trigger] cv[j]) && cv[j] != "root"@),
            root_seen == exists|j: int| 0 <= j < i && cv[j] == "root"@,
        decreases candidates@.len() - i,
    {
        proof {
            assert(cv[i as int] == candidates@[i as int]@);
        }
        let c = candidates[i].as_str();
        if is_safe_posix_owner(c) {
            if str_eq(c, "root") {
                root_seen = true;
            } else {
                proof {
                    lemma_first_safe_nonroot_found(cv, i as int);
                }
                return Some(c.to_owned());
            }
        } else {
            proof {
                lemma_root_is_safe();
                assert(cv[i as int] != "root"@);
            }
        }
        i += 1;
    }
    proof {
        lemma_first_safe_nonroot_none(cv);
    }
    if root_seen {
        Some(String::from_str("root"))
    } else {
        None
    }
}

/// The failed output suggests an ownership problem, not just permissions.
pub open spec fn ownership_issue(o: CommandOutput) -> bool {
    seq_contains(o.stderr@, "Permission denied @ apply2files"@) || seq_contains(
        o.stderr@,
        "Operation not permitted"@,
    )
}

/// A failed Homebrew cleanup earns a chmod repair: it listed paths to fix
/// and every one of them lies under a Cellar root.
pub open spec fn suggests_chmod(a: ActionPlan, o: CommandOutput) -> bool {
    &&& a.id@ == "homebrew-cache-cleanup"@
    &&& o.exit_code != 0
    &&& brew_fix_paths_spec(o).len() > 0
    &&& all_cellar(brew_fix_paths_spec(o))
}

/// A chown repair is added when ownership also looks broken and an owner
/// could be picked.
pub open spec fn suggests_chown(a: ActionPlan, o: CommandOutput, cands: Seq<Seq<char>>) -> bool {
    suggests_chmod(a, o) && ownership_issue(o) && pick_owner(cands) is Some
}

/// The synthesized chmod plan, field by field.
pub open spec fn chmod_plan_spec(p: ActionPlan, a: ActionPlan, o: CommandOutput) -> bool {
    &&& p.id@ == "homebrew-cellar-permissions-chmod"@
    &&& p.title@ == "Repair Homebrew Cellar permissions (`chmod -R u+rwX`) (R2)"@
    &&& p.risk_level == RiskLevel::R2
    &&& p.estimated_reclaimed_bytes == 0
    &&& views_of(p.related_findings@) == views_of(a.related_findings@)
    &&& p.kind matches ActionKind::RunCmd { cmd, args } && cmd@ == "chmod"@ && views_of(args@)
        == seq!["-R"@, "u+rwX"@] + brew_fix_paths_spec(o)
    &&& views_of(p.notes@) == seq![
        "Purpose: make the listed paths user-writable again so that Homebrew can clean up old kegs."@,
        "Note: if the owner is root or similar, this alone may not be enough and `sudo` may be needed."@,
        "Next: run `brew cleanup` again."@,
    ]
}

/// The synthesized chown plan, field by field, for the picked owner.
pub open spec fn chown_plan_spec(
    p: ActionPlan,
    a: ActionPlan,
    o: CommandOutput,
    owner: Seq<char>,
) -> bool {
    &&& p.id@ == "homebrew-cellar-permissions-chown"@
    &&& p.title@ == "Repair Homebrew Cellar ownership (`sudo chown -R "@ + owner + "`) (R3)"@
    &&& p.risk_level == RiskLevel::R3
    &&& p.estimated_reclaimed_bytes == 0
    &&& views_of(p.related_findings@) == views_of(a.related_findings@)
    &&& p.kind matches ActionKind::RunCmd { cmd, args } && cmd@ == "chown"@ && views_of(args@)
        == seq!["-R"@, owner] + brew_fix_paths_spec(o)
    &&& views_of(p.notes@) == seq![
        "Purpose: restore ownership so the paths can be cleaned up when they are owned by root or similar."@,
        "Note: this is R3 (privileged). The tool never runs sudo on its own; rerun it with elevated privileges to execute this."@,
        "Next: run `brew cleanup` again."@,
    ]
}

fn clone_strings(v: &Vec<String>) -> (r: Vec<String>)
    ensures
        views_of(r@) == views_of(v@),
{
    let mut r: Vec<String> = Vec::new();
    let mut i: usize = 0;
    while i < v.len()
        invariant
            i <= v@.len(),
            views_of(r@) =~= views_of(v@).subrange(0, i as int),
        decreases v@.len() - i,
    {
        r.push(v[i].clone());
        proof {
            assert(views_of(r@) =~= views_of(r@.drop_last()).push(v@[i as int]@));
            assert(views_of(v@).subrange(0, i + 1) =~= views_of(v@).subrange(0, i as int).push(
                v@[i as int]@,
            ));
        }
        i += 1;
    }
    proof {
        assert(views_of(v@).subrange(0, v@.len() as int) =~= views_of(v@));
    }
    r
}

fn repair_args(flag1: &str, arg1: &str, paths: &Vec<String>) -> (r: Vec<String>)
    ensures
        views_of(r@) == seq![flag1@, arg1@] + views_of(paths@),
{
    let mut r: Vec<String> = Vec::new();
    r.push(flag1.to_owned());
    r.push(arg1.to_owned());
    let mut i: usize = 0;
    proof {
        assert(views_of(r@) =~= seq![flag1@, arg1@] + views_of(paths@).subrange(0, 0));
    }
    while i < paths.len()
        invariant
            i <= paths@.len(),
            views_of(r@) =~= seq![flag1@, arg1@] + views_of(paths@).subrange(0, i as int),
        decreases paths@.len() - i,
    {
        r.push(paths[i].clone());
        proof {
            assert(views_of(r@) =~= views_of(r@.drop_last()).push(paths@[i as int]@));
            assert((seq![flag1@, arg1@] + views_of(paths@).subrange(0, i as int)).push(
                paths@[i as int]@,
            ) =~= seq![flag1@, arg1@] + views_of(paths@).subrange(0, i + 1));
        }
        i += 1;
    }
    proof {
        assert(views_of(paths@).subrange(0, paths@.len() as int) =~= views_of(paths@));
    }
    r
}

fn push_note(notes: &mut Vec<String>, t: &str)
    ensures
        views_of(final(notes)@) == views_of(old(notes)@).push(t@),
{
    notes.push(t.to_owned());
    proof {
        assert(views_of(notes@) =~= views_of(notes@.drop_last()).push(t@));
    }
}

/// Zero, one or two repair plans for a failed allowlisted run: a chmod
/// repair when [`suggests_chmod`] holds, plus a chown repair under the
/// picked owner when [`suggests_chown`] holds of the owner candidates.
pub fn suggest_allowlisted_run_cmd_repair_actions(
    action: &ActionPlan,
    output: &CommandOutput,
    owner_candidates: &Vec<String>,
) -> (r: Vec<ActionPlan>)
    ensures
        !suggests_chmod(*action, *output) ==> r@.len() == 0,
        suggests_chmod(*action, *output) ==> {
            &&& r@.len() >= 1
            &&& chmod_plan_spec(r@[0], *action, *output)
        },
        suggests_chown(*action, *output, views_of(owner_candidates@)) ==> {
            &&& r@.len() == 2
            &&& chown_plan_spec(
                r@[1],
                *action,
                *output,
                pick_owner(views_of(owner_candidates@))->0,
            )
        },
        !suggests_chown(*action, *output, views_of(owner_candidates@)) ==> r@.len() <= 1,
{
    let mut out: Vec<ActionPlan> = Vec::new();
    if !str_eq(action.id.as_str(), "homebrew-cache-cleanup") {
        return out;
    }
    if output.exit_code == 0 {
        return out;
    }
    let paths = brew_permission_fix_paths(output);
    if paths.len() == 0 {
        return out;
    }
    if !all_paths_cellar(&paths) {
        return out;
    }

    let chmod_args = repair_args("-R", "u+rwX", &paths);
    let mut chmod_notes: Vec<String> = Vec::new();
    push_note(
        &mut chmod_notes,
        "Purpose: make the listed paths user-writable again so that Homebrew can clean up old kegs.",
    );
    push_note(
        &mut chmod_notes,
        "Note: if the owner is root or similar, this alone may not be enough and `sudo` may be needed.",
    );
    push_note(&mut chmod_notes, "Next: run `brew cleanup` again.");
    let chmod_plan = ActionPlan {
        id: String::from_str("homebrew-cellar-permissions-chmod"),
        title: String::from_str("Repair Homebrew Cellar permissions (`chmod -R u+rwX`) (R2)"),
        risk_level: RiskLevel::R2,
        estimated_reclaimed_bytes: 0,
        related_findings: clone_strings(&action.related_findings),
        kind: ActionKind::RunCmd { cmd: String::from_str("chmod"), args: chmod_args },
        notes: chmod_notes,
    };
    proof {
        assert(views_of(chmod_plan.notes@) =~= seq![
            "Purpose: make the listed paths user-writable again so that Homebrew can clean up old kegs."@,
            "Note: if the owner is root or similar, this alone may not be enough and `sudo` may be needed."@,
            "Next: run `brew cleanup` again."@,
        ]);
    }
    out.push(chmod_plan);

    let looks_like_ownership_issue = contains_sub(
        output.stderr.as_str(),
        "Permission denied @ apply2files",
    ) || contains_sub(output.stderr.as_str(), "Operation not permitted");
    if looks_like_ownership_issue {
        match preferred_owner_from_candidates(owner_candidates) {
            Some(owner) => {
                let chown_args = repair_args("-R", owner.as_str(), &paths);
                let mut title = String::from_str("Repair Homebrew Cellar ownership (`sudo chown -R ");
                title.append(owner.as_str());
                title.append("`) (R3)");
                let mut chown_notes: Vec<String> = Vec::new();
                push_note(
                    &mut chown_notes,
                    "Purpose: restore ownership so the paths can be cleaned up when they are owned by root or similar.",
                );
                push_note(
                    &mut chown_notes,
                    "Note: this is R3 (privileged). The tool never runs sudo on its own; rerun it with elevated privileges to execute this.",
                );
                push_note(&mut chown_notes, "Next: run `brew cleanup` again.");
                let chown_plan = ActionPlan {
                    id: String::from_str("homebrew-cellar-permissions-chown"),
                    title,
                    risk_level: RiskLevel::R3,
                    estimated_reclaimed_bytes: 0,
                    related_findings: clone_strings(&action.related_findings),
                    kind: ActionKind::RunCmd { cmd: String::from_str("chown"), args: chown_args },
                    notes: chown_notes,
                };
                proof {
                    assert(chown_plan.title@ =~= "Repair Homebrew Cellar ownership (`sudo chown -R "@
                        + owner@ + "`) (R3)"@);
                    assert(views_of(chown_plan.notes@) =~= seq![
                        "Purpose: restore ownership so the paths can be cleaned up when they are owned by root or similar."@,
                        "Note: this is R3 (privileged). The tool never runs sudo on its own; rerun it with elevated privileges to execute this."@,
                        "Next: run `brew cleanup` again."@,
                    ]);
                }
                out.push(chown_plan);
            },
            None => {},
        }
    }
    out
}

/// The first repair plan, if any: the chmod repair.
pub fn suggest_allowlisted_run_cmd_repair_action(
    action: &ActionPlan,
    output: &CommandOutput,
    owner_candidates: &Vec<String>,
) -> (r: Option<ActionPlan>)
    ensures
        match r {
            Some(p) => suggests_chmod(*action, *output) && chmod_plan_spec(p, *action, *output),
            None => !suggests_chmod(*action, *output),
        },
{
    let mut repairs = suggest_allowlisted_run_cmd_repair_actions(action, output, owner_candidates);
    if repairs.len() == 0 {
        None
    } else {
        let first = repairs.remove(0);
        Some(first)
    }
}

/// Never `root` while something better is on offer: if any candidate is a
/// safe owner other than `root`, the picked owner exists and is not `root`.
pub proof fn lemma_owner_never_root_when_alternative(cands: Seq<Seq<char>>, k: int)
    requires
        0 <= k < cands.len(),
        safe_owner(cands[k]),
        cands[k] != "root"@,
    ensures
        pick_owner(cands) is Some,
        pick_owner(cands)->0 != "root"@,
        safe_owner(pick_owner(cands)->0),
{
    lemma_first_safe_nonroot_in_range(cands);
    lemma_first_safe_nonroot_exists(cands, k);
}

proof fn lemma_first_safe_nonroot_exists(cands: Seq<Seq<char>>, k: int)
    requires
        0 <= k < cands.len(),
        safe_owner(cands[k]),
        cands[k] != "root"@,
    ensures
        first_safe_nonroot(cands) >= 0,
    decreases k,
{
    if !(safe_owner(cands[0]) && cands[0] != "root"@) {
        lemma_first_safe_nonroot_exists(cands.drop_first(), k - 1);
    }
}

/// A synthesized chmod repair re-enters the command allowlist: it is
/// itself an allowlisted action, to be run only after its own
/// confirmation.
pub proof fn lemma_chmod_repair_is_allowlisted(p: ActionPlan, a: ActionPlan, o: CommandOutput)
    requires
        suggests_chmod(a, o),
        chmod_plan_spec(p, a, o),
    ensures
        crate::allowlist::allowlist_spec(p) is Some,
{
    broadcast use vstd::string::group_string_axioms;

    reveal_strlit("homebrew-cellar-permissions-chmod");
    reveal_strlit("coresimulator-simctl-delete-unavailable");
    reveal_strlit("docker-builder-prune");
    reveal_strlit("docker-system-prune");
    reveal_strlit("docker-storage-df");
    reveal_strlit("homebrew-cache-cleanup");
    reveal_strlit("npm-cache-cleanup");
    reveal_strlit("yarn-cache-cleanup");
    reveal_strlit("pnpm-store-prune");
    assert("homebrew-cellar-permissions-chmod"@.len() == 33);
    assert("coresimulator-simctl-delete-unavailable"@.len() == 39);
    assert("docker-builder-prune"@.len() == 20);
    assert("docker-system-prune"@.len() == 19);
    assert("docker-storage-df"@.len() == 17);
    assert("homebrew-cache-cleanup"@.len() == 22);
    assert("npm-cache-cleanup"@.len() == 17);
    assert("yarn-cache-cleanup"@.len() == 18);
    assert("pnpm-store-prune"@.len() == 16);
    let paths = brew_fix_paths_spec(o);
    match p.kind {
        ActionKind::RunCmd { cmd, args } => {
            assert(views_of(args@).len() == args@.len());
            assert(args@.len() == 2 + paths.len());
            assert(views_of(args@)[0] == args@[0]@);
            assert(views_of(args@)[1] == args@[1]@);
            assert((seq!["-R"@, "u+rwX"@] + paths)[0] == "-R"@);
            assert((seq!["-R"@, "u+rwX"@] + paths)[1] == "u+rwX"@);
            assert(args@[0]@ == "-R"@);
            assert(args@[1]@ == "u+rwX"@);
            assert forall|i: int| 2 <= i < args@.len() implies cellar_path(
                (#[trigger] args@[i])@,
            ) by {
                assert(views_of(args@)[i] == args@[i]@);
                assert(views_of(args@)[i] == paths[i - 2]);
            }
        },
        _ => {},
    }
}

/// So does a synthesized chown repair, under the owner that was picked.
pub proof fn lemma_chown_repair_is_allowlisted(
    p: ActionPlan,
    a: ActionPlan,
    o: CommandOutput,
    cands: Seq<Seq<char>>,
)
    requires
        suggests_chown(a, o, cands),
        chown_plan_spec(p, a, o, pick_owner(cands)->0),
    ensures
        crate::allowlist::allowlist_spec(p) is Some,
{
    broadcast use vstd::string::group_string_axioms;

    reveal_strlit("homebrew-cellar-permissions-chown");
    reveal_strlit("homebrew-cellar-permissions-chmod");
    reveal_strlit("coresimulator-simctl-delete-unavailable");
    reveal_strlit("docker-builder-prune");
    reveal_strlit("docker-system-prune");
    reveal_strlit("docker-storage-df");
    reveal_strlit("homebrew-cache-cleanup");
    reveal_strlit("npm-cache-cleanup");
    reveal_strlit("yarn-cache-cleanup");
    reveal_strlit("pnpm-store-prune");
    assert("homebrew-cellar-permissions-chown"@.len() == 33);
    assert("homebrew-cellar-permissions-chmod"@.len() == 33);
    assert("homebrew-cellar-permissions-chown"@[30] != "homebrew-cellar-permissions-chmod"@[30]);
    assert("coresimulator-simctl-delete-unavailable"@.len() == 39);
    assert("docker-builder-prune"@.len() == 20);
    assert("docker-system-prune"@.len() == 19);
    assert("docker-storage-df"@.len() == 17);
    assert("homebrew-cache-cleanup"@.len() == 22);
    assert("npm-cache-cleanup"@.len() == 17);
    assert("yarn-cache-cleanup"@.len() == 18);
    assert("pnpm-store-prune"@.len() == 16);
    let owner = pick_owner(cands)->0;
    lemma_first_safe_nonroot_in_range(cands);
    if first_safe_nonroot(cands) < 0 {
        lemma_root_is_safe();
    }
    assert(safe_owner(owner));
    let paths = brew_fix_paths_spec(o);
    match p.kind {
        ActionKind::RunCmd { cmd, args } => {
            assert(views_of(args@).len() == args@.len());
            assert(args@.len() == 2 + paths.len());
            assert(views_of(args@)[0] == args@[0]@);
            assert(views_of(args@)[1] == args@[1]@);
            assert((seq!["-R"@, owner] + paths)[0] == "-R"@);
            assert((seq!["-R"@, owner] + paths)[1] == owner);
            assert(args@[0]@ == "-R"@);
            assert(args@[1]@ == owner);
            assert forall|i: int| 2 <= i < args@.len() implies cellar_path(
                (#[trigger] args@[i])@,
            ) by {
                assert(views_of(args@)[i] == args@[i]@);
                assert(views_of(args@)[i] == paths[i - 2]);
            }
        },
        _ => {},
    }
}

/// An owner token with a `:` anywhere or a leading `-` is never safe.
pub proof fn lemma_unsafe_owner_rejected(s: Seq<char>)
    requires
        (exists|i: int| 0 <= i < s.len() && s[i] == ':') || (s.len() > 0 && s[0] == '-'),
    ensures
        !safe_owner(s),
{
}

} // verus!
