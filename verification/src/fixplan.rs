//! Partitions a batch of proposed actions into what an apply run may
//! execute — low-risk trash moves and allowlisted commands — and what it
//! only previews, with a reason per skipped action.

use vstd::prelude::*;
use crate::action::{kind_name, action_kind_name, ActionKind, ActionPlan};
use crate::allowlist::{allowlist_spec, allowlisted_run_cmd};
use crate::risk::{risk_str, RiskLevel};
use crate::text::{
    lex_le, lemma_lex_le_order, str_le, views_of,
};

verus! {

/// The full command line: the command word, then each argument after one
/// space.
pub open spec fn cmdline(cmd: Seq<char>, args: Seq<Seq<char>>) -> Seq<char>
    decreases args.len(),
{
    if args.len() == 0 {
        cmd
    } else {
        cmdline(cmd, args.drop_last()) + " "@ + args[args.len() - 1]
    }
}

pub fn format_cmdline(cmd: &str, args: &Vec<String>) -> (r: String)
    ensures
        r@ == cmdline(cmd@, views_of(args@)),
{
    let mut out = cmd.to_owned();
    let mut i: usize = 0;
    proof {
        assert(views_of(args@).subrange(0, 0) =~= Seq::<Seq<char>>::empty());
    }
    while i < args.len()
        invariant
            i <= args@.len(),
            out@ == cmdline(cmd@, views_of(args@).subrange(0, i as int)),
        decreases args@.len() - i,
    {
        out.append(" ");
        out.append(args[i].as_str());
        proof {
            let pre = views_of(args@).subrange(0, i as int);
            let now = views_of(args@).subrange(0, i + 1);
            assert(now.drop_last() =~= pre);
            assert(now[now.len() - 1] == args@[i as int]@);
            assert(out@ =~= cmdline(cmd@, pre) + " "@ + args@[i as int]@);
        }
        i += 1;
    }
    proof {
        assert(views_of(args@).subrange(0, args@.len() as int) =~= views_of(args@));
    }
    out
}

/// An action an apply run may move to trash: reversible and at most R1.
pub open spec fn is_eligible_trash(a: ActionPlan) -> bool {
    a.kind is TrashMove && a.risk_level.rank() <= 1
}

/// An action an apply run may execute as a command: allowlisted.
pub open spec fn is_eligible_cmd(a: ActionPlan) -> bool {
    a.kind is RunCmd && allowlist_spec(a) is Some
}

/// Why an action was skipped, word for word.
pub open spec fn skip_reason(a: ActionPlan) -> Seq<char> {
    match a.kind {
        ActionKind::TrashMove { .. } => "only R1 TRASH_MOVE actions are applied (current: "@
            + risk_str(a.risk_level) + ")"@,
        ActionKind::RunCmd { cmd, args } => "RUN_CMD outside the allowlist is not run (proposal only): "@
            + cmdline(cmd@, views_of(args@)),
        _ => "not applied by this version ("@ + kind_name(a.kind) + ")"@,
    }
}

/// Executable order: more reclaimable bytes first, ties by id.
pub open spec fn plan_le(a: ActionPlan, b: ActionPlan) -> bool {
    a.estimated_reclaimed_bytes > b.estimated_reclaimed_bytes || (a.estimated_reclaimed_bytes
        == b.estimated_reclaimed_bytes && lex_le(a.id@, b.id@))
}

/// Skipped order: lower risk first, ties by id.
pub open spec fn skipped_le(a: FixApplySkippedAction, b: FixApplySkippedAction) -> bool {
    a.action.risk_level.rank() < b.action.risk_level.rank() || (a.action.risk_level.rank()
        == b.action.risk_level.rank() && lex_le(a.action.id@, b.action.id@))
}

proof fn lemma_plan_le_order(a: ActionPlan, b: ActionPlan, c: ActionPlan)
    ensures
        plan_le(a, b) || plan_le(b, a),
        plan_le(a, b) && plan_le(b, c) ==> plan_le(a, c),
{
    lemma_lex_le_order(a.id@, b.id@, c.id@);
    lemma_lex_le_order(b.id@, a.id@, c.id@);
}

proof fn lemma_skipped_le_order(a: FixApplySkippedAction, b: FixApplySkippedAction, c: FixApplySkippedAction)
    ensures
        skipped_le(a, b) || skipped_le(b, a),
        skipped_le(a, b) && skipped_le(b, c) ==> skipped_le(a, c),
{
    lemma_lex_le_order(a.action.id@, b.action.id@, c.action.id@);
    lemma_lex_le_order(b.action.id@, a.action.id@, c.action.id@);
}

fn plan_le_exec(a: &ActionPlan, b: &ActionPlan) -> (r: bool)
    ensures
        r == plan_le(*a, *b),
{
    a.estimated_reclaimed_bytes > b.estimated_reclaimed_bytes || (a.estimated_reclaimed_bytes
        == b.estimated_reclaimed_bytes && str_le(a.id.as_str(), b.id.as_str()))
}

fn skipped_le_exec(a: &FixApplySkippedAction, b: &FixApplySkippedAction) -> (r: bool)
    ensures
        r == skipped_le(*a, *b),
{
    let ra = a.action.risk_level.rank_u8();
    let rb = b.action.risk_level.rank_u8();
    ra < rb || (ra == rb && str_le(a.action.id.as_str(), b.action.id.as_str()))
}

proof fn lemma_seq_insert_to_multiset<A>(s: Seq<A>, i: int, a: A)
    requires
        0 <= i <= s.len(),
    ensures
        s.insert(i, a).to_multiset() =~= s.to_multiset().insert(a),
{
    broadcast use vstd::seq_lib::group_seq_properties;

    let s1 = s.subrange(0, i);
    let s2 = s.subrange(i, s.len() as int);
    vstd::seq_lib::lemma_multiset_commutative(s1.push(a), s2);
    vstd::seq_lib::lemma_multiset_commutative(s1, s2);
    s1.to_multiset_ensures();
    assert(s =~= s1 + s2);
}

fn insert_plan_sorted(out: &mut Vec<ActionPlan>, x: ActionPlan)
    requires
        forall|p: int, q: int| 0 <= p < q < old(out)@.len() ==> plan_le(
            #[trigger] old(out)@[p],
            #[trigger] old(out)@[q],
        ),
    ensures
        final(out)@.to_multiset() == old(out)@.to_multiset().insert(x),
        forall|p: int, q: int| 0 <= p < q < final(out)@.len() ==> plan_le(
            #[trigger] final(out)@[p],
            #[trigger] final(out)@[q],
        ),
{
    let ghost x0 = x;
    let mut j: usize = 0;
    while j < out.len() && plan_le_exec(&out[j], &x)
        invariant
            j <= out@.len(),
            x == x0,
            forall|k: int| 0 <= k < j ==> plan_le(#[trigger] out@[k], x),
        decreases out@.len() - j,
    {
        j += 1;
    }
    proof {
        if (j as int) < out@.len() {
            assert(!plan_le(out@[j as int], x0));
        }
    }
    let ghost pre = out@;
    out.insert(j, x);
    proof {
        lemma_seq_insert_to_multiset(pre, j as int, x0);
        assert forall|p: int, q: int| 0 <= p < q < out@.len() implies plan_le(
            #[trigger] out@[p],
            #[trigger] out@[q],
        ) by {
            let jj = j as int;
            if q < jj {
                assert(out@[p] == pre[p] && out@[q] == pre[q]);
            } else if p < jj && q == jj {
                assert(out@[p] == pre[p]);
            } else if p < jj && q > jj {
                assert(out@[p] == pre[p] && out@[q] == pre[q - 1]);
                if q - 1 == p {
                    lemma_plan_le_order(pre[p], x0, pre[q - 1]);
                } else {
                    assert(plan_le(pre[p], pre[q - 1]));
                }
            } else if p == jj && q > jj {
                assert(out@[q] == pre[q - 1]);
                lemma_plan_le_order(x0, pre[jj], pre[q - 1]);
                if q - 1 > jj {
                    assert(plan_le(pre[jj], pre[q - 1]));
                    lemma_plan_le_order(x0, pre[jj], pre[q - 1]);
                }
            } else {
                assert(out@[p] == pre[p - 1] && out@[q] == pre[q - 1]);
            }
        }
    }
}

fn insert_skipped_sorted(out: &mut Vec<FixApplySkippedAction>, x: FixApplySkippedAction)
    requires
        forall|p: int, q: int| 0 <= p < q < old(out)@.len() ==> skipped_le(
            #[trigger] old(out)@[p],
            #[trigger] old(out)@[q],
        ),
    ensures
        final(out)@.to_multiset() == old(out)@.to_multiset().insert(x),
        final(out)@.map_values(|s: FixApplySkippedAction| s.action).to_multiset() == old(
            out,
        )@.map_values(|s: FixApplySkippedAction| s.action).to_multiset().insert(x.action),
        forall|j: int| 0 <= j < final(out)@.len() ==> (#[trigger] final(out)@[j]) == x || old(
            out,
        )@.contains(final(out)@[j]),
        forall|p: int, q: int| 0 <= p < q < final(out)@.len() ==> skipped_le(
            #[trigger] final(out)@[p],
            #[trigger] final(out)@[q],
        ),
{
    let ghost x0 = x;
    let mut j: usize = 0;
    while j < out.len() && skipped_le_exec(&out[j], &x)
        invariant
            j <= out@.len(),
            x == x0,
            forall|k: int| 0 <= k < j ==> skipped_le(#[trigger] out@[k], x),
        decreases out@.len() - j,
    {
        j += 1;
    }
    proof {
        if (j as int) < out@.len() {
            assert(!skipped_le(out@[j as int], x0));
        }
    }
    let ghost pre = out@;
    out.insert(j, x);
    proof {
        lemma_seq_insert_to_multiset(pre, j as int, x0);
        let f = |s: FixApplySkippedAction| s.action;
        assert(out@.map_values(f) =~= pre.map_values(f).insert(j as int, x0.action));
        lemma_seq_insert_to_multiset(pre.map_values(f), j as int, x0.action);
        assert forall|jj: int| 0 <= jj < out@.len() implies (#[trigger] out@[jj]) == x0
            || pre.contains(out@[jj]) by {
            if jj < j {
                assert(out@[jj] == pre[jj]);
            } else if jj > j {
                assert(out@[jj] == pre[jj - 1]);
            }
        }
        assert forall|p: int, q: int| 0 <= p < q < out@.len() implies skipped_le(
            #[trigger] out@[p],
            #[trigger] out@[q],
        ) by {
            let jj = j as int;
            if q < jj {
                assert(out@[p] == pre[p] && out@[q] == pre[q]);
            } else if p < jj && q == jj {
                assert(out@[p] == pre[p]);
            } else if p < jj && q > jj {
                assert(out@[p] == pre[p] && out@[q] == pre[q - 1]);
                if q - 1 == p {
                    lemma_skipped_le_order(pre[p], x0, pre[q - 1]);
                } else {
                    assert(skipped_le(pre[p], pre[q - 1]));
                }
            } else if p == jj && q > jj {
                assert(out@[q] == pre[q - 1]);
                lemma_skipped_le_order(x0, pre[jj], pre[q - 1]);
                if q - 1 > jj {
                    assert(skipped_le(pre[jj], pre[q - 1]));
                    lemma_skipped_le_order(x0, pre[jj], pre[q - 1]);
                }
            } else {
                assert(out@[p] == pre[p - 1] && out@[q] == pre[q - 1]);
            }
        }
    }
}

/// What an apply run does with each proposed action.
#[derive(Debug, Clone, PartialEq, Eq)]
pub struct FixApplyPartition {
    pub trash_actions: Vec<ActionPlan>,
    pub allowlisted_run_cmd_actions: Vec<ActionPlan>,
    pub skipped_actions: Vec<FixApplySkippedAction>,
}

#[derive(Debug, Clone, PartialEq, Eq)]
pub struct FixApplySkippedAction {
    pub action: ActionPlan,
    pub reason: String,
}

/// Splits the batch into executable trash moves (reversible, at most R1),
/// executable allowlisted commands, and skipped previews, each list
/// sorted for display and together holding every input action exactly
/// once.
pub fn partition_fix_apply_actions(actions: Vec<ActionPlan>) -> (r: FixApplyPartition)
    ensures
        r.trash_actions@.to_multiset() == actions@.filter(
            |a: ActionPlan| is_eligible_trash(a),
        ).to_multiset(),
        r.allowlisted_run_cmd_actions@.to_multiset() == actions@.filter(
            |a: ActionPlan| is_eligible_cmd(a),
        ).to_multiset(),
        r.skipped_actions@.map_values(|s: FixApplySkippedAction| s.action).to_multiset()
            == actions@.filter(
            |a: ActionPlan| !is_eligible_trash(a) && !is_eligible_cmd(a),
        ).to_multiset(),
        forall|j: int| 0 <= j < r.skipped_actions@.len()
            ==> (#[trigger] r.skipped_actions@[j]).reason@ == skip_reason(
            r.skipped_actions@[j].action,
        ) && !is_eligible_trash(r.skipped_actions@[j].action) && !is_eligible_cmd(
            r.skipped_actions@[j].action,
        ),
        forall|p: int, q: int| 0 <= p < q < r.trash_actions@.len() ==> plan_le(
            #[trigger] r.trash_actions@[p],
            #[trigger] r.trash_actions@[q],
        ),
        forall|p: int, q: int| 0 <= p < q < r.allowlisted_run_cmd_actions@.len() ==> plan_le(
            #[trigger] r.allowlisted_run_cmd_actions@[p],
            #[trigger] r.allowlisted_run_cmd_actions@[q],
        ),
        forall|p: int, q: int| 0 <= p < q < r.skipped_actions@.len() ==> skipped_le(
            #[trigger] r.skipped_actions@[p],
            #[trigger] r.skipped_actions@[q],
        ),
{
    broadcast use vstd::seq_lib::group_seq_properties;

    let ghost orig = actions@;
    let ghost tpred = |a: ActionPlan| is_eligible_trash(a);
    let ghost cpred = |a: ActionPlan| is_eligible_cmd(a);
    let ghost spred = |a: ActionPlan| !is_eligible_trash(a) && !is_eligible_cmd(a);
    let mut rest = actions;
    let mut trash: Vec<ActionPlan> = Vec::new();
    let mut cmds: Vec<ActionPlan> = Vec::new();
    let mut skipped: Vec<FixApplySkippedAction> = Vec::new();
    proof {
        assert(orig.subrange(0, 0) =~= Seq::<ActionPlan>::empty());
        reveal(Seq::filter);
    }
    let ghost mut i: int = 0;
    while rest.len() > 0
        invariant
            0 <= i <= orig.len(),
            rest@ =~= orig.subrange(i, orig.len() as int),
            trash@.to_multiset() == orig.subrange(0, i).filter(tpred).to_multiset(),
            cmds@.to_multiset() == orig.subrange(0, i).filter(cpred).to_multiset(),
            skipped@.map_values(|s: FixApplySkippedAction| s.action).to_multiset()
                == orig.subrange(0, i).filter(spred).to_multiset(),
            tpred == |a: ActionPlan| is_eligible_trash(a),
            cpred == |a: ActionPlan| is_eligible_cmd(a),
            spred == |a: ActionPlan| !is_eligible_trash(a) && !is_eligible_cmd(a),
            forall|j: int| 0 <= j < skipped@.len() ==> (#[trigger] skipped@[j]).reason@
                == skip_reason(skipped@[j].action) && !is_eligible_trash(skipped@[j].action)
                && !is_eligible_cmd(skipped@[j].action),
            forall|p: int, q: int| 0 <= p < q < trash@.len() ==> plan_le(
                #[trigger] trash@[p],
                #[trigger] trash@[q],
            ),
            forall|p: int, q: int| 0 <= p < q < cmds@.len() ==> plan_le(
                #[trigger] cmds@[p],
                #[trigger] cmds@[q],
            ),
            forall|p: int, q: int| 0 <= p < q < skipped@.len() ==> skipped_le(
                #[trigger] skipped@[p],
                #[trigger] skipped@[q],
            ),
        decreases rest@.len(),
    {
        let a = rest.remove(0);
        proof {
            assert(a == orig[i]);
            assert(rest@ =~= orig.subrange(i + 1, orig.len() as int));
            reveal(Seq::filter);
            let pre = orig.subrange(0, i);
            let now = orig.subrange(0, i + 1);
            assert(now.drop_last() =~= pre);
            assert(now[now.len() - 1] == orig[i]);
            assert(now.filter(tpred) == if tpred(orig[i]) {
                pre.filter(tpred).push(orig[i])
            } else {
                pre.filter(tpred)
            });
            assert(now.filter(cpred) == if cpred(orig[i]) {
                pre.filter(cpred).push(orig[i])
            } else {
                pre.filter(cpred)
            });
            assert(now.filter(spred) == if spred(orig[i]) {
                pre.filter(spred).push(orig[i])
            } else {
                pre.filter(spred)
            });
            pre.filter(tpred).to_multiset_ensures();
            pre.filter(cpred).to_multiset_ensures();
            pre.filter(spred).to_multiset_ensures();
        }
        let et = match &a.kind {
            ActionKind::TrashMove { .. } => a.risk_level.le(RiskLevel::R1),
            _ => false,
        };
        let ec = match &a.kind {
            ActionKind::RunCmd { .. } => allowlisted_run_cmd(&a).is_some(),
            _ => false,
        };
        proof {
            assert(et == is_eligible_trash(a));
            assert(ec == is_eligible_cmd(a));
        }
        if et {
            insert_plan_sorted(&mut trash, a);
        } else if ec {
            insert_plan_sorted(&mut cmds, a);
        } else {
            let reason = match &a.kind {
                ActionKind::TrashMove { .. } => {
                    let mut m = String::from_str(
                        "only R1 TRASH_MOVE actions are applied (current: ",
                    );
                    m.append(a.risk_level.as_str());
                    m.append(")");
                    proof {
                        assert(m@ =~= skip_reason(a));
                    }
                    m
                },
                ActionKind::RunCmd { cmd, args } => {
                    let mut m = String::from_str(
                        "RUN_CMD outside the allowlist is not run (proposal only): ",
                    );
                    let line = format_cmdline(cmd.as_str(), args);
                    m.append(line.as_str());
                    proof {
                        assert(m@ =~= skip_reason(a));
                    }
                    m
                },
                other => {
                    let mut m = String::from_str("not applied by this version (");
                    m.append(action_kind_name(other));
                    m.append(")");
                    proof {
                        assert(m@ =~= skip_reason(a));
                    }
                    m
                },
            };
            let ghost pre_sk = skipped@;
            let entry = FixApplySkippedAction { action: a, reason };
            insert_skipped_sorted(&mut skipped, entry);
            proof {
                assert forall|j: int| 0 <= j < skipped@.len() implies (#[trigger] skipped@[j]).reason@
                    == skip_reason(skipped@[j].action) && !is_eligible_trash(skipped@[j].action)
                    && !is_eligible_cmd(skipped@[j].action) by {
                    if skipped@[j] != entry {
                        assert(pre_sk.contains(skipped@[j]));
                        let k = choose|k: int| 0 <= k < pre_sk.len() && pre_sk[k] == skipped@[j];
                        assert(pre_sk[k].reason@ == skip_reason(pre_sk[k].action));
                    }
                }
            }
        }
        proof {
            i = i + 1;
        }
    }
    proof {
        assert(orig.subrange(0, orig.len() as int) =~= orig);
    }
    FixApplyPartition {
        trash_actions: trash,
        allowlisted_run_cmd_actions: cmds,
        skipped_actions: skipped,
    }
}

} // verus!
