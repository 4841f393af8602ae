//! The closed vocabulary of actions the engine may be asked to run.

use vstd::prelude::*;
use crate::risk::RiskLevel;

verus! {

/// Back-reference to the finding that proposed an action.
#[derive(Debug, Clone, PartialEq, Eq)]
pub struct ActionRef {
    pub id: String,
}

/// The five mutually exclusive ways an action can touch the system.  The
/// variant alone decides which execution path may ever handle the action;
/// intent is never inferred from titles or notes.
#[derive(Debug, Clone, PartialEq, Eq)]
pub enum ActionKind {
    /// Reversible move of the listed paths into the trash directory.
    TrashMove { paths: Vec<String> },
    /// Irreversible deletion — always rejected by this version.
    Delete { paths: Vec<String> },
    /// An allowlisted subprocess invocation.
    RunCmd { cmd: String, args: Vec<String> },
    /// Reveal a path in the file browser; no mutation.
    OpenInFinder { path: String },
    /// Show guidance text; no mutation.
    ShowInstructions { markdown: String },
}

/// The unit of work the safety engine validates, confirms and executes.
#[derive(Debug, Clone, PartialEq, Eq)]
pub struct ActionPlan {
    pub id: String,
    pub title: String,
    pub risk_level: RiskLevel,
    pub estimated_reclaimed_bytes: u64,
    pub related_findings: Vec<String>,
    pub kind: ActionKind,
    pub notes: Vec<String>,
}

/// The stable name of each action kind.
pub open spec fn kind_name(k: ActionKind) -> Seq<char> {
    match k {
        ActionKind::TrashMove { .. } => "TRASH_MOVE"@,
        ActionKind::Delete { .. } => "DELETE"@,
        ActionKind::RunCmd { .. } => "RUN_CMD"@,
        ActionKind::OpenInFinder { .. } => "OPEN_IN_FINDER"@,
        ActionKind::ShowInstructions { .. } => "SHOW_INSTRUCTIONS"@,
    }
}

pub fn action_kind_name(kind: &ActionKind) -> (r: &'static str)
    ensures
        r@ == kind_name(*kind),
{
    match kind {
        ActionKind::TrashMove { .. } => "TRASH_MOVE",
        ActionKind::Delete { .. } => "DELETE",
        ActionKind::RunCmd { .. } => "RUN_CMD",
        ActionKind::OpenInFinder { .. } => "OPEN_IN_FINDER",
        ActionKind::ShowInstructions { .. } => "SHOW_INSTRUCTIONS",
    }
}

/// Builds a guidance-only action: it shows text and mutates nothing.
pub fn show_instructions_action(
    id: &str,
    title: &str,
    risk_level: crate::risk::RiskLevel,
    related_findings: Vec<String>,
    markdown: &str,
) -> (r: ActionPlan)
    ensures
        r.id@ == id@,
        r.title@ == title@,
        r.risk_level == risk_level,
        r.estimated_reclaimed_bytes == 0,
        r.related_findings == related_findings,
        r.kind matches ActionKind::ShowInstructions { markdown: m } && m@ == markdown@,
        r.notes@.len() == 0,
{
    ActionPlan {
        id: id.to_owned(),
        title: title.to_owned(),
        risk_level,
        estimated_reclaimed_bytes: 0,
        related_findings,
        kind: ActionKind::ShowInstructions { markdown: markdown.to_owned() },
        notes: Vec::new(),
    }
}

} // verus!
