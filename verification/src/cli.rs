//! The command-line surface as plain data.  The executable shell parses
//! the real arguments and fills these records; everything the library
//! decides about them is decided on these values.

use vstd::prelude::*;
use crate::risk::RiskLevel;

verus! {

#[derive(Debug, Clone, PartialEq, Eq)]
pub struct Cli {
    pub json: bool,
    pub no_color: bool,
    pub verbose: bool,
    pub quiet: bool,
    pub config: Option<String>,
    pub timeout: u64,
    pub dry_run: bool,
    pub command: Commands,
}

#[derive(Debug, Clone, PartialEq, Eq)]
pub enum Commands {
    Doctor(DoctorArgs),
    Scan(ScanArgs),
    Snapshots(SnapshotsArgs),
    Fix(FixArgs),
    Report(ReportArgs),
    Ui(UiArgs),
    Completion(CompletionArgs),
    Config(ConfigArgs),
}

#[derive(Debug, Clone, Copy, PartialEq, Eq, Structural)]
pub struct DoctorArgs {
    pub top: usize,
}

#[derive(Debug, Clone, PartialEq, Eq)]
pub struct ScanArgs {
    pub scope: Option<String>,
    pub deep: bool,
    pub max_depth: Option<usize>,
    pub top_dirs: Option<usize>,
    pub exclude: Vec<String>,
}

#[derive(Debug, Clone, PartialEq, Eq)]
pub struct SnapshotsArgs {
    pub command: SnapshotsCommand,
}

#[derive(Debug, Clone, PartialEq, Eq)]
pub enum SnapshotsCommand {
    Status,
    Thin { bytes: u64, urgency: u8 },
    Delete { id: String },
}

#[derive(Debug, Clone, PartialEq, Eq)]
pub struct FixArgs {
    pub interactive: bool,
    pub apply: bool,
    pub risk: Option<RiskLevel>,
    pub target: Vec<String>,
}

#[derive(Debug, Clone, Copy, PartialEq, Eq, Structural)]
pub struct ReportArgs {
    pub markdown: bool,
    pub include_evidence: bool,
}

#[derive(Debug, Clone, Copy, PartialEq, Eq, Structural)]
pub struct UiArgs {
}

#[derive(Debug, Clone, PartialEq, Eq)]
pub struct CompletionArgs {
    pub shell: String,
}

#[derive(Debug, Clone, Copy, PartialEq, Eq, Structural)]
pub struct ConfigArgs {
    pub show: bool,
}

} // verus!
