//! Summary records a report is assembled from.

use vstd::prelude::*;

verus! {

#[derive(Debug, Clone, PartialEq, Eq)]
pub struct OsInfo {
    pub name: String,
    pub version: String,
}

#[derive(Debug, Clone, PartialEq, Eq)]
pub struct ReportSummary {
    pub estimated_total_bytes: u64,
    pub unobserved_bytes: u64,
    pub notes: Vec<String>,
}

} // verus!
