//! Evidence records attached to findings, kept loggable as plain text.

use vstd::prelude::*;

verus! {

#[derive(Debug, Clone, PartialEq, Eq, Structural)]
pub enum EvidenceKind {
    Path,
    Command,
    Stat,
}

#[derive(Debug, Clone, PartialEq, Eq)]
pub struct Evidence {
    pub kind: EvidenceKind,
    pub value: String,
    pub masked: bool,
}

impl Evidence {
    pub fn path(value: String, masked: bool) -> (r: Self)
        ensures
            r.kind == EvidenceKind::Path,
            r.value@ == value@,
            r.masked == masked,
    {
        Evidence { kind: EvidenceKind::Path, value, masked }
    }

    pub fn command(value: String) -> (r: Self)
        ensures
            r.kind == EvidenceKind::Command,
            r.value@ == value@,
            !r.masked,
    {
        Evidence { kind: EvidenceKind::Command, value, masked: false }
    }

    pub fn stat(value: String) -> (r: Self)
        ensures
            r.kind == EvidenceKind::Stat,
            r.value@ == value@,
            !r.masked,
    {
        Evidence { kind: EvidenceKind::Stat, value, masked: false }
    }
}

/// The stable name of each evidence kind.
pub open spec fn evidence_kind_str(k: EvidenceKind) -> Seq<char> {
    match k {
        EvidenceKind::Path => "path"@,
        EvidenceKind::Command => "command"@,
        EvidenceKind::Stat => "stat"@,
    }
}

pub fn evidence_kind_name(kind: &EvidenceKind) -> (r: &'static str)
    ensures
        r@ == evidence_kind_str(*kind),
{
    match kind {
        EvidenceKind::Path => "path",
        EvidenceKind::Command => "command",
        EvidenceKind::Stat => "stat",
    }
}

} // verus!
