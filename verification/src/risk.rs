//! The ordered risk classification every action carries.

use vstd::prelude::*;

verus! {

/// Blast-radius classification, totally ordered from informational (`R0`)
/// to privileged or hard to reverse (`R3`).
#[derive(Clone, Copy, Debug, PartialEq, Eq, Hash, Structural)]
pub enum RiskLevel {
    R0,
    R1,
    R2,
    R3,
}

impl RiskLevel {
    /// Position in the order `R0 < R1 < R2 < R3`.
    pub open spec fn rank(self) -> int {
        match self {
            RiskLevel::R0 => 0,
            RiskLevel::R1 => 1,
            RiskLevel::R2 => 2,
            RiskLevel::R3 => 3,
        }
    }

    /// Exec counterpart of [`RiskLevel::rank`].
    pub fn rank_u8(self) -> (r: u8)
        ensures
            r as int == self.rank(),
    {
        match self {
            RiskLevel::R0 => 0,
            RiskLevel::R1 => 1,
            RiskLevel::R2 => 2,
            RiskLevel::R3 => 3,
        }
    }

    /// `self` is at most `other` in the risk order.
    pub fn le(self, other: RiskLevel) -> (r: bool)
        ensures
            r == (self.rank() <= other.rank()),
    {
        self.rank_u8() <= other.rank_u8()
    }

    pub fn as_str(self) -> (r: &'static str)
        ensures
            r@ == risk_str(self),
    {
        match self {
            RiskLevel::R0 => "R0",
            RiskLevel::R1 => "R1",
            RiskLevel::R2 => "R2",
            RiskLevel::R3 => "R3",
        }
    }
}

/// The view of a risk level in contracts that build text.
pub open spec fn risk_str(r: RiskLevel) -> Seq<char> {
    match r {
        RiskLevel::R0 => "R0"@,
        RiskLevel::R1 => "R1"@,
        RiskLevel::R2 => "R2"@,
        RiskLevel::R3 => "R3"@,
    }
}

} // verus!
