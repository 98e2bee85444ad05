//! The lifecycle phases and the parameters of each.

use vstd::prelude::*;
use crate::ratio::Ratio;

verus! {

/// The phase of the commons. It moves Hatch, then Open, then Closed, and
/// never back.
#[derive(Clone, Copy, Debug, PartialEq, Eq, Structural)]
pub enum CommonsPhase {
    Hatch,
    Open,
    Closed,
}

/// The position of a phase in the lifecycle.
pub open spec fn phase_rank(p: CommonsPhase) -> nat {
    match p {
        CommonsPhase::Hatch => 0,
        CommonsPhase::Open => 1,
        CommonsPhase::Closed => 2,
    }
}

/// A move from `from` to `to` keeps to the lifecycle's order.
pub open spec fn phase_advances(from: CommonsPhase, to: CommonsPhase) -> bool {
    phase_rank(from) <= phase_rank(to)
}

/// Over any run of operations, each of which keeps to the lifecycle's
/// order, the phase keeps to it too: a Closed commons stays Closed, and an
/// Open one never returns to the Hatch.
pub proof fn lemma_phase_never_reverts(a: CommonsPhase, b: CommonsPhase, c: CommonsPhase)
    requires
        phase_advances(a, b),
        phase_advances(b, c),
    ensures
        phase_advances(a, c),
        a == CommonsPhase::Closed ==> b == CommonsPhase::Closed && c == CommonsPhase::Closed,
        a == CommonsPhase::Open ==> b != CommonsPhase::Hatch && c != CommonsPhase::Hatch,
{
}

/// Along a run of phases in which each step keeps to the lifecycle's
/// order (as every operation of the commons does), any later phase ranks
/// at least as high as any earlier one, and once Closed the run stays
/// Closed.
pub proof fn lemma_phase_run(run: Seq<CommonsPhase>, i: int, j: int)
    requires
        forall|n: int| 0 <= n < run.len() - 1 ==> phase_advances(#[trigger] run[n], run[n + 1]),
        0 <= i <= j < run.len(),
    ensures
        phase_advances(run[i], run[j]),
        run[i] == CommonsPhase::Closed ==> run[j] == CommonsPhase::Closed,
    decreases j - i,
{
    if i < j {
        lemma_phase_run(run, i, j - 1);
        assert(phase_advances(run[j - 1], run[j]));
    }
}

/// A closed range of amounts.
#[derive(Clone, Copy, Debug, PartialEq, Eq, Structural)]
pub struct MinMax {
    pub min: u128,
    pub max: u128,
}

impl MinMax {
    pub open spec fn wf(self) -> bool {
        self.min <= self.max
    }

    /// Whether `amount` lies in `[min, max]`.
    pub fn contains(&self, amount: u128) -> (b: bool)
        ensures
            b == (self.min <= amount && amount <= self.max),
    {
        self.min <= amount && amount <= self.max
    }
}

/// The rules of the Hatch phase.
#[derive(Clone, Copy, Debug, PartialEq, Eq, Structural)]
pub struct HatchConfig {
    /// The bounds on a single contribution.
    pub contribution_limits: MinMax,
    /// The raise that ends the Hatch once reached (`max`).
    pub initial_raise: MinMax,
    /// The share of each contribution that goes to the funding pool.
    pub initial_allocation_ratio: Ratio,
    /// The share of each sale's proceeds that goes to the funding pool.
    pub exit_tax: Ratio,
}

/// The rules of the Open phase.
#[derive(Clone, Copy, Debug, PartialEq, Eq, Structural)]
pub struct OpenConfig {
    /// The share of each purchase that goes to the funding pool.
    pub allocation_percentage: Ratio,
    /// The share of each sale's proceeds that goes to the funding pool.
    pub exit_tax: Ratio,
}

/// The Closed phase has no parameters.
#[derive(Clone, Copy, Debug, PartialEq, Eq, Structural)]
pub struct ClosedConfig {}

/// The parameters of every phase.
#[derive(Clone, Copy, Debug, PartialEq, Eq, Structural)]
pub struct CommonsPhaseConfig {
    pub hatch: HatchConfig,
    pub open: OpenConfig,
    pub closed: ClosedConfig,
}

impl CommonsPhaseConfig {
    /// Every ratio lies in `[0, 1]` and every range is ordered.
    pub open spec fn wf(self) -> bool {
        &&& self.hatch.contribution_limits.wf()
        &&& self.hatch.initial_raise.wf()
        &&& self.hatch.initial_allocation_ratio.wf()
        &&& self.hatch.exit_tax.wf()
        &&& self.open.allocation_percentage.wf()
        &&& self.open.exit_tax.wf()
    }

    pub fn validate(&self) -> (b: bool)
        ensures
            b == self.wf(),
    {
        self.hatch.contribution_limits.min <= self.hatch.contribution_limits.max
            && self.hatch.initial_raise.min <= self.hatch.initial_raise.max
            && self.hatch.initial_allocation_ratio.is_valid() && self.hatch.exit_tax.is_valid()
            && self.open.allocation_percentage.is_valid() && self.open.exit_tax.is_valid()
    }
}

} // verus!
