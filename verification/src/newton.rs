//! Control of the Newton-Raphson iteration of the DC solver.
//!
//! Each iteration stamps the circuit around the previous iterate, solves the
//! linear system and checks the new iterate against the previous one. What
//! follows from the verdict of that check is decided here.

use vstd::prelude::*;
use crate::analysis::{Kind, Statistics};
use crate::engine::{ConvergenceError, ConvergenceResult};
use crate::scalar::Scalar;

verus! {

/// State of the DC solver.
#[derive(Clone, Copy, Debug, PartialEq, Eq, Structural)]
pub enum DcState {
    /// So many solves were made, fewer than the cap allows, and none has
    /// settled the matter.
    Iterating(usize),
    /// The iterates agree within tolerance.
    Converged { iterations: usize },
    /// An unknown stopped being a finite number, or the iteration cap was
    /// reached.
    Divergent { iterations: usize },
}

impl DcState {
    /// The solver has stopped.
    pub open spec fn terminal(self) -> bool {
        !(self is Iterating)
    }

    /// Number of solves made.
    pub open spec fn solves(self) -> int {
        match self {
            DcState::Iterating(k) => k as int,
            DcState::Converged { iterations } => iterations as int,
            DcState::Divergent { iterations } => iterations as int,
        }
    }

    /// The state after one more solve whose iterate was judged `verdict`,
    /// under the iteration cap `itl1`. A stopped solver stays as it is.
    pub open spec fn after(self, itl1: usize, verdict: ConvergenceResult) -> DcState {
        match self {
            DcState::Iterating(k) => match verdict {
                Ok(true) => DcState::Converged { iterations: (k + 1) as usize },
                Ok(false) => if k + 1 < itl1 {
                    DcState::Iterating((k + 1) as usize)
                } else {
                    DcState::Divergent { iterations: (k + 1) as usize }
                },
                Err(_) => DcState::Divergent { iterations: (k + 1) as usize },
            },
            _ => self,
        }
    }

    /// The state after a sequence of verdicts.
    pub open spec fn after_all(self, itl1: usize, verdicts: Seq<ConvergenceResult>) -> DcState
        decreases verdicts.len(),
    {
        if verdicts.len() == 0 {
            self
        } else {
            self.after_all(itl1, verdicts.drop_last()).after(itl1, verdicts.last())
        }
    }

    /// The state before the first solve.
    pub fn begin() -> (s: DcState)
        ensures
            s == DcState::Iterating(0),
    {
        DcState::Iterating(0)
    }

    /// The solver has stopped.
    pub fn is_terminal(&self) -> (b: bool)
        ensures
            b == self.terminal(),
    {
        match self {
            DcState::Iterating(_) => false,
            _ => true,
        }
    }

    /// Takes in the verdict on the iterate of one more solve.
    ///
    /// A converged iterate ends the solve with success, a diverged one with
    /// failure. An iterate that has not converged asks for another solve,
    /// unless `itl1` solves were made, which ends the solve with failure.
    /// The first solve is made whatever the cap.
    pub fn next(self, itl1: usize, verdict: ConvergenceResult) -> (s: DcState)
        requires
            self.solves() < usize::MAX,
        ensures
            s == self.after(itl1, verdict),
    {
        match self {
            DcState::Iterating(k) => match verdict {
                Ok(true) => DcState::Converged { iterations: k + 1 },
                Ok(false) => if k + 1 < itl1 {
                    DcState::Iterating(k + 1)
                } else {
                    DcState::Divergent { iterations: k + 1 }
                },
                Err(_) => DcState::Divergent { iterations: k + 1 },
            },
            _ => self,
        }
    }

    /// The summary of the solve so far.
    pub fn statistics(&self) -> (stats: Statistics)
        ensures
            stats == (Statistics {
                kind: Kind::DcOperatingPoint,
                end: Scalar { bits: 0 },
                iterations: self.solves() as usize,
                converged: self is Converged,
            }),
    {
        match self {
            DcState::Iterating(k) => Statistics {
                kind: Kind::DcOperatingPoint,
                end: Scalar { bits: 0 },
                iterations: *k,
                converged: false,
            },
            DcState::Converged { iterations } => Statistics {
                kind: Kind::DcOperatingPoint,
                end: Scalar { bits: 0 },
                iterations: *iterations,
                converged: true,
            },
            DcState::Divergent { iterations } => Statistics {
                kind: Kind::DcOperatingPoint,
                end: Scalar { bits: 0 },
                iterations: *iterations,
                converged: false,
            },
        }
    }
}

/// The most solves that a cap allows: the cap, but one solve at the least.
pub open spec fn most_solves(itl1: usize) -> int {
    if itl1 >= 1 {
        itl1 as int
    } else {
        1
    }
}

/// While the solver iterates it has made as many solves as verdicts came
/// in, and fewer than the cap allows.
proof fn lemma_counts(itl1: usize, verdicts: Seq<ConvergenceResult>)
    ensures
        ({
            let s = DcState::Iterating(0).after_all(itl1, verdicts);
            &&& s is Iterating ==> s.solves() == verdicts.len() && (s.solves() == 0 || s.solves()
                < itl1)
            &&& s.solves() <= verdicts.len()
            &&& s.solves() <= most_solves(itl1)
            &&& s.terminal() ==> s.solves() >= 1
        }),
    decreases verdicts.len(),
{
    if verdicts.len() > 0 {
        lemma_counts(itl1, verdicts.drop_last());
    }
}

/// The DC solve stops on reaching the iteration cap: once as many verdicts
/// came in as the cap allows solves, whatever they are, the solver has
/// stopped, having made at least one solve and at most that many.
pub proof fn lemma_dc_stops(itl1: usize, verdicts: Seq<ConvergenceResult>)
    requires
        verdicts.len() >= most_solves(itl1),
    ensures
        DcState::Iterating(0).after_all(itl1, verdicts).terminal(),
        1 <= DcState::Iterating(0).after_all(itl1, verdicts).solves() <= most_solves(itl1),
{
    lemma_counts(itl1, verdicts);
}

/// A DC solve that never converges and never diverges ends as divergent
/// after exactly as many solves as the cap allows.
pub proof fn lemma_dc_gives_up_at_the_cap(itl1: usize, verdicts: Seq<ConvergenceResult>)
    requires
        verdicts.len() == most_solves(itl1),
        forall|i: int|
            0 <= i < verdicts.len() ==> (#[trigger] verdicts[i]) == Ok::<bool, ConvergenceError>(
                false,
            ),
    ensures
        DcState::Iterating(0).after_all(itl1, verdicts) == (DcState::Divergent {
            iterations: most_solves(itl1) as usize,
        }),
{
    let head = verdicts.drop_last();
    assert forall|i: int| 0 <= i < head.len() implies (#[trigger] head[i]) == Ok::<
        bool,
        ConvergenceError,
    >(false) by {
        assert(head[i] == verdicts[i]);
    }
    lemma_all_unsettled(itl1, head);
}

/// The DC solve ends in convergence exactly on the first verdict of
/// convergence, provided nothing stopped it before: if the first `k`
/// verdicts are "not yet", with `k + 1` solves within the cap, and the next
/// one is "converged", the solver ends converged after `k + 1` solves.
pub proof fn lemma_dc_converges(itl1: usize, verdicts: Seq<ConvergenceResult>)
    requires
        1 <= verdicts.len() <= most_solves(itl1),
        forall|i: int|
            0 <= i < verdicts.len() - 1 ==> (#[trigger] verdicts[i]) == Ok::<
                bool,
                ConvergenceError,
            >(false),
        verdicts.last() == Ok::<bool, ConvergenceError>(true),
    ensures
        DcState::Iterating(0).after_all(itl1, verdicts) == (DcState::Converged {
            iterations: verdicts.len() as usize,
        }),
{
    let head = verdicts.drop_last();
    assert forall|i: int| 0 <= i < head.len() implies (#[trigger] head[i]) == Ok::<
        bool,
        ConvergenceError,
    >(false) by {
        assert(head[i] == verdicts[i]);
    }
    lemma_all_unsettled(itl1, head);
}

/// As long as the verdicts are "not yet" and the cap is not reached, the
/// solver keeps iterating.
proof fn lemma_all_unsettled(itl1: usize, verdicts: Seq<ConvergenceResult>)
    requires
        verdicts.len() == 0 || verdicts.len() < itl1,
        forall|i: int|
            0 <= i < verdicts.len() ==> (#[trigger] verdicts[i]) == Ok::<bool, ConvergenceError>(
                false,
            ),
    ensures
        DcState::Iterating(0).after_all(itl1, verdicts) == DcState::Iterating(
            verdicts.len() as usize,
        ),
    decreases verdicts.len(),
{
    if verdicts.len() > 0 {
        let head = verdicts.drop_last();
        assert forall|i: int| 0 <= i < head.len() implies (#[trigger] head[i]) == Ok::<
            bool,
            ConvergenceError,
        >(false) by {
            assert(head[i] == verdicts[i]);
        }
        lemma_all_unsettled(itl1, head);
    }
}

} // verus!
