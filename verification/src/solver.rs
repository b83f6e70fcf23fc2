//! Decisions of the linear solver.
//!
//! The system is solved by Gaussian elimination with partial pivoting,
//! followed by back-substitution. Row 0 and column 0 belong to ground, are
//! zero throughout and are left out. The arithmetic of elimination and
//! back-substitution is the caller's; which row becomes the pivot, whether
//! the matrix is singular, which rows have anything to eliminate, in which
//! order the unknowns are worked out, and what becomes of a last unknown
//! that is no number, is decided here. [`Solver`] strings the decisions
//! together: the caller asks it for the next piece of work until there is
//! none left.

use vstd::prelude::*;
use crate::matrix::Matrix;
use crate::scalar::Scalar;

verus! {

/// What selecting the pivot of a column came to.
#[derive(Clone, Copy, Debug, PartialEq, Eq, Structural)]
pub enum Pivot {
    /// The largest entry of the column is zero: the matrix is singular, and
    /// elimination stops here, leaving the matrix as it is.
    Singular,
    /// The row `from` held the pivot and was exchanged with the row of the
    /// column.
    Ready { from: usize },
}

/// The size of an entry when pivots are compared: its magnitude word, or 0
/// for a word that is no number, which is never preferred.
pub open spec fn weight(w: Scalar) -> nat {
    if w.nan() {
        0
    } else {
        w.magnitude()
    }
}

/// `r` is the pivot row of column `k`: the first of the rows from `k` down
/// whose entry in column `k` is largest in absolute value.
pub open spec fn is_pivot_row(m: Seq<Seq<Scalar>>, k: int, r: int) -> bool {
    &&& k <= r < m.len()
    &&& forall|j: int| k <= j < m.len() ==> weight(#[trigger] m[j][k]) <= weight(m[r][k])
    &&& forall|j: int| k <= j < r ==> weight(#[trigger] m[j][k]) < weight(m[r][k])
}

/// There is only one pivot row.
pub proof fn lemma_pivot_row_unique(m: Seq<Seq<Scalar>>, k: int, r1: int, r2: int)
    requires
        is_pivot_row(m, k, r1),
        is_pivot_row(m, k, r2),
    ensures
        r1 == r2,
{
    if r1 < r2 {
        assert(weight(m[r1][k]) < weight(m[r2][k]));
        assert(weight(m[r2][k]) <= weight(m[r1][k]));
    } else if r2 < r1 {
        assert(weight(m[r2][k]) < weight(m[r1][k]));
        assert(weight(m[r1][k]) <= weight(m[r2][k]));
    }
}

/// The rows below `k` that have something to eliminate in column `k`: those
/// whose entry there is not zero, in increasing order.
pub open spec fn rows_to_eliminate(m: Seq<Seq<Scalar>>, k: int, upto: int) -> Seq<usize>
    decreases upto - k,
{
    if upto <= k + 1 {
        Seq::empty()
    } else if m[upto - 1][k].zero() {
        rows_to_eliminate(m, k, upto - 1)
    } else {
        rows_to_eliminate(m, k, upto - 1).push((upto - 1) as usize)
    }
}

/// Finds the pivot row of column `k`.
pub fn index_of_next_abs(m: &Matrix, k: usize) -> (r: usize)
    requires
        k < m@.len(),
    ensures
        is_pivot_row(m@, k as int, r as int),
{
    let n = m.dim();
    let mut biggest = Scalar::zero_value();
    let mut r_biggest: usize = k;
    let mut r: usize = k;
    while r < n
        invariant
            k <= r <= n,
            n == m@.len(),
                k <= r_biggest < n,
            r_biggest <= r,
            !biggest.nan(),
            !biggest.sign_negative(),
            r > k ==> biggest.magnitude() == weight(m@[r_biggest as int][k as int]),
            r == k ==> biggest.bits == 0 && r_biggest == k,
            forall|j: int| k <= j < r ==> weight(#[trigger] m@[j][k as int]) <= biggest.magnitude(),
            forall|j: int|
                k <= j < r_biggest ==> weight(#[trigger] m@[j][k as int]) < biggest.magnitude(),
        decreases n - r,
    {
        let this = m.get(r, k).abs();
        if this.gt(&biggest) {
            biggest = this;
            r_biggest = r;
        } else if r == k {
            assert(weight(m@[k as int][k as int]) == 0);
        }
        r = r + 1;
    }
    r_biggest
}

/// Brings the pivot of column `k` into row `k`.
///
/// The pivot is the entry of largest absolute value among the rows from `k`
/// down. If it is zero, the matrix is singular and is left as it is. Else
/// its row is exchanged with row `k`.
pub fn select_pivot(m: &mut Matrix, k: usize) -> (p: Pivot)
    requires
        1 <= k < old(m)@.len(),
    ensures
        match p {
            Pivot::Singular => {
                &&& final(m)@ == old(m)@
                &&& exists|r: int| is_pivot_row(old(m)@, k as int, r) && old(m)@[r][k as int].zero()
            },
            Pivot::Ready { from } => {
                &&& is_pivot_row(old(m)@, k as int, from as int)
                &&& !old(m)@[from as int][k as int].zero()
                &&& final(m)@ == old(m)@.update(k as int, old(m)@[from as int]).update(
                    from as int,
                    old(m)@[k as int],
                )
            },
        },
{
    let r_max = index_of_next_abs(m, k);
    if m.get(r_max, k).is_zero() {
        return Pivot::Singular;
    }
    m.swap_rows(k, r_max);
    Pivot::Ready { from: r_max }
}

/// Lists the rows below `k` whose entry in column `k` is not zero: the rows
/// from which a multiple of row `k` has to be subtracted.
pub fn rows_below(m: &Matrix, k: usize) -> (rows: Vec<usize>)
    requires
        k < m@.len(),
    ensures
        rows@ == rows_to_eliminate(m@, k as int, m@.len() as int),
{
    let n = m.dim();
    let mut rows: Vec<usize> = Vec::new();
    let mut r: usize = k + 1;
    while r < n
        invariant
            k + 1 <= r <= n,
            n == m@.len(),
                rows@ == rows_to_eliminate(m@, k as int, r as int),
        decreases n - r,
    {
        if !m.get(r, k).is_zero() {
            rows.push(r);
        }
        r = r + 1;
    }
    rows
}

/// The listed rows are exactly the rows below `k` with a nonzero entry in
/// column `k`, in increasing order.
pub proof fn lemma_rows_to_eliminate(m: Seq<Seq<Scalar>>, k: int, upto: int)
    requires
        0 <= k,
        upto <= usize::MAX,
    ensures
        forall|i: int|
            0 <= i < rows_to_eliminate(m, k, upto).len() ==> {
                &&& k < (#[trigger] rows_to_eliminate(m, k, upto)[i]) < upto
                &&& !m[rows_to_eliminate(m, k, upto)[i] as int][k].zero()
            },
        forall|i: int, j: int|
            0 <= i < j < rows_to_eliminate(m, k, upto).len() ==> (#[trigger] rows_to_eliminate(
                m,
                k,
                upto,
            )[i]) < (#[trigger] rows_to_eliminate(m, k, upto)[j]),
        forall|r: int|
            k < r < upto && !(#[trigger] m[r][k]).zero() ==> rows_to_eliminate(m, k, upto).contains(
                r as usize,
            ),
    decreases upto - k,
{
    if upto > k + 1 {
        lemma_rows_to_eliminate(m, k, upto - 1);
        let before = rows_to_eliminate(m, k, upto - 1);
        let all = rows_to_eliminate(m, k, upto);
        assert forall|i: int| 0 <= i < all.len() implies {
            &&& k < (#[trigger] all[i]) < upto
            &&& !m[all[i] as int][k].zero()
        } by {
            if i < before.len() {
                assert(all[i] == before[i]);
            }
        }
        assert forall|i: int, j: int| 0 <= i < j < all.len() implies (#[trigger] all[i]) < (
        #[trigger] all[j]) by {
            assert(all[i] == before[i]);
            if j < before.len() {
                assert(all[j] == before[j]);
            }
        }
        assert forall|r: int| k < r < upto && !(#[trigger] m[r][k]).zero() implies all.contains(
            r as usize,
        ) by {
            if r < upto - 1 {
                assert(before.contains(r as usize));
                let i = choose|i: int| 0 <= i < before.len() && before[i] == r as usize;
                assert(all[i] == r as usize);
            } else {
                assert(all[all.len() - 1] == r as usize);
            }
        }
    }
}

/// What the quotient of the last back-substitution becomes.
pub open spec fn settled(q: Scalar) -> Scalar {
    if q.finite() {
        q
    } else {
        Scalar { bits: 0 }
    }
}

/// Settles the unknown that back-substitution starts from: a quotient that
/// is infinite or no number, as an isolated source of zero volts gives,
/// becomes zero instead of spreading through the solution.
pub fn settle_last(q: Scalar) -> (x: Scalar)
    ensures
        x == settled(q),
        x.finite(),
{
    if q.is_finite() {
        q
    } else {
        Scalar::zero_value()
    }
}

/// How far a solve has come.
#[derive(Clone, Copy, Debug, PartialEq, Eq, Structural)]
pub enum Stage {
    /// The columns before `column` are eliminated.
    Eliminating { column: usize },
    /// Elimination is over, and the unknowns from `row` on are worked out.
    Substituting { row: usize },
    /// All unknowns are worked out.
    Solved,
}

/// A piece of work of a solve, without the rows that it concerns.
#[derive(Clone, Copy, Debug, PartialEq, Eq, Structural)]
pub enum Task {
    Eliminate { pivot: usize },
    SolveLast { row: usize },
    Substitute { row: usize },
    Done,
}

/// The next piece of work of a solve.
#[derive(Clone, Debug, PartialEq, Eq)]
pub enum Work {
    /// Clear column `pivot` below row `pivot`: from each of `rows`, subtract
    /// the multiple of row `pivot` that brings its entry in column `pivot`
    /// to zero, from column `pivot` to the right-hand side.
    Eliminate { pivot: usize, rows: Vec<usize> },
    /// Work out the last unknown: the right-hand side of row `row` divided
    /// by its diagonal entry, settled by [`settle_last`].
    SolveLast { row: usize },
    /// Work out unknown `row`: the right-hand side of row `row`, less the
    /// entries of the row times the unknowns after `row`, divided by the
    /// diagonal entry.
    Substitute { row: usize },
    /// Nothing: the solve is over. The unknown of ground stays zero.
    Done,
}

impl Work {
    /// The piece of work without its rows.
    pub open spec fn task(self) -> Task {
        match self {
            Work::Eliminate { pivot, rows } => Task::Eliminate { pivot },
            Work::SolveLast { row } => Task::SolveLast { row },
            Work::Substitute { row } => Task::Substitute { row },
            Work::Done => Task::Done,
        }
    }
}

/// A solve in progress.
#[derive(Clone, Copy, Debug, PartialEq, Eq, Structural)]
pub struct Solver {
    pub stage: Stage,
    /// Elimination stopped early on a singular matrix; what is worked out
    /// from here on comes from a matrix that is only partly eliminated.
    pub singular: bool,
}

/// The pivot row of column `k`.
pub open spec fn pivot_row(m: Seq<Seq<Scalar>>, k: int) -> int {
    choose|r: int| is_pivot_row(m, k, r)
}

/// The matrix with the pivot of column `k` brought into row `k`.
pub open spec fn pivoted(m: Seq<Seq<Scalar>>, k: int) -> Seq<Seq<Scalar>> {
    m.update(k, m[pivot_row(m, k)]).update(pivot_row(m, k), m[k])
}

impl Solver {
    /// Column `k` is there to be eliminated in the matrix `m`: it is a
    /// column of the unknowns other than ground and the last, and its pivot
    /// is not zero.
    pub open spec fn eliminates(m: Seq<Seq<Scalar>>, k: int) -> bool {
        1 <= k && k + 1 < m.len() && !m[pivot_row(m, k)][k].zero()
    }

    /// Column `k` ends elimination early: it is a column to eliminate, but
    /// its pivot is zero.
    pub open spec fn stops(m: Seq<Seq<Scalar>>, k: int) -> bool {
        1 <= k && k + 1 < m.len() && m[pivot_row(m, k)][k].zero()
    }

    /// The piece of work that comes next, given the matrix as it is.
    pub open spec fn coming(self, m: Seq<Seq<Scalar>>) -> Task {
        match self.stage {
            Stage::Eliminating { column } => if Self::eliminates(m, column as int) {
                Task::Eliminate { pivot: column }
            } else if m.len() >= 2 {
                Task::SolveLast { row: (m.len() - 1) as usize }
            } else {
                Task::Done
            },
            Stage::Substituting { row } => if row >= 2 {
                Task::Substitute { row: (row - 1) as usize }
            } else {
                Task::Done
            },
            Stage::Solved => Task::Done,
        }
    }

    /// The state after the next piece of work was handed out.
    pub open spec fn following(self, m: Seq<Seq<Scalar>>) -> Solver {
        match self.coming(m) {
            Task::Eliminate { pivot } => Solver {
                stage: Stage::Eliminating { column: (pivot + 1) as usize },
                ..self
            },
            Task::SolveLast { row } => Solver {
                stage: Stage::Substituting { row },
                singular: self.singular || (self.stage matches Stage::Eliminating { column }
                    && Self::stops(m, column as int)),
            },
            Task::Substitute { row } => Solver { stage: Stage::Substituting { row }, ..self },
            Task::Done => Solver {
                stage: Stage::Solved,
                singular: self.singular || (self.stage matches Stage::Eliminating { column }
                    && Self::stops(m, column as int)),
            },
        }
    }

    /// The matrix after the next piece of work was handed out: before a
    /// column is eliminated, its pivot is brought into place.
    pub open spec fn arranged(self, m: Seq<Seq<Scalar>>) -> Seq<Seq<Scalar>> {
        match self.coming(m) {
            Task::Eliminate { pivot } => pivoted(m, pivot as int),
            _ => m,
        }
    }

    /// A solve that has not started.
    pub fn begin() -> (s: Solver)
        ensures
            s == (Solver { stage: Stage::Eliminating { column: 1 }, singular: false }),
    {
        Solver { stage: Stage::Eliminating { column: 1 }, singular: false }
    }

    /// Hands out the next piece of work.
    ///
    /// The columns from 1 to `n - 2` are eliminated in turn; each first gets
    /// its pivot, the entry of largest absolute value from its diagonal
    /// down, moved to the diagonal. A pivot of zero means that the matrix
    /// is singular: elimination stops there, leaving the matrix as it is.
    /// Then the unknowns are worked out from the last one back to the first
    /// after ground.
    pub fn next(&mut self, m: &mut Matrix) -> (work: Work)
        ensures
            work.task() == old(self).coming(old(m)@),
            *final(self) == old(self).following(old(m)@),
            final(m)@ == old(self).arranged(old(m)@),
            work matches Work::Eliminate { pivot, rows } ==> rows@ == rows_to_eliminate(
                final(m)@,
                pivot as int,
                final(m)@.len() as int,
            ),
    {
        let n = m.dim();
        match self.stage {
            Stage::Eliminating { column } => {
                if column >= 1 && column < n && column + 1 < n {
                    match select_pivot(m, column) {
                        Pivot::Ready { from } => {
                            proof {
                                lemma_pivot_row_unique(
                                    old(m)@,
                                    column as int,
                                    from as int,
                                    pivot_row(old(m)@, column as int),
                                );
                            }
                            let rows = rows_below(m, column);
                            self.stage = Stage::Eliminating { column: column + 1 };
                            return Work::Eliminate { pivot: column, rows };
                        },
                        Pivot::Singular => {
                            proof {
                                let r = choose|r: int|
                                    is_pivot_row(old(m)@, column as int, r) && old(
                                        m,
                                    )@[r][column as int].zero();
                                lemma_pivot_row_unique(
                                    old(m)@,
                                    column as int,
                                    r,
                                    pivot_row(old(m)@, column as int),
                                );
                            }
                            self.singular = true;
                        },
                    }
                }
                if n >= 2 {
                    self.stage = Stage::Substituting { row: n - 1 };
                    Work::SolveLast { row: n - 1 }
                } else {
                    self.stage = Stage::Solved;
                    Work::Done
                }
            },
            Stage::Substituting { row } => {
                if row >= 2 {
                    self.stage = Stage::Substituting { row: row - 1 };
                    Work::Substitute { row: row - 1 }
                } else {
                    self.stage = Stage::Solved;
                    Work::Done
                }
            },
            Stage::Solved => Work::Done,
        }
    }
}

impl Solver {
    /// The state after one piece of work was handed out for each of the
    /// matrices of `ms`, in turn.
    pub open spec fn after_all(self, ms: Seq<Seq<Seq<Scalar>>>) -> Solver
        decreases ms.len(),
    {
        if ms.len() == 0 {
            self
        } else {
            self.after_all(ms.drop_last()).following(ms.last())
        }
    }

    /// An upper bound on the pieces of work that are still to come on
    /// matrices of `n` rows.
    pub open spec fn remaining(self, n: int) -> int {
        match self.stage {
            Stage::Eliminating { column } => if 1 <= column && column + 1 < n {
                2 * n - column + 1
            } else if n >= 2 {
                n + 1
            } else {
                1
            },
            Stage::Substituting { row } => row + 1,
            Stage::Solved => 0,
        }
    }
}

/// Each piece of work brings the end of the solve nearer.
proof fn lemma_work_counts_down(s: Solver, m: Seq<Seq<Scalar>>)
    requires
        m.len() <= usize::MAX,
    ensures
        s.following(m).remaining(m.len() as int) <= if s.remaining(m.len() as int) > 0 {
            s.remaining(m.len() as int) - 1
        } else {
            0
        },
{
}

/// What remains after a number of pieces of work.
proof fn lemma_remaining(s: Solver, n: int, ms: Seq<Seq<Seq<Scalar>>>)
    requires
        n <= usize::MAX,
        forall|i: int| 0 <= i < ms.len() ==> (#[trigger] ms[i]).len() == n,
    ensures
        s.after_all(ms).remaining(n) <= if s.remaining(n) > ms.len() {
            s.remaining(n) - ms.len()
        } else {
            0
        },
    decreases ms.len(),
{
    if ms.len() > 0 {
        let head = ms.drop_last();
        assert forall|i: int| 0 <= i < head.len() implies (#[trigger] head[i]).len() == n by {
            assert(head[i] == ms[i]);
        }
        lemma_remaining(s, n, head);
        lemma_work_counts_down(s.after_all(head), ms.last());
    }
}

/// A solve ends: whatever the caller makes of the matrix in between, a
/// solver that starts on matrices of `n` rows is done after `2 n` pieces of
/// work at most.
pub proof fn lemma_solve_ends(n: int, ms: Seq<Seq<Seq<Scalar>>>)
    requires
        1 <= n <= usize::MAX,
        ms.len() >= 2 * n,
        forall|i: int| 0 <= i < ms.len() ==> (#[trigger] ms[i]).len() == n,
    ensures
        (Solver { stage: Stage::Eliminating { column: 1 }, singular: false }).after_all(
            ms,
        ).stage is Solved,
{
    let start = Solver { stage: Stage::Eliminating { column: 1 }, singular: false };
    lemma_remaining(start, n, ms);
}

} // verus!
