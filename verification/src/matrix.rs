//! The augmented matrix and the vector of unknowns.
//!
//! A circuit with `c_nodes` nodes (ground included) and `c_vsrcs`
//! voltage-defining elements has `n = c_nodes + c_vsrcs` unknowns. Its
//! equations are held in a dense matrix of `n` rows and `n + 1` columns, the
//! last column being the right-hand side, stored row by row in one buffer.
//! Row 0 and column 0 belong to ground and stay zero.

use vstd::prelude::*;
use crate::scalar::Scalar;

verus! {

/// The shape of the system of equations of one circuit.
#[derive(Clone, Copy, Debug, PartialEq, Eq, Structural)]
pub struct Layout {
    /// Number of nodes, ground included.
    pub c_nodes: usize,
    /// Number of voltage-defining elements.
    pub c_vsrcs: usize,
}

impl Layout {
    /// Number of unknowns.
    pub open spec fn size(self) -> int {
        self.c_nodes + self.c_vsrcs
    }

    /// There is a ground node, and the matrix fits into memory.
    pub open spec fn wf(self) -> bool {
        &&& self.c_nodes >= 1
        &&& self.size() * (self.size() + 1) <= usize::MAX
    }

    /// The layout for the given counts, if there is a ground node and a
    /// matrix of that size can be addressed.
    pub fn new(c_nodes: usize, c_vsrcs: usize) -> (r: Option<Layout>)
        ensures
            r == if (Layout { c_nodes, c_vsrcs }).wf() {
                Some(Layout { c_nodes, c_vsrcs })
            } else {
                None::<Layout>
            },
    {
        if c_nodes == 0 {
            return None;
        }
        let n = match c_nodes.checked_add(c_vsrcs) {
            Some(n) => n,
            None => {
                assert((c_nodes + c_vsrcs) * (c_nodes + c_vsrcs + 1) > usize::MAX)
                    by (nonlinear_arith)
                    requires
                        c_nodes + c_vsrcs > usize::MAX,
                ;
                return None;
            },
        };
        let cols = match n.checked_add(1) {
            Some(c) => c,
            None => {
                assert(n * (n + 1) > usize::MAX) by (nonlinear_arith)
                    requires
                        n + 1 > usize::MAX,
                        n >= 1,
                ;
                return None;
            },
        };
        match n.checked_mul(cols) {
            Some(_) => Some(Layout { c_nodes, c_vsrcs }),
            None => None,
        }
    }

    /// Number of unknowns, which is the number of rows.
    pub fn dim(&self) -> (n: usize)
        requires
            self.wf(),
        ensures
            n == self.size(),
            n >= 1,
    {
        assert(self.size() <= self.size() * (self.size() + 1)) by (nonlinear_arith)
            requires
                self.size() >= 0,
        ;
        self.c_nodes + self.c_vsrcs
    }

    /// The column of the right-hand side.
    pub fn rhs(&self) -> (c: usize)
        requires
            self.wf(),
        ensures
            c == self.size(),
    {
        self.dim()
    }

    /// The row, and column, of the branch current with index `idx`.
    pub fn branch_row(&self, idx: usize) -> (r: usize)
        requires
            self.wf(),
            idx < self.c_vsrcs,
        ensures
            r == self.c_nodes + idx,
            1 <= r < self.size(),
    {
        let n = self.dim();
        self.c_nodes + idx
    }
}

/// Row `r`, column `c` of a matrix with `n` rows lies inside the buffer.
proof fn lemma_offset_in_range(n: int, r: int, c: int)
    requires
        0 <= r < n,
        0 <= c <= n,
    ensures
        0 <= r * (n + 1) + c < n * (n + 1),
{
    assert(r * (n + 1) + c < n * (n + 1)) by (nonlinear_arith)
        requires
            0 <= r < n,
            0 <= c <= n,
    ;
    assert(0 <= r * (n + 1)) by (nonlinear_arith)
        requires
            0 <= r,
            0 <= n,
    ;
}

/// The place of row `r`, column `c` in the buffer of a matrix with `n` rows.
fn place(n: usize, r: usize, c: usize) -> (k: usize)
    requires
        n * (n + 1) <= usize::MAX,
        r < n,
        c <= n,
    ensures
        k == r * (n + 1) + c,
        k < n * (n + 1),
{
    proof {
        lemma_offset_in_range(n as int, r as int, c as int);
        assert(n + 1 <= n * (n + 1)) by (nonlinear_arith)
            requires
                n >= 1,
        ;
        assert(0 <= r * (n + 1) <= r * (n + 1) + c) by (nonlinear_arith)
            requires
                r >= 0,
                n >= 0,
                c >= 0,
        ;
    }
    r * (n + 1) + c
}

/// Two different cells lie at two different places of the buffer.
proof fn lemma_offset_injective(n: int, r1: int, c1: int, r2: int, c2: int)
    requires
        0 <= r1,
        0 <= r2,
        0 <= c1 <= n,
        0 <= c2 <= n,
        r1 * (n + 1) + c1 == r2 * (n + 1) + c2,
    ensures
        r1 == r2,
        c1 == c2,
{
    assert(r1 == r2) by (nonlinear_arith)
        requires
            0 <= r1,
            0 <= r2,
            0 <= c1 <= n,
            0 <= c2 <= n,
            r1 * (n + 1) + c1 == r2 * (n + 1) + c2,
    ;
}

/// The cell at row `r`, column `c` of a buffer that holds a matrix of `n`
/// rows.
spec fn cell(data: Seq<Scalar>, n: int, r: int, c: int) -> Scalar {
    data[r * (n + 1) + c]
}

/// A dense augmented matrix of `n` rows and `n + 1` columns.
///
/// Row 0 and column 0, the cells of ground, hold positive zeros in every
/// matrix there can be: they start as zeros and cannot be written.
#[derive(Debug)]
pub struct Matrix {
    n: usize,
    data: Vec<Scalar>,
}

impl View for Matrix {
    type V = Seq<Seq<Scalar>>;

    /// The rows of the matrix.
    closed spec fn view(&self) -> Seq<Seq<Scalar>> {
        Seq::new(
            self.n as nat,
            |r: int| Seq::new((self.n + 1) as nat, |c: int| cell(self.data@, self.n as int, r, c)),
        )
    }
}

impl Matrix {
    /// The buffer holds exactly the cells of the matrix, and the cells of
    /// ground are zero.
    #[verifier::type_invariant]
    closed spec fn wf(&self) -> bool {
        &&& self.n * (self.n + 1) <= usize::MAX
        &&& self.data@.len() == self.n * (self.n + 1)
        &&& forall|c: int|
            0 <= c <= self.n && self.n > 0 ==> (#[trigger] cell(self.data@, self.n as int, 0, c)).bits
                == 0
        &&& forall|r: int|
            0 <= r < self.n ==> (#[trigger] cell(self.data@, self.n as int, r, 0)).bits == 0
    }

    /// Every row has one more column than there are rows; row 0 and column 0
    /// hold positive zeros.
    pub open spec fn grounded(&self) -> bool {
        &&& forall|r: int| 0 <= r < self@.len() ==> (#[trigger] self@[r]).len() == self@.len() + 1
        &&& forall|c: int| 0 <= c <= self@.len() && self@.len() > 0 ==> (#[trigger] self@[0][c]).bits == 0
        &&& forall|r: int| 0 <= r < self@.len() ==> (#[trigger] self@[r])[0].bits == 0
    }

    /// A matrix of zeros for the given layout.
    pub fn zeros(layout: &Layout) -> (m: Matrix)
        requires
            layout.wf(),
        ensures
            m@.len() == layout.size(),
            m.grounded(),
            forall|r: int, c: int|
                0 <= r < layout.size() && 0 <= c <= layout.size() ==> (#[trigger] m@[r][c]).bits == 0,
    {
        let n = layout.dim();
        assert(n + 1 <= n * (n + 1)) by (nonlinear_arith)
            requires
                n >= 1,
        ;
        let len = n * (n + 1);
        let mut data: Vec<Scalar> = Vec::new();
        let mut i: usize = 0;
        while i < len
            invariant
                i <= len,
                data@.len() == i,
                forall|j: int| 0 <= j < i ==> (#[trigger] data@[j]).bits == 0,
            decreases len - i,
        {
            data.push(Scalar { bits: 0 });
            i = i + 1;
        }
        proof {
            assert forall|r: int, c: int| 0 <= r < n && 0 <= c <= n implies (#[trigger] cell(
                data@,
                n as int,
                r,
                c,
            )).bits == 0 by {
                lemma_offset_in_range(n as int, r, c);
            }
        }
        Matrix { n, data }
    }

    /// Number of rows.
    pub fn dim(&self) -> (n: usize)
        ensures
            n == self@.len(),
            n < usize::MAX,
    {
        proof {
            use_type_invariant(self);
            if self.n > 0 {
                assert(self.n + 1 <= self.n * (self.n + 1)) by (nonlinear_arith)
                    requires
                        self.n >= 1,
                ;
            }
        }
        self.n
    }

    /// States what holds of every matrix, for a caller that needs it in a
    /// proof: the rows have their length and the cells of ground are zero.
    /// Does nothing when run.
    pub fn ground(&self)
        ensures
            self.grounded(),
    {
        proof {
            use_type_invariant(self);
        }
    }

    /// The cell at row `r`, column `c`.
    pub fn get(&self, r: usize, c: usize) -> (w: Scalar)
        requires
            r < self@.len(),
            c <= self@.len(),
        ensures
            w == self@[r as int][c as int],
            r == 0 || c == 0 ==> w.bits == 0,
    {
        proof {
            use_type_invariant(self);
        }
        let k = place(self.n, r, c);
        proof {
            assert(self.data@[k as int] == cell(self.data@, self.n as int, r as int, c as int));
        }
        self.data[k]
    }

    /// Stores `w` at row `r`, column `c`. The cells of ground cannot be
    /// written.
    pub fn set(&mut self, r: usize, c: usize, w: Scalar)
        requires
            1 <= r < old(self)@.len(),
            1 <= c <= old(self)@.len(),
        ensures
            final(self)@ == old(self)@.update(r as int, old(self)@[r as int].update(c as int, w)),
    {
        proof {
            use_type_invariant(&*self);
        }
        let k = place(self.n, r, c);
        let ghost n = self.n as int;
        let ghost before = self.data@;
        proof {
            assert forall|v: Scalar, c2: int| 0 <= c2 <= n implies (#[trigger] cell(
                before.update(k as int, v),
                n,
                0,
                c2,
            )).bits == 0 by {
                if 0 * (n + 1) + c2 == k {
                    lemma_offset_injective(n, 0, c2, r as int, c as int);
                }
                lemma_offset_in_range(n, 0, c2);
                assert(cell(before, n, 0, c2).bits == 0);
            }
            assert forall|v: Scalar, r2: int| 0 <= r2 < n implies (#[trigger] cell(
                before.update(k as int, v),
                n,
                r2,
                0,
            )).bits == 0 by {
                if r2 * (n + 1) + 0 == k {
                    lemma_offset_injective(n, r2, 0, r as int, c as int);
                }
                lemma_offset_in_range(n, r2, 0);
                assert(cell(before, n, r2, 0).bits == 0);
            }
        }
        self.data[k] = w;
        proof {
            let target = old(self)@.update(r as int, old(self)@[r as int].update(c as int, w));
            assert forall|i: int| 0 <= i < n implies #[trigger] self@[i] =~= target[i] by {
                assert forall|j: int| 0 <= j <= n implies self@[i][j] == target[i][j] by {
                    lemma_offset_in_range(n, i, j);
                    if i * (n + 1) + j == k {
                        lemma_offset_injective(n, i, j, r as int, c as int);
                    }
                }
            }
            assert(self@ =~= target);
        }
    }

    /// Exchanges rows `i` and `j`. The row of ground stays where it is.
    pub fn swap_rows(&mut self, i: usize, j: usize)
        requires
            1 <= i < old(self)@.len(),
            1 <= j < old(self)@.len(),
        ensures
            final(self)@ == old(self)@.update(i as int, old(self)@[j as int]).update(
                j as int,
                old(self)@[i as int],
            ),
    {
        let n = self.dim();
        self.ground();
        let ghost before = self@;
        let mut c: usize = 1;
        while c <= n
            invariant
                before == old(self)@,
                before.len() == n,
                self@.len() == n,
                n < usize::MAX,
                1 <= i < n,
                1 <= j < n,
                1 <= c <= n + 1,
                forall|r: int| 0 <= r < n ==> (#[trigger] before[r]).len() == n + 1,
                forall|r: int| 0 <= r < n ==> (#[trigger] self@[r]).len() == n + 1,
                forall|r: int, k: int|
                    0 <= r < n && 0 <= k <= n ==> (#[trigger] self@[r][k]) == if 1 <= k < c && r
                        == i {
                        before[j as int][k]
                    } else if 1 <= k < c && r == j {
                        before[i as int][k]
                    } else {
                        before[r][k]
                    },
            decreases n + 1 - c,
        {
            let wi = self.get(i, c);
            let wj = self.get(j, c);
            self.set(i, c, wj);
            self.set(j, c, wi);
            c = c + 1;
        }
        proof {
            let target = before.update(i as int, before[j as int]).update(j as int, before[i as int]);
            assert(before[i as int][0].bits == 0);
            assert(before[j as int][0].bits == 0);
            assert forall|r: int| 0 <= r < n implies #[trigger] self@[r] =~= target[r] by {
                assert forall|k: int| 0 <= k <= n implies self@[r][k] == target[r][k] by {
                    assert(self@[r][k] == if 1 <= k < c && r == i {
                        before[j as int][k]
                    } else if 1 <= k < c && r == j {
                        before[i as int][k]
                    } else {
                        before[r][k]
                    });
                }
            }
            assert(self@ =~= target);
        }
    }

    /// A copy of the matrix.
    pub fn duplicate(&self) -> (m: Matrix)
        ensures
            m@ == self@,
    {
        proof {
            use_type_invariant(self);
        }
        let mut data: Vec<Scalar> = Vec::new();
        let mut i: usize = 0;
        while i < self.data.len()
            invariant
                i <= self.data@.len(),
                data@ == self.data@.take(i as int),
            decreases self.data@.len() - i,
        {
            data.push(self.data[i]);
            proof {
                assert(self.data@.take(i as int).push(self.data@[i as int]) =~= self.data@.take(
                    i + 1,
                ));
            }
            i = i + 1;
        }
        proof {
            assert(self.data@.take(i as int) =~= self.data@);
        }
        let m = Matrix { n: self.n, data };
        assert(m@ =~= self@);
        m
    }
}

/// The vector of unknowns: node voltages first, ground at index 0, then the
/// branch currents in order of branch index.
///
/// The entry of ground is zero in every vector of unknowns there can be: it
/// starts as zero and cannot be written.
#[derive(Debug)]
pub struct Unknowns {
    values: Vec<Scalar>,
}

impl View for Unknowns {
    type V = Seq<Scalar>;

    closed spec fn view(&self) -> Seq<Scalar> {
        self.values@
    }
}

impl Unknowns {
    /// The entry of ground is there and is positive zero.
    #[verifier::type_invariant]
    pub closed spec fn grounded(&self) -> bool {
        self.values@.len() >= 1 && self.values@[0].bits == 0
    }

    /// A vector of zeros for the given layout.
    pub fn zeros(layout: &Layout) -> (u: Unknowns)
        requires
            layout.wf(),
        ensures
            u@.len() == layout.size(),
            forall|i: int| 0 <= i < u@.len() ==> (#[trigger] u@[i]).bits == 0,
    {
        let n = layout.dim();
        let mut values: Vec<Scalar> = Vec::new();
        let mut i: usize = 0;
        while i < n
            invariant
                i <= n,
                values@.len() == i,
                forall|j: int| 0 <= j < i ==> (#[trigger] values@[j]).bits == 0,
            decreases n - i,
        {
            values.push(Scalar { bits: 0 });
            i = i + 1;
        }
        Unknowns { values }
    }

    /// Number of unknowns, of which ground is one.
    pub fn len(&self) -> (n: usize)
        ensures
            n == self@.len(),
            n >= 1,
    {
        proof {
            use_type_invariant(self);
        }
        self.values.len()
    }

    /// The unknown of ground, which is zero whatever was solved.
    pub fn ground(&self) -> (w: Scalar)
        ensures
            self@.len() >= 1,
            w == self@[0],
            w.bits == 0,
    {
        proof {
            use_type_invariant(self);
        }
        self.values[0]
    }

    /// The unknown at index `i`.
    pub fn get(&self, i: usize) -> (w: Scalar)
        requires
            i < self@.len(),
        ensures
            w == self@[i as int],
            i == 0 ==> w.bits == 0,
    {
        proof {
            use_type_invariant(self);
        }
        self.values[i]
    }

    /// Stores the unknown at index `i`. The entry of ground cannot be
    /// written.
    pub fn set(&mut self, i: usize, w: Scalar)
        requires
            1 <= i < old(self)@.len(),
        ensures
            final(self)@ == old(self)@.update(i as int, w),
    {
        proof {
            use_type_invariant(&*self);
        }
        self.values[i] = w;
    }

    /// A copy of the vector.
    pub fn duplicate(&self) -> (u: Unknowns)
        ensures
            u@ == self@,
    {
        proof {
            use_type_invariant(self);
        }
        let mut values: Vec<Scalar> = Vec::new();
        let mut i: usize = 0;
        while i < self.values.len()
            invariant
                i <= self.values@.len(),
                values@ == self.values@.take(i as int),
            decreases self.values@.len() - i,
        {
            values.push(self.values[i]);
            proof {
                assert(self.values@.take(i as int).push(self.values@[i as int])
                    =~= self.values@.take(i + 1));
            }
            i = i + 1;
        }
        proof {
            assert(self.values@.take(i as int) =~= self.values@);
        }
        Unknowns { values }
    }

    /// The unknowns as a plain vector.
    pub fn into_vec(self) -> (v: Vec<Scalar>)
        ensures
            v@ == self@,
            v@.len() >= 1,
            v@[0].bits == 0,
    {
        proof {
            use_type_invariant(&self);
        }
        self.values
    }
}

} // verus!
