//! The stamping rules of Modified Nodal Analysis.
//!
//! To stamp an element is to add its contribution to the augmented matrix.
//! Which cells an element touches, and with which sign, follows from its
//! nodes and its branch index alone; the amounts are sums and quotients and
//! are worked out by the caller. The rules are therefore given as lists of
//! [`Stamp`]s: each names a cell, says whether the cell is added to or
//! overwritten, and says which quantity of the element goes in.
//!
//! No stamp names a cell of ground: a write whose row or column would be
//! node 0 is left out.

use vstd::prelude::*;
use crate::circuit::NodeId;
use crate::element::Element;
use crate::matrix::{Layout, Matrix};
use crate::scalar::Scalar;

verus! {

/// Whether a stamp adds to a cell or replaces what it holds.
#[derive(Clone, Copy, Debug, PartialEq, Eq, Structural)]
pub enum Mode {
    /// The cell is added to.
    Accumulate,
    /// The cell is replaced.
    Overwrite,
}

/// The sign with which a quantity enters a cell.
#[derive(Clone, Copy, Debug, PartialEq, Eq, Structural)]
pub enum Sign {
    Plus,
    Minus,
}

/// Which quantity of the element enters a cell.
#[derive(Clone, Copy, Debug, PartialEq, Eq, Structural)]
pub enum Quantity {
    /// The number one.
    One,
    /// The value of a source, at the time solved for; for a companion model,
    /// its equivalent current.
    Source,
    /// The conductance of a resistor, the reciprocal of its resistance; for a
    /// companion model, its equivalent conductance.
    Conductance,
    /// The gain of a controlled source.
    Gain,
}

/// One write to the augmented matrix.
#[derive(Clone, Copy, Debug, PartialEq, Eq, Structural)]
pub struct Stamp {
    pub row: usize,
    pub col: usize,
    pub mode: Mode,
    pub sign: Sign,
    pub quantity: Quantity,
}

impl Stamp {
    /// The amount that enters the cell when the quantity of the stamp is
    /// `x`: `x`, or its negation for a stamp that subtracts.
    pub open spec fn amount(self, x: Scalar) -> Scalar {
        match self.sign {
            Sign::Plus => x,
            Sign::Minus => x.negated(),
        }
    }

    /// What the cell holds after the stamp, where `sum` is what it held plus
    /// the amount: the sum if the stamp accumulates, the amount alone if it
    /// overwrites.
    pub open spec fn outcome(self, x: Scalar, sum: Scalar) -> Scalar {
        match self.mode {
            Mode::Accumulate => sum,
            Mode::Overwrite => self.amount(x),
        }
    }

    /// Gives the quantity `x` the sign of the stamp.
    pub fn signed(&self, x: Scalar) -> (a: Scalar)
        ensures
            a == self.amount(x),
    {
        match self.sign {
            Sign::Plus => x,
            Sign::Minus => x.neg(),
        }
    }

    /// Tells whether the stamp names a cell of a matrix of `n` rows that
    /// does not belong to ground.
    pub fn fits(&self, n: usize) -> (b: bool)
        ensures
            b == (1 <= self.row < n && 1 <= self.col <= n),
    {
        1 <= self.row && self.row < n && 1 <= self.col && self.col <= n
    }
}

/// Applies a stamp to a matrix. `x` is the quantity that the stamp asks
/// for, and `sum` is what the cell holds now plus the signed amount of the
/// stamp; the sum is not looked at when the stamp overwrites.
pub fn apply(m: &mut Matrix, stamp: &Stamp, x: Scalar, sum: Scalar)
    requires
        1 <= stamp.row < old(m)@.len(),
        1 <= stamp.col <= old(m)@.len(),
    ensures
        final(m)@ == old(m)@.update(
            stamp.row as int,
            old(m)@[stamp.row as int].update(stamp.col as int, stamp.outcome(x, sum)),
        ),
{
    match stamp.mode {
        Mode::Accumulate => {
            m.set(stamp.row, stamp.col, sum);
        },
        Mode::Overwrite => {
            let a = stamp.signed(x);
            m.set(stamp.row, stamp.col, a);
        },
    }
}

/// A stamp together with the position, in the circuit, of the element that
/// it comes from.
#[derive(Clone, Copy, Debug, PartialEq, Eq, Structural)]
pub struct Entry {
    pub element: usize,
    pub stamp: Stamp,
}

/// An adding stamp.
pub open spec fn plus(row: int, col: int, quantity: Quantity) -> Stamp {
    Stamp {
        row: row as usize,
        col: col as usize,
        mode: Mode::Accumulate,
        sign: Sign::Plus,
        quantity,
    }
}

/// A subtracting stamp.
pub open spec fn minus(row: int, col: int, quantity: Quantity) -> Stamp {
    Stamp {
        row: row as usize,
        col: col as usize,
        mode: Mode::Accumulate,
        sign: Sign::Minus,
        quantity,
    }
}

/// A stamp that stores a quantity.
pub open spec fn store(row: int, col: int, quantity: Quantity) -> Stamp {
    Stamp {
        row: row as usize,
        col: col as usize,
        mode: Mode::Overwrite,
        sign: Sign::Plus,
        quantity,
    }
}

/// A stamp that stores the negative of a quantity.
pub open spec fn store_negated(row: int, col: int, quantity: Quantity) -> Stamp {
    Stamp {
        row: row as usize,
        col: col as usize,
        mode: Mode::Overwrite,
        sign: Sign::Minus,
        quantity,
    }
}

/// `s` if `keep`, else nothing.
pub open spec fn when(keep: bool, s: Seq<Stamp>) -> Seq<Stamp> {
    if keep {
        s
    } else {
        Seq::empty()
    }
}

/// A conductance `G` between `a` and `b`: `G` is added to the two diagonal
/// cells and subtracted from the two cells that couple `a` and `b`.
pub open spec fn resistor_stamps(a: NodeId, b: NodeId) -> Seq<Stamp> {
    when(a != 0, seq![plus(a as int, a as int, Quantity::Conductance)])
        + when(a != 0 && b != 0, seq![minus(a as int, b as int, Quantity::Conductance)])
        + when(b != 0, seq![plus(b as int, b as int, Quantity::Conductance)])
        + when(b != 0 && a != 0, seq![minus(b as int, a as int, Quantity::Conductance)])
}

/// A current `I` that flows out of `n` and into `p`: `I` is subtracted from
/// the right-hand side of `p` and added to that of `n`.
pub open spec fn current_source_stamps(layout: Layout, p: NodeId, n: NodeId) -> Seq<Stamp> {
    when(p != 0, seq![minus(p as int, layout.size(), Quantity::Source)])
        + when(n != 0, seq![plus(n as int, layout.size(), Quantity::Source)])
}

/// A voltage `V` from `n` to `p` with branch index `idx`: the branch row
/// reads `v(p) - v(n) = V`, and the branch current enters `p` and leaves `n`.
pub open spec fn voltage_source_stamps(layout: Layout, p: NodeId, n: NodeId, idx: usize) -> Seq<
    Stamp,
> {
    let branch = layout.c_nodes + idx;
    seq![store(branch, layout.size(), Quantity::Source)]
        + when(
        p != 0,
        seq![store(branch, p as int, Quantity::One), store(p as int, branch, Quantity::One)],
    ) + when(
        n != 0,
        seq![
            store_negated(branch, n as int, Quantity::One),
            store_negated(n as int, branch, Quantity::One),
        ],
    )
}

/// A voltage-controlled voltage source with gain `k`: the branch current
/// enters `p` and leaves `n`, and the branch row reads
/// `k * (v(cp) - v(cn)) - v(p) + v(n) = 0`.
pub open spec fn vcvs_stamps(
    layout: Layout,
    p: NodeId,
    n: NodeId,
    cp: NodeId,
    cn: NodeId,
    idx: usize,
) -> Seq<Stamp> {
    let branch = layout.c_nodes + idx;
    when(p != 0, seq![plus(p as int, branch, Quantity::One)])
        + when(n != 0, seq![minus(n as int, branch, Quantity::One)])
        + when(cp != 0, seq![plus(branch, cp as int, Quantity::Gain)])
        + when(cn != 0, seq![minus(branch, cn as int, Quantity::Gain)])
        + when(p != 0, seq![minus(branch, p as int, Quantity::One)])
        + when(n != 0, seq![plus(branch, n as int, Quantity::One)])
}

/// A voltage-controlled current source with transconductance `k`: `k` times
/// the control voltage flows in through `p` and out through `n`.
pub open spec fn vccs_stamps(p: NodeId, n: NodeId, cp: NodeId, cn: NodeId) -> Seq<Stamp> {
    when(p != 0 && cp != 0, seq![plus(p as int, cp as int, Quantity::Gain)])
        + when(p != 0 && cn != 0, seq![minus(p as int, cn as int, Quantity::Gain)])
        + when(n != 0 && cp != 0, seq![minus(n as int, cp as int, Quantity::Gain)])
        + when(n != 0 && cn != 0, seq![plus(n as int, cn as int, Quantity::Gain)])
}

/// The stamps of an element.
///
/// Resistors, sources and controlled sources are stamped by their own law.
/// A diode and a capacitor are stamped through their companion model, an
/// equivalent current source in parallel with an equivalent conductance,
/// with the same rules as a physical current source and a resistor.
pub open spec fn element_stamps(layout: Layout, e: Element) -> Seq<Stamp> {
    match e {
        Element::R(el) => resistor_stamps(el.a, el.b),
        Element::I(el) => current_source_stamps(layout, el.p, el.n),
        Element::V(el) => voltage_source_stamps(layout, el.p, el.n, el.idx),
        Element::D(el) => current_source_stamps(layout, el.p, el.n) + resistor_stamps(el.p, el.n),
        Element::Isin(el) => current_source_stamps(layout, el.p, el.n),
        Element::Vsin(el) => voltage_source_stamps(layout, el.p, el.n, el.idx),
        Element::Vpwl(el) => voltage_source_stamps(layout, el.p, el.n, el.idx),
        Element::C(el) => current_source_stamps(layout, el.b, el.a) + resistor_stamps(el.a, el.b),
        Element::Vcvs(el) => vcvs_stamps(layout, el.p, el.n, el.cp, el.cn, el.idx),
        Element::Vccs(el) => vccs_stamps(el.p, el.n, el.cp, el.cn),
    }
}

/// Every node of the element is a node of the layout, and so is its branch.
pub open spec fn fits(layout: Layout, e: Element) -> bool {
    &&& forall|k: int| 0 <= k < e.terminals().len() ==> (#[trigger] e.terminals()[k]) < layout.c_nodes
    &&& e.branch() matches Some(idx) ==> idx < layout.c_vsrcs
}

/// The stamp names a cell of the matrix that does not belong to ground.
pub open spec fn in_range(layout: Layout, s: Stamp) -> bool {
    &&& 1 <= s.row < layout.size()
    &&& 1 <= s.col <= layout.size()
}

/// Every stamp of the list names a cell of the matrix that does not belong
/// to ground.
pub open spec fn all_in_range(layout: Layout, s: Seq<Stamp>) -> bool {
    forall|i: int| 0 <= i < s.len() ==> in_range(layout, #[trigger] s[i])
}

/// Two lists that stay in range do so when joined.
proof fn lemma_join(layout: Layout, a: Seq<Stamp>, b: Seq<Stamp>)
    requires
        all_in_range(layout, a),
        all_in_range(layout, b),
    ensures
        all_in_range(layout, a + b),
{
    assert forall|i: int| 0 <= i < (a + b).len() implies in_range(layout, #[trigger] (a + b)[i]) by {
        if i < a.len() {
            assert((a + b)[i] == a[i]);
        } else {
            assert((a + b)[i] == b[i - a.len()]);
        }
    }
}

/// The size of a layout is a machine integer.
proof fn lemma_size_fits(layout: Layout)
    requires
        layout.wf(),
    ensures
        1 <= layout.size() <= usize::MAX,
{
    assert(layout.size() <= usize::MAX) by (nonlinear_arith)
        requires
            layout.size() >= 0,
            layout.size() * (layout.size() + 1) <= usize::MAX,
    ;
}

proof fn lemma_resistor_in_range(layout: Layout, a: NodeId, b: NodeId)
    requires
        layout.wf(),
        a < layout.c_nodes,
        b < layout.c_nodes,
    ensures
        all_in_range(layout, resistor_stamps(a, b)),
{
    lemma_size_fits(layout);
    let g = Quantity::Conductance;
    let s1 = when(a != 0, seq![plus(a as int, a as int, g)]);
    let s2 = when(a != 0 && b != 0, seq![minus(a as int, b as int, g)]);
    let s3 = when(b != 0, seq![plus(b as int, b as int, g)]);
    let s4 = when(b != 0 && a != 0, seq![minus(b as int, a as int, g)]);
    lemma_join(layout, s1, s2);
    lemma_join(layout, s1 + s2, s3);
    lemma_join(layout, s1 + s2 + s3, s4);
}

proof fn lemma_current_source_in_range(layout: Layout, p: NodeId, n: NodeId)
    requires
        layout.wf(),
        p < layout.c_nodes,
        n < layout.c_nodes,
    ensures
        all_in_range(layout, current_source_stamps(layout, p, n)),
{
    lemma_size_fits(layout);
    let s1 = when(p != 0, seq![minus(p as int, layout.size(), Quantity::Source)]);
    let s2 = when(n != 0, seq![plus(n as int, layout.size(), Quantity::Source)]);
    lemma_join(layout, s1, s2);
}

proof fn lemma_voltage_source_in_range(layout: Layout, p: NodeId, n: NodeId, idx: usize)
    requires
        layout.wf(),
        p < layout.c_nodes,
        n < layout.c_nodes,
        idx < layout.c_vsrcs,
    ensures
        all_in_range(layout, voltage_source_stamps(layout, p, n, idx)),
{
    lemma_size_fits(layout);
    let branch = layout.c_nodes + idx;
    let s1 = seq![store(branch, layout.size(), Quantity::Source)];
    let s2 = when(
        p != 0,
        seq![store(branch, p as int, Quantity::One), store(p as int, branch, Quantity::One)],
    );
    let s3 = when(
        n != 0,
        seq![
            store_negated(branch, n as int, Quantity::One),
            store_negated(n as int, branch, Quantity::One),
        ],
    );
    lemma_join(layout, s1, s2);
    lemma_join(layout, s1 + s2, s3);
}

proof fn lemma_vcvs_in_range(
    layout: Layout,
    p: NodeId,
    n: NodeId,
    cp: NodeId,
    cn: NodeId,
    idx: usize,
)
    requires
        layout.wf(),
        p < layout.c_nodes,
        n < layout.c_nodes,
        cp < layout.c_nodes,
        cn < layout.c_nodes,
        idx < layout.c_vsrcs,
    ensures
        all_in_range(layout, vcvs_stamps(layout, p, n, cp, cn, idx)),
{
    lemma_size_fits(layout);
    let branch = layout.c_nodes + idx;
    let s1 = when(p != 0, seq![plus(p as int, branch, Quantity::One)]);
    let s2 = when(n != 0, seq![minus(n as int, branch, Quantity::One)]);
    let s3 = when(cp != 0, seq![plus(branch, cp as int, Quantity::Gain)]);
    let s4 = when(cn != 0, seq![minus(branch, cn as int, Quantity::Gain)]);
    let s5 = when(p != 0, seq![minus(branch, p as int, Quantity::One)]);
    let s6 = when(n != 0, seq![plus(branch, n as int, Quantity::One)]);
    lemma_join(layout, s1, s2);
    lemma_join(layout, s1 + s2, s3);
    lemma_join(layout, s1 + s2 + s3, s4);
    lemma_join(layout, s1 + s2 + s3 + s4, s5);
    lemma_join(layout, s1 + s2 + s3 + s4 + s5, s6);
}

proof fn lemma_vccs_in_range(layout: Layout, p: NodeId, n: NodeId, cp: NodeId, cn: NodeId)
    requires
        layout.wf(),
        p < layout.c_nodes,
        n < layout.c_nodes,
        cp < layout.c_nodes,
        cn < layout.c_nodes,
    ensures
        all_in_range(layout, vccs_stamps(p, n, cp, cn)),
{
    lemma_size_fits(layout);
    let k = Quantity::Gain;
    let s1 = when(p != 0 && cp != 0, seq![plus(p as int, cp as int, k)]);
    let s2 = when(p != 0 && cn != 0, seq![minus(p as int, cn as int, k)]);
    let s3 = when(n != 0 && cp != 0, seq![minus(n as int, cp as int, k)]);
    let s4 = when(n != 0 && cn != 0, seq![plus(n as int, cn as int, k)]);
    lemma_join(layout, s1, s2);
    lemma_join(layout, s1 + s2, s3);
    lemma_join(layout, s1 + s2 + s3, s4);
}

/// Stamps never touch ground, and stay inside the matrix: every stamp of an
/// element that fits the layout names a row from 1 to `n - 1` and a column
/// from 1 to `n`.
pub proof fn lemma_stamps_in_range(layout: Layout, e: Element)
    requires
        layout.wf(),
        fits(layout, e),
    ensures
        all_in_range(layout, element_stamps(layout, e)),
{
    let t = e.terminals();
    assert(t[0] < layout.c_nodes);
    assert(t[1] < layout.c_nodes);
    match e {
        Element::R(el) => {
            lemma_resistor_in_range(layout, el.a, el.b);
        },
        Element::I(el) => {
            lemma_current_source_in_range(layout, el.p, el.n);
        },
        Element::V(el) => {
            lemma_voltage_source_in_range(layout, el.p, el.n, el.idx);
        },
        Element::D(el) => {
            lemma_current_source_in_range(layout, el.p, el.n);
            lemma_resistor_in_range(layout, el.p, el.n);
            lemma_join(
                layout,
                current_source_stamps(layout, el.p, el.n),
                resistor_stamps(el.p, el.n),
            );
        },
        Element::Isin(el) => {
            lemma_current_source_in_range(layout, el.p, el.n);
        },
        Element::Vsin(el) => {
            lemma_voltage_source_in_range(layout, el.p, el.n, el.idx);
        },
        Element::Vpwl(el) => {
            lemma_voltage_source_in_range(layout, el.p, el.n, el.idx);
        },
        Element::C(el) => {
            lemma_current_source_in_range(layout, el.b, el.a);
            lemma_resistor_in_range(layout, el.a, el.b);
            lemma_join(
                layout,
                current_source_stamps(layout, el.b, el.a),
                resistor_stamps(el.a, el.b),
            );
        },
        Element::Vcvs(el) => {
            assert(t[2] < layout.c_nodes);
            assert(t[3] < layout.c_nodes);
            lemma_vcvs_in_range(layout, el.p, el.n, el.cp, el.cn, el.idx);
        },
        Element::Vccs(el) => {
            assert(t[2] < layout.c_nodes);
            assert(t[3] < layout.c_nodes);
            lemma_vccs_in_range(layout, el.p, el.n, el.cp, el.cn);
        },
    }
}

/// Every stamp of the list adds to its cell.
pub open spec fn all_accumulate(s: Seq<Stamp>) -> bool {
    forall|i: int| 0 <= i < s.len() ==> (#[trigger] s[i]).mode == Mode::Accumulate
}

/// Two lists that accumulate do so when joined.
proof fn lemma_join_accumulates(a: Seq<Stamp>, b: Seq<Stamp>)
    requires
        all_accumulate(a),
        all_accumulate(b),
    ensures
        all_accumulate(a + b),
{
    assert forall|i: int| 0 <= i < (a + b).len() implies (#[trigger] (a + b)[i]).mode
        == Mode::Accumulate by {
        if i < a.len() {
            assert((a + b)[i] == a[i]);
        } else {
            assert((a + b)[i] == b[i - a.len()]);
        }
    }
}

proof fn lemma_resistor_accumulates(a: NodeId, b: NodeId)
    ensures
        all_accumulate(resistor_stamps(a, b)),
{
    let g = Quantity::Conductance;
    let s1 = when(a != 0, seq![plus(a as int, a as int, g)]);
    let s2 = when(a != 0 && b != 0, seq![minus(a as int, b as int, g)]);
    let s3 = when(b != 0, seq![plus(b as int, b as int, g)]);
    let s4 = when(b != 0 && a != 0, seq![minus(b as int, a as int, g)]);
    lemma_join_accumulates(s1, s2);
    lemma_join_accumulates(s1 + s2, s3);
    lemma_join_accumulates(s1 + s2 + s3, s4);
}

proof fn lemma_current_source_accumulates(layout: Layout, p: NodeId, n: NodeId)
    ensures
        all_accumulate(current_source_stamps(layout, p, n)),
{
    let s1 = when(p != 0, seq![minus(p as int, layout.size(), Quantity::Source)]);
    let s2 = when(n != 0, seq![plus(n as int, layout.size(), Quantity::Source)]);
    lemma_join_accumulates(s1, s2);
}

/// Stamping accumulates. Whatever touches a cell that several elements may
/// share, a cell of the nodes or of the right-hand side of a node, adds to
/// it and never overwrites it: resistors, current sources, controlled
/// sources and companion models stamp by accumulation only. Only the
/// voltage sources overwrite, and only in the row and column of their own
/// branch.
pub proof fn lemma_stamps_accumulate(layout: Layout, e: Element)
    requires
        !(e is V),
        !(e is Vsin),
        !(e is Vpwl),
    ensures
        all_accumulate(element_stamps(layout, e)),
{
    match e {
        Element::R(el) => {
            lemma_resistor_accumulates(el.a, el.b);
        },
        Element::I(el) => {
            lemma_current_source_accumulates(layout, el.p, el.n);
        },
        Element::D(el) => {
            lemma_current_source_accumulates(layout, el.p, el.n);
            lemma_resistor_accumulates(el.p, el.n);
            lemma_join_accumulates(
                current_source_stamps(layout, el.p, el.n),
                resistor_stamps(el.p, el.n),
            );
        },
        Element::Isin(el) => {
            lemma_current_source_accumulates(layout, el.p, el.n);
        },
        Element::C(el) => {
            lemma_current_source_accumulates(layout, el.b, el.a);
            lemma_resistor_accumulates(el.a, el.b);
            lemma_join_accumulates(
                current_source_stamps(layout, el.b, el.a),
                resistor_stamps(el.a, el.b),
            );
        },
        Element::Vcvs(el) => {
            let branch = layout.c_nodes + el.idx;
            let s1 = when(el.p != 0, seq![plus(el.p as int, branch, Quantity::One)]);
            let s2 = when(el.n != 0, seq![minus(el.n as int, branch, Quantity::One)]);
            let s3 = when(el.cp != 0, seq![plus(branch, el.cp as int, Quantity::Gain)]);
            let s4 = when(el.cn != 0, seq![minus(branch, el.cn as int, Quantity::Gain)]);
            let s5 = when(el.p != 0, seq![minus(branch, el.p as int, Quantity::One)]);
            let s6 = when(el.n != 0, seq![plus(branch, el.n as int, Quantity::One)]);
            lemma_join_accumulates(s1, s2);
            lemma_join_accumulates(s1 + s2, s3);
            lemma_join_accumulates(s1 + s2 + s3, s4);
            lemma_join_accumulates(s1 + s2 + s3 + s4, s5);
            lemma_join_accumulates(s1 + s2 + s3 + s4 + s5, s6);
        },
        Element::Vccs(el) => {
            let k = Quantity::Gain;
            let s1 = when(el.p != 0 && el.cp != 0, seq![plus(el.p as int, el.cp as int, k)]);
            let s2 = when(el.p != 0 && el.cn != 0, seq![minus(el.p as int, el.cn as int, k)]);
            let s3 = when(el.n != 0 && el.cp != 0, seq![minus(el.n as int, el.cp as int, k)]);
            let s4 = when(el.n != 0 && el.cn != 0, seq![plus(el.n as int, el.cn as int, k)]);
            lemma_join_accumulates(s1, s2);
            lemma_join_accumulates(s1 + s2, s3);
            lemma_join_accumulates(s1 + s2 + s3, s4);
        },
        _ => {},
    }
}

/// Appends `stamp` to `v` if `keep`.
fn push_when(v: &mut Vec<Stamp>, keep: bool, stamp: Stamp)
    ensures
        final(v)@ == old(v)@ + when(keep, seq![stamp]),
{
    if keep {
        v.push(stamp);
        assert(v@ =~= old(v)@ + seq![stamp]);
    } else {
        assert(v@ =~= old(v)@ + Seq::<Stamp>::empty());
    }
}

/// Appends the stamps of a conductance between `a` and `b`.
fn push_resistor(v: &mut Vec<Stamp>, a: NodeId, b: NodeId)
    ensures
        final(v)@ == old(v)@ + resistor_stamps(a, b),
{
    let g = Quantity::Conductance;
    push_when(v, a != 0, Stamp { row: a, col: a, mode: Mode::Accumulate, sign: Sign::Plus, quantity: g });
    push_when(
        v,
        a != 0 && b != 0,
        Stamp { row: a, col: b, mode: Mode::Accumulate, sign: Sign::Minus, quantity: g },
    );
    push_when(v, b != 0, Stamp { row: b, col: b, mode: Mode::Accumulate, sign: Sign::Plus, quantity: g });
    push_when(
        v,
        b != 0 && a != 0,
        Stamp { row: b, col: a, mode: Mode::Accumulate, sign: Sign::Minus, quantity: g },
    );
    assert(v@ =~= old(v)@ + resistor_stamps(a, b));
}

/// Appends the stamps of a current that flows out of `n` and into `p`.
fn push_current_source(v: &mut Vec<Stamp>, layout: &Layout, p: NodeId, n: NodeId)
    requires
        layout.wf(),
    ensures
        final(v)@ == old(v)@ + current_source_stamps(*layout, p, n),
{
    let rhs = layout.rhs();
    let i = Quantity::Source;
    push_when(v, p != 0, Stamp { row: p, col: rhs, mode: Mode::Accumulate, sign: Sign::Minus, quantity: i });
    push_when(v, n != 0, Stamp { row: n, col: rhs, mode: Mode::Accumulate, sign: Sign::Plus, quantity: i });
    assert(v@ =~= old(v)@ + current_source_stamps(*layout, p, n));
}

/// Appends the stamps of a voltage from `n` to `p` with branch index `idx`.
fn push_voltage_source(v: &mut Vec<Stamp>, layout: &Layout, p: NodeId, n: NodeId, idx: usize)
    requires
        layout.wf(),
        idx < layout.c_vsrcs,
    ensures
        final(v)@ == old(v)@ + voltage_source_stamps(*layout, p, n, idx),
{
    let rhs = layout.rhs();
    let branch = layout.branch_row(idx);
    let one = Quantity::One;
    v.push(
        Stamp {
            row: branch,
            col: rhs,
            mode: Mode::Overwrite,
            sign: Sign::Plus,
            quantity: Quantity::Source,
        },
    );
    push_when(v, p != 0, Stamp { row: branch, col: p, mode: Mode::Overwrite, sign: Sign::Plus, quantity: one });
    push_when(v, p != 0, Stamp { row: p, col: branch, mode: Mode::Overwrite, sign: Sign::Plus, quantity: one });
    push_when(v, n != 0, Stamp { row: branch, col: n, mode: Mode::Overwrite, sign: Sign::Minus, quantity: one });
    push_when(v, n != 0, Stamp { row: n, col: branch, mode: Mode::Overwrite, sign: Sign::Minus, quantity: one });
    assert(v@ =~= old(v)@ + voltage_source_stamps(*layout, p, n, idx));
}

/// Appends the stamps of a voltage-controlled voltage source.
fn push_vcvs(
    v: &mut Vec<Stamp>,
    layout: &Layout,
    p: NodeId,
    n: NodeId,
    cp: NodeId,
    cn: NodeId,
    idx: usize,
)
    requires
        layout.wf(),
        idx < layout.c_vsrcs,
    ensures
        final(v)@ == old(v)@ + vcvs_stamps(*layout, p, n, cp, cn, idx),
{
    let branch = layout.branch_row(idx);
    let one = Quantity::One;
    let k = Quantity::Gain;
    push_when(v, p != 0, Stamp { row: p, col: branch, mode: Mode::Accumulate, sign: Sign::Plus, quantity: one });
    push_when(v, n != 0, Stamp { row: n, col: branch, mode: Mode::Accumulate, sign: Sign::Minus, quantity: one });
    push_when(v, cp != 0, Stamp { row: branch, col: cp, mode: Mode::Accumulate, sign: Sign::Plus, quantity: k });
    push_when(v, cn != 0, Stamp { row: branch, col: cn, mode: Mode::Accumulate, sign: Sign::Minus, quantity: k });
    push_when(v, p != 0, Stamp { row: branch, col: p, mode: Mode::Accumulate, sign: Sign::Minus, quantity: one });
    push_when(v, n != 0, Stamp { row: branch, col: n, mode: Mode::Accumulate, sign: Sign::Plus, quantity: one });
    assert(v@ =~= old(v)@ + vcvs_stamps(*layout, p, n, cp, cn, idx));
}

/// Appends the stamps of a voltage-controlled current source.
fn push_vccs(v: &mut Vec<Stamp>, p: NodeId, n: NodeId, cp: NodeId, cn: NodeId)
    ensures
        final(v)@ == old(v)@ + vccs_stamps(p, n, cp, cn),
{
    let k = Quantity::Gain;
    push_when(
        v,
        p != 0 && cp != 0,
        Stamp { row: p, col: cp, mode: Mode::Accumulate, sign: Sign::Plus, quantity: k },
    );
    push_when(
        v,
        p != 0 && cn != 0,
        Stamp { row: p, col: cn, mode: Mode::Accumulate, sign: Sign::Minus, quantity: k },
    );
    push_when(
        v,
        n != 0 && cp != 0,
        Stamp { row: n, col: cp, mode: Mode::Accumulate, sign: Sign::Minus, quantity: k },
    );
    push_when(
        v,
        n != 0 && cn != 0,
        Stamp { row: n, col: cn, mode: Mode::Accumulate, sign: Sign::Plus, quantity: k },
    );
    assert(v@ =~= old(v)@ + vccs_stamps(p, n, cp, cn));
}

/// The stamps of a conductance between `a` and `b`.
pub fn stamp_resistor(a: NodeId, b: NodeId) -> (v: Vec<Stamp>)
    ensures
        v@ == resistor_stamps(a, b),
{
    let mut v: Vec<Stamp> = Vec::new();
    push_resistor(&mut v, a, b);
    assert(v@ =~= resistor_stamps(a, b));
    v
}

/// The stamps of a current source from `n` to `p`.
pub fn stamp_current_source(layout: &Layout, p: NodeId, n: NodeId) -> (v: Vec<Stamp>)
    requires
        layout.wf(),
    ensures
        v@ == current_source_stamps(*layout, p, n),
{
    let mut v: Vec<Stamp> = Vec::new();
    push_current_source(&mut v, layout, p, n);
    assert(v@ =~= current_source_stamps(*layout, p, n));
    v
}

/// The stamps of a voltage source from `n` to `p` with branch index `idx`.
pub fn stamp_voltage_source(layout: &Layout, p: NodeId, n: NodeId, idx: usize) -> (v: Vec<Stamp>)
    requires
        layout.wf(),
        idx < layout.c_vsrcs,
    ensures
        v@ == voltage_source_stamps(*layout, p, n, idx),
{
    let mut v: Vec<Stamp> = Vec::new();
    push_voltage_source(&mut v, layout, p, n, idx);
    assert(v@ =~= voltage_source_stamps(*layout, p, n, idx));
    v
}

/// The stamps of any element.
pub fn stamp_element(layout: &Layout, e: &Element) -> (v: Vec<Stamp>)
    requires
        layout.wf(),
        e.branch() matches Some(idx) ==> idx < layout.c_vsrcs,
    ensures
        v@ == element_stamps(*layout, *e),
{
    let mut v: Vec<Stamp> = Vec::new();
    match e {
        Element::R(el) => {
            push_resistor(&mut v, el.a, el.b);
        },
        Element::I(el) => {
            push_current_source(&mut v, layout, el.p, el.n);
        },
        Element::V(el) => {
            push_voltage_source(&mut v, layout, el.p, el.n, el.idx);
        },
        Element::D(el) => {
            push_current_source(&mut v, layout, el.p, el.n);
            push_resistor(&mut v, el.p, el.n);
        },
        Element::Isin(el) => {
            push_current_source(&mut v, layout, el.p, el.n);
        },
        Element::Vsin(el) => {
            push_voltage_source(&mut v, layout, el.p, el.n, el.idx);
        },
        Element::Vpwl(el) => {
            push_voltage_source(&mut v, layout, el.p, el.n, el.idx);
        },
        Element::C(el) => {
            push_current_source(&mut v, layout, el.b, el.a);
            push_resistor(&mut v, el.a, el.b);
        },
        Element::Vcvs(el) => {
            push_vcvs(&mut v, layout, el.p, el.n, el.cp, el.cn, el.idx);
        },
        Element::Vccs(el) => {
            push_vccs(&mut v, el.p, el.n, el.cp, el.cn);
        },
    }
    assert(v@ =~= element_stamps(*layout, *e));
    v
}

} // verus!
