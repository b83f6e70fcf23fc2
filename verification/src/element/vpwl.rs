//! Piecewise-linear voltage source.
//!
//! The source follows a pattern of `(time, value)` points, optionally
//! delayed and repeated. Where in the pattern a time falls is decided here;
//! the interpolation between the two points found is left to the caller.

use vstd::prelude::*;
use crate::circuit::NodeId;
use crate::scalar::Scalar;

verus! {

/// A voltage source that follows a pattern of `(time, value)` points.
#[derive(Clone, Debug)]
pub struct VoltageSourcePwl {
    pub p: NodeId,
    pub n: NodeId,
    /// The pattern, as `(time, value)` points in order of time.
    pub pat: Vec<(Scalar, Scalar)>,
    /// Delay before the pattern starts.
    pub t_delay: Scalar,
    /// Repeat specification: negative when the pattern plays once.
    pub repeat: Scalar,
    /// Branch index: which branch-current unknown belongs to this source.
    pub idx: usize,
}

/// Which rule gives the value of the source at a time.
#[derive(Clone, Copy, Debug, PartialEq, Eq, Structural)]
pub enum Region {
    /// The pattern is empty: the value is zero.
    Empty,
    /// The pattern plays once and is over: the value is its last one.
    Held { value: Scalar },
    /// The time falls into the pattern: reduce it to a time within one
    /// period and look for its segment.
    Cycling { period: Scalar },
}

/// Where a time within one period falls.
#[derive(Clone, Copy, Debug, PartialEq, Eq, Structural)]
pub enum Segment {
    /// Before the pattern starts: the value is zero.
    BeforeStart,
    /// Between the point `(t1, v1)` and the point `(t2, v2)`.
    Span { t1: Scalar, v1: Scalar, t2: Scalar, v2: Scalar },
}

/// How many points at the head of `pat` lie strictly before `t`.
pub open spec fn passed(pat: Seq<(Scalar, Scalar)>, t: Scalar) -> nat
    decreases pat.len(),
{
    if pat.len() == 0 || !pat[0].0.below(t) {
        0
    } else {
        1 + passed(pat.drop_first(), t)
    }
}

/// `k` is the number of leading points before `t` exactly when the first `k`
/// points lie before `t` and the next one, if there is one, does not.
pub proof fn lemma_passed(pat: Seq<(Scalar, Scalar)>, t: Scalar, k: int)
    requires
        0 <= k <= pat.len(),
        forall|j: int| 0 <= j < k ==> (#[trigger] pat[j]).0.below(t),
        k < pat.len() ==> !pat[k].0.below(t),
    ensures
        passed(pat, t) == k,
    decreases pat.len(),
{
    if k > 0 {
        assert(pat[0].0.below(t));
        let rest = pat.drop_first();
        assert forall|j: int| 0 <= j < k - 1 implies (#[trigger] rest[j]).0.below(t) by {
            assert(rest[j] == pat[j + 1]);
        }
        if k < pat.len() {
            assert(rest[k - 1] == pat[k]);
        }
        lemma_passed(rest, t, k - 1);
    }
}

impl VoltageSourcePwl {
    /// The rule for time `t`, where `t_end` is the delay plus the time of the
    /// last point.
    pub open spec fn region_at(self, t: Scalar, t_end: Scalar) -> Region {
        if self.pat@.len() == 0 {
            Region::Empty
        } else if self.repeat.below(Scalar { bits: 0 }) && t_end.below(t) {
            Region::Held { value: self.pat@.last().1 }
        } else {
            Region::Cycling { period: self.pat@.last().0 }
        }
    }

    /// The segment of a time `t_cycle` within one period: the last of the
    /// leading points before `t_cycle` and the point after it, with `(0, 0)`
    /// standing in where there is no such point.
    pub open spec fn segment_at(self, t_cycle: Scalar) -> Segment {
        let zero = Scalar { bits: 0 };
        let k = passed(self.pat@, t_cycle) as int;
        if t_cycle.below(zero) {
            Segment::BeforeStart
        } else {
            Segment::Span {
                t1: if k == 0 {
                    zero
                } else {
                    self.pat@[k - 1].0
                },
                v1: if k == 0 {
                    zero
                } else {
                    self.pat@[k - 1].1
                },
                t2: if k == self.pat@.len() {
                    zero
                } else {
                    self.pat@[k].0
                },
                v2: if k == self.pat@.len() {
                    zero
                } else {
                    self.pat@[k].1
                },
            }
        }
    }

    /// The period of the pattern: the time of its last point.
    pub fn period(&self) -> (t: Option<Scalar>)
        ensures
            t == if self.pat@.len() == 0 {
                None::<Scalar>
            } else {
                Some(self.pat@.last().0)
            },
    {
        if self.pat.len() == 0 {
            None
        } else {
            Some(self.pat[self.pat.len() - 1].0)
        }
    }

    /// Picks the rule that gives the value at time `t`.
    pub fn region(&self, t: Scalar, t_end: Scalar) -> (r: Region)
        ensures
            r == self.region_at(t, t_end),
    {
        if self.pat.len() == 0 {
            return Region::Empty;
        }
        let last = self.pat[self.pat.len() - 1];
        if self.repeat.lt(&Scalar::zero_value()) && t.gt(&t_end) {
            Region::Held { value: last.1 }
        } else {
            Region::Cycling { period: last.0 }
        }
    }

    /// Finds the two points between which `t_cycle` falls.
    pub fn segment(&self, t_cycle: Scalar) -> (s: Segment)
        ensures
            s == self.segment_at(t_cycle),
    {
        let zero = Scalar::zero_value();
        if t_cycle.lt(&zero) {
            return Segment::BeforeStart;
        }
        let mut t1 = zero;
        let mut v1 = zero;
        let mut k: usize = 0;
        while k < self.pat.len() && t_cycle.gt(&self.pat[k].0)
            invariant
                k <= self.pat@.len(),
                forall|j: int| 0 <= j < k ==> (#[trigger] self.pat@[j]).0.below(t_cycle),
                k == 0 ==> t1 == zero && v1 == zero,
                k > 0 ==> t1 == self.pat@[k - 1].0 && v1 == self.pat@[k - 1].1,
                zero.bits == 0,
            decreases self.pat@.len() - k,
        {
            t1 = self.pat[k].0;
            v1 = self.pat[k].1;
            k = k + 1;
        }
        proof {
            lemma_passed(self.pat@, t_cycle, k as int);
        }
        if k < self.pat.len() {
            Segment::Span { t1, v1, t2: self.pat[k].0, v2: self.pat[k].1 }
        } else {
            Segment::Span { t1, v1, t2: zero, v2: zero }
        }
    }
}

} // verus!
