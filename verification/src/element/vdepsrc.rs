//! Voltage-controlled dependent sources.
//!
//! * `E`: voltage-controlled voltage source (VCVS)
//! * `G`: voltage-controlled current source (VCCS)

use vstd::prelude::*;
use crate::circuit::NodeId;
use crate::element::DeviceError;
use crate::scalar::{Scalar, SIGN_BIT};

verus! {

/// Word of 0.01, the largest change of a control voltage in one step.
pub const SLEW_LIMIT: u64 = 0x3F84_7AE1_47AE_147B;

/// Word of 1.0e4, the largest magnitude a control voltage may have.
pub const CONTROL_BOUND: u64 = 0x40C3_8800_0000_0000;

/// A source that holds `v(p) - v(n)` at `k` times `v(cp) - v(cn)`.
#[derive(Clone, Debug)]
pub struct Vcvs {
    pub ident: String,
    pub p: NodeId,
    pub n: NodeId,
    pub cp: NodeId,
    pub cn: NodeId,
    /// Voltage gain.
    pub k: Scalar,
    /// Branch index: which branch-current unknown belongs to this source.
    pub idx: usize,
}

/// A source that drives `k` times `v(cp) - v(cn)` amperes in through `p` and
/// out through `n`.
#[derive(Clone, Debug)]
pub struct Vccs {
    pub ident: String,
    pub p: NodeId,
    pub n: NodeId,
    pub cp: NodeId,
    pub cn: NodeId,
    /// Transconductance in siemens.
    pub k: Scalar,
}

/// How a change of the control voltage is slew-limited.
#[derive(Clone, Copy, Debug, PartialEq, Eq, Structural)]
pub enum Slew {
    /// The change is within the limit: use the new voltage.
    Hold,
    /// The voltage rose too fast: use the previous voltage plus the limit.
    Rise,
    /// The voltage fell too fast: use the previous voltage minus the limit.
    Fall,
}

impl Vccs {
    /// A VCCS with the given terminals and transconductance.
    pub fn new(ident: &str, p: NodeId, n: NodeId, cp: NodeId, cn: NodeId, k: Scalar) -> (g: Vccs)
        ensures
            g.ident@ == ident@,
            g.p == p,
            g.n == n,
            g.cp == cp,
            g.cn == cn,
            g.k == k,
    {
        Vccs { ident: ident.to_owned(), p, n, cp, cn, k }
    }

    /// The slew rule for a control voltage that changed by `delta`.
    pub open spec fn slew_rule(delta: Scalar) -> Slew {
        if (Scalar { bits: SLEW_LIMIT }).below(delta) {
            Slew::Rise
        } else if delta.below(Scalar { bits: (SLEW_LIMIT + SIGN_BIT) as u64 }) {
            Slew::Fall
        } else {
            Slew::Hold
        }
    }

    /// Limits the change of the control voltage to 0.01 per step, in either
    /// direction. `delta` is the new control voltage minus the previous one.
    pub fn slew(delta: Scalar) -> (rule: Slew)
        ensures
            rule == Self::slew_rule(delta),
    {
        let limit = Scalar::from_bits(SLEW_LIMIT);
        if delta.gt(&limit) {
            Slew::Rise
        } else if delta.lt(&limit.neg()) {
            Slew::Fall
        } else {
            Slew::Hold
        }
    }

    /// Checks the slew-limited control voltage against the hard bound: a
    /// magnitude above 1.0e4 volts is fatal.
    pub fn check_control(v: Scalar) -> (r: Result<(), DeviceError>)
        ensures
            r is Err <==> (Scalar { bits: CONTROL_BOUND }).below(v.magnitude_word()),
            r is Err ==> r == Err::<(), DeviceError>(DeviceError::ControlOutOfRange),
    {
        let bound = Scalar::from_bits(CONTROL_BOUND);
        if v.abs().gt(&bound) {
            Err(DeviceError::ControlOutOfRange)
        } else {
            Ok(())
        }
    }
}

} // verus!
