//! Independent DC sources.

use vstd::prelude::*;
use crate::circuit::NodeId;
use crate::scalar::Scalar;

verus! {

/// A DC current source. A positive value flows out of `n`, through the
/// circuit, and into `p`.
#[derive(Clone, Copy, Debug, PartialEq, Eq, Structural)]
pub struct CurrentSource {
    pub p: NodeId,
    pub n: NodeId,
    /// Current in amperes.
    pub value: Scalar,
}

/// A DC voltage source that holds `p` at `value` volts above `n`.
#[derive(Clone, Copy, Debug, PartialEq, Eq, Structural)]
pub struct VoltageSource {
    pub p: NodeId,
    pub n: NodeId,
    /// Voltage in volts.
    pub value: Scalar,
    /// Branch index: which branch-current unknown belongs to this source.
    pub idx: usize,
}

} // verus!
