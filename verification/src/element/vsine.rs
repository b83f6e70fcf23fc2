//! Sinusoidal voltage source.

use vstd::prelude::*;
use crate::circuit::NodeId;
use crate::scalar::Scalar;

verus! {

/// A voltage source whose value is `vo + va * sin(2 pi freq t)`.
#[derive(Clone, Copy, Debug, PartialEq, Eq, Structural)]
pub struct VoltageSourceSine {
    pub p: NodeId,
    pub n: NodeId,
    /// Offset in volts.
    pub vo: Scalar,
    /// Amplitude in volts.
    pub va: Scalar,
    /// Frequency in hertz.
    pub freq: Scalar,
    /// Branch index: which branch-current unknown belongs to this source.
    pub idx: usize,
}

} // verus!
