//! Sinusoidal current source.

use vstd::prelude::*;
use crate::circuit::NodeId;
use crate::scalar::Scalar;

verus! {

/// A current source whose value is `vo + va * sin(2 pi freq t)`.
#[derive(Clone, Copy, Debug, PartialEq, Eq, Structural)]
pub struct CurrentSourceSine {
    pub p: NodeId,
    pub n: NodeId,
    /// Offset in amperes.
    pub vo: Scalar,
    /// Amplitude in amperes.
    pub va: Scalar,
    /// Frequency in hertz.
    pub freq: Scalar,
}

} // verus!
