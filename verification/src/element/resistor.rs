//! Resistor.

use vstd::prelude::*;
use crate::circuit::NodeId;
use crate::scalar::Scalar;

verus! {

/// A resistor between nodes `a` and `b`.
#[derive(Clone, Debug)]
pub struct Resistor {
    pub ident: String,
    pub a: NodeId,
    pub b: NodeId,
    /// Resistance in ohms.
    pub value: Scalar,
}

} // verus!
