//! Capacitor.

use vstd::prelude::*;
use crate::circuit::NodeId;
use crate::scalar::Scalar;

verus! {

/// A capacitor between nodes `a` and `b`.
#[derive(Clone, Debug)]
pub struct Capacitor {
    pub ident: String,
    pub a: NodeId,
    pub b: NodeId,
    /// Capacitance in farads.
    pub value: Scalar,
}

impl Capacitor {
    /// A capacitor of `value` farads between `a` and `b`.
    pub fn new(ident: &str, a: NodeId, b: NodeId, value: Scalar) -> (c: Capacitor)
        ensures
            c.ident@ == ident@,
            c.a == a,
            c.b == b,
            c.value == value,
    {
        Capacitor { ident: ident.to_owned(), a, b, value }
    }
}

} // verus!
