//! Circuit elements.

use vstd::prelude::*;
use crate::circuit::NodeId;
use crate::scalar::{Scalar, ONE_BITS};
use crate::stamp::Quantity;

pub mod capacitor;
pub mod diode;
pub mod independent;
pub mod isine;
pub mod resistor;
pub mod vdepsrc;
pub mod vpwl;
pub mod vsine;

verus! {

/// A device law was violated; the analysis cannot go on.
#[derive(Clone, Copy, Debug, PartialEq, Eq, Structural)]
pub enum DeviceError {
    /// The current through a diode is infinite or not a number.
    NonFiniteCurrent,
    /// The control voltage of a VCCS lies beyond the hard bound.
    ControlOutOfRange,
}

/// How an element enters the circuit equations.
#[derive(Clone, Copy, Debug, PartialEq, Eq, Structural)]
pub enum Class {
    /// Independent of solution and time: stamped once, into the base matrix.
    Base,
    /// Depends on the present iterate: stamped through a companion model in
    /// every iteration.
    Nonlinear,
    /// An independent source that varies with time.
    Independent,
    /// A source controlled by a voltage elsewhere in the circuit.
    VoltageDependent,
    /// Stores energy: stamped through a companion model at every time step.
    Storage,
}

/// The circuit elements that the simulator supports.
#[derive(Clone, Debug)]
pub enum Element {
    R(resistor::Resistor),
    I(independent::CurrentSource),
    V(independent::VoltageSource),
    D(diode::Diode),
    Isin(isine::CurrentSourceSine),
    Vsin(vsine::VoltageSourceSine),
    Vpwl(vpwl::VoltageSourcePwl),
    C(capacitor::Capacitor),
    Vcvs(vdepsrc::Vcvs),
    Vccs(vdepsrc::Vccs),
}

impl Element {
    /// The nodes that the element connects to, controlling nodes last.
    pub open spec fn terminals(self) -> Seq<NodeId> {
        match self {
            Element::R(el) => seq![el.a, el.b],
            Element::I(el) => seq![el.p, el.n],
            Element::V(el) => seq![el.p, el.n],
            Element::D(el) => seq![el.p, el.n],
            Element::Isin(el) => seq![el.p, el.n],
            Element::Vsin(el) => seq![el.p, el.n],
            Element::Vpwl(el) => seq![el.p, el.n],
            Element::C(el) => seq![el.a, el.b],
            Element::Vcvs(el) => seq![el.p, el.n, el.cp, el.cn],
            Element::Vccs(el) => seq![el.p, el.n, el.cp, el.cn],
        }
    }

    /// The branch index of an element that defines a voltage, which brings a
    /// branch current into the unknowns.
    pub open spec fn branch(self) -> Option<usize> {
        match self {
            Element::V(el) => Some(el.idx),
            Element::Vsin(el) => Some(el.idx),
            Element::Vpwl(el) => Some(el.idx),
            Element::Vcvs(el) => Some(el.idx),
            _ => None,
        }
    }

    /// How the element enters the circuit equations.
    pub open spec fn class(self) -> Class {
        match self {
            Element::R(_) | Element::I(_) | Element::V(_) => Class::Base,
            Element::D(_) => Class::Nonlinear,
            Element::Isin(_) | Element::Vsin(_) | Element::Vpwl(_) => Class::Independent,
            Element::C(_) => Class::Storage,
            Element::Vcvs(_) | Element::Vccs(_) => Class::VoltageDependent,
        }
    }

    /// The quantity `q` of the element, where the element holds it as it
    /// is: the number one, the gain of a controlled source, the value of a
    /// DC source. Everything else has to be worked out: the conductance of a
    /// resistor from its resistance, the value of a time-varying source
    /// from the time, the conductance and current of a companion model from
    /// the operating point.
    pub open spec fn held(self, q: Quantity) -> Option<Scalar> {
        match q {
            Quantity::One => Some(Scalar { bits: ONE_BITS }),
            Quantity::Gain => match self {
                Element::Vcvs(el) => Some(el.k),
                Element::Vccs(el) => Some(el.k),
                _ => None,
            },
            Quantity::Source => match self {
                Element::I(el) => Some(el.value),
                Element::V(el) => Some(el.value),
                _ => None,
            },
            Quantity::Conductance => None,
        }
    }

    /// Looks up a quantity that the element holds as it is.
    pub fn stored(&self, q: Quantity) -> (x: Option<Scalar>)
        ensures
            x == self.held(q),
    {
        match q {
            Quantity::One => Some(Scalar::one()),
            Quantity::Gain => match self {
                Element::Vcvs(el) => Some(el.k),
                Element::Vccs(el) => Some(el.k),
                _ => None,
            },
            Quantity::Source => match self {
                Element::I(el) => Some(el.value),
                Element::V(el) => Some(el.value),
                _ => None,
            },
            Quantity::Conductance => None,
        }
    }

    /// The nodes that the element connects to.
    pub fn nodes(&self) -> (v: Vec<NodeId>)
        ensures
            v@ == self.terminals(),
    {
        let mut v: Vec<NodeId> = Vec::new();
        match self {
            Element::R(el) => {
                v.push(el.a);
                v.push(el.b);
            },
            Element::I(el) => {
                v.push(el.p);
                v.push(el.n);
            },
            Element::V(el) => {
                v.push(el.p);
                v.push(el.n);
            },
            Element::D(el) => {
                v.push(el.p);
                v.push(el.n);
            },
            Element::Isin(el) => {
                v.push(el.p);
                v.push(el.n);
            },
            Element::Vsin(el) => {
                v.push(el.p);
                v.push(el.n);
            },
            Element::Vpwl(el) => {
                v.push(el.p);
                v.push(el.n);
            },
            Element::C(el) => {
                v.push(el.a);
                v.push(el.b);
            },
            Element::Vcvs(el) => {
                v.push(el.p);
                v.push(el.n);
                v.push(el.cp);
                v.push(el.cn);
            },
            Element::Vccs(el) => {
                v.push(el.p);
                v.push(el.n);
                v.push(el.cp);
                v.push(el.cn);
            },
        }
        assert(v@ =~= self.terminals());
        v
    }

    /// The branch index, for an element that defines a voltage.
    pub fn branch_index(&self) -> (b: Option<usize>)
        ensures
            b == self.branch(),
    {
        match self {
            Element::V(el) => Some(el.idx),
            Element::Vsin(el) => Some(el.idx),
            Element::Vpwl(el) => Some(el.idx),
            Element::Vcvs(el) => Some(el.idx),
            _ => None,
        }
    }

    /// Classifies the element.
    pub fn classify(&self) -> (c: Class)
        ensures
            c == self.class(),
    {
        match self {
            Element::R(_) | Element::I(_) | Element::V(_) => Class::Base,
            Element::D(_) => Class::Nonlinear,
            Element::Isin(_) | Element::Vsin(_) | Element::Vpwl(_) => Class::Independent,
            Element::C(_) => Class::Storage,
            Element::Vcvs(_) | Element::Vccs(_) => Class::VoltageDependent,
        }
    }
}

} // verus!
