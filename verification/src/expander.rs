//! Rules of subcircuit expansion: which definition an instantiation names,
//! and which device an instantiated primitive is.

use vstd::prelude::*;
use crate::circuit::Circuit;
use crate::spice::{begins_with, same, starts_with};

verus! {

/// The devices that can be instantiated as primitives.
#[derive(Clone, Copy, Debug, PartialEq, Eq, Structural)]
pub enum Primitive {
    Resistor,
    Capacitor,
    Diode,
    Vcvs,
    Vccs,
}

/// The device that an instance name stands for, by its first letter: `R`,
/// `C`, `D`, `E` for a voltage-controlled voltage source, `G` for a
/// voltage-controlled current source.
pub open spec fn primitive_of(name: Seq<char>) -> Option<Primitive> {
    if starts_with(name, 'R') {
        Some(Primitive::Resistor)
    } else if starts_with(name, 'C') {
        Some(Primitive::Capacitor)
    } else if starts_with(name, 'D') {
        Some(Primitive::Diode)
    } else if starts_with(name, 'E') {
        Some(Primitive::Vcvs)
    } else if starts_with(name, 'G') {
        Some(Primitive::Vccs)
    } else {
        None
    }
}

impl Primitive {
    /// Number of nodes that the device connects to on its line of the deck:
    /// four for a controlled source, which names its controlling nodes too,
    /// two for anything else.
    pub open spec fn port_count(self) -> nat {
        match self {
            Primitive::Vcvs | Primitive::Vccs => 4,
            _ => 2,
        }
    }

    /// Number of values that the line of the device has to give at least: a
    /// diode needs none, every other device one.
    pub open spec fn value_count(self) -> nat {
        match self {
            Primitive::Diode => 0,
            _ => 1,
        }
    }

    /// Number of node names on the line of the device.
    pub fn ports(&self) -> (n: usize)
        ensures
            n == self.port_count(),
    {
        match self {
            Primitive::Vcvs | Primitive::Vccs => 4,
            _ => 2,
        }
    }

    /// Least number of values on the line of the device.
    pub fn min_values(&self) -> (n: usize)
        ensures
            n == self.value_count(),
    {
        match self {
            Primitive::Diode => 0,
            _ => 1,
        }
    }

    /// Tells whether a line of so many words can describe the device: the
    /// name, the nodes and the values have to be there.
    pub fn has_enough(&self, words: usize) -> (b: bool)
        ensures
            b == (words >= 1 + self.port_count() + self.value_count()),
    {
        words >= 1 + self.ports() + self.min_values()
    }
}

/// Tells which device an instantiated primitive is.
pub fn primitive(name: &str) -> (p: Option<Primitive>)
    ensures
        p == primitive_of(name@),
{
    if begins_with(name, 'R') {
        Some(Primitive::Resistor)
    } else if begins_with(name, 'C') {
        Some(Primitive::Capacitor)
    } else if begins_with(name, 'D') {
        Some(Primitive::Diode)
    } else if begins_with(name, 'E') {
        Some(Primitive::Vcvs)
    } else if begins_with(name, 'G') {
        Some(Primitive::Vccs)
    } else {
        None
    }
}

/// Tells whether an instance instantiates a device rather than a
/// subcircuit: a device goes by the subcircuit name `/device`.
pub fn is_device(subckt: &str) -> (b: bool)
    ensures
        b == (subckt@ == "/device"@),
{
    same(subckt, "/device")
}

/// The position of the first circuit called `name`, from position `i` on.
pub open spec fn index_from(ckts: Seq<Circuit>, i: int, name: Seq<char>) -> Option<usize>
    decreases ckts.len() - i,
{
    if i < 0 || i >= ckts.len() {
        None
    } else if ckts[i].name@ == name {
        Some(i as usize)
    } else {
        index_from(ckts, i + 1, name)
    }
}

/// Finds the position of the subcircuit called `name` among the circuits
/// of a deck: the first one of that name.
pub fn find_subckt_index(ckts: &Vec<Circuit>, name: &str) -> (idx: Option<usize>)
    ensures
        idx == index_from(ckts@, 0, name@),
{
    let wanted = name.to_owned();
    let mut i: usize = 0;
    while i < ckts.len()
        invariant
            i <= ckts@.len(),
            wanted@ == name@,
            index_from(ckts@, 0, name@) == index_from(ckts@, i as int, name@),
        decreases ckts@.len() - i,
    {
        if ckts[i].name == wanted {
            return Some(i);
        }
        i = i + 1;
    }
    None
}

} // verus!
