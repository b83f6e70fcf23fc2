//! Decision core of a SPICE-style circuit simulator.
//!
//! Given a flat circuit, the simulator computes the node voltages and the
//! branch currents that satisfy Kirchhoff's laws, at a DC operating point or
//! over time. This crate holds everything about it that is a rule rather
//! than a rounding: the circuit data model, the stamping rules of Modified
//! Nodal Analysis, the sequencing and the pivoting of the linear solver, the
//! convergence verdict, the Newton-Raphson iteration control and the
//! step-size control of the transient integrator, together with the rules
//! by which a netlist is put into words, values and names.
//!
//! Every quantity is carried as a binary64 bit pattern
//! ([`scalar::Scalar`]). The library orders such words and tests their
//! class, but it never rounds: sums, products, quotients and transcendental
//! functions are the caller's, who works them out where the library asks
//! for them and feeds the results back.

pub mod scalar;
pub mod analysis;
pub mod engine;
pub mod transient;
pub mod circuit;
pub mod element;
pub mod matrix;
pub mod stamp;
pub mod newton;
pub mod solver;
pub mod bracket_expression;
pub mod parameter;
pub mod expander;
pub mod spice;
