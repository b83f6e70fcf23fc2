//! Diode, and the decisions of its companion model.
//!
//! The diode law `I_D = I_sat * (exp(V_D / V_T) - 1)` is evaluated by the
//! caller. What is decided here is how far the diode voltage may move in one
//! Newton-Raphson iteration (the critical-voltage method) and which
//! conductance goes into the matrix.

use vstd::prelude::*;
use crate::circuit::NodeId;
use crate::element::DeviceError;
use crate::scalar::Scalar;

verus! {

/// A diode with anode `p` and cathode `n`.
#[derive(Clone, Copy, Debug, PartialEq, Eq, Structural)]
pub struct Diode {
    pub p: NodeId,
    pub n: NodeId,
    /// Saturation current in amperes.
    pub i_sat: Scalar,
    /// Junction temperature in degrees Celsius.
    pub tdegc: Scalar,
}

/// How the voltage asked for by the Newton-Raphson iterate is limited.
#[derive(Clone, Copy, Debug, PartialEq, Eq, Structural)]
pub enum Limiting {
    /// Use the requested voltage as it is.
    Keep,
    /// Use `V_T * ln(v_hat / V_T)`.
    LogOfRatio,
    /// Use the critical voltage.
    Critical,
    /// Use `v_prev + V_T * ln(1 + (v_hat - v_prev) / V_T)`.
    LogStep,
}

impl Diode {
    /// A diode between `p` and `n`.
    pub fn new(p: NodeId, n: NodeId, i_sat: Scalar, tdegc: Scalar) -> (d: Diode)
        ensures
            d == (Diode { p, n, i_sat, tdegc }),
    {
        Diode { p, n, i_sat, tdegc }
    }

    /// The limiting rule of the critical-voltage method.
    ///
    /// `v_hat` is the requested voltage, `v_prev` the voltage used in the
    /// iteration before, `v_delta` their difference, `v_band` twice the
    /// thermal voltage and `arg` the value `1 + v_delta / V_T`.
    pub open spec fn limiting(
        v_hat: Scalar,
        v_prev: Scalar,
        v_crit: Scalar,
        v_delta: Scalar,
        v_band: Scalar,
        arg: Scalar,
    ) -> Limiting {
        let zero = Scalar { bits: 0 };
        let step = v_delta.magnitude_word();
        if v_hat.below(v_crit) {
            Limiting::Keep
        } else if step.below(v_band) || step.equals(v_band) {
            Limiting::Keep
        } else if v_prev.below(zero) || v_prev.equals(zero) {
            Limiting::LogOfRatio
        } else if arg.below(zero) || arg.equals(zero) {
            Limiting::Critical
        } else {
            Limiting::LogStep
        }
    }

    /// Picks the limiting rule for one iteration.
    ///
    /// A request below the critical voltage, or one that moves by no more
    /// than `v_band`, is kept. A larger move is replaced by a logarithmic
    /// one: from the thermal voltage when the previous voltage was not
    /// positive, else from the previous voltage, falling back to the critical
    /// voltage where the logarithm has no argument.
    pub fn limit(
        v_hat: Scalar,
        v_prev: Scalar,
        v_crit: Scalar,
        v_delta: Scalar,
        v_band: Scalar,
        arg: Scalar,
    ) -> (rule: Limiting)
        ensures
            rule == Self::limiting(v_hat, v_prev, v_crit, v_delta, v_band, arg),
    {
        let zero = Scalar::zero_value();
        if v_hat.lt(&v_crit) {
            Limiting::Keep
        } else if v_delta.abs().le(&v_band) {
            Limiting::Keep
        } else if v_prev.le(&zero) {
            Limiting::LogOfRatio
        } else if arg.le(&zero) {
            Limiting::Critical
        } else {
            Limiting::LogStep
        }
    }

    /// The conductance of the companion model: `g` where it is at least
    /// `gmin`, else `gmin`. A slope that is no number is not at least
    /// `gmin`, and gives `gmin`.
    pub open spec fn floored(g: Scalar, gmin: Scalar) -> Scalar {
        if gmin.below(g) || gmin.equals(g) {
            g
        } else {
            gmin
        }
    }

    /// Settles the equivalent conductance of the companion model.
    ///
    /// `i_d` is the diode current at the limited voltage and `g` the slope
    /// `(I_sat / V_T) * exp(V_D / V_T)` of the diode law there. A current that
    /// is infinite or not a number is fatal. Otherwise the conductance is
    /// `g`, but never less than `gmin` and never not a number.
    pub fn conductance(i_d: Scalar, g: Scalar, gmin: Scalar) -> (r: Result<Scalar, DeviceError>)
        ensures
            r == if i_d.finite() {
                Ok::<Scalar, DeviceError>(Self::floored(g, gmin))
            } else {
                Err::<Scalar, DeviceError>(DeviceError::NonFiniteCurrent)
            },
    {
        if i_d.is_finite() {
            if g.ge(&gmin) {
                Ok(g)
            } else {
                Ok(gmin)
            }
        } else {
            Err(DeviceError::NonFiniteCurrent)
        }
    }
}

/// The equivalent conductance is never below the floor: whatever the
/// slope, be it no number at all, the conductance that goes into the matrix
/// is a number and is numerically at least `gmin`.
pub proof fn lemma_conductance_at_least_gmin(g: Scalar, gmin: Scalar)
    requires
        !gmin.nan(),
    ensures
        gmin.below(Diode::floored(g, gmin)) || gmin.equals(Diode::floored(g, gmin)),
        !Diode::floored(g, gmin).nan(),
{
}

} // verus!
