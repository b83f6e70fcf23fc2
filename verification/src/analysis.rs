//! Analysis kinds, simulator options and the result summary of a run.

use vstd::prelude::*;
use crate::scalar::Scalar;

verus! {

/// Word of the default `GMIN`, 1.0e-12 siemens.
pub const DEFAULT_GMIN: u64 = 0x3D71_9799_812D_EA11;

/// Word of the default `TDEGC`, 27 degrees Celsius.
pub const DEFAULT_TDEGC: u64 = 0x403B_0000_0000_0000;

/// Word of the default `RELTOL`, 0.0001.
pub const DEFAULT_RELTOL: u64 = 0x3F1A_36E2_EB1C_432D;

/// Word of the default `VNTOL`, 1.0e-6 volts.
pub const DEFAULT_VNTOL: u64 = 0x3EB0_C6F7_A0B5_ED8D;

/// Word of the default `ABSTOL`, 1.0e-9 amperes.
pub const DEFAULT_ABSTOL: u64 = 0x3E11_2E0B_E826_D695;

/// Word of the default `TSTOP`, 1.0e-3 seconds.
pub const DEFAULT_TSTOP: u64 = 0x3F50_624D_D2F1_A9FC;

/// Word of the default `TSTEP`, 1.0e-6 seconds.
pub const DEFAULT_TSTEP: u64 = 0x3EB0_C6F7_A0B5_ED8D;

/// Word of the default `FS` and `FT`, 0.25.
pub const DEFAULT_STEP_FRACTION: u64 = 0x3FD0_0000_0000_0000;

/// Word of the default `RMIN`, 1.0e3.
pub const DEFAULT_RMIN: u64 = 0x408F_4000_0000_0000;

/// Word of the default `RMAX`, 5.0.
pub const DEFAULT_RMAX: u64 = 0x4014_0000_0000_0000;

/// The analyses a configuration can select.
#[derive(Clone, Copy, Debug, PartialEq, Eq, Structural)]
pub enum Kind {
    DcOperatingPoint,
    DcSweep,
    Transient,
}

impl Kind {
    /// The printed name of the analysis.
    pub open spec fn label(self) -> Seq<char> {
        match self {
            Kind::Transient => "Transient"@,
            Kind::DcOperatingPoint => "DC Operating Point"@,
            Kind::DcSweep => "DC Sweep"@,
        }
    }

    /// The printed name of the analysis, as an owned string.
    pub fn to_string(&self) -> (s: String)
        ensures
            s@ == self.label(),
    {
        match self {
            Kind::Transient => "Transient".to_owned(),
            Kind::DcOperatingPoint => "DC Operating Point".to_owned(),
            Kind::DcSweep => "DC Sweep".to_owned(),
        }
    }
}

/// Summary of one analysis run.
#[derive(Clone, Copy, Debug, PartialEq, Eq, Structural)]
pub struct Statistics {
    /// Which analysis ran.
    pub kind: Kind,
    /// Simulated time at which the run ended.
    pub end: Scalar,
    /// Newton-Raphson solves performed, over the whole run.
    pub iterations: usize,
    /// The operating point converged, or the transient run reached its end.
    pub converged: bool,
}

/// The simulator options and the selected analysis.
#[derive(Clone, Debug)]
#[allow(non_snake_case)]
pub struct Configuration {
    /// What kind of analysis to run.
    pub kind: Option<Kind>,
    /// Minimum conductance between nodes.
    pub GMIN: Scalar,
    /// Ambient temperature in degrees Celsius.
    pub TDEGC: Scalar,
    /// Relative tolerance target for convergence.
    pub RELTOL: Scalar,
    /// Absolute tolerance on node voltages.
    pub VNTOL: Scalar,
    /// Absolute tolerance on branch currents.
    pub ABSTOL: Scalar,
    /// Iteration cap of the operating-point solve.
    pub ITL1: usize,
    /// Time from which transient samples are recorded.
    pub TSTART: Scalar,
    /// Time at which the transient run stops.
    pub TSTOP: Scalar,
    /// Nominal transient step.
    pub TSTEP: Scalar,
    /// Fraction of `TSTEP` taken as the first step.
    pub FS: Scalar,
    /// Factor applied to the step when a time point fails to converge.
    pub FT: Scalar,
    /// Smallest allowed step, as a multiple of `TSTEP`.
    pub RMIN: Scalar,
    /// Largest allowed step, as a multiple of `TSTEP`.
    pub RMAX: Scalar,
    /// A time point that converges in fewer solves than this lets the step grow.
    pub ITL3: usize,
    /// A time point that has not converged after this many solves shrinks the step.
    pub ITL4: usize,
    /// Name of the file that receives the waveforms.
    pub wavefile: String,
}

impl Configuration {
    /// The option values of a fresh configuration. The waveform file name and
    /// the analysis kind are left aside.
    pub open spec fn has_default_options(self) -> bool {
        &&& self.GMIN.bits == DEFAULT_GMIN
        &&& self.TDEGC.bits == DEFAULT_TDEGC
        &&& self.RELTOL.bits == DEFAULT_RELTOL
        &&& self.VNTOL.bits == DEFAULT_VNTOL
        &&& self.ABSTOL.bits == DEFAULT_ABSTOL
        &&& self.ITL1 == 50
        &&& self.TSTART.bits == 0
        &&& self.TSTOP.bits == DEFAULT_TSTOP
        &&& self.TSTEP.bits == DEFAULT_TSTEP
        &&& self.FS.bits == DEFAULT_STEP_FRACTION
        &&& self.FT.bits == DEFAULT_STEP_FRACTION
        &&& self.RMIN.bits == DEFAULT_RMIN
        &&& self.RMAX.bits == DEFAULT_RMAX
        &&& self.ITL3 == 6
        &&& self.ITL4 == 50
    }

    /// A configuration with every option at its default and no analysis
    /// selected.
    pub fn new() -> (cfg: Configuration)
        ensures
            cfg.kind is None,
            cfg.has_default_options(),
            cfg.wavefile@ == "waves/default.dat"@,
    {
        Configuration {
            kind: None,
            GMIN: Scalar { bits: DEFAULT_GMIN },
            TDEGC: Scalar { bits: DEFAULT_TDEGC },
            RELTOL: Scalar { bits: DEFAULT_RELTOL },
            VNTOL: Scalar { bits: DEFAULT_VNTOL },
            ABSTOL: Scalar { bits: DEFAULT_ABSTOL },
            ITL1: 50,
            TSTART: Scalar { bits: 0 },
            TSTOP: Scalar { bits: DEFAULT_TSTOP },
            TSTEP: Scalar { bits: DEFAULT_TSTEP },
            FS: Scalar { bits: DEFAULT_STEP_FRACTION },
            FT: Scalar { bits: DEFAULT_STEP_FRACTION },
            RMIN: Scalar { bits: DEFAULT_RMIN },
            RMAX: Scalar { bits: DEFAULT_RMAX },
            ITL3: 6,
            ITL4: 50,
            wavefile: "waves/default.dat".to_owned(),
        }
    }

    /// Selects a transient analysis over the given times.
    pub fn set_transient(&mut self, tstop: Scalar, tstep: Scalar, tstart: Scalar)
        ensures
            *final(self) == (Configuration {
                kind: Some(Kind::Transient),
                TSTOP: tstop,
                TSTEP: tstep,
                TSTART: tstart,
                ..*old(self)
            }),
    {
        self.kind = Some(Kind::Transient);
        self.TSTOP = tstop;
        self.TSTEP = tstep;
        self.TSTART = tstart;
    }

    /// Selects a DC operating-point analysis.
    pub fn set_dc_operating_point(&mut self)
        ensures
            *final(self) == (Configuration { kind: Some(Kind::DcOperatingPoint), ..*old(self) }),
    {
        self.kind = Some(Kind::DcOperatingPoint);
    }

    /// Names the file that receives the waveforms.
    pub fn set_wavefile(&mut self, filename: &str)
        ensures
            final(self).wavefile@ == filename@,
            *final(self) == (Configuration { wavefile: final(self).wavefile, ..*old(self) }),
    {
        self.wavefile = filename.to_owned();
    }
}

} // verus!
