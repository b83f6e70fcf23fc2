//! Step-size control of the transient integrator.
//!
//! The integrator alternates numerical work (assembling and solving the
//! circuit equations at a candidate time) with decisions (accept the time
//! point, retry it with a smaller step, grow the step, stop). The decisions
//! live here as a state machine: the caller performs the work the machine asks
//! for and reports back with an [`Event`].

use vstd::prelude::*;
use crate::analysis::{Configuration, Kind, Statistics};
use crate::engine::{ConvergenceError, ConvergenceResult};
use crate::scalar::Scalar;

verus! {

/// The limits that govern the step size of one transient run.
#[derive(Clone, Copy, Debug, PartialEq, Eq, Structural)]
pub struct StepControl {
    /// A time point that converges in fewer solves than this lets the step grow.
    pub itl3: usize,
    /// A time point that has not converged after this many solves shrinks the step.
    pub itl4: usize,
    /// Samples are recorded from this time on.
    pub t_start: Scalar,
    /// The run ends at this time.
    pub t_stop: Scalar,
    /// Smallest allowed step, `TSTEP * RMIN`.
    pub t_delta_min: Scalar,
    /// Largest allowed step, `TSTEP * RMAX`.
    pub t_delta_max: Scalar,
}

/// What the integrator is waiting for.
#[derive(Clone, Copy, Debug, PartialEq, Eq, Structural)]
pub enum Phase {
    /// A solve at `t_now + t_delta` and its convergence verdict.
    Solving,
    /// The sum `t_now + t_delta`.
    Advancing,
    /// Nothing: the run is over.
    Finished,
}

/// State of the transient integrator between two pieces of numerical work.
#[derive(Clone, Copy, Debug, PartialEq, Eq, Structural)]
pub struct Transient {
    /// Time of the last accepted solution.
    pub t_now: Scalar,
    /// Candidate step.
    pub t_delta: Scalar,
    /// Solves spent on the present time point since the step last changed.
    pub c_itl: usize,
    /// Solves spent over the whole run.
    pub c_iteration: usize,
    /// The step was shrunk while working on the present time point.
    pub geared: bool,
    /// The present time point converged.
    pub accepted: bool,
    /// The run hit a fatal condition: a diverged solve or a step below the
    /// minimum.
    pub failed: bool,
    /// `t_now` has reached the stop time.
    pub is_final: bool,
    /// What the integrator is waiting for.
    pub phase: Phase,
}

/// What the caller reports back.
#[derive(Clone, Copy, Debug)]
pub enum Event {
    /// A solve at `t_now + t_delta` finished with `verdict`. `shrunk` is
    /// `t_delta * FT` and `doubled` is `t_delta * 2`, for the machine to pick
    /// from.
    Solved { verdict: ConvergenceResult, shrunk: Scalar, doubled: Scalar },
    /// `t` is `t_now + t_delta`.
    Advanced { t: Scalar },
}

/// What the caller has to do next.
#[derive(Clone, Copy, Debug, PartialEq, Eq, Structural)]
pub enum Action {
    /// Solve again at `t_now + t_delta`, starting from the latest iterate.
    Iterate,
    /// The time point converged: the latest solution becomes the
    /// previous-time-point state. Compute `t_now + t_delta` and report it.
    Advance,
    /// The time has moved to `t_now`. With `emit`, record the latest solution
    /// at `t_now`. Then start solving the next time point from fresh iterates.
    Step { emit: bool },
    /// The run is over. With `emit`, record the latest solution at `t_now`
    /// first. A run that failed ends without a sample, at the time of the
    /// last accepted solution.
    Stop { emit: bool },
    /// The event does not answer what the machine was waiting for; nothing
    /// changed.
    Ignored,
}

impl StepControl {
    /// The limits a configuration asks for. The two step bounds are products
    /// of options and come from the caller.
    pub fn new(cfg: &Configuration, t_delta_min: Scalar, t_delta_max: Scalar) -> (ctl: StepControl)
        ensures
            ctl == (StepControl {
                itl3: cfg.ITL3,
                itl4: cfg.ITL4,
                t_start: cfg.TSTART,
                t_stop: cfg.TSTOP,
                t_delta_min,
                t_delta_max,
            }),
    {
        StepControl {
            itl3: cfg.ITL3,
            itl4: cfg.ITL4,
            t_start: cfg.TSTART,
            t_stop: cfg.TSTOP,
            t_delta_min,
            t_delta_max,
        }
    }
}

impl Transient {
    /// The state right after the operating point was recorded at time zero,
    /// with `t_delta` as the first candidate step.
    pub open spec fn initial(t_delta: Scalar) -> Transient {
        Transient {
            t_now: Scalar { bits: 0 },
            t_delta,
            c_itl: 0,
            c_iteration: 0,
            geared: false,
            accepted: false,
            failed: false,
            is_final: false,
            phase: Phase::Solving,
        }
    }

    /// While a time point is being solved, nothing about it is settled yet
    /// and the solve counter stays below the shrink threshold; the time
    /// moves on only from a time point that converged; a run that failed or
    /// reached the stop time is over.
    pub open spec fn wf(self, ctl: StepControl) -> bool {
        &&& self.phase is Solving ==> {
            &&& self.c_itl == 0 || self.c_itl < ctl.itl4
            &&& !self.accepted
        }
        &&& self.phase is Advancing ==> self.accepted
        &&& self.is_final || self.failed ==> self.phase is Finished
    }

    /// The step after a time point converged in `solves` solves: doubled and
    /// capped when convergence was easy and the step was not shrunk on the
    /// way, else unchanged.
    pub open spec fn grown_step(self, ctl: StepControl, solves: int, doubled: Scalar) -> Scalar {
        if !self.geared && solves < ctl.itl3 {
            if ctl.t_delta_max.below(doubled) {
                ctl.t_delta_max
            } else {
                doubled
            }
        } else {
            self.t_delta
        }
    }

    /// The state after a solve was reported.
    pub open spec fn after_solve(
        self,
        ctl: StepControl,
        verdict: ConvergenceResult,
        shrunk: Scalar,
        doubled: Scalar,
    ) -> Transient {
        let solves = self.c_itl + 1;
        let total = (self.c_iteration + 1) as usize;
        match verdict {
            Ok(true) => Transient {
                t_delta: self.grown_step(ctl, solves, doubled),
                c_itl: solves as usize,
                c_iteration: total,
                accepted: true,
                phase: Phase::Advancing,
                ..self
            },
            Ok(false) => if solves >= ctl.itl4 {
                if shrunk.below(ctl.t_delta_min) {
                    Transient {
                        t_delta: shrunk,
                        c_itl: solves as usize,
                        c_iteration: total,
                        failed: true,
                        phase: Phase::Finished,
                        ..self
                    }
                } else {
                    Transient {
                        t_delta: shrunk,
                        c_itl: 0,
                        c_iteration: total,
                        geared: true,
                        ..self
                    }
                }
            } else {
                Transient { c_itl: solves as usize, c_iteration: total, ..self }
            },
            Err(_) => Transient {
                c_itl: solves as usize,
                c_iteration: total,
                failed: true,
                phase: Phase::Finished,
                ..self
            },
        }
    }

    /// The sum `t` reaches the stop time: it lies on it or beyond it.
    pub open spec fn reaches_stop(ctl: StepControl, t: Scalar) -> bool {
        ctl.t_stop.below(t) || t.equals(ctl.t_stop)
    }

    /// The time after an advance to `t`: `t`, or the stop time when `t`
    /// reaches it.
    pub open spec fn clamped(ctl: StepControl, t: Scalar) -> Scalar {
        if Self::reaches_stop(ctl, t) {
            ctl.t_stop
        } else {
            t
        }
    }

    /// A solution at time `t` is recorded: `t` lies between the start time
    /// and the stop time and is not zero, the time of the operating point.
    pub open spec fn records(ctl: StepControl, t: Scalar) -> bool {
        &&& ctl.t_start.below(t) || ctl.t_start.equals(t)
        &&& t.below(ctl.t_stop) || t.equals(ctl.t_stop)
        &&& !t.zero()
    }

    /// The state after the sum `t_now + t_delta` was reported as `t`: the
    /// time has moved, and the run is over if it reached the stop time.
    pub open spec fn after_advance(self, ctl: StepControl, t: Scalar) -> Transient {
        if Self::reaches_stop(ctl, t) {
            Transient { t_now: ctl.t_stop, is_final: true, phase: Phase::Finished, ..self }
        } else {
            Transient {
                t_now: t,
                c_itl: 0,
                geared: false,
                accepted: false,
                phase: Phase::Solving,
                ..self
            }
        }
    }

    /// The state after `event`. An event that does not answer the present
    /// phase changes nothing.
    pub open spec fn step(self, ctl: StepControl, event: Event) -> Transient {
        match (self.phase, event) {
            (Phase::Solving, Event::Solved { verdict, shrunk, doubled }) => self.after_solve(
                ctl,
                verdict,
                shrunk,
                doubled,
            ),
            (Phase::Advancing, Event::Advanced { t }) => self.after_advance(ctl, t),
            _ => self,
        }
    }

    /// What the caller is asked to do after `event`.
    pub open spec fn reaction(self, ctl: StepControl, event: Event) -> Action {
        let next = self.step(ctl, event);
        match (self.phase, event) {
            (Phase::Solving, Event::Solved { .. }) => if next.phase is Advancing {
                Action::Advance
            } else if next.phase is Finished {
                Action::Stop { emit: false }
            } else {
                Action::Iterate
            },
            (Phase::Advancing, Event::Advanced { .. }) => if next.phase is Finished {
                Action::Stop { emit: Self::records(ctl, next.t_now) }
            } else {
                Action::Step { emit: Self::records(ctl, next.t_now) }
            },
            _ => Action::Ignored,
        }
    }

    /// Starts a run at time zero with `t_delta`, which is `TSTEP * FS`, as the
    /// first candidate step. The operating point is the sample at time zero;
    /// the first thing to do is a solve at `t_delta`.
    pub fn begin(t_delta: Scalar) -> (s: Transient)
        ensures
            s == Transient::initial(t_delta),
            forall|ctl: StepControl| s.wf(ctl),
    {
        Transient {
            t_now: Scalar { bits: 0 },
            t_delta,
            c_itl: 0,
            c_iteration: 0,
            geared: false,
            accepted: false,
            failed: false,
            is_final: false,
            phase: Phase::Solving,
        }
    }

    /// Takes in the verdict of a solve at `t_now + t_delta`.
    ///
    /// A converged time point is accepted, and its step doubled (capped at
    /// the maximum) when it took fewer than `itl3` solves and the step was not
    /// shrunk on the way. A time point that has not converged after `itl4`
    /// solves is retried with the shrunk step, unless that step is below the
    /// minimum, which is fatal. A diverged solve is fatal. A fatal condition
    /// ends the run where it stands: the time does not move.
    pub fn solved(
        &mut self,
        ctl: &StepControl,
        verdict: ConvergenceResult,
        shrunk: Scalar,
        doubled: Scalar,
    ) -> (action: Action)
        requires
            old(self).phase is Solving,
            old(self).wf(*ctl),
            old(self).c_iteration < usize::MAX,
        ensures
            *final(self) == old(self).after_solve(*ctl, verdict, shrunk, doubled),
            action == old(self).reaction(*ctl, Event::Solved { verdict, shrunk, doubled }),
            final(self).wf(*ctl),
            final(self).t_now == old(self).t_now,
    {
        self.c_itl = self.c_itl + 1;
        self.c_iteration = self.c_iteration + 1;
        match verdict {
            Ok(true) => {
                self.accepted = true;
                if !self.geared && self.c_itl < ctl.itl3 {
                    self.t_delta = if doubled.gt(&ctl.t_delta_max) {
                        ctl.t_delta_max
                    } else {
                        doubled
                    };
                }
                self.phase = Phase::Advancing;
                Action::Advance
            },
            Ok(false) => {
                if self.c_itl >= ctl.itl4 {
                    self.t_delta = shrunk;
                    if shrunk.lt(&ctl.t_delta_min) {
                        self.failed = true;
                        self.phase = Phase::Finished;
                        Action::Stop { emit: false }
                    } else {
                        self.geared = true;
                        self.c_itl = 0;
                        Action::Iterate
                    }
                } else {
                    Action::Iterate
                }
            },
            Err(_) => {
                self.failed = true;
                self.phase = Phase::Finished;
                Action::Stop { emit: false }
            },
        }
    }

    /// Takes in `t`, the sum `t_now + t_delta`.
    ///
    /// The time moves to `t`, or to the stop time when `t` lies on it or
    /// beyond it, which ends the run.
    pub fn advanced(&mut self, ctl: &StepControl, t: Scalar) -> (action: Action)
        requires
            old(self).phase is Advancing,
            old(self).wf(*ctl),
        ensures
            *final(self) == old(self).after_advance(*ctl, t),
            action == old(self).reaction(*ctl, Event::Advanced { t }),
            final(self).wf(*ctl),
    {
        if t.ge(&ctl.t_stop) {
            self.t_now = ctl.t_stop;
            self.is_final = true;
            self.phase = Phase::Finished;
            let emit = self.t_now.ge(&ctl.t_start) && self.t_now.le(&ctl.t_stop)
                && !self.t_now.is_zero();
            Action::Stop { emit }
        } else {
            self.t_now = t;
            self.c_itl = 0;
            self.geared = false;
            self.accepted = false;
            self.phase = Phase::Solving;
            let emit = self.t_now.ge(&ctl.t_start) && self.t_now.le(&ctl.t_stop)
                && !self.t_now.is_zero();
            Action::Step { emit }
        }
    }

    /// From state and event to next state and action.
    pub fn handle(&mut self, ctl: &StepControl, event: Event) -> (action: Action)
        requires
            old(self).wf(*ctl),
            old(self).c_iteration < usize::MAX,
        ensures
            *final(self) == old(self).step(*ctl, event),
            action == old(self).reaction(*ctl, event),
            final(self).wf(*ctl),
    {
        match (self.phase, event) {
            (Phase::Solving, Event::Solved { verdict, shrunk, doubled }) => self.solved(
                ctl,
                verdict,
                shrunk,
                doubled,
            ),
            (Phase::Advancing, Event::Advanced { t }) => self.advanced(ctl, t),
            _ => Action::Ignored,
        }
    }

    /// The run is over and did not fail.
    pub open spec fn completed(self) -> bool {
        self.phase is Finished && !self.failed
    }

    /// `event` makes the machine ask for a sample.
    pub open spec fn emits(self, ctl: StepControl, event: Event) -> bool {
        match self.reaction(ctl, event) {
            Action::Step { emit } => emit,
            Action::Stop { emit } => emit,
            _ => false,
        }
    }

    /// The state after a sequence of events.
    pub open spec fn run(self, ctl: StepControl, events: Seq<Event>) -> Transient
        decreases events.len(),
    {
        if events.len() == 0 {
            self
        } else {
            self.run(ctl, events.drop_last()).step(ctl, events.last())
        }
    }

    /// The times of the samples asked for over a sequence of events, in the
    /// order in which they were asked for. The operating point at time zero,
    /// recorded before the machine starts, is not among them.
    pub open spec fn samples(self, ctl: StepControl, events: Seq<Event>) -> Seq<Scalar>
        decreases events.len(),
    {
        if events.len() == 0 {
            Seq::empty()
        } else {
            let before = self.run(ctl, events.drop_last());
            let earlier = self.samples(ctl, events.drop_last());
            if before.emits(ctl, events.last()) {
                earlier.push(before.step(ctl, events.last()).t_now)
            } else {
                earlier
            }
        }
    }

    /// Every sum that the machine takes in is a number strictly later than
    /// the time it started from.
    pub open spec fn time_moves(self, ctl: StepControl, events: Seq<Event>) -> bool
        decreases events.len(),
    {
        events.len() > 0 ==> {
            let before = self.run(ctl, events.drop_last());
            &&& self.time_moves(ctl, events.drop_last())
            &&& before.phase is Advancing ==> match events.last() {
                Event::Advanced { t } => before.t_now.below(t),
                _ => true,
            }
        }
    }

    /// What holds of a state and the samples that led to it, whatever the
    /// events were, as long as time moved.
    pub open spec fn ordered(self, ctl: StepControl, samples: Seq<Scalar>) -> bool {
        &&& self.wf(ctl)
        &&& !self.t_now.nan()
        &&& forall|i: int|
            0 <= i < samples.len() ==> #[trigger] samples[i].below(self.t_now) || samples[i].equals(
                self.t_now,
            )
        &&& forall|i: int, j: int|
            0 <= i < j < samples.len() ==> (#[trigger] samples[i]).below(#[trigger] samples[j])
        &&& !self.is_final && samples.len() > 0 && !ctl.t_stop.nan() ==> self.t_now.below(
            ctl.t_stop,
        )
        &&& self.completed() ==> {
            &&& self.t_now == ctl.t_stop
            &&& Self::records(ctl, ctl.t_stop) ==> samples.len() > 0 && samples.last()
                == ctl.t_stop
        }
    }

    /// The summary of the run so far, with the solves of the operating point
    /// counted in.
    pub fn statistics(&self, dc_iterations: usize) -> (stats: Statistics)
        requires
            dc_iterations + self.c_iteration <= usize::MAX,
        ensures
            stats == (Statistics {
                kind: Kind::Transient,
                end: self.t_now,
                iterations: (dc_iterations + self.c_iteration) as usize,
                converged: self.completed(),
            }),
    {
        let done = match self.phase {
            Phase::Finished => !self.failed,
            _ => false,
        };
        Statistics {
            kind: Kind::Transient,
            end: self.t_now,
            iterations: dc_iterations + self.c_iteration,
            converged: done,
        }
    }
}

/// One event keeps states and samples ordered.
proof fn lemma_step_keeps_order(
    before: Transient,
    ctl: StepControl,
    earlier: Seq<Scalar>,
    event: Event,
)
    requires
        before.ordered(ctl, earlier),
        before.phase is Advancing ==> match event {
            Event::Advanced { t } => before.t_now.below(t),
            _ => true,
        },
    ensures
        before.step(ctl, event).ordered(
            ctl,
            if before.emits(ctl, event) {
                earlier.push(before.step(ctl, event).t_now)
            } else {
                earlier
            },
        ),
{
    let after = before.step(ctl, event);
    let later = if before.emits(ctl, event) {
        earlier.push(after.t_now)
    } else {
        earlier
    };
    match (before.phase, event) {
        (Phase::Solving, Event::Solved { verdict, shrunk, doubled }) => {
            assert(later == earlier);
            assert(after.t_now == before.t_now);
        },
        (Phase::Advancing, Event::Advanced { t }) => {
            assert(!before.is_final);
            assert(after.t_now == Transient::clamped(ctl, t));
            assert forall|i: int| 0 <= i < earlier.len() implies (#[trigger] earlier[i]).below(
                after.t_now,
            ) by {
                assert(earlier[i].below(before.t_now) || earlier[i].equals(before.t_now));
            }
            assert forall|i: int, j: int| 0 <= i < j < later.len() implies (#[trigger] later[i]).below(
                #[trigger] later[j],
            ) by {
                if j < earlier.len() {
                    assert(earlier[i].below(earlier[j]));
                } else {
                    assert(earlier[i].below(after.t_now));
                }
            }
            assert forall|i: int| 0 <= i < later.len() implies #[trigger] later[i].below(
                after.t_now,
            ) || later[i].equals(after.t_now) by {
                if i < earlier.len() {
                    assert(earlier[i].below(after.t_now));
                }
            }
        },
        _ => {
            assert(later == earlier);
        },
    }
}

/// Any run from the start keeps states and samples ordered.
proof fn lemma_run_keeps_order(t_delta: Scalar, ctl: StepControl, events: Seq<Event>)
    requires
        Transient::initial(t_delta).time_moves(ctl, events),
    ensures
        Transient::initial(t_delta).run(ctl, events).ordered(
            ctl,
            Transient::initial(t_delta).samples(ctl, events),
        ),
    decreases events.len(),
{
    let start = Transient::initial(t_delta);
    if events.len() > 0 {
        lemma_run_keeps_order(t_delta, ctl, events.drop_last());
        lemma_step_keeps_order(
            start.run(ctl, events.drop_last()),
            ctl,
            start.samples(ctl, events.drop_last()),
            events.last(),
        );
    }
}

/// The recorded times grow strictly, and a run that completes ends on the
/// stop time.
///
/// Take any sequence of events fed to a fresh integrator, such that every sum
/// `t_now + t_delta` it takes in is a number strictly later than `t_now`.
/// Then the times of the samples it asks for are strictly increasing: no
/// time is recorded twice, the stop time included. If the run completes, the
/// time stands at the stop time; if moreover the stop time is not before the
/// start time and is not zero, the last sample is the one at the stop time.
pub proof fn lemma_samples_increase(t_delta: Scalar, ctl: StepControl, events: Seq<Event>)
    requires
        Transient::initial(t_delta).time_moves(ctl, events),
    ensures
        ({
            let samples = Transient::initial(t_delta).samples(ctl, events);
            forall|i: int, j: int|
                0 <= i < j < samples.len() ==> (#[trigger] samples[i]).below(#[trigger] samples[j])
        }),
        ({
            let samples = Transient::initial(t_delta).samples(ctl, events);
            let end = Transient::initial(t_delta).run(ctl, events);
            end.completed() ==> {
                &&& end.t_now == ctl.t_stop
                &&& Transient::records(ctl, ctl.t_stop) ==> samples.len() > 0 && samples.last()
                    == ctl.t_stop
            }
        }),
{
    lemma_run_keeps_order(t_delta, ctl, events);
}

} // verus!
