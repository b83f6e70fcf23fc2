//! The simulation engine: the elaborated circuit model and the decisions
//! that are taken on it.
//!
//! Elaboration sizes the system of equations, sorts the elements by the way
//! they enter it, and lists the stamps of the base matrix, the part that
//! depends neither on the solution nor on time. The engine then hands out,
//! for every Newton-Raphson iteration, the stamps of the elements that have
//! to be stamped anew, and judges convergence.

use vstd::prelude::*;
use crate::analysis::{Configuration, Kind};
use crate::circuit::{branches, node_set, Circuit};
use crate::element::{Class, Element};
use crate::matrix::{Layout, Unknowns};
use crate::newton::DcState;
use crate::scalar::Scalar;
use crate::stamp::{
    all_in_range, element_stamps, fits, in_range, lemma_stamps_in_range, stamp_element, Entry,
    Stamp,
};
use crate::transient::{StepControl, Transient};

verus! {

/// Why a Newton-Raphson solve cannot go on.
#[derive(Clone, Copy, Debug, PartialEq, Eq, Structural)]
pub enum ConvergenceError {
    /// An unknown is infinite or not a number.
    Divergent,
}

/// Verdict of one convergence check: converged, not yet, or diverged.
pub type ConvergenceResult = Result<bool, ConvergenceError>;

/// Why a circuit cannot be elaborated.
#[derive(Clone, Copy, Debug, PartialEq, Eq, Structural)]
pub enum ElaborationError {
    /// The matrix of the circuit cannot be addressed on this machine.
    TooLarge,
    /// The element at this position connects to a node, or owns a branch,
    /// beyond the counts of the circuit: the nodes are not numbered from 0
    /// without gaps, or a branch index was not handed out in order.
    OutOfRange { element: usize },
}

/// The elaborated model of one circuit, and its operating point.
#[derive(Debug)]
pub struct Engine {
    /// Number of nodes, ground included.
    pub c_nodes: usize,
    /// Number of voltage-defining elements, whose currents are unknowns too.
    pub c_vsrcs: usize,
    /// The stamps of the base matrix.
    pub base_matrix: Vec<Entry>,
    /// Positions of the nonlinear elements.
    pub nonlinear_elements: Vec<usize>,
    /// Positions of the time-varying independent sources.
    pub independent_sources: Vec<usize>,
    /// Positions of the voltage-dependent sources.
    pub v_dependent_sources: Vec<usize>,
    /// Positions of the elements that store energy.
    pub storage_elements: Vec<usize>,
    /// The DC operating point, once one was recorded.
    pub dc_op: Vec<Scalar>,
}

/// The positions of the elements of one class, in increasing order.
pub open spec fn class_indices(elements: Seq<Element>, class: Class) -> Seq<usize>
    decreases elements.len(),
{
    if elements.len() == 0 {
        Seq::empty()
    } else if elements.last().class() == class {
        class_indices(elements.drop_last(), class).push((elements.len() - 1) as usize)
    } else {
        class_indices(elements.drop_last(), class)
    }
}

/// The stamps of one element, each tagged with the position of the element.
pub open spec fn tagged(element: usize, stamps: Seq<Stamp>) -> Seq<Entry> {
    Seq::new(stamps.len(), |i: int| Entry { element, stamp: stamps[i] })
}

/// The stamps of the elements at `indices`, element after element.
pub open spec fn plan(layout: Layout, elements: Seq<Element>, indices: Seq<usize>) -> Seq<Entry>
    decreases indices.len(),
{
    if indices.len() == 0 {
        Seq::empty()
    } else {
        plan(layout, elements, indices.drop_last()) + tagged(
            indices.last(),
            element_stamps(layout, elements[indices.last() as int]),
        )
    }
}

/// The position of the first element that does not fit the layout, or the
/// number of elements if all fit.
pub open spec fn first_misfit(layout: Layout, elements: Seq<Element>) -> int
    decreases elements.len(),
{
    if elements.len() == 0 {
        0
    } else {
        let head = first_misfit(layout, elements.drop_last());
        if head < elements.len() - 1 {
            head
        } else if fits(layout, elements.last()) {
            elements.len() as int
        } else {
            elements.len() - 1
        }
    }
}

/// `k` is the first misfit exactly when everything before `k` fits and the
/// element at `k`, if there is one, does not.
pub proof fn lemma_first_misfit(layout: Layout, elements: Seq<Element>, k: int)
    requires
        0 <= k <= elements.len(),
        forall|i: int| 0 <= i < k ==> fits(layout, #[trigger] elements[i]),
        k < elements.len() ==> !fits(layout, elements[k]),
    ensures
        first_misfit(layout, elements) == k,
    decreases elements.len(),
{
    if elements.len() > 0 {
        let head = elements.drop_last();
        if k < elements.len() - 1 {
            assert(head[k] == elements[k]);
            assert forall|i: int| 0 <= i < k implies fits(layout, #[trigger] head[i]) by {
                assert(head[i] == elements[i]);
            }
            lemma_first_misfit(layout, head, k);
        } else {
            assert forall|i: int| 0 <= i < elements.len() - 1 implies fits(
                layout,
                #[trigger] head[i],
            ) by {
                assert(head[i] == elements[i]);
            }
            lemma_first_misfit(layout, head, elements.len() - 1);
        }
    }
}

/// The list of positions of a class is the increasing list of exactly the
/// positions whose element is of that class.
pub proof fn lemma_class_indices(elements: Seq<Element>, class: Class)
    requires
        elements.len() <= usize::MAX,
    ensures
        forall|k: int|
            0 <= k < class_indices(elements, class).len() ==> {
                &&& (#[trigger] class_indices(elements, class)[k]) < elements.len()
                &&& elements[class_indices(elements, class)[k] as int].class() == class
            },
        forall|j: int, k: int|
            0 <= j < k < class_indices(elements, class).len() ==> (#[trigger] class_indices(
                elements,
                class,
            )[j]) < (#[trigger] class_indices(elements, class)[k]),
        forall|i: int|
            0 <= i < elements.len() && (#[trigger] elements[i]).class() == class
                ==> class_indices(elements, class).contains(i as usize),
    decreases elements.len(),
{
    if elements.len() > 0 {
        let head = elements.drop_last();
        let before = class_indices(head, class);
        let all = class_indices(elements, class);
        lemma_class_indices(head, class);
        assert forall|k: int| 0 <= k < all.len() implies {
            &&& (#[trigger] all[k]) < elements.len()
            &&& elements[all[k] as int].class() == class
        } by {
            if k < before.len() {
                assert(all[k] == before[k]);
                assert(head[before[k] as int] == elements[before[k] as int]);
            }
        }
        assert forall|j: int, k: int| 0 <= j < k < all.len() implies (#[trigger] all[j]) < (
        #[trigger] all[k]) by {
            assert(all[j] == before[j]);
            if k < before.len() {
                assert(all[k] == before[k]);
            }
        }
        assert forall|i: int|
            0 <= i < elements.len() && (#[trigger] elements[i]).class() == class implies all.contains(
            i as usize,
        ) by {
            if i < elements.len() - 1 {
                assert(head[i] == elements[i]);
                assert(before.contains(i as usize));
                let k = choose|k: int| 0 <= k < before.len() && before[k] == i as usize;
                assert(all[k] == i as usize);
            } else {
                assert(all[all.len() - 1] == i as usize);
            }
        }
    }
}

impl Engine {
    /// The shape of the system of equations.
    pub open spec fn layout(self) -> Layout {
        Layout { c_nodes: self.c_nodes, c_vsrcs: self.c_vsrcs }
    }

    /// The engine holds the elaborated model of `ckt`: the counts are those
    /// of the circuit, every element fits them, every element is listed
    /// under its class, and the base matrix is made of the stamps of the
    /// elements that depend neither on the solution nor on time.
    pub open spec fn models(self, ckt: Circuit) -> bool {
        let elements = ckt.elements@;
        &&& self.layout().wf()
        &&& self.c_nodes == node_set(elements).len()
        &&& self.c_vsrcs == branches(elements).len()
        &&& forall|i: int| 0 <= i < elements.len() ==> fits(self.layout(), #[trigger] elements[i])
        &&& self.nonlinear_elements@ == class_indices(elements, Class::Nonlinear)
        &&& self.independent_sources@ == class_indices(elements, Class::Independent)
        &&& self.v_dependent_sources@ == class_indices(elements, Class::VoltageDependent)
        &&& self.storage_elements@ == class_indices(elements, Class::Storage)
        &&& self.base_matrix@ == plan(
            self.layout(),
            elements,
            class_indices(elements, Class::Base),
        )
    }

    /// What elaborating `ckt` comes to: success, or the reason why not.
    pub open spec fn elaboration(ckt: Circuit) -> Result<(), ElaborationError> {
        let elements = ckt.elements@;
        let layout = Layout {
            c_nodes: node_set(elements).len() as usize,
            c_vsrcs: branches(elements).len() as usize,
        };
        if !layout.wf() {
            Err(ElaborationError::TooLarge)
        } else if first_misfit(layout, elements) < elements.len() {
            Err(ElaborationError::OutOfRange { element: first_misfit(layout, elements) as usize })
        } else {
            Ok(())
        }
    }

    /// An engine that holds no model and no operating point.
    pub fn new() -> (eng: Engine)
        ensures
            eng.c_nodes == 0,
            eng.c_vsrcs == 0,
            eng.base_matrix@.len() == 0,
            eng.nonlinear_elements@.len() == 0,
            eng.independent_sources@.len() == 0,
            eng.v_dependent_sources@.len() == 0,
            eng.storage_elements@.len() == 0,
            eng.dc_op@.len() == 0,
    {
        Engine {
            c_nodes: 0,
            c_vsrcs: 0,
            base_matrix: Vec::new(),
            nonlinear_elements: Vec::new(),
            independent_sources: Vec::new(),
            v_dependent_sources: Vec::new(),
            storage_elements: Vec::new(),
            dc_op: Vec::new(),
        }
    }

    /// Which analysis to run for a configuration: the selected one if it is
    /// a DC operating point or a transient analysis, none otherwise.
    pub fn go(&self, cfg: &Configuration) -> (run: Option<Kind>)
        ensures
            run == match cfg.kind {
                Some(Kind::DcOperatingPoint) => Some(Kind::DcOperatingPoint),
                Some(Kind::Transient) => Some(Kind::Transient),
                _ => None::<Kind>,
            },
    {
        match cfg.kind {
            Some(Kind::DcOperatingPoint) => Some(Kind::DcOperatingPoint),
            Some(Kind::Transient) => Some(Kind::Transient),
            _ => None,
        }
    }

    /// The recorded operating point, if there is one.
    pub fn dc(self) -> (op: Option<Vec<Scalar>>)
        ensures
            op == if self.dc_op@.len() == 0 {
                None::<Vec<Scalar>>
            } else {
                Some(self.dc_op)
            },
    {
        if self.dc_op.len() == 0 {
            None
        } else {
            Some(self.dc_op)
        }
    }

    /// The engine holds an operating point of its system: one value for
    /// every unknown, with ground at zero.
    pub open spec fn holds_operating_point(self) -> bool {
        &&& self.dc_op@.len() == self.c_nodes + self.c_vsrcs
        &&& self.dc_op@.len() >= 1
        &&& self.dc_op@[0].bits == 0
    }

    /// Records `unknowns`, a vector of the unknowns of the engine's system,
    /// as the operating point, whether the solve that gave it converged or
    /// not.
    pub fn record_dc(&mut self, unknowns: &Unknowns)
        requires
            unknowns@.len() == old(self).c_nodes + old(self).c_vsrcs,
        ensures
            final(self).dc_op@ == unknowns@,
            *final(self) == (Engine { dc_op: final(self).dc_op, ..*old(self) }),
            final(self).holds_operating_point(),
    {
        self.dc_op = unknowns.duplicate().into_vec();
    }

    /// Elaborates `ckt`: sizes the system, sorts the elements into classes
    /// and lists the stamps of the base matrix.
    ///
    /// Whatever model the engine held before is replaced, so that nothing
    /// carries over from one circuit to the next. The operating point is
    /// kept. Nothing changes when the circuit cannot be elaborated.
    pub fn elaborate(&mut self, ckt: &Circuit) -> (r: Result<(), ElaborationError>)
        ensures
            r == Self::elaboration(*ckt),
            r is Ok ==> final(self).models(*ckt),
            r is Err ==> *final(self) == *old(self),
            final(self).dc_op == old(self).dc_op,
    {
        let c_nodes = ckt.count_nodes();
        let c_vsrcs = ckt.count_voltage_sources();
        let layout = match Layout::new(c_nodes, c_vsrcs) {
            Some(layout) => layout,
            None => {
                return Err(ElaborationError::TooLarge);
            },
        };
        let ghost elements = ckt.elements@;
        let mut base: Vec<Entry> = Vec::new();
        let mut nonlinear: Vec<usize> = Vec::new();
        let mut independent: Vec<usize> = Vec::new();
        let mut dependent: Vec<usize> = Vec::new();
        let mut storage: Vec<usize> = Vec::new();
        let mut i: usize = 0;
        proof {
            assert(elements.take(0) =~= Seq::empty());
        }
        while i < ckt.elements.len()
            invariant
                i <= elements.len(),
                elements == ckt.elements@,
                layout.wf(),
                layout == (Layout { c_nodes, c_vsrcs }),
                c_nodes == node_set(elements).len(),
                c_vsrcs == branches(elements).len(),
                forall|j: int| 0 <= j < i ==> fits(layout, #[trigger] elements[j]),
                nonlinear@ == class_indices(elements.take(i as int), Class::Nonlinear),
                independent@ == class_indices(elements.take(i as int), Class::Independent),
                dependent@ == class_indices(elements.take(i as int), Class::VoltageDependent),
                storage@ == class_indices(elements.take(i as int), Class::Storage),
                base@ == plan(
                    layout,
                    elements,
                    class_indices(elements.take(i as int), Class::Base),
                ),
            decreases elements.len() - i,
        {
            let e = &ckt.elements[i];
            if !element_fits(&layout, e) {
                proof {
                    lemma_first_misfit(layout, elements, i as int);
                }
                return Err(ElaborationError::OutOfRange { element: i });
            }
            proof {
                assert(elements.take(i + 1).drop_last() =~= elements.take(i as int));
                assert(elements.take(i + 1).last() == elements[i as int]);
            }
            match e.classify() {
                Class::Base => {
                    let stamps = stamp_element(&layout, e);
                    let ghost before = base@;
                    let mut k: usize = 0;
                    while k < stamps.len()
                        invariant
                            k <= stamps@.len(),
                            base@ == before + tagged(i, stamps@.take(k as int)),
                        decreases stamps@.len() - k,
                    {
                        base.push(Entry { element: i, stamp: stamps[k] });
                        proof {
                            assert(base@ =~= before + tagged(i, stamps@.take(k + 1)));
                        }
                        k = k + 1;
                    }
                    proof {
                        assert(stamps@.take(k as int) =~= stamps@);
                        let listed = class_indices(elements.take(i + 1), Class::Base);
                        assert(listed.drop_last() =~= class_indices(
                            elements.take(i as int),
                            Class::Base,
                        ));
                        assert(listed.last() == i);
                    }
                },
                Class::Nonlinear => {
                    nonlinear.push(i);
                },
                Class::Independent => {
                    independent.push(i);
                },
                Class::VoltageDependent => {
                    dependent.push(i);
                },
                Class::Storage => {
                    storage.push(i);
                },
            }
            i = i + 1;
        }
        proof {
            assert(elements.take(i as int) =~= elements);
            lemma_first_misfit(layout, elements, elements.len() as int);
        }
        self.c_nodes = c_nodes;
        self.c_vsrcs = c_vsrcs;
        self.base_matrix = base;
        self.nonlinear_elements = nonlinear;
        self.independent_sources = independent;
        self.v_dependent_sources = dependent;
        self.storage_elements = storage;
        Ok(())
    }

    /// Starts a DC operating-point analysis of `ckt`: elaborates the circuit
    /// and hands out the state from which the Newton-Raphson iteration
    /// starts.
    pub fn dc_operating_point(&mut self, ckt: &Circuit) -> (r: Result<DcState, ElaborationError>)
        ensures
            r == match Self::elaboration(*ckt) {
                Ok(_) => Ok::<DcState, ElaborationError>(DcState::Iterating(0)),
                Err(e) => Err::<DcState, ElaborationError>(e),
            },
            r is Ok ==> final(self).models(*ckt),
            r is Err ==> *final(self) == *old(self),
            final(self).dc_op == old(self).dc_op,
    {
        match self.elaborate(ckt) {
            Ok(_) => Ok(DcState::begin()),
            Err(e) => Err(e),
        }
    }

    /// Starts the time stepping of a transient analysis, once the operating
    /// point is known: hands out the limits of the run and the state of the
    /// integrator at time zero. `t_delta` is `TSTEP * FS`, `t_delta_min` is
    /// `TSTEP * RMIN` and `t_delta_max` is `TSTEP * RMAX`.
    pub fn transient_analysis(
        &self,
        cfg: &Configuration,
        t_delta: Scalar,
        t_delta_min: Scalar,
        t_delta_max: Scalar,
    ) -> (run: (StepControl, Transient))
        ensures
            run.0 == (StepControl {
                itl3: cfg.ITL3,
                itl4: cfg.ITL4,
                t_start: cfg.TSTART,
                t_stop: cfg.TSTOP,
                t_delta_min,
                t_delta_max,
            }),
            run.1 == Transient::initial(t_delta),
            run.1.wf(run.0),
    {
        (StepControl::new(cfg, t_delta_min, t_delta_max), Transient::begin(t_delta))
    }

    /// The stamps of the elements at `indices`.
    fn stamps_of(&self, ckt: &Circuit, indices: &Vec<usize>) -> (entries: Vec<Entry>)
        requires
            self.layout().wf(),
            forall|i: int|
                0 <= i < ckt.elements@.len() ==> fits(self.layout(), #[trigger] ckt.elements@[i]),
            forall|k: int| 0 <= k < indices@.len() ==> (#[trigger] indices@[k]) < ckt.elements@.len(),
        ensures
            entries@ == plan(self.layout(), ckt.elements@, indices@),
    {
        let layout = Layout { c_nodes: self.c_nodes, c_vsrcs: self.c_vsrcs };
        let mut entries: Vec<Entry> = Vec::new();
        let mut j: usize = 0;
        proof {
            assert(indices@.take(0) =~= Seq::empty());
        }
        while j < indices.len()
            invariant
                j <= indices@.len(),
                layout == self.layout(),
                layout.wf(),
                forall|i: int|
                    0 <= i < ckt.elements@.len() ==> fits(layout, #[trigger] ckt.elements@[i]),
                forall|k: int|
                    0 <= k < indices@.len() ==> (#[trigger] indices@[k]) < ckt.elements@.len(),
                entries@ == plan(layout, ckt.elements@, indices@.take(j as int)),
            decreases indices@.len() - j,
        {
            let i = indices[j];
            let e = &ckt.elements[i];
            assert(fits(layout, ckt.elements@[i as int]));
            let stamps = stamp_element(&layout, e);
            let ghost before = entries@;
            let mut k: usize = 0;
            while k < stamps.len()
                invariant
                    k <= stamps@.len(),
                    entries@ == before + tagged(i, stamps@.take(k as int)),
                decreases stamps@.len() - k,
            {
                entries.push(Entry { element: i, stamp: stamps[k] });
                proof {
                    assert(entries@ =~= before + tagged(i, stamps@.take(k + 1)));
                }
                k = k + 1;
            }
            proof {
                assert(stamps@.take(k as int) =~= stamps@);
                assert(indices@.take(j + 1).drop_last() =~= indices@.take(j as int));
                assert(indices@.take(j + 1).last() == i);
            }
            j = j + 1;
        }
        proof {
            assert(indices@.take(j as int) =~= indices@);
        }
        entries
    }

    /// The stamps of the time-varying independent sources, to be applied
    /// with the values of the sources at the time solved for.
    pub fn independent_source_stamp(&self, ckt: &Circuit) -> (entries: Vec<Entry>)
        requires
            self.models(*ckt),
        ensures
            entries@ == plan(self.layout(), ckt.elements@, self.independent_sources@),
    {
        proof {
            assert(ckt.elements@.len() == ckt.elements.len());
            lemma_class_indices(ckt.elements@, Class::Independent);
        }
        self.stamps_of(ckt, &self.independent_sources)
    }

    /// The stamps of the voltage-dependent sources.
    pub fn v_dependent_source_stamp(&self, ckt: &Circuit) -> (entries: Vec<Entry>)
        requires
            self.models(*ckt),
        ensures
            entries@ == plan(self.layout(), ckt.elements@, self.v_dependent_sources@),
    {
        proof {
            assert(ckt.elements@.len() == ckt.elements.len());
            lemma_class_indices(ckt.elements@, Class::VoltageDependent);
        }
        self.stamps_of(ckt, &self.v_dependent_sources)
    }

    /// The stamps of the companion models of the elements that store
    /// energy, to be applied with the equivalent conductance and current
    /// that follow from the last accepted time point and the present step.
    pub fn storage_stamp(&self, ckt: &Circuit) -> (entries: Vec<Entry>)
        requires
            self.models(*ckt),
        ensures
            entries@ == plan(self.layout(), ckt.elements@, self.storage_elements@),
    {
        proof {
            assert(ckt.elements@.len() == ckt.elements.len());
            lemma_class_indices(ckt.elements@, Class::Storage);
        }
        self.stamps_of(ckt, &self.storage_elements)
    }

    /// The stamps of the companion models of the nonlinear elements, to be
    /// applied with the equivalent conductance and current that follow from
    /// the previous iterate.
    pub fn nonlinear_stamp(&self, ckt: &Circuit) -> (entries: Vec<Entry>)
        requires
            self.models(*ckt),
        ensures
            entries@ == plan(self.layout(), ckt.elements@, self.nonlinear_elements@),
    {
        proof {
            assert(ckt.elements@.len() == ckt.elements.len());
            lemma_class_indices(ckt.elements@, Class::Nonlinear);
        }
        self.stamps_of(ckt, &self.nonlinear_elements)
    }

    /// The stamps of one Newton-Raphson iteration, in the order in which
    /// they are applied to a copy of the base matrix: the independent
    /// sources, the voltage-dependent sources, for a transient analysis the
    /// elements that store energy, and last the nonlinear elements.
    pub open spec fn iteration_plan(self, ckt: Circuit, transient: bool) -> Seq<Entry> {
        let elements = ckt.elements@;
        plan(self.layout(), elements, self.independent_sources@) + plan(
            self.layout(),
            elements,
            self.v_dependent_sources@,
        ) + (if transient {
            plan(self.layout(), elements, self.storage_elements@)
        } else {
            Seq::empty()
        }) + plan(self.layout(), elements, self.nonlinear_elements@)
    }

    /// Lists the stamps of one Newton-Raphson iteration, of the operating
    /// point or of a transient time point.
    pub fn iteration_stamp(&self, ckt: &Circuit, transient: bool) -> (entries: Vec<Entry>)
        requires
            self.models(*ckt),
        ensures
            entries@ == self.iteration_plan(*ckt, transient),
    {
        let mut entries = self.independent_source_stamp(ckt);
        let mut dependent = self.v_dependent_source_stamp(ckt);
        entries.append(&mut dependent);
        if transient {
            let mut storage = self.storage_stamp(ckt);
            entries.append(&mut storage);
        } else {
            assert(entries@ + Seq::<Entry>::empty() =~= entries@);
        }
        let mut nonlinear = self.nonlinear_stamp(ckt);
        entries.append(&mut nonlinear);
        entries
    }

    /// The absolute tolerance of unknown `i`: `VNTOL` for a node voltage,
    /// `ABSTOL` for a branch current.
    pub fn tolerance(&self, i: usize, cfg: &Configuration) -> (tol: Scalar)
        ensures
            tol == if i < self.c_nodes {
                cfg.VNTOL
            } else {
                cfg.ABSTOL
            },
    {
        if i < self.c_nodes {
            cfg.VNTOL
        } else {
            cfg.ABSTOL
        }
    }

    /// The verdict on an iterate `xv`, where `errors[i]` is the distance of
    /// `xv[i]` from the iterate before and `limits[i]` the tolerance of
    /// unknown `i`, `RELTOL * |xv[i]|` plus its absolute tolerance.
    pub open spec fn verdict(xv: Seq<Scalar>, errors: Seq<Scalar>, limits: Seq<Scalar>) -> ConvergenceResult {
        if exists|i: int| 0 <= i < xv.len() && !(#[trigger] xv[i]).finite() {
            Err(ConvergenceError::Divergent)
        } else if exists|i: int| 0 <= i < xv.len() && limits[i].below(#[trigger] errors[i]) {
            Ok(false)
        } else {
            Ok(true)
        }
    }

    /// Checks an iterate for convergence.
    ///
    /// An unknown that is infinite or not a number means divergence. Else
    /// the iterate has converged when no unknown moved by more than its
    /// tolerance.
    pub fn convergence_check(
        &self,
        xv: &Vec<Scalar>,
        errors: &Vec<Scalar>,
        limits: &Vec<Scalar>,
    ) -> (res: ConvergenceResult)
        requires
            errors@.len() == xv@.len(),
            limits@.len() == xv@.len(),
        ensures
            res == Self::verdict(xv@, errors@, limits@),
    {
        let mut diverged = false;
        let mut moved = false;
        let mut i: usize = 0;
        while i < xv.len()
            invariant
                i <= xv@.len(),
                errors@.len() == xv@.len(),
                limits@.len() == xv@.len(),
                diverged <==> exists|j: int| 0 <= j < i && !(#[trigger] xv@[j]).finite(),
                moved <==> exists|j: int| 0 <= j < i && limits@[j].below(#[trigger] errors@[j]),
            decreases xv@.len() - i,
        {
            if !xv[i].is_finite() {
                diverged = true;
            }
            if errors[i].gt(&limits[i]) {
                moved = true;
            }
            i = i + 1;
        }
        if diverged {
            Err(ConvergenceError::Divergent)
        } else if moved {
            Ok(false)
        } else {
            Ok(true)
        }
    }
}

/// Tests whether an element fits a layout.
pub fn element_fits(layout: &Layout, e: &Element) -> (b: bool)
    ensures
        b == fits(*layout, *e),
{
    let terminals = e.nodes();
    let mut k: usize = 0;
    while k < terminals.len()
        invariant
            k <= terminals@.len(),
            terminals@ == e.terminals(),
            forall|j: int| 0 <= j < k ==> (#[trigger] terminals@[j]) < layout.c_nodes,
        decreases terminals@.len() - k,
    {
        if terminals[k] >= layout.c_nodes {
            return false;
        }
        k = k + 1;
    }
    match e.branch_index() {
        Some(idx) => idx < layout.c_vsrcs,
        None => true,
    }
}

/// A listed element is stamped inside the matrix and away from ground:
/// every entry of a plan over positions of the circuit names a row from 1
/// to `n - 1` and a column from 1 to `n`, and the position of an element.
pub proof fn lemma_plan_in_range(layout: Layout, elements: Seq<Element>, indices: Seq<usize>)
    requires
        layout.wf(),
        forall|i: int| 0 <= i < elements.len() ==> fits(layout, #[trigger] elements[i]),
        forall|k: int| 0 <= k < indices.len() ==> (#[trigger] indices[k]) < elements.len(),
    ensures
        forall|k: int|
            0 <= k < plan(layout, elements, indices).len() ==> {
                &&& 1 <= (#[trigger] plan(layout, elements, indices)[k]).stamp.row < layout.size()
                &&& 1 <= plan(layout, elements, indices)[k].stamp.col <= layout.size()
                &&& plan(layout, elements, indices)[k].element < elements.len()
            },
    decreases indices.len(),
{
    if indices.len() > 0 {
        let head = indices.drop_last();
        let last = indices.last();
        assert forall|k: int| 0 <= k < head.len() implies (#[trigger] head[k]) < elements.len() by {
            assert(head[k] == indices[k]);
        }
        lemma_plan_in_range(layout, elements, head);
        assert(fits(layout, elements[last as int]));
        lemma_stamps_in_range(layout, elements[last as int]);
        let before = plan(layout, elements, head);
        let stamps = element_stamps(layout, elements[last as int]);
        let all = plan(layout, elements, indices);
        assert forall|k: int| 0 <= k < all.len() implies {
            &&& 1 <= (#[trigger] all[k]).stamp.row < layout.size()
            &&& 1 <= all[k].stamp.col <= layout.size()
            &&& all[k].element < elements.len()
        } by {
            if k < before.len() {
                assert(all[k] == before[k]);
            } else {
                assert(all[k] == tagged(last, stamps)[k - before.len()]);
                assert(all_in_range(layout, stamps));
                assert(in_range(layout, stamps[k - before.len()]));
            }
        }
    }
}

/// Ground is at zero in the operating point of every circuit: an operating
/// point recorded for the model of a circuit holds one value for every node
/// and every voltage-defining element of the circuit, the first of them the
/// zero of ground, whether the solve that gave it converged or not.
pub proof fn lemma_operating_point_fits(eng: Engine, ckt: Circuit)
    requires
        eng.models(ckt),
        eng.holds_operating_point(),
    ensures
        eng.dc_op@.len() == node_set(ckt.elements@).len() + branches(ckt.elements@).len(),
        eng.dc_op@[0].bits == 0,
{
}

/// The model is a function of the circuit: two engines that hold the model
/// of the same circuit agree on the shape of the system, on every list of
/// elements and on the base matrix. Elaborating a circuit again changes
/// nothing.
pub proof fn lemma_model_is_determined(a: Engine, b: Engine, ckt: Circuit)
    requires
        a.models(ckt),
        b.models(ckt),
    ensures
        a.layout() == b.layout(),
        a.base_matrix@ == b.base_matrix@,
        a.nonlinear_elements@ == b.nonlinear_elements@,
        a.independent_sources@ == b.independent_sources@,
        a.v_dependent_sources@ == b.v_dependent_sources@,
        a.storage_elements@ == b.storage_elements@,
{
}

/// A circuit of resistors and DC sources alone leaves nothing to stamp anew:
/// the engine lists no nonlinear element, no time-varying source, no
/// dependent source and no storage element, so that every Newton-Raphson
/// iteration solves the base matrix as it is.
pub proof fn lemma_linear_circuit_is_static(eng: Engine, ckt: Circuit)
    requires
        eng.models(ckt),
        forall|i: int|
            0 <= i < ckt.elements@.len() ==> (#[trigger] ckt.elements@[i]).class() == Class::Base,
    ensures
        eng.nonlinear_elements@.len() == 0,
        eng.independent_sources@.len() == 0,
        eng.v_dependent_sources@.len() == 0,
        eng.storage_elements@.len() == 0,
{
    assert(ckt.elements@.len() == ckt.elements.len());
    lemma_class_indices(ckt.elements@, Class::Nonlinear);
    lemma_class_indices(ckt.elements@, Class::Independent);
    lemma_class_indices(ckt.elements@, Class::VoltageDependent);
    lemma_class_indices(ckt.elements@, Class::Storage);
    let elements = ckt.elements@;
    if eng.nonlinear_elements@.len() > 0 {
        assert(elements[class_indices(elements, Class::Nonlinear)[0] as int].class()
            == Class::Nonlinear);
    }
    if eng.independent_sources@.len() > 0 {
        assert(elements[class_indices(elements, Class::Independent)[0] as int].class()
            == Class::Independent);
    }
    if eng.v_dependent_sources@.len() > 0 {
        assert(elements[class_indices(elements, Class::VoltageDependent)[0] as int].class()
            == Class::VoltageDependent);
    }
    if eng.storage_elements@.len() > 0 {
        assert(elements[class_indices(elements, Class::Storage)[0] as int].class()
            == Class::Storage);
    }
}

} // verus!
