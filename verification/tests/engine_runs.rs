// Runs whole analyses through the library. The library decides; the
// arithmetic that it leaves to its caller is done here, in double precision.

use tiny_spice::analysis::{Configuration, Kind, Statistics};
use tiny_spice::circuit::{Circuit, BOLTZMANN, CHARGE, GMIN};
use tiny_spice::element::capacitor::Capacitor;
use tiny_spice::element::diode::{Diode, Limiting};
use tiny_spice::element::independent::{CurrentSource, VoltageSource};
use tiny_spice::element::isine::CurrentSourceSine;
use tiny_spice::element::resistor::Resistor;
use tiny_spice::element::vpwl::{Region, Segment, VoltageSourcePwl};
use tiny_spice::element::Element;
use tiny_spice::engine::Engine;
use tiny_spice::matrix::{Layout, Matrix, Unknowns};
use tiny_spice::newton::DcState;
use tiny_spice::scalar::Scalar;
use tiny_spice::solver::{settle_last, Solver, Work};
use tiny_spice::stamp::{Entry, Quantity};
use tiny_spice::transient::{Action, Event};

fn w(x: f64) -> Scalar {
    Scalar::from_bits(x.to_bits())
}

fn f(s: Scalar) -> f64 {
    f64::from_bits(s.to_bits())
}

fn assert_nearly(x: f64, expected: f64) {
    const EPSILON: f64 = 1e-5;
    let delta = (x - expected).abs();
    assert!(delta < EPSILON, "{} isn't approximately {}", x, expected);
}

/// What an element puts into a cell, given the time and, for a companion
/// model, its equivalent conductance and current.
fn amount(e: &Element, q: Quantity, t: f64, companion: Option<(f64, f64)>) -> f64 {
    if let Some(x) = e.stored(q) {
        return f(x);
    }
    match (q, e) {
        (Quantity::Conductance, Element::R(el)) => 1.0 / f(el.value),
        (Quantity::Conductance, _) => 1.0 / (1.0 / companion.unwrap().0),
        (Quantity::Source, Element::Isin(el)) => sine(f(el.vo), f(el.va), f(el.freq), t),
        (Quantity::Source, Element::Vsin(el)) => sine(f(el.vo), f(el.va), f(el.freq), t),
        (Quantity::Source, Element::Vpwl(el)) => pwl(el, t),
        (Quantity::Source, _) => companion.unwrap().1,
        _ => unreachable!(),
    }
}

fn sine(vo: f64, va: f64, freq: f64, t: f64) -> f64 {
    vo + va * (2.0 * std::f64::consts::PI * freq * t).sin()
}

fn pwl(src: &VoltageSourcePwl, t: f64) -> f64 {
    let t_period = match src.period() {
        Some(p) => f(p),
        None => 0.0,
    };
    match src.region(w(t), w(f(src.t_delay) + t_period)) {
        Region::Empty => 0.0,
        Region::Held { value } => f(value),
        Region::Cycling { period } => {
            let t_cycle = (t - f(src.t_delay)) % f(period);
            match src.segment(w(t_cycle)) {
                Segment::BeforeStart => 0.0,
                Segment::Span { t1, v1, t2, v2 } => {
                    let mut gradient = (f(v2) - f(v1)) / (f(t2) - f(t1));
                    if gradient.is_nan() {
                        gradient = 0.0;
                    }
                    gradient * (t_cycle - f(t1)) + f(v1)
                }
            }
        }
    }
}

/// The diodes of a circuit remember the voltage that they were last
/// linearized at.
struct Memory {
    v_d_prev: Vec<f64>,
}

fn diode_companion(d: &Diode, v_hat: f64, v_d_prev: &mut f64) -> (f64, f64) {
    let i_sat = f(d.i_sat);
    let v_thermal = f(Scalar::from_bits(BOLTZMANN)) * (363.0 + f(d.tdegc))
        / f(Scalar::from_bits(CHARGE));
    let v_crit = v_thermal * (v_thermal / (2.0_f64.sqrt() * i_sat)).ln();
    let v_delta = v_hat - *v_d_prev;
    let arg = 1.0 + (v_delta / v_thermal);
    let rule = Diode::limit(
        w(v_hat),
        w(*v_d_prev),
        w(v_crit),
        w(v_delta),
        w(2.0 * v_thermal),
        w(arg),
    );
    let v_d_i = match rule {
        Limiting::Keep => v_hat,
        Limiting::LogOfRatio => v_thermal * (v_hat / v_thermal).ln(),
        Limiting::Critical => v_crit,
        Limiting::LogStep => *v_d_prev + v_thermal * arg.ln(),
    };
    let exp_vd_over_vt = (v_d_i / v_thermal).exp();
    let i_d = i_sat * (exp_vd_over_vt - 1.0);
    let slope = (i_sat / v_thermal) * exp_vd_over_vt;
    let g_eq = match Diode::conductance(w(i_d), w(slope), Scalar::from_bits(GMIN)) {
        Ok(g) => f(g),
        Err(e) => panic!("*FATAL* Possibly bad I_d {} ({:?})", i_d, e),
    };
    let i_eq = i_d - (g_eq * v_d_i);
    *v_d_prev = v_d_i;
    (g_eq, i_eq)
}

fn capacitor_companion(c: &Capacitor, v_prev: f64, t_delta: f64) -> (f64, f64) {
    let g_eq = f(c.value) / t_delta;
    let i_eq = g_eq * v_prev;
    (g_eq, i_eq)
}

fn apply(m: &mut Matrix, ckt: &Circuit, entries: &[Entry], t: f64, companions: &[Option<(f64, f64)>]) {
    for entry in entries {
        let e = &ckt.elements[entry.element];
        let x = w(amount(e, entry.stamp.quantity, t, companions[entry.element]));
        assert!(entry.stamp.fits(m.dim()));
        let held = f(m.get(entry.stamp.row, entry.stamp.col));
        let sum = w(held + f(entry.stamp.signed(x)));
        tiny_spice::stamp::apply(m, &entry.stamp, x, sum);
    }
}

fn solve(mut m: Matrix, layout: &Layout) -> Unknowns {
    let n = m.dim();
    let mut x = Unknowns::zeros(layout);
    let mut solver = Solver::begin();
    loop {
        match solver.next(&mut m) {
            Work::Eliminate { pivot, rows } => {
                for r_mod in rows {
                    let ratio = f(m.get(r_mod, pivot)) / f(m.get(pivot, pivot));
                    for c_mod in pivot..=n {
                        let val = f(m.get(r_mod, c_mod));
                        let wiggle = f(m.get(pivot, c_mod));
                        m.set(r_mod, c_mod, w(val - (wiggle * ratio)));
                    }
                }
            }
            Work::SolveLast { row } => {
                let q = f(m.get(row, n)) / f(m.get(row, row));
                x.set(row, settle_last(w(q)));
            }
            Work::Substitute { row } => {
                let mut sum = 0.0;
                for i_term in row + 1..n {
                    sum += f(m.get(row, i_term)) * f(x.get(i_term));
                }
                x.set(row, w((f(m.get(row, n)) - sum) / f(m.get(row, row))));
            }
            Work::Done => break,
        }
    }
    x
}

fn check(eng: &Engine, cfg: &Configuration, x: &Unknowns, y: &Unknowns) -> Result<bool, tiny_spice::engine::ConvergenceError> {
    let mut xv = vec![];
    let mut errors = vec![];
    let mut limits = vec![];
    for i in 0..x.len() {
        let xi = f(x.get(i));
        xv.push(w(xi));
        errors.push(w((xi - f(y.get(i))).abs()));
        limits.push(w(xi.abs() * f(cfg.RELTOL) + f(eng.tolerance(i, cfg))));
    }
    eng.convergence_check(&xv, &errors, &limits)
}

struct Bench {
    ckt: Circuit,
    cfg: Configuration,
    eng: Engine,
    layout: Layout,
    base: Matrix,
    memory: Memory,
}

impl Bench {
    fn new(ckt: Circuit, cfg: Configuration) -> (Bench, DcState) {
        let mut eng = Engine::new();
        let state = eng.dc_operating_point(&ckt).expect("circuit cannot be elaborated");
        let layout = Layout::new(eng.c_nodes, eng.c_vsrcs).unwrap();
        let mut base = Matrix::zeros(&layout);
        let none = vec![None; ckt.elements.len()];
        apply(&mut base, &ckt, &eng.base_matrix, 0.0, &none);
        let memory = Memory { v_d_prev: vec![0.0; ckt.elements.len()] };
        (Bench { ckt, cfg, eng, layout, base, memory }, state)
    }

    /// One Newton-Raphson solve at time `t`, around the iterate `at`. For a
    /// transient time point, `step` brings the solution of the last
    /// accepted time point and the time step.
    fn solve_at(&mut self, t: f64, at: &Unknowns, step: Option<(&Unknowns, f64)>) -> Unknowns {
        let mut m = self.base.duplicate();
        let mut companions = vec![None; self.ckt.elements.len()];
        if let Some((accepted, t_delta)) = step {
            for &i in self.eng.storage_elements.iter() {
                if let Element::C(c) = &self.ckt.elements[i] {
                    let v_c = f(accepted.get(c.a)) - f(accepted.get(c.b));
                    companions[i] = Some(capacitor_companion(c, v_c, t_delta));
                }
            }
        }
        for &i in self.eng.nonlinear_elements.iter() {
            if let Element::D(d) = &self.ckt.elements[i] {
                let v_d = f(at.get(d.p)) - f(at.get(d.n));
                companions[i] = Some(diode_companion(d, v_d, &mut self.memory.v_d_prev[i]));
            }
        }
        let entries = self.eng.iteration_stamp(&self.ckt, step.is_some());
        apply(&mut m, &self.ckt, &entries, t, &companions);
        solve(m, &self.layout)
    }

    /// The Newton-Raphson loop of the operating point.
    fn dc_solve(&mut self, mut state: DcState) -> (Unknowns, Statistics, Vec<Vec<f64>>) {
        let mut unknowns_prev = Unknowns::zeros(&self.layout);
        let mut unknowns = Unknowns::zeros(&self.layout);
        let mut iterates = vec![];
        while !state.is_terminal() {
            unknowns = self.solve_at(0.0, &unknowns_prev, None);
            iterates.push(values(&unknowns));
            let verdict = check(&self.eng, &self.cfg, &unknowns, &unknowns_prev);
            state = state.next(self.cfg.ITL1, verdict);
            unknowns_prev = unknowns.duplicate();
        }
        self.eng.record_dc(&unknowns);
        (unknowns, state.statistics(), iterates)
    }

    /// The time-stepping loop of the transient analysis.
    fn transient(&mut self, state: DcState) -> (Vec<(f64, Vec<f64>)>, Statistics) {
        let (dc, dc_stats, _) = self.dc_solve(state);
        let mut unknowns = dc;
        let mut samples = vec![(0.0, values(&unknowns))];
        let tstep = f(self.cfg.TSTEP);
        let (ctl, mut run) = self.eng.transient_analysis(
            &self.cfg,
            w(tstep * f(self.cfg.FS)),
            w(tstep * f(self.cfg.RMIN)),
            w(tstep * f(self.cfg.RMAX)),
        );
        let mut unknowns_prev = Unknowns::zeros(&self.layout);
        let mut unknowns_solve = Unknowns::zeros(&self.layout);
        loop {
            let t_now = f(run.t_now);
            let t_delta = f(run.t_delta);
            let at = unknowns.duplicate();
            unknowns = self.solve_at(t_now + t_delta, &at, Some((&unknowns_prev, t_delta)));
            let verdict = check(&self.eng, &self.cfg, &unknowns, &unknowns_solve);
            assert!(run.c_iteration < usize::MAX);
            let solved = Event::Solved {
                verdict,
                shrunk: w(t_delta * f(self.cfg.FT)),
                doubled: w(t_delta * 2.0),
            };
            match run.handle(&ctl, solved) {
                Action::Iterate => {
                    unknowns_solve = unknowns.duplicate();
                    continue;
                }
                Action::Advance => {
                    unknowns_prev = unknowns.duplicate();
                }
                Action::Stop { emit } => {
                    assert!(!emit && run.failed);
                    break;
                }
                other => panic!("unexpected {:?}", other),
            }
            let t = f(run.t_now) + f(run.t_delta);
            match run.handle(&ctl, Event::Advanced { t: w(t) }) {
                Action::Step { emit } => {
                    if emit {
                        samples.push((f(run.t_now), values(&unknowns)));
                    }
                    unknowns_solve = Unknowns::zeros(&self.layout);
                }
                Action::Stop { emit } => {
                    if emit {
                        samples.push((f(run.t_now), values(&unknowns)));
                    }
                    break;
                }
                other => panic!("unexpected {:?}", other),
            }
        }
        (samples, run.statistics(dc_stats.iterations))
    }
}

fn values(u: &Unknowns) -> Vec<f64> {
    (0..u.len()).map(|i| f(u.get(i))).collect()
}

fn dc_operating_point(ckt: Circuit) -> (Vec<f64>, Statistics) {
    let mut cfg = Configuration::new();
    cfg.set_dc_operating_point();
    let (mut bench, state) = Bench::new(ckt, cfg);
    let (_, stats, _) = bench.dc_solve(state);
    let v: Vec<f64> = bench.eng.dc().unwrap().into_iter().map(f).collect();
    (v, stats)
}

fn transient_analysis(ckt: Circuit, cfg: &Configuration) -> (Vec<(f64, Vec<f64>)>, Statistics) {
    let (mut bench, state) = Bench::new(ckt, cfg.clone());
    bench.transient(state)
}

fn resistor(ident: &str, a: usize, b: usize, value: f64) -> Element {
    Element::R(Resistor { ident: ident.to_string(), a, b, value: w(value) })
}

fn current(p: usize, n: usize, value: f64) -> Element {
    Element::I(CurrentSource { p, n, value: w(value) })
}

fn voltage(p: usize, n: usize, value: f64, idx: usize) -> Element {
    Element::V(VoltageSource { p, n, value: w(value), idx })
}

fn diode(p: usize, n: usize, i_sat: f64, tdegc: f64) -> Element {
    Element::D(Diode::new(p, n, w(i_sat), w(tdegc)))
}

fn isine(p: usize, n: usize, vo: f64, va: f64, freq: f64) -> Element {
    Element::Isin(CurrentSourceSine { p, n, vo: w(vo), va: w(va), freq: w(freq) })
}

fn capacitor(ident: &str, a: usize, b: usize, value: f64) -> Element {
    Element::C(Capacitor::new(ident, a, b, w(value)))
}

fn build_ir() -> Circuit {
    let mut ckt = Circuit::new();
    ckt.elements.push(current(0, 1, 3.0));
    ckt.elements.push(resistor("R100", 1, 0, 10.0));
    ckt
}

#[test]
fn test_ir() {
    let (v, _) = dc_operating_point(build_ir());
    assert_nearly(v[1], 30.0);
    assert_eq!(v[1], 30.0);
    assert_eq!(v[0], 0.0);
}

fn build_irrrr() -> Circuit {
    let mut ckt = Circuit::new();
    ckt.elements.push(current(0, 1, 3.0));
    ckt.elements.push(resistor("r1", 1, 2, 5.0));
    ckt.elements.push(resistor("r2", 2, 3, 5.0));
    ckt.elements.push(resistor("r3", 2, 0, 10.0));
    ckt.elements.push(resistor("r4", 3, 0, 10.0));
    ckt
}

#[test]
fn test_irrrr() {
    let (v, _) = dc_operating_point(build_irrrr());
    assert_nearly(v[1], 33.0);
    assert_nearly(v[2], 18.0);
    assert_nearly(v[3], 12.0);
}

fn build_vvrrr() -> Circuit {
    let mut ckt = Circuit::new();
    ckt.elements.push(resistor("r1", 0, 1, 2.0));
    ckt.elements.push(voltage(2, 1, 32.0, 0));
    ckt.elements.push(resistor("r2", 2, 3, 4.0));
    ckt.elements.push(resistor("r3", 2, 0, 8.0));
    ckt.elements.push(voltage(3, 0, 20.0, 1));
    ckt
}

#[test]
fn test_vvrrr() {
    let (v, _) = dc_operating_point(build_vvrrr());
    assert_nearly(v[1], -8.0);
    assert_nearly(v[2], 24.0);
    assert_nearly(v[3], 20.0);
    assert_nearly(v[4], -4.0);
    assert_nearly(v[5], 1.0);
}

fn build_ird(isat: f64) -> Circuit {
    let mut ckt = Circuit::new();
    ckt.elements.push(current(0, 1, 3.0));
    ckt.elements.push(resistor("r1", 1, 0, 10.0));
    ckt.elements.push(diode(1, 0, isat, 27.0));
    ckt
}

#[test]
fn test_dc_ird() {
    let (v, stats) = dc_operating_point(build_ird(1e-9));
    assert!(stats.converged);
    assert_nearly(v[1], 0.73217);
}

#[test]
fn test_ird_rev() {
    let mut ckt = Circuit::new();
    ckt.elements.push(current(0, 1, 3.0));
    ckt.elements.push(resistor("r1", 1, 0, 10.0));
    ckt.elements.push(diode(0, 1, 1e-9, 27.0));
    let (v, _) = dc_operating_point(ckt);
    assert_nearly(v[1], 10.0 * 3.0);
}

#[test]
fn test_ird_vv() {
    let mut ckt = Circuit::new();
    ckt.elements.push(current(0, 1, 3.0));
    ckt.elements.push(voltage(1, 2, 0.0, 0));
    ckt.elements.push(resistor("r1", 2, 0, 10.0));
    ckt.elements.push(voltage(1, 3, 0.0, 1));
    ckt.elements.push(diode(3, 0, 1e-9, 27.0));
    let (v, _) = dc_operating_point(ckt);
    assert_nearly(v[1], 0.73217);
    assert_nearly(v[2], 0.73217);
    assert_nearly(v[3], 0.73217);
    assert_nearly(v[4] + v[5], 3.0);
}

#[test]
fn test_irrc_dc() {
    let mut ckt = Circuit::new();
    ckt.elements.push(current(0, 1, 1.0));
    ckt.elements.push(resistor("r1", 1, 0, 10.0));
    ckt.elements.push(resistor("r2", 1, 2, 1.0e-3));
    ckt.elements.push(capacitor("c1", 2, 0, 0.01e-6));
    let (v, _) = dc_operating_point(ckt);
    assert_nearly(v[2], 9.999999);
}

#[test]
fn test_v_d_vs_d() {
    let mut ckt = Circuit::new();
    ckt.elements.push(voltage(1, 0, 5.0, 0));
    ckt.elements.push(diode(1, 2, 1e-9, 27.0));
    ckt.elements.push(diode(0, 2, 1e-9, 27.0));
    let (v, _) = dc_operating_point(ckt);
    assert_nearly(v[1], 5.0);
}

fn build_bridge_v(load: bool) -> Circuit {
    let mut ckt = Circuit::new();
    ckt.elements.push(voltage(1, 2, 10.0, 0));
    ckt.elements.push(voltage(2, 0, 0.0, 1));
    ckt.elements.push(diode(1, 3, 1e-9, 27.0));
    ckt.elements.push(diode(4, 1, 1e-9, 27.0));
    ckt.elements.push(diode(2, 3, 1e-9, 27.0));
    ckt.elements.push(diode(4, 2, 1e-9, 27.0));
    if load {
        ckt.elements.push(resistor("R1", 3, 4, 1000.0));
    }
    ckt
}

#[test]
fn test_dc_bridge_loaded_2v0() {
    let (v, _) = dc_operating_point(build_bridge_v(true));
    assert_nearly(v[3], 9.4624);
    assert_nearly(v[4], 0.53759);
}

#[test]
fn test_dc_bridge_loaded_gnd() {
    let mut ckt = Circuit::new();
    ckt.elements.push(voltage(1, 0, 10.0, 0));
    ckt.elements.push(diode(1, 3, 1e-9, 27.0));
    ckt.elements.push(diode(2, 1, 1e-9, 27.0));
    ckt.elements.push(diode(0, 3, 1e-9, 27.0));
    ckt.elements.push(diode(2, 0, 1e-9, 27.0));
    ckt.elements.push(resistor("r1", 3, 2, 1000.0));
    let (v, _) = dc_operating_point(ckt);
    assert_nearly(v[3], 9.4624);
    assert_nearly(v[2], 0.53759);
}

#[test]
#[allow(non_snake_case)]
fn test_diode_bridge_unloaded_10V() {
    let (v, _) = dc_operating_point(build_bridge_v(false));
    assert_nearly(v[3], 9.976717);
    assert_nearly(v[4], 0.023283);
}

#[test]
fn trans_ir() {
    let mut cfg = Configuration::new();
    cfg.set_transient(w(2.0e-3), w(10e-6), w(0.0));
    cfg.set_wavefile("waves/trans_ir.dat");
    let (_, stats) = transient_analysis(build_ir(), &cfg);
    assert!(f(stats.end) >= f(cfg.TSTOP));
    assert_eq!(stats.kind, Kind::Transient);
}

fn build_ir_sine(freq: f64) -> Circuit {
    let mut ckt = Circuit::new();
    ckt.add_node("1");
    ckt.elements.push(isine(0, 1, 3.0, 1.0, freq));
    ckt.elements.push(resistor("R1", 1, 0, 10.0));
    ckt.build_node_id_lut();
    ckt
}

fn run_transient(ckt: Circuit, tstop: f64, tstep: f64, wavefile: &str) -> (Vec<(f64, Vec<f64>)>, Statistics, Configuration) {
    let mut cfg = Configuration::new();
    cfg.set_transient(w(tstop), w(tstep), w(0.0));
    cfg.set_wavefile(wavefile);
    let (samples, stats) = transient_analysis(ckt, &cfg);
    (samples, stats, cfg)
}

#[test]
#[allow(non_snake_case)]
fn test_trans_ir_sine_10Hz() {
    let (_, stats, cfg) = run_transient(build_ir_sine(10.0), 2.0e-3, 10e-6, "waves/trans_ir_sine_10Hz.dat");
    assert!(f(stats.end) >= f(cfg.TSTOP));
}

#[test]
#[allow(non_snake_case)]
fn test_trans_ir_sine_1kHz() {
    let (_, stats, cfg) = run_transient(build_ir_sine(1e3), 2.0e-3, 10e-6, "waves/trans_ir_sine_1kHz.dat");
    assert!(f(stats.end) >= f(cfg.TSTOP));
}

fn build_irrc(freq: f64) -> Circuit {
    let mut ckt = Circuit::new();
    ckt.add_node("1");
    ckt.add_node("2");
    ckt.elements.push(isine(0, 1, 0.0, 10.0, freq));
    ckt.elements.push(resistor("r1", 1, 0, 1.0));
    ckt.elements.push(resistor("r2", 1, 2, 1.0e3));
    ckt.elements.push(capacitor("c1", 2, 0, 0.032e-6));
    ckt.build_node_id_lut();
    ckt
}

#[test]
#[allow(non_snake_case)]
fn test_irrc_trans_1kHz() {
    let (_, stats, cfg) = run_transient(build_irrc(1.0e3), 2.0e-3, 1e-6, "waves/trans_irrc_1kHz.dat");
    assert!(f(stats.end) >= f(cfg.TSTOP));
}

#[test]
#[allow(non_snake_case)]
fn test_irrc_trans_2kHz() {
    let (_, stats, cfg) = run_transient(build_irrc(2.0e3), 2.0e-3, 1e-6, "waves/trans_irrc_2kHz.dat");
    assert!(f(stats.end) >= f(cfg.TSTOP));
}

#[test]
#[allow(non_snake_case)]
fn test_irrc_trans_5kHz() {
    let (_, stats, cfg) = run_transient(build_irrc(5.0e3), 2.0e-3, 1e-6, "waves/trans_irrc_5kHz.dat");
    assert!(f(stats.end) >= f(cfg.TSTOP));
}

#[test]
#[allow(non_snake_case)]
fn test_irrc_trans_10kHz() {
    let (_, stats, cfg) = run_transient(build_irrc(10.0e3), 2.0e-3, 1e-6, "waves/trans_irrc_10kHz.dat");
    assert!(f(stats.end) >= f(cfg.TSTOP));
}

fn build_irrc_hpf(freq: f64) -> Circuit {
    let mut ckt = Circuit::new();
    ckt.elements.push(isine(0, 1, 0.0, 10.0, freq));
    ckt.elements.push(resistor("r1", 1, 0, 1.0));
    ckt.elements.push(capacitor("c1", 1, 2, 0.032e-6));
    ckt.elements.push(resistor("r2", 2, 0, 1.0e3));
    ckt
}

#[test]
#[allow(non_snake_case)]
fn test_irrc_trans_hpf_1kHz() {
    let (_, stats, cfg) = run_transient(build_irrc_hpf(1.0e3), 2.0e-3, 1e-6, "waves/trans_irrc_hpf_1kHz.dat");
    assert!(f(stats.end) >= f(cfg.TSTOP));
}

#[test]
#[allow(non_snake_case)]
fn test_irrc_trans_hpf_2kHz() {
    let (_, stats, cfg) = run_transient(build_irrc_hpf(2.0e3), 2.0e-3, 1e-6, "waves/trans_irrc_hpf_2kHz.dat");
    assert!(f(stats.end) >= f(cfg.TSTOP));
}

#[test]
#[allow(non_snake_case)]
fn test_irrc_trans_hpf_5kHz() {
    let (_, stats, cfg) = run_transient(build_irrc_hpf(5.0e3), 2.0e-3, 1e-6, "waves/trans_irrc_hpf_5kHz.dat");
    assert!(f(stats.end) >= f(cfg.TSTOP));
}

#[test]
#[allow(non_snake_case)]
fn test_irrc_trans_hpf_10kHz() {
    let (_, stats, cfg) = run_transient(build_irrc_hpf(10.0e3), 2.0e-3, 1e-6, "waves/trans_irrc_hpf_10kHz.dat");
    assert!(f(stats.end) >= f(cfg.TSTOP));
}

fn build_ird_sine(amp: f64, freq: f64, isat: f64) -> Circuit {
    let i_offset = 0.0;
    let mut ckt = Circuit::new();
    ckt.add_node("1");
    ckt.elements.push(isine(0, 1, i_offset, amp, freq));
    ckt.elements.push(resistor("r1", 1, 0, 10.0));
    ckt.elements.push(diode(1, 0, isat, 27.0));
    ckt.build_node_id_lut();
    ckt
}

#[test]
#[allow(non_snake_case)]
fn test_trans_ir_sine_1kHz_10us() {
    let (_, stats, cfg) = run_transient(build_ird_sine(2.0, 1e3, 1e-9), 2.0e-3, 10e-6, "waves/trans_ird_sine_1kHz_10us.dat");
    assert!(f(stats.end) >= f(cfg.TSTOP));
}

#[test]
#[allow(non_snake_case)]
fn test_trans_ir_sine_1kHz_1us() {
    let (_, stats, cfg) = run_transient(build_ird_sine(2.0, 1e3, 1e-9), 2.0e-3, 1e-6, "waves/trans_ird_sine_1kHz_1us.dat");
    assert!(f(stats.end) >= f(cfg.TSTOP));
}

fn build_irrd_sine(freq: f64) -> Circuit {
    let mut ckt = Circuit::new();
    ckt.elements.push(isine(0, 1, 0.0, 0.3, freq));
    ckt.elements.push(resistor("r1", 1, 0, 10.0));
    ckt.elements.push(diode(1, 2, 1e-9, 27.0));
    ckt.elements.push(resistor("r2", 2, 0, 1e3));
    ckt
}

#[test]
#[allow(non_snake_case)]
fn test_trans_irrd_sine_1kHz_10us() {
    let (_, stats, cfg) = run_transient(build_irrd_sine(1e3), 2.0e-3, 10e-6, "waves/trans_irrd_sine_1kHz_10us.dat");
    assert!(f(stats.end) >= f(cfg.TSTOP));
}

#[test]
#[allow(non_snake_case)]
fn test_trans_irrd_sine_1kHz_1us() {
    let (_, stats, cfg) = run_transient(build_irrd_sine(1e3), 2.0e-3, 1e-6, "waves/trans_irdd_sine_1kHz_1us.dat");
    assert!(f(stats.end) >= f(cfg.TSTOP));
}

fn build_bridge_sine(amp: f64, freq: f64, isat: f64) -> Circuit {
    let mut ckt = Circuit::new();
    ckt.elements.push(isine(0, 1, 0.0, amp, freq));
    ckt.elements.push(resistor("r1", 1, 0, 10.0));
    ckt.elements.push(voltage(2, 0, 0.0, 0));
    ckt.elements.push(diode(1, 3, isat, 27.0));
    ckt.elements.push(diode(4, 1, isat, 27.0));
    ckt.elements.push(diode(2, 3, isat, 27.0));
    ckt.elements.push(diode(4, 2, isat, 27.0));
    ckt.elements.push(resistor("r2", 3, 4, 1000.0));
    ckt
}

fn run_with_step(ckt: Circuit, tstep: f64) -> (Statistics, Configuration) {
    let mut cfg = Configuration::new();
    cfg.kind = Some(Kind::Transient);
    cfg.TSTEP = w(tstep);
    let (_, stats) = transient_analysis(ckt, &cfg);
    (stats, cfg)
}

#[test]
#[allow(non_snake_case)]
fn test_trans_ir_bridge_1kHz_10us() {
    let (stats, cfg) = run_with_step(build_bridge_sine(2.0, 1.0e3, 1e-9), 10e-6);
    assert!(f(stats.end) >= f(cfg.TSTOP));
}

#[test]
#[allow(non_snake_case)]
fn test_trans_ir_bridge_1kHz_1us() {
    let (stats, cfg) = run_with_step(build_bridge_sine(2.0, 1.0e3, 1e-9), 1.0e-6);
    assert!(f(stats.end) >= f(cfg.TSTOP));
}

fn build_bridge_rc(amp: f64, freq: f64, cap: f64) -> Circuit {
    let isat = 1e-12;
    let mut ckt = Circuit::new();
    ckt.add_node("1");
    ckt.add_node("2");
    ckt.add_node("3");
    ckt.add_node("4");
    ckt.elements.push(isine(0, 1, 0.0, amp, freq));
    ckt.elements.push(resistor("r1", 1, 0, 10.0));
    ckt.elements.push(voltage(2, 0, 0.0, 0));
    ckt.elements.push(diode(1, 3, isat, 27.0));
    ckt.elements.push(diode(4, 1, isat, 27.0));
    ckt.elements.push(diode(2, 3, isat, 27.0));
    ckt.elements.push(diode(4, 2, isat, 27.0));
    let c_diode = 1e-12;
    ckt.elements.push(capacitor("C1", 1, 3, c_diode));
    ckt.elements.push(capacitor("C2", 4, 1, c_diode));
    ckt.elements.push(capacitor("C3", 2, 3, c_diode));
    ckt.elements.push(capacitor("C4", 4, 2, c_diode));
    ckt.elements.push(resistor("r2", 3, 4, 1000.0));
    ckt.elements.push(capacitor("c199", 3, 4, cap));
    ckt.build_node_id_lut();
    ckt
}

#[test]
#[allow(non_snake_case)]
fn test_trans_ir_bridge_rc_1kHz() {
    let (_, stats, cfg) = run_transient(build_bridge_rc(2.0, 1e3, 1e-6), 2.0e-3, 1e-6, "waves/trans_ir_bridge_1kHz_rc_load.dat");
    assert!(f(stats.end) >= f(cfg.TSTOP));
}

#[test]
fn test_trans_ir_bridge_rc_failure_003() {
    let (_, stats, cfg) = run_transient(build_bridge_rc(-2.0, 3.0e3, 0.000001), 2.0e-3, 0.000001, "waves/trans_ir_bridge_rc_failure_003.dat");
    assert!(f(stats.end) >= f(cfg.TSTOP));
}

#[test]
fn operating_point_is_reproducible() {
    for build in [build_ir as fn() -> Circuit, build_irrrr, build_vvrrr] {
        let (first, stats_first) = dc_operating_point(build());
        let (second, stats_second) = dc_operating_point(build());
        let a: Vec<u64> = first.iter().map(|x| x.to_bits()).collect();
        let b: Vec<u64> = second.iter().map(|x| x.to_bits()).collect();
        assert_eq!(a, b);
        assert_eq!(stats_first, stats_second);
    }
    let (first, _) = dc_operating_point(build_ird(1e-9));
    let (second, _) = dc_operating_point(build_ird(1e-9));
    assert_eq!(first[1].to_bits(), second[1].to_bits());
}

#[test]
fn linear_circuit_is_solved_by_the_first_iteration() {
    for build in [build_ir as fn() -> Circuit, build_irrrr, build_vvrrr] {
        let mut cfg = Configuration::new();
        cfg.set_dc_operating_point();
        let (mut bench, state) = Bench::new(build(), cfg);
        assert!(bench.eng.nonlinear_elements.is_empty());
        assert!(bench.eng.independent_sources.is_empty());
        assert!(bench.eng.v_dependent_sources.is_empty());
        assert!(bench.eng.storage_elements.is_empty());
        let (solution, stats, iterates) = bench.dc_solve(state);
        // The first solve gives the solution; the second one confirms it.
        assert_eq!(iterates[0], values(&solution));
        assert_eq!(iterates.len(), 2);
        assert_eq!(stats.iterations, 2);
        assert!(stats.converged);
    }
}

#[test]
fn ground_stays_at_zero() {
    for ckt in [build_ir(), build_irrrr(), build_vvrrr(), build_ird(1e-9), build_bridge_v(true)] {
        let (v, _) = dc_operating_point(ckt);
        assert_eq!(v[0].to_bits(), 0);
    }
    let (samples, _, _) = run_transient(build_irrc(1.0e3), 2.0e-3, 10e-6, "waves/x.dat");
    for (_, v) in samples.iter() {
        assert_eq!(v[0].to_bits(), 0);
    }
}

#[test]
fn samples_come_in_order_and_end_at_the_stop_time() {
    for (ckt, tstep) in [
        (build_ir(), 10e-6),
        (build_ir_sine(1e3), 10e-6),
        (build_irrc(1.0e3), 1e-6),
        (build_ird_sine(2.0, 1e3, 1e-9), 10e-6),
    ] {
        let (samples, stats, cfg) = run_transient(ckt, 2.0e-3, tstep, "waves/x.dat");
        assert!(stats.converged);
        assert_eq!(samples[0].0, 0.0);
        for pair in samples.windows(2) {
            assert!(pair[0].0 < pair[1].0);
        }
        assert_eq!(samples.last().unwrap().0, f(cfg.TSTOP));
        assert_eq!(f(stats.end), f(cfg.TSTOP));
    }
}

#[test]
fn samples_start_at_the_start_time() {
    let mut cfg = Configuration::new();
    cfg.set_transient(w(2.0e-3), w(10e-6), w(1.0e-3));
    let (samples, stats) = transient_analysis(build_ir_sine(1e3), &cfg);
    assert!(stats.converged);
    assert_eq!(samples[0].0, 0.0);
    assert!(samples[1].0 >= 1.0e-3);
    assert_eq!(samples.last().unwrap().0, 2.0e-3);
}

#[test]
fn step_grows_to_its_cap() {
    // A resistive circuit converges in two solves at every time point, so
    // the step doubles from TSTEP * FS until TSTEP * RMAX caps it.
    let (samples, stats, _) = run_transient(build_ir(), 2.0e-3, 10e-6, "waves/x.dat");
    assert!(stats.converged);
    assert_eq!(samples[1].0, 5.0e-6);
    assert_eq!(samples[2].0, 5.0e-6 + 10.0e-6);
    assert_eq!(samples[3].0, 5.0e-6 + 10.0e-6 + 20.0e-6);
    let last_steps: Vec<f64> = samples.windows(2).map(|p| p[1].0 - p[0].0).collect();
    for step in last_steps.iter() {
        assert!(*step <= 50.0e-6 * 1.000001);
    }
}

#[test]
fn capacitor_charges_through_the_resistor() {
    // A 1 V source behind 1 kOhm charges 1 uF: after five time constants
    // the capacitor has all but reached the source voltage.
    let mut ckt = Circuit::new();
    ckt.add_v(1, 0, w(1.0));
    ckt.add_r("r".to_string(), 1, 2, w(1.0e3));
    ckt.add_c("c".to_string(), 2, 0, w(1.0e-6));
    let (samples, stats, _) = run_transient(ckt, 5.0e-3, 10e-6, "waves/x.dat");
    assert!(stats.converged);
    let last = samples.last().unwrap();
    assert!(last.1[2] > 0.99 && last.1[2] < 1.0);
    assert_eq!(last.1[1], 1.0);
}

#[test]
fn piecewise_linear_source_follows_its_pattern() {
    let src = VoltageSourcePwl {
        p: 1,
        n: 0,
        pat: vec![(w(0.0), w(0.0)), (w(1.0), w(2.0)), (w(3.0), w(2.0)), (w(4.0), w(0.0))],
        t_delay: w(0.0),
        repeat: w(-1.0),
        idx: 0,
    };
    assert_eq!(pwl(&src, 0.5), 1.0);
    assert_eq!(pwl(&src, 2.0), 2.0);
    assert_eq!(pwl(&src, 3.5), 1.0);
    assert_eq!(pwl(&src, 10.0), 0.0);
    let repeating = VoltageSourcePwl { repeat: w(0.0), t_delay: w(1.0), ..src.clone() };
    assert_eq!(pwl(&repeating, 1.5), 1.0);
    assert_eq!(pwl(&repeating, 5.5), 1.0);
    assert_eq!(pwl(&repeating, 0.5), 0.0);
    let empty = VoltageSourcePwl { pat: vec![], ..src };
    assert_eq!(pwl(&empty, 1.0), 0.0);
}

#[test]
fn controlled_sources_are_stamped() {
    // 1 V on node 1; a VCVS of gain 3 drives node 2 from it; a VCCS of
    // 0.5 S feeds a 2 Ohm resistor on node 3 from the same control voltage.
    let mut ckt = Circuit::new();
    ckt.add_v(1, 0, w(1.0));
    ckt.add_r("r1".to_string(), 1, 0, w(1.0));
    ckt.add_vcvs(tiny_spice::element::vdepsrc::Vcvs {
        ident: "e1".to_string(),
        p: 2,
        n: 0,
        cp: 1,
        cn: 0,
        k: w(3.0),
        idx: 0,
    });
    ckt.add_r("r2".to_string(), 2, 0, w(1.0));
    ckt.add_vccs(tiny_spice::element::vdepsrc::Vccs::new("g1", 0, 3, 1, 0, w(0.5)));
    ckt.add_r("r3".to_string(), 3, 0, w(2.0));
    let (v, stats) = dc_operating_point(ckt);
    assert!(stats.converged);
    assert_nearly(v[1], 1.0);
    assert_nearly(v[2], 3.0);
    assert_nearly(v[3], 1.0);
}

#[test]
fn capacitor_conductance_scales_with_the_step() {
    let c = Capacitor::new("c", 1, 0, w(0.032e-6));
    for t_delta in [1.0e-6, 0.25e-6, 5.0e-6, 3.0e-9] {
        let (g, i) = capacitor_companion(&c, 2.5, t_delta);
        assert_eq!(g, 0.032e-6 / t_delta);
        assert_eq!(i, g * 2.5);
        let (g_half, _) = capacitor_companion(&c, 2.5, t_delta / 2.0);
        assert_eq!(g_half, 2.0 * g);
    }
}

#[test]
fn reverse_biased_diode_conducts_at_the_floor() {
    let d = Diode::new(1, 0, w(1e-9), w(27.0));
    for v_d in [-1.0, -5.0, -100.0, -1.0e6] {
        let mut v_d_prev = 0.0;
        let (g_eq, i_eq) = diode_companion(&d, v_d, &mut v_d_prev);
        assert_eq!(g_eq, 1.0e-12);
        assert!(i_eq.abs() < 1.0e-5);
        assert!((i_eq - (-1e-9 - g_eq * v_d)).abs() < 1e-18);
    }
    for v_d in [-1.0, 0.0, 0.3, 0.6, 0.7] {
        let mut v_d_prev = v_d;
        let (g_eq, _) = diode_companion(&d, v_d, &mut v_d_prev);
        assert!(g_eq >= 1.0e-12);
    }
}

#[test]
fn curve_trace() {
    const VMAX: f64 = 5.0;
    const POINTS: i32 = 100;
    let d = Diode::new(0, 1, w(1e-12), w(27.0));
    let mut v_d_prev = 0.0;
    println!("DATA pt Vd G_eq I_eq I_d");
    println!("DATA int V S A A");
    for pt in -POINTS..POINTS {
        let v_d = pt as f64 * (VMAX / POINTS as f64);
        let (g_eq, i_eq) = diode_companion(&d, v_d, &mut v_d_prev);
        let i_d = (v_d * g_eq) + i_eq;
        println!("DATA {} {} {} {} {}", pt, v_d, g_eq, i_eq, i_d);
        assert!(g_eq >= 1.0e-12);
    }
}
