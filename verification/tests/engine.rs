//! The engine, verified runs and the Python surface, on small operators whose every
//! number can be worked out by hand.

use aria::action::Action;
use aria::audit::AuditConfig;
use aria::backend::{
    Diffuser, Foretold, GraphBackend, Invariants, Monitor, OpticalBackend, PhiCycle, Predictor,
    Schedule, Unwatched,
};
use aria::cli::{
    check_state, run_config, run_output, step_state, CheckFailure, RunArgs, RunRefusal, StepStart,
};
use aria::condition::{condition_from_name, Condition};
use aria::config::{AriaConfig, Gate, GateConfig};
use aria::engine::{settle, Engine};
use aria::error::{AriaError, InvariantReport, Violation};
use aria::gates::{Breach, GateReport};
use aria::graph::{Graph, GraphOp, UndoOp};
use aria::growth::{grow, growth_config, GrowthFit};
use aria::json::Numerals;
use aria::policy::MatchPolicy;
use aria::python::{
    run_trace_jsonl, ConfigArgs, PyAriaEngine, PyConfig, PyInvariantReport, PyReadout, PyState,
    PyTokenizer, Raised, ReadoutKind, TraceFailure,
};
use aria::receipt::{Evidence, VerifyReceipt, RECEIPT_FORMAT};
use aria::runner::{latents_with, run_with_graph, RunOutcome};
use aria::scalar::{Complex, Real};
use aria::sim::{sim_backends, OverLatents, OverModes, OverModesAndLatents};
use aria::state::State;
use aria::emit::replay_config;
use aria::trace::{parse_trace, stream_line};
use aria::verify::{begin, verify, Verifier, VerifyOpts, VerifyRun};

fn num(x: f64) -> Real {
    Real { bits: x.to_bits() }
}

fn float(x: Real) -> f64 {
    f64::from_bits(x.bits)
}

struct Plain;

impl Numerals for Plain {
    fn render(&self, x: Real) -> serde_json::Value {
        serde_json::Value::from(float(x))
    }
}

/// Turns every amplitude by a quarter. Its own measure of energy may be off by a scale.
struct Quarter {
    scale: f64,
}

impl OpticalBackend for Quarter {
    fn unitary_step(&self, _t: u64, psi: &Vec<Complex>) -> Vec<Complex> {
        psi.iter().map(|c| Complex { re: num(-float(c.im)), im: c.re }).collect()
    }

    fn energy(&self, psi: &Vec<Complex>) -> Real {
        num(psi.iter().map(|c| float(c.re).powi(2) + float(c.im).powi(2)).sum::<f64>() * self.scale)
    }

    fn shared_energy(&self, psi: &Vec<Complex>) -> Real {
        num(psi.iter().map(|c| float(c.re).powi(2) + float(c.im).powi(2)).sum())
    }
}

impl OverModes for Quarter {
    fn new(_n_modes: usize) -> Self {
        Quarter { scale: 1.0 }
    }
}

/// Embeds a field by its parts, and predicts half of a latent.
struct Half {
    embed_dim: usize,
    predict_dim: usize,
}

impl Predictor for Half {
    fn embed(&self, psi: &Vec<Complex>) -> Vec<Real> {
        psi.iter().flat_map(|c| [c.re, c.im]).take(self.embed_dim).collect()
    }

    fn predict(&self, z: &Vec<Real>, _a: Condition) -> Vec<Real> {
        z.iter().map(|x| num(float(*x) / 2.0)).take(self.predict_dim).collect()
    }

    fn dist(&self, a: &Vec<Real>, b: &Vec<Real>) -> Real {
        let sum: f64 = a.iter().zip(b).map(|(x, y)| (float(*x) - float(*y)).powi(2)).sum();
        num(sum.sqrt())
    }
}

impl OverModesAndLatents for Half {
    fn new(_n_modes: usize, latent_dim: usize) -> Self {
        Half { embed_dim: latent_dim, predict_dim: latent_dim }
    }
}

/// Adds a node per match, or merges into the first node, and counts what it is told.
struct Memory {
    dim: usize,
    broken_dim: bool,
    committed: usize,
    reverted: Vec<usize>,
}

impl GraphBackend for Memory {
    fn edit_ops(
        &self,
        g: &Graph,
        z: &Vec<Real>,
        policy: MatchPolicy,
        _target: Option<&Graph>,
        _t: u64,
    ) -> Vec<GraphOp> {
        let embedding = if self.broken_dim { vec![num(0.0)] } else { z.clone() };
        match policy {
            MatchPolicy::Identity => vec![],
            MatchPolicy::Merge if g.node_count() > 0 => {
                vec![GraphOp::MergeNodes { into: g.node(0).unwrap().id, embedding }]
            }
            _ => vec![GraphOp::AddNode { id: g.next_id(), embedding }],
        }
    }

    fn average(&self, held: &Vec<Real>, seen: &Vec<Real>) -> Vec<Real> {
        held.iter().zip(seen).map(|(h, s)| num((float(*h) + float(*s)) / 2.0)).collect()
    }

    fn ok(&self, g: &Graph) -> bool {
        (0..g.node_count()).all(|i| g.node(i).unwrap().embedding.len() == self.dim)
    }

    fn commit_ops(&mut self, _ops: &Vec<GraphOp>, _g: &Graph) {
        self.committed += 1;
    }

    fn revert_ops(&mut self, _journal: &Vec<UndoOp>, g: &Graph) {
        self.reverted.push(g.node_count());
    }
}

impl OverLatents for Memory {
    fn new(latent_dim: usize) -> Self {
        Memory { dim: latent_dim, broken_dim: false, committed: 0, reverted: vec![] }
    }
}

/// Halves a latent.
struct Halving;

impl OverLatents for Halving {
    fn new(_latent_dim: usize) -> Self {
        Halving
    }
}

impl Diffuser for Halving {
    fn diffuse(&self, _g: &Graph, z: &Vec<Real>, _policy: &str) -> Vec<Real> {
        z.iter().map(|x| num(float(*x) / 2.0)).collect()
    }
}

/// Checks energy and shapes; Inv2 breaks once the graph has a given number of nodes.
struct Checks {
    inv2_breaks_at: Option<usize>,
    config_error: Option<String>,
}

impl Invariants for Checks {
    fn validate(&self, _config: &AriaConfig) -> Result<(), AriaError> {
        match &self.config_error {
            Some(why) => Err(AriaError::Config(why.clone())),
            None => Ok(()),
        }
    }

    fn show_amplitude(&self, c: Complex) -> String {
        format!("{}+{}i", float(c.re), float(c.im))
    }

    fn check_all(
        &self,
        state: &State,
        _residual: Real,
        _eps: Real,
        eps_energy: Real,
        n_modes: usize,
        latent_dim: usize,
    ) -> InvariantReport {
        let energy = Quarter { scale: 1.0 }.shared_energy(&state.psi);
        let drift = (float(energy) - float(state.energy_0)).abs();
        InvariantReport {
            inv1_ok: drift <= float(eps_energy),
            inv2_ok: self.inv2_breaks_at.map_or(true, |n| state.g.node_count() < n),
            inv3_ok: state.psi.len() == n_modes && state.z.len() == latent_dim,
            inv4_ok: true,
        }
    }

    fn violation_from_report(
        &self,
        report: &InvariantReport,
        action: Action,
        _energy: Real,
        _energy_0: Real,
        _residual: Real,
        _prev_res: Real,
        _eps: Real,
    ) -> Violation {
        assert!(!report.all_ok());
        Violation { text: format!("broken by {}", action.name()) }
    }

    fn drift(&self, energy: Real, energy_0: Real) -> Real {
        num((float(energy) - float(energy_0)).abs())
    }
}

/// Counts what it sees, and reports a breach for every match.
struct Counter {
    enabled: Vec<Gate>,
    seen: u64,
    matches: Vec<u64>,
}

impl Monitor for Counter {
    fn new(gates: &GateConfig) -> Self {
        Counter { enabled: gates.enabled.clone(), seen: 0, matches: vec![] }
    }

    fn observe(mut self, action: Action, _state: &State, _residual: Real, _eps: Real) -> Self {
        self.seen += 1;
        if action == Action::Match && !self.enabled.is_empty() {
            self.matches.push(self.seen);
        }
        self
    }

    fn finish(self) -> GateReport {
        GateReport {
            enabled: self.enabled.iter().map(|g| format!("{g:?}")).collect(),
            breaches: self
                .matches
                .iter()
                .map(|step| Breach {
                    gate: "Inv5".to_string(),
                    step: *step,
                    detail: format!("{} steps seen", self.seen),
                })
                .collect(),
        }
    }
}

/// Hands out the letters of a word again and again.
struct Cycle {
    word: &'static str,
    at: usize,
}

impl Schedule for Cycle {
    fn next_action(&mut self) -> Action {
        self.at += 1;
        scheduled(self.word, self.at)[self.at - 1]
    }
}

/// The schedule of a word, from its beginning.
fn cycle(word: &'static str) -> Cycle {
    Cycle { word, at: 0 }
}

type Small = Engine<Quarter, Half, Memory, Halving, Checks>;

fn test_config() -> AriaConfig {
    AriaConfig {
        n_modes: 8,
        latent_dim: 16,
        eps: num(1.0),
        eps_energy: num(1e-9),
        stutter_k: 2,
        schedule: "opmd".to_string(),
        condition: Condition::Token,
        match_policy: MatchPolicy::OneEdit,
        diff_policy: "graph_conditioned".to_string(),
        max_graph_size: 5000,
        merge_tau: num(0.5),
        allow_sub_spec_dims: true,
        seed: Some(42),
        strict: true,
        gates: GateConfig { enabled: vec![], stutter_k: 2 },
        optical: None,
        vocab_size: 256,
    }
}

fn engine(config: AriaConfig) -> Small {
    let (optical, predictor, graph, diffuser) = sim_backends(config.n_modes, config.latent_dim);
    Engine::new(
        config,
        optical,
        predictor,
        graph,
        diffuser,
        Checks { inv2_breaks_at: None, config_error: None },
    )
}

fn psi0(n: usize) -> Vec<Complex> {
    (0..n).map(|i| Complex { re: num(i as f64 + 1.0), im: num(0.5) }).collect()
}

fn started(engine: &Small) -> State {
    engine.init(psi0(engine.config.n_modes), Graph::empty(), engine.config.condition).unwrap()
}

fn scheduled(word: &str, steps: usize) -> Vec<Action> {
    word.chars()
        .cycle()
        .take(steps)
        .map(|c| match c {
            'o' => Action::OpticalStep,
            'p' => Action::Predict,
            'm' => Action::Match,
            'd' => Action::Diffuse,
            _ => Action::Stutter,
        })
        .collect()
}

fn powers_of_two(up_to: u64) -> Vec<u64> {
    (0..64).map(|k| 1u64 << k).take_while(|t| *t <= up_to).collect()
}

/// Verifies a run under the eyes of a counter.
fn verified(e: &mut Small, opts: VerifyOpts<Cycle>) -> Result<VerifyRun, AriaError> {
    verify::<Quarter, Half, Memory, Halving, Checks, Counter, Cycle>(e, opts)
}

/// Ordinary least squares on logarithms.
fn fitted(samples: &[(u64, usize)]) -> Option<GrowthFit> {
    let points: Vec<(f64, f64)> = samples
        .iter()
        .filter(|(_, v)| *v > 0)
        .map(|(t, v)| ((*t as f64).ln(), (*v as f64).ln()))
        .collect();
    if points.len() < 2 {
        return None;
    }
    let n = points.len() as f64;
    let mx = points.iter().map(|p| p.0).sum::<f64>() / n;
    let my = points.iter().map(|p| p.1).sum::<f64>() / n;
    let sxy: f64 = points.iter().map(|p| (p.0 - mx) * (p.1 - my)).sum();
    let sxx: f64 = points.iter().map(|p| (p.0 - mx).powi(2)).sum();
    Some(GrowthFit { beta: num(sxy / sxx), r_squared: num(1.0) })
}

#[test]
fn cli_trace_equals_runner_trace() {
    let mut e = engine(test_config());
    let start = started(&e);
    let (state, trace) = e.run(start, &mut cycle("opmd"), 100, Condition::Token).unwrap();
    let jsonl = trace.to_jsonl(&Plain).unwrap();

    assert_eq!(jsonl.lines().count(), 101, "1 config line + 100 entries");
    assert!(jsonl.lines().next().unwrap().contains("\"type\":\"config\""));
    assert_eq!(trace.action_sequence(), "OPMD".repeat(25));
    assert!(e.check(&state, Condition::Token).all_ok());
}

#[test]
fn all_three_conditions_run_the_same_schedule() {
    for name in ["token", "diffusion", "world_model"] {
        let mut config = test_config();
        config.condition = condition_from_name(name).unwrap();
        let condition = config.condition;
        let mut e = engine(config);
        let start = started(&e);
        let (state, trace) = e.run(start, &mut cycle("opmd"), 40, condition).unwrap();
        assert!(e.check(&state, condition).all_ok(), "{name}");
        assert_eq!(trace.action_sequence(), "OPMD".repeat(10));
    }
}

#[test]
fn streaming_verify_128_opmd_is_inv_green() {
    let mut config = test_config();
    config.match_policy = MatchPolicy::Merge;
    config.schedule = "opmd".into();
    let opts = VerifyOpts {
        audit: AuditConfig::from_config(&config),
        schedule: cycle("opmd"),
        steps: 128,
        psi0: psi0(config.n_modes),
        g0: Graph::empty(),
        checkpoints: powers_of_two(128),
    };
    let mut e = engine(config);
    let run = verified(&mut e, opts).unwrap();
    let fit = fitted(&run.samples);
    let receipt = VerifyReceipt::new(
        run,
        Evidence {
            git_output: None,
            config: "{}".to_string(),
            schedule: "opmd".to_string(),
            condition: Condition::Token,
            sigma_max_audit: None,
            fit,
            wall_clock_s: num(1.0),
            steps_per_s: num(128.0),
        },
    );
    assert!(receipt.invariants_ok);
    assert_eq!(receipt.steps, 128);
    assert_eq!(receipt.inv2_violations, 0);
    assert_eq!(receipt.inv3_violations, 0);
    assert_eq!(receipt.inv4_violations, 0);
    assert!(float(receipt.inv1_max_drift) < 1e-7, "drift {}", float(receipt.inv1_max_drift));
    assert!(receipt.trace_audit.all_zero(), "{:?}", receipt.trace_audit);
    assert_eq!(receipt.trace_audit.family, "W1");
    assert!(float(receipt.graph.measured_beta).is_finite());
    assert!(float(receipt.graph.measured_beta) <= 1.0);
    assert_eq!(receipt.format, RECEIPT_FORMAT);
    assert_eq!(receipt.graph.final_nodes, 1);
    assert_eq!(receipt.verdict(), Ok(()));
    assert!(receipt.gates.enabled.is_empty() && receipt.gates.breaches.is_empty());
}

#[test]
fn a_thousand_steps_are_250_cycles() {
    let mut e = engine(test_config());
    let start = started(&e);
    let (state, trace) = e.run(start, &mut cycle("opmd"), 1000, Condition::Token).unwrap();
    assert_eq!(state.t, 250);
    assert_eq!(state.g.size(), 250);
    assert_eq!(trace.entries.len(), 1000);
    let summary = e.summarise(&state, &trace, Condition::Token);
    assert_eq!((summary.steps, summary.t, summary.graph_size), (1000, 250, 250));
    assert_eq!(summary.energy, num(206.0));
    assert_eq!(summary.residual, trace.entries[999].res);
    assert_eq!(summary.action_sequence, "OPMD".repeat(250));
    assert!(summary.report.all_ok());
    assert_eq!(trace.entries[0].t, 0);
    assert_eq!(trace.entries[3].t, 0);
    assert_eq!(trace.entries[4].t, 1);
    assert_eq!(trace.entries[999].t, 249);
    assert_eq!(trace.entries[999].condition, "token");
    let (header, rows) = parse_trace(&trace.to_jsonl(&Plain).unwrap()).unwrap();
    assert_eq!(header.seed, Some(Some(42)));
    assert_eq!(rows.len(), 1000);
}

#[test]
fn runs_repeat_whoever_watches() {
    let mut schedule = cycle("opmdss");
    let mut e1 = engine(test_config());
    let s1 = started(&e1);
    let (_, t1) = e1.run(s1, &mut schedule, 60, Condition::Token).unwrap();
    assert_eq!(schedule.at, 60);
    let mut gated = test_config();
    gated.gates.enabled = vec![Gate::Inv5];
    let mut e2 = engine(gated.clone());
    let s2 = started(&e2);
    let mut schedule = cycle("opmdss");
    let (_, t2, g2) = e2
        .run_monitored::<Counter, Cycle>(s2, &mut schedule, 60, Condition::Token)
        .unwrap();
    assert_eq!(schedule.at, 60);
    let mut e3 = engine(gated);
    let s3 = started(&e3);
    let mut schedule = cycle("opmdss");
    let (s, t3, g3, zs) = e3
        .run_monitored_with_latents::<Counter, Cycle>(s3, &mut schedule, 60, Condition::Token)
        .unwrap();
    assert_eq!(schedule.at, 60);
    let text = t1.to_jsonl(&Plain).unwrap();
    assert_eq!(t2.to_jsonl(&Plain).unwrap(), text);
    assert_eq!(t3.to_jsonl(&Plain).unwrap(), text);
    assert_eq!(zs.len(), 60);
    assert_eq!(zs[59], s.z);
    // The gates saw every step, and both runs say so.
    assert_eq!(g2.enabled, vec!["Inv5"]);
    assert_eq!(g2.breaches.len(), 10);
    assert_eq!(g2.breaches[1].step, 9);
    assert_eq!(g2.breaches[1].detail, "60 steps seen");
    assert_eq!(format!("{g2:?}"), format!("{g3:?}"));
    assert!(!g2.all_ok());
}

#[test]
fn runs_fail_alike_whoever_watches() {
    let mut config = test_config();
    config.max_graph_size = 2;
    let schedules = &mut [cycle("opmd"), cycle("opmd"), cycle("opmd")];
    let mut e1 = engine(config.clone());
    let s1 = started(&e1);
    let plain = e1.run(s1, &mut schedules[0], 40, Condition::Token).err();
    config.gates.enabled = vec![Gate::Inv7];
    let mut e2 = engine(config.clone());
    let s2 = started(&e2);
    let watched = e2
        .run_monitored::<Counter, Cycle>(s2, &mut schedules[1], 40, Condition::Token)
        .err();
    let mut e3 = engine(config);
    let s3 = started(&e3);
    let kept = e3
        .run_monitored_with_latents::<Counter, Cycle>(s3, &mut schedules[2], 40, Condition::Token)
        .err();
    assert_eq!(plain, Some(AriaError::Schedule("graph size 3 exceeds max 2".to_string())));
    assert_eq!(watched, plain);
    assert_eq!(kept, plain);
    // The third match failed, and nothing behind it was drawn.
    assert!(schedules.iter().all(|s| s.at == 11));
}

#[test]
fn a_replay_under_the_header_gives_the_latents() {
    let mut config = test_config();
    config.seed = Some(7);
    config.condition = Condition::WorldModel;
    config.match_policy = MatchPolicy::Merge;
    let mut e = engine(config);
    let start = started(&e);
    let (_, trace, _, zs) = e
        .run_monitored_with_latents::<Counter, Cycle>(
            start,
            &mut cycle("opmd"),
            24,
            Condition::WorldModel,
        )
        .unwrap();

    let (header, rows) = parse_trace(&trace.to_jsonl(&Plain).unwrap()).unwrap();
    let replay = replay_config(test_config(), header);
    assert_eq!(replay.condition, Condition::WorldModel);
    let condition = replay.condition;
    let mut again = engine(replay.clone());
    let start = started(&again);
    let (_, retrace, _, rezs) = again
        .run_monitored_with_latents::<Counter, Cycle>(start, &mut cycle("opmd"), 24, condition)
        .unwrap();
    let mut once_more = engine(replay);
    let only_latents =
        latents_with(&mut once_more, psi0(8), Graph::empty(), &mut cycle("opmd"), 24).unwrap();
    assert_eq!(only_latents, zs);
    assert_eq!(rezs, zs);
    assert_eq!(rezs.len(), rows.len());
    assert_eq!(retrace.to_jsonl(&Plain).unwrap(), trace.to_jsonl(&Plain).unwrap());
}

#[test]
fn a_streamed_trace_holds_the_run() {
    let mut e = engine(test_config());
    let mut state = begin(&e, psi0(8), Graph::empty()).unwrap();
    let mut verifier = Verifier::new(AuditConfig::from_config(&e.config), vec![]);
    let mut monitor = Counter::new(&e.config.gates);
    let mut streamed = Vec::new();
    for action in scheduled("opmds", 20) {
        let step = verifier.step(&mut e, monitor, state, action, Condition::Token).ok().unwrap();
        streamed.push(stream_line(&step.entry, &Plain).unwrap());
        state = step.state;
        monitor = step.monitor;
    }
    assert_eq!(monitor.seen, 20);

    let mut plain = engine(test_config());
    let start = started(&plain);
    let (_, trace) = plain.run(start, &mut cycle("opmds"), 20, Condition::Token).unwrap();
    let text = trace.to_jsonl(&Plain).unwrap();
    let lines: Vec<&str> = text.lines().collect();
    assert_eq!(lines.len(), streamed.len() + 1);
    for (line, stream) in lines[1..].iter().zip(&streamed) {
        let a: serde_json::Value = serde_json::from_str(line).unwrap();
        let b: serde_json::Value = serde_json::from_str(stream).unwrap();
        assert_eq!(a, b);
    }
}

#[test]
fn the_start_is_measured_by_the_operator_and_the_rest_by_the_shared_sum() {
    let mut config = test_config();
    config.strict = false;
    let mut e = engine(config);
    e.optical.scale = 2.0;
    let s = started(&e);
    assert_eq!(s.energy_0, num(412.0));
    let (_, trace) = e.run(s, &mut cycle("o"), 1, Condition::Token).unwrap();
    assert_eq!(trace.entries[0].energy, num(206.0));
}

#[test]
fn steps_and_checks_stay_within_the_bounds() {
    let out = || Err(AriaError::Config("out of bounds".to_string()));
    let step = |bounds, n: usize| {
        let start = StepStart::Fresh(psi0(n));
        step_state(test_config(), bounds, engine, start, Action::Diffuse, Condition::Token)
    };
    assert_eq!(step(out(), 8).err(), out().err());
    let s = step(Ok(()), 8).unwrap();
    assert_eq!(s.t, 1);
    assert_eq!(
        step(Ok(()), 7).err(),
        Some(AriaError::Config("ψ₀ has 7 modes but config.n_modes = 8".to_string()))
    );
    assert!(matches!(
        check_state(test_config(), out(), engine, &s, Condition::Token),
        Err(CheckFailure::OutOfBounds(AriaError::Config(why))) if why == "out of bounds"
    ));
    assert!(check_state(test_config(), Ok(()), engine, &s, Condition::Token).is_ok());
    let given = StepStart::Given(s);
    let s = step_state(test_config(), Ok(()), engine, given, Action::Stutter, Condition::Token)
        .unwrap();
    let breaking = |config| {
        let mut e = engine(config);
        e.invariants.inv2_breaks_at = Some(0);
        e
    };
    assert!(matches!(
        check_state(test_config(), Ok(()), breaking, &s, Condition::Token),
        Err(CheckFailure::Broken(report)) if !report.inv2_ok && report.inv1_ok
    ));
}

#[test]
fn nothing_is_built_out_of_bounds() {
    let out = || Err(AriaError::Config("out of bounds".to_string()));
    let built = std::cell::Cell::new(0);
    let build = |config| {
        built.set(built.get() + 1);
        engine(config)
    };
    let s = started(&engine(test_config()));
    let start = StepStart::Fresh(psi0(8));
    assert!(step_state(test_config(), out(), build, start, Action::Match, Condition::Token).is_err());
    assert!(check_state(test_config(), out(), build, &s, Condition::Token).is_err());
    assert_eq!(built.get(), 0);
    assert!(check_state(test_config(), Ok(()), build, &s, Condition::Token).is_ok());
    assert_eq!(built.get(), 1);
}

#[test]
fn a_lenient_engine_takes_the_same_steps() {
    let mut strict = engine(test_config());
    let mut config = test_config();
    config.strict = false;
    let mut lenient = engine(config);
    let s1 = started(&strict);
    let s2 = started(&lenient);
    let (a, t1) = strict.run(s1, &mut cycle("opmd"), 16, Condition::Token).unwrap();
    let (b, t2) = lenient.run(s2, &mut cycle("opmd"), 16, Condition::Token).unwrap();
    assert!(strict.check(&a, Condition::Token).all_ok());
    assert_eq!((a.z, a.t), (b.z, b.t));
    assert_eq!(t1.to_jsonl(&Plain).unwrap(), t2.to_jsonl(&Plain).unwrap());
}

#[test]
fn answers_had_beforehand_decide_a_step() {
    let (optical, predictor, graph_backend, diffuser) = sim_backends(8, 16);
    let report = InvariantReport { inv1_ok: true, inv2_ok: true, inv3_ok: false, inv4_ok: true };
    let checks = Foretold {
        bounds: Ok(()),
        amplitude: "x".to_string(),
        report,
        violation: Violation { text: "the shape is off".to_string() },
        drift: num(0.25),
    };
    let mut e: Engine<Quarter, Half, Memory, Halving, Foretold> =
        Engine::new(test_config(), optical, predictor, graph_backend, diffuser, checks);
    let start = |e: &Engine<Quarter, Half, Memory, Halving, Foretold>| {
        e.init(psi0(8), Graph::empty(), Condition::Token)
    };
    let s = start(&e).unwrap();
    let failed = e.apply(s, Action::Match, Condition::Token);
    assert_eq!(
        failed.err(),
        Some(AriaError::InvariantViolation(Violation { text: "the shape is off".to_string() }))
    );
    assert_eq!(e.graph_backend().reverted, vec![0]);
    e.config.strict = false;
    let s = start(&e).unwrap();
    assert_eq!(e.apply(s, Action::Match, Condition::Token).unwrap().g.node_count(), 1);
    assert_eq!(e.invariants.drift(num(1.0), num(2.0)), num(0.25));

    let mut psi = psi0(8);
    psi[2].re = num(f64::NAN);
    assert_eq!(
        e.init(psi, Graph::empty(), Condition::Token).err(),
        Some(AriaError::Config("ψ₀[2] = x is not finite".to_string()))
    );
    e.invariants.bounds = Err(AriaError::Backend("no".to_string()));
    assert_eq!(start(&e).err(), Some(AriaError::Backend("no".to_string())));
    for error in [
        AriaError::Schedule("late".to_string()),
        AriaError::InvariantViolation(Violation { text: "broken".to_string() }),
    ] {
        assert_eq!(error.copied(), error);
    }
}

#[test]
fn a_step_is_settled_by_its_report() {
    let s = || started(&engine(test_config()));
    let words = || Some(Violation { text: "broken".to_string() });
    let green = InvariantReport { inv1_ok: true, inv2_ok: true, inv3_ok: true, inv4_ok: true };
    let broken = InvariantReport { inv4_ok: false, ..green };
    assert!(settle(true, s(), &green, None).is_ok());
    assert!(settle(false, s(), &broken, None).is_ok());
    assert!(settle(true, s(), &green, words()).is_ok());
    assert_eq!(
        settle(true, s(), &broken, words()).err(),
        Some(AriaError::InvariantViolation(Violation { text: "broken".to_string() }))
    );
}

#[test]
fn the_preferred_schedule_goes_round() {
    let mut phi = PhiCycle { next: Action::OpticalStep };
    let drawn: Vec<Action> = (0..9).map(|_| phi.next_action()).collect();
    assert_eq!(drawn, scheduled("opmd", 9));
    let mut e = engine(test_config());
    let start = started(&e);
    let mut phi = PhiCycle { next: Action::OpticalStep };
    let (_, trace) = e.run(start, &mut phi, 6, Condition::Token).unwrap();
    assert_eq!(trace.action_sequence(), "OPMDOP");
    assert_eq!(phi.next, Action::Match);
}

#[test]
fn a_merge_averages() {
    let mut config = test_config();
    config.match_policy = MatchPolicy::Merge;
    let mut e = engine(config);
    let s = started(&e);
    let first = s.z.clone();
    let s = e.apply(s, Action::Match, Condition::Token).unwrap();
    let s = e.apply(s, Action::Diffuse, Condition::Token).unwrap();
    let s = e.apply(s, Action::Match, Condition::Token).unwrap();
    assert_eq!(s.g.node_count(), 1);
    let kept = &s.g.node(0).unwrap().embedding;
    assert_eq!(kept.len(), 16);
    for (held, z) in kept.iter().zip(&first) {
        assert_eq!(float(*held), float(*z) * 0.75);
    }
}

fn no_flags() -> RunArgs {
    RunArgs {
        schedule: None,
        eps: None,
        optical: None,
        condition: None,
        n_modes: None,
        latent_dim: None,
        stutter_k: None,
        seed: None,
        gates: None,
        no_strict: false,
        match_policy: None,
        merge_tau: None,
    }
}

fn ran(e: &mut Small, n: usize, steps: u64) -> Result<RunOutcome, AriaError> {
    run_with_graph::<_, _, _, _, _, Counter, _>(
        e,
        psi0(n),
        Graph::empty(),
        &mut cycle("opmd"),
        steps,
    )
}

#[test]
fn a_notebook_and_the_command_line_write_one_text() {
    for strict in [true, false] {
        let mut config = test_config();
        config.strict = strict;
        config.gates.enabled = vec![Gate::Inv5];
        let notebook = run_trace_jsonl::<_, _, _, _, _, Unwatched, _, _>(
            &mut engine(config.clone()),
            psi0(8),
            &mut cycle("opmd"),
            40,
            &Plain,
        )
        .ok()
        .unwrap();
        let mut e = engine(run_config(config, no_flags()).unwrap());
        let outcome = ran(&mut e, 8, 40).ok().unwrap();
        assert_eq!(outcome.gates.breaches.len(), 10);
        assert_eq!(run_output(&outcome, false, &Plain).ok(), Some(notebook));
        assert!(matches!(
            run_output(&outcome, true, &Plain),
            Err(RunRefusal::NotAccepted("operating gate breached (--strict-gates)"))
        ));
    }
}

#[test]
fn a_run_that_ends_broken_is_written_by_the_notebook_alone() {
    let mut config = test_config();
    config.strict = false;
    let breaking = || {
        let mut e = engine(config.clone());
        e.invariants.inv2_breaks_at = Some(1);
        e
    };
    let notebook = run_trace_jsonl::<_, _, _, _, _, Unwatched, _, _>(
        &mut breaking(),
        psi0(8),
        &mut cycle("opmd"),
        4,
        &Plain,
    );
    assert_eq!(notebook.ok().unwrap().lines().count(), 5);
    let outcome = ran(&mut breaking(), 8, 4).ok().unwrap();
    assert!(matches!(
        run_output(&outcome, false, &Plain),
        Err(RunRefusal::NotAccepted("invariant check failed on final state"))
    ));
}

struct Rounds;

impl Numerals for Rounds {
    fn render(&self, x: Real) -> serde_json::Value {
        serde_json::Value::from(float(x).round() + 0.25)
    }
}

#[test]
fn runs_that_give_no_text_say_why() {
    let failed = run_trace_jsonl::<_, _, _, _, _, Unwatched, _, _>(
        &mut engine(test_config()),
        psi0(7),
        &mut cycle("opmd"),
        4,
        &Plain,
    );
    assert!(matches!(failed, Err(TraceFailure::Failed(AriaError::Config(_)))));
    assert!(matches!(ran(&mut engine(test_config()), 7, 4), Err(AriaError::Config(_))));
    let unwritable = run_trace_jsonl::<_, _, _, _, _, Unwatched, _, _>(
        &mut engine(test_config()),
        psi0(8),
        &mut cycle("opmd"),
        4,
        &Rounds,
    );
    assert!(matches!(unwritable, Err(TraceFailure::Unwritable(x)) if x == num(1.0)));
    let outcome = ran(&mut engine(test_config()), 8, 4).ok().unwrap();
    assert!(matches!(
        run_output(&outcome, false, &Rounds),
        Err(RunRefusal::Unwritable(x)) if x == num(1.0)
    ));
}

#[test]
fn each_action_changes_its_own_part() {
    let mut e = engine(test_config());
    let s0 = started(&e);
    assert_eq!(s0.t, 0);
    assert_eq!(s0.z.len(), 16);
    let energy = s0.energy_0;
    let res0 = e.residual(&s0, Condition::Token);
    assert_eq!(s0.prev_res, res0);

    let psi = s0.psi.clone();
    let z = s0.z.clone();
    let s1 = e.apply(s0, Action::OpticalStep, Condition::Token).unwrap();
    assert_eq!(s1.psi[1], Complex { re: num(-0.5), im: num(2.0) });
    assert_eq!(s1.z, z);
    assert_eq!(s1.prev_res, res0);

    let turned = s1.psi.clone();
    let s2 = e.apply(s1, Action::Predict, Condition::Token).unwrap();
    assert_eq!(s2.psi, turned);
    assert_ne!(s2.psi, psi);
    assert_eq!(s2.z[0], num(-0.25));
    assert_eq!(e.residual(&s2, Condition::Token), num(0.0));

    let z = s2.z.clone();
    let s3 = e.apply(s2, Action::Match, Condition::Token).unwrap();
    assert_eq!(s3.g.node_count(), 1);
    assert_eq!(s3.g.node(0).unwrap().embedding, z);
    assert_eq!(s3.z, z);
    assert_eq!(e.graph_backend().committed, 1);

    let s4 = e.apply(s3, Action::Diffuse, Condition::Token).unwrap();
    assert_eq!(s4.t, 1);
    assert_eq!(s4.z[0], num(-0.125));

    let prev = s4.prev_res;
    let s5 = e.apply(s4, Action::Stutter, Condition::Token).unwrap();
    assert_eq!((s5.t, s5.prev_res, s5.energy_0), (1, prev, energy));
    assert_eq!(e.config().n_modes, 8);
}

#[test]
fn a_match_beyond_the_bound_is_taken_back() {
    let mut config = test_config();
    config.max_graph_size = 1;
    let mut e = engine(config);
    let s = started(&e);
    let s = e.apply(s, Action::Match, Condition::Token).unwrap();
    let refused = e.apply(s, Action::Match, Condition::Token);
    assert_eq!(
        refused.err(),
        Some(AriaError::Schedule("graph size 2 exceeds max 1".to_string()))
    );
    // The backend is told of the rollback to the one node there was.
    assert_eq!(e.graph_backend().committed, 1);
    assert_eq!(e.graph_backend().reverted, vec![1]);
}

#[test]
fn a_match_that_breaks_an_invariant_is_taken_back() {
    let mut e = engine(test_config());
    e.invariants.inv2_breaks_at = Some(2);
    let s = started(&e);
    let s = e.apply(s, Action::Match, Condition::Token).unwrap();
    let refused = e.apply(s, Action::Match, Condition::Token);
    assert_eq!(
        refused.err(),
        Some(AriaError::InvariantViolation(Violation { text: "broken by Match".to_string() }))
    );
    assert_eq!(e.graph_backend().committed, 2);
    assert_eq!(e.graph_backend().reverted, vec![1]);
}

#[test]
fn without_strict_checking_a_broken_invariant_fails_nothing() {
    let mut config = test_config();
    config.strict = false;
    let mut e = engine(config);
    e.invariants.inv2_breaks_at = Some(1);
    let s = started(&e);
    let s = e.apply(s, Action::Match, Condition::Token).unwrap();
    assert_eq!(s.g.node_count(), 1);
    assert!(!e.check(&s, Condition::Token).all_ok());
    assert!(e.graph_backend().reverted.is_empty());
}

#[test]
fn edits_that_do_not_fit_are_refused() {
    let mut e = engine(test_config());
    e.graph_backend.broken_dim = true;
    let s = started(&e);
    let refused = e.apply(s, Action::Match, Condition::Token);
    assert_eq!(
        refused.err(),
        Some(AriaError::Backend(
            "Match op refused: embedding of node 0 has dim 1, expected 16".to_string()
        ))
    );
    assert_eq!(e.graph_backend().committed, 0);
}

#[test]
fn the_clock_does_not_wrap() {
    let mut e = engine(test_config());
    let mut s = started(&e);
    s.t = u64::MAX;
    let refused = e.apply(s, Action::Diffuse, Condition::Token);
    assert_eq!(refused.err(), Some(AriaError::Backend("t overflowed u64".to_string())));
}

#[test]
fn a_start_names_the_first_thing_that_does_not_fit() {
    let start = |e: &Small, psi| e.init(psi, Graph::empty(), Condition::Token).err();
    let mut e = engine(test_config());
    assert_eq!(
        start(&e, psi0(7)),
        Some(AriaError::Config("ψ₀ has 7 modes but config.n_modes = 8".to_string()))
    );
    let mut psi = psi0(8);
    psi[5].im = num(f64::NAN);
    psi[6].re = num(f64::INFINITY);
    assert_eq!(
        start(&e, psi.clone()),
        Some(AriaError::Config("ψ₀[5] = 6+NaNi is not finite".to_string()))
    );
    e.predictor.predict_dim = 3;
    assert_eq!(
        start(&e, psi0(8)),
        Some(AriaError::Config(
            "P(z) has dim 3 but config.latent_dim = 16 — backend/config mismatch".to_string()
        ))
    );
    e.predictor.embed_dim = 15;
    assert_eq!(
        start(&e, psi0(8)),
        Some(AriaError::Config(
            "embed(ψ₀) has dim 15 but config.latent_dim = 16 — backend/config mismatch".to_string()
        ))
    );
    e.invariants.config_error = Some("out of bounds".to_string());
    assert_eq!(start(&e, psi0(7)), Some(AriaError::Config("out of bounds".to_string())));
}

#[test]
fn a_cycle_is_four_steps_and_one_tick() {
    let mut e = engine(test_config());
    let s = started(&e);
    let s = e.step_phi(s, Condition::Token).unwrap();
    assert_eq!((s.t, s.g.node_count()), (1, 1));
    let s = e.step_phi(s, Condition::Token).unwrap();
    assert_eq!((s.t, s.g.node_count()), (2, 2));
}

#[test]
fn growth_is_sampled_at_checkpoints() {
    let mut e = engine(test_config());
    let s = started(&e);
    let (s, samples) = grow(&mut e, s, 20, &powers_of_two(20), Condition::Token).ok().unwrap();
    assert_eq!(samples, vec![(1, 1), (2, 2), (4, 4), (8, 8), (16, 16)]);
    assert_eq!(s.t, 20);
    assert_eq!(fitted(&samples).map(|f| (float(f.beta) * 1e6).round()), Some(1e6));

    let merging = growth_config(test_config());
    assert_eq!((merging.match_policy, merging.n_modes), (MatchPolicy::Merge, 8));
    let mut e = engine(merging);
    let s = started(&e);
    let (_, samples) = grow(&mut e, s, 20, &powers_of_two(20), Condition::Token).ok().unwrap();
    assert_eq!(samples, vec![(1, 1), (2, 1), (4, 1), (8, 1), (16, 1)]);

    let mut config = test_config();
    config.max_graph_size = 2;
    let mut e = engine(config);
    let s = started(&e);
    let failed = grow(&mut e, s, 20, &vec![], Condition::Token).err().unwrap();
    assert_eq!(
        failed,
        (3, AriaError::Schedule("graph size 3 exceeds max 2".to_string()))
    );
}

#[test]
fn a_verification_counts_what_breaks() {
    let mut config = test_config();
    config.strict = false;
    config.gates.enabled = vec![Gate::Inv6];
    let mut e = engine(config);
    e.invariants.inv2_breaks_at = Some(2);
    let opts = VerifyOpts {
        schedule: cycle("opmd"),
        steps: 12,
        psi0: psi0(8),
        g0: Graph::empty(),
        audit: AuditConfig { k: 2, w: 64, d_cap: 8, eps: num(1.0) },
        checkpoints: vec![3, 7, 11],
    };
    let run = verified(&mut e, opts).unwrap();
    assert_eq!(run.steps, 12);
    // The second node comes with the seventh step.
    assert_eq!(run.inv2_violations, 6);
    assert_eq!((run.inv3_violations, run.inv4_violations), (0, 0));
    assert!(!run.invariants_ok);
    assert_eq!(run.samples, vec![(3, 1), (7, 2), (11, 3)]);
    // The gates saw all twelve steps, and the matches among them.
    let steps: Vec<u64> = run.gates.breaches.iter().map(|b| b.step).collect();
    assert_eq!(steps, vec![3, 7, 11]);
    assert_eq!(run.gates.breaches[0].detail, "12 steps seen");
    assert_eq!(run.gates.enabled, vec!["Inv6"]);
    assert_eq!((run.final_nodes, run.final_edges), (3, 0));
    assert_eq!(run.inv1_max_drift, num(0.0));
}

#[test]
fn a_strict_verification_fails_at_the_first_break() {
    let opts = || VerifyOpts {
        schedule: cycle("opmd"),
        steps: 12,
        psi0: psi0(8),
        g0: Graph::empty(),
        audit: AuditConfig { k: 2, w: 64, d_cap: 8, eps: num(1.0) },
        checkpoints: vec![],
    };
    let mut e = engine(test_config());
    e.invariants.inv2_breaks_at = Some(2);
    let failed = verified(&mut e, opts());
    assert_eq!(
        failed.err(),
        Some(AriaError::InvariantViolation(Violation { text: "broken by Match".to_string() }))
    );
    assert_eq!(e.graph_backend().committed, 2);

    let run = verified(&mut engine(test_config()), opts()).unwrap();
    assert_eq!(run.steps, 12);
    assert!(run.invariants_ok);
}

#[test]
fn a_verification_takes_one_step_at_a_time() {
    let mut e = engine(test_config());
    let mut state = begin(&e, psi0(8), Graph::empty()).unwrap();
    let mut verifier = Verifier::new(AuditConfig::from_config(&e.config), vec![4]);
    let mut monitor = Counter::new(&e.config.gates);
    for action in scheduled("opmd", 8) {
        let step = verifier.step(&mut e, monitor, state, action, Condition::Token).ok().unwrap();
        assert!(!step.stop);
        assert_eq!(step.entry.action, action.symbol());
        state = step.state;
        monitor = step.monitor;
    }
    let report = e.check(&state, Condition::Token);
    let run = verifier.finish(state, &report, monitor.finish());
    assert_eq!((run.steps, run.state.t), (8, 2));
    assert_eq!(run.samples, vec![(4, 1)]);
    assert!(run.invariants_ok);
}

#[test]
fn a_verification_starts_from_a_sound_graph() {
    let mut e = engine(test_config());
    let mut seed = Graph::empty();
    let one = vec![GraphOp::AddNode { id: 0, embedding: vec![num(1.0)] }];
    seed.apply_ops(&one, 1, &e.graph_backend).unwrap();
    assert_eq!(
        begin(&e, psi0(8), seed).err(),
        Some(AriaError::Config("seed graph fails GraphOK at latent_dim=16".to_string()))
    );
    e.invariants.config_error = Some("out of bounds".to_string());
    assert_eq!(
        begin(&e, psi0(8), Graph::empty()).err(),
        Some(AriaError::Config("out of bounds".to_string()))
    );
}

#[test]
fn a_journal_undoes_a_transaction() {
    let by: Memory = OverLatents::new(2);
    let mut g = Graph::empty();
    let z = |x: f64| vec![num(x), num(-x)];
    g.apply_ops(
        &vec![
            GraphOp::AddNode { id: 0, embedding: z(1.0) },
            GraphOp::AddNode { id: 3, embedding: z(2.0) },
            GraphOp::AddEdge { from: 0, to: 3 },
        ],
        2,
        &by,
    )
    .unwrap();
    assert_eq!((g.node_count(), g.edge_count(), g.size(), g.next_id()), (2, 1, 3, 4));
    let before = format!("{g:?}");
    let copy = g.copied();
    let journal = g
        .apply_ops(
            &vec![
                GraphOp::MergeNodes { into: 3, embedding: z(5.0) },
                GraphOp::AddNode { id: 4, embedding: z(4.0) },
                GraphOp::AddEdge { from: 4, to: 0 },
            ],
            2,
            &by,
        )
        .unwrap();
    // The node held one latent and was given another: it keeps their average.
    assert_eq!(g.node(1).unwrap().embedding, z(3.5));
    assert_eq!(g.edge(1), Some((4, 0)));
    assert_eq!(g.edge(2), None);
    assert!(g.node(3).is_none());
    g.undo_ops(&journal);
    assert_eq!(format!("{g:?}"), before);
    assert_eq!(format!("{copy:?}"), before);

    // A transaction is taken whole or not at all.
    let refused = g.apply_ops(
        &vec![
            GraphOp::AddNode { id: 4, embedding: z(4.0) },
            GraphOp::AddEdge { from: 4, to: 9 },
        ],
        2,
        &by,
    );
    assert!(refused.is_err());
    assert_eq!(format!("{g:?}"), before);
    assert!(g.apply_ops(&vec![GraphOp::AddNode { id: 3, embedding: z(0.0) }], 2, &by).is_err());
    assert!(g.apply_ops(&vec![GraphOp::MergeNodes { into: 7, embedding: z(0.0) }], 2, &by).is_err());
    assert_eq!(format!("{g:?}"), before);
}

// ---------------------------------------------------------------------------
// The Python surface
// ---------------------------------------------------------------------------

fn no_arguments() -> ConfigArgs {
    ConfigArgs {
        n_modes: None,
        latent_dim: None,
        eps: None,
        stutter_k: None,
        schedule: None,
        condition: None,
        seed: None,
        strict: None,
        max_graph_size: None,
        gates: None,
        allow_sub_spec_dims: None,
    }
}

#[test]
fn python_arguments_override_the_defaults() {
    let c = PyConfig::new(
        test_config(),
        ConfigArgs {
            n_modes: Some(64),
            latent_dim: Some(32),
            eps: Some(num(0.5)),
            stutter_k: Some(4),
            schedule: Some("opdm".to_string()),
            condition: Some(Ok(Condition::WorldModel)),
            seed: Some(1),
            strict: Some(false),
            max_graph_size: Some(9),
            gates: Some(Ok(vec![Gate::Inv8])),
            allow_sub_spec_dims: Some(false),
        },
    )
    .ok()
    .unwrap();
    assert_eq!((c.n_modes(), c.latent_dim(), c.eps()), (64, 32, num(0.5)));
    assert_eq!((c.schedule(), c.condition()), ("opdm".to_string(), "world_model".to_string()));
    assert_eq!(c.inner.gates.stutter_k, 4);
    assert_eq!(c.inner.seed, Some(1));
    assert!(!c.inner.strict && !c.inner.allow_sub_spec_dims);
    assert_eq!(c.inner.max_graph_size, 9);
    assert_eq!(
        c.repr("0.5"),
        "Config(n_modes=64, latent_dim=32, eps=0.5, schedule='opdm', condition='world_model')"
    );
    let plain = PyConfig::new(test_config(), no_arguments()).ok().unwrap();
    assert_eq!((plain.n_modes(), plain.inner.seed), (8, Some(42)));
    assert!(plain.inner.strict);
}

#[test]
fn python_arguments_that_cannot_be_read_raise_value_errors() {
    let refused = PyConfig::new(
        test_config(),
        ConfigArgs {
            condition: Some(Err("condition".to_string())),
            gates: Some(Err("gates".to_string())),
            ..no_arguments()
        },
    );
    assert!(matches!(refused.err(), Some(Raised::Value(why)) if why == "condition"));
    let refused = PyConfig::new(
        test_config(),
        ConfigArgs { gates: Some(Err("gates".to_string())), ..no_arguments() },
    );
    assert!(matches!(refused.err(), Some(Raised::Value(why)) if why == "gates"));
}

#[test]
fn python_steps_leave_their_argument_alone() {
    let mut e = PyAriaEngine::new(engine(test_config()));
    assert_eq!(
        e.repr("1"),
        "AriaEngine(n_modes=8, latent_dim=16, eps=1, condition='token')"
    );
    let s0 = e.init(psi0(8)).ok().unwrap();
    let s1 = e.apply(&s0, "diffuse").ok().unwrap();
    assert_eq!((s0.t(), s1.t()), (0, 1));
    assert_eq!(s1.prev_res(), s0.prev_res());
    let s2 = e.step_phi(&s1).ok().unwrap();
    assert_eq!((s1.t(), s2.t(), s2.graph_size()), (1, 2, 1));
    assert_eq!(s1.graph_size(), 0);
    assert_eq!(s2.repr("204.000000"), "State(t=2, energy=204.000000, |G|=1)");
    assert_eq!(s0.psi()[1], (num(2.0), num(0.5)));
    assert_eq!(s0.z(), s0.inner.z);
    assert_ne!(s2.z(), s0.z());
    assert!(e.check(&s2).all_ok());
}

#[test]
fn python_errors_have_their_class() {
    let mut e = PyAriaEngine::new(engine(test_config()));
    assert!(matches!(
        e.init(psi0(7)).err(),
        Some(Raised::Rejected(AriaError::Config(why))) if why == "ψ₀ has 7 modes but config.n_modes = 8"
    ));
    let s = e.init(psi0(8)).ok().unwrap();
    assert!(matches!(
        e.apply(&s, "Jump").err(),
        Some(Raised::Value(why)) if why == "unknown action 'jump' (expected OpticalStep|Predict|Match|Diffuse|Stutter)"
    ));
    let mut late = PyState { inner: s.inner };
    late.inner.t = u64::MAX;
    assert!(matches!(
        e.take_action(&late, Action::Diffuse).err(),
        Some(Raised::Failed(AriaError::Backend(why))) if why == "t overflowed u64"
    ));
    assert!(matches!(e.step_phi(&late).err(), Some(Raised::Failed(AriaError::Backend(_)))));
}

#[test]
fn python_reports_heads_and_tokenizers_are_shown() {
    let report = InvariantReport { inv1_ok: true, inv2_ok: false, inv3_ok: true, inv4_ok: true };
    let r = PyInvariantReport::new(&report, vec!["Inv2".to_string()]);
    assert!(!r.all_ok());
    assert_eq!(r.failures, vec!["Inv2"]);
    assert_eq!(r.repr(), "InvariantReport(inv1=true, inv2=false, inv3=true, inv4=true)");

    let head = PyReadout { kind: ReadoutKind::Continuous, dim: 32 };
    assert_eq!((head.kind(), head.dim()), ("continuous", 32));
    assert_eq!(head.repr(), "Readout(kind='continuous', dim=32)");
    assert!(head.require("emit", ReadoutKind::Continuous).is_ok());
    assert!(matches!(
        head.require("decode_id", ReadoutKind::Discrete),
        Err(Raised::Value(why)) if why == "decode_id requires a discrete readout"
    ));
    let head = PyReadout { kind: ReadoutKind::Discrete, dim: 32 };
    assert_eq!(head.kind(), "discrete");
    assert!(matches!(
        head.require("emit", ReadoutKind::Continuous),
        Err(Raised::Value(why)) if why == "emit requires a continuous readout"
    ));
    let logits = |xs: &[f64]| xs.iter().map(|x| num(*x)).collect::<Vec<Real>>();
    assert!(matches!(head.decode_id(&logits(&[0.5, 2.0, -1.0, 2.0])), Ok(1)));
    assert!(matches!(head.decode_id(&logits(&[-0.0, 0.0])), Ok(0)));
    let continuous = PyReadout { kind: ReadoutKind::Continuous, dim: 32 };
    assert!(matches!(
        continuous.decode_id(&logits(&[0.5])),
        Err(Raised::Value(why)) if why == "decode_id requires a discrete readout"
    ));
    let tokenizer = PyTokenizer { vocab_size: 4096 };
    assert_eq!(tokenizer.vocab_size(), 4096);
    assert_eq!(tokenizer.repr(), "Tokenizer(vocab_size=4096)");
}
