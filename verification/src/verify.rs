//! Long-horizon verification of a run.
//!
//! A verifier watches a run step by step and keeps counters, a few samples of the
//! graph's growth and the auditor's window: its memory does not grow with the
//! length of the run. The spec functions of this module say what the counters
//! mean, over all the steps that were taken.

use vstd::prelude::*;

use crate::action::Action;
use crate::audit::{
    tally, tally_agrees, tally_bounded, tally_empty, AuditConfig, Observation, StreamingAuditor, TraceAudit,
};
use crate::backend::{
    drawn, draws_begin_alike, rest_of, Diffuser, GraphBackend, Invariants, Monitor,
    OpticalBackend, Predictor, Schedule,
};
use crate::condition::{condition_label, Condition};
use crate::engine::{outcome, Engine};
use crate::error::{AriaError, ErrorView, InvariantReport};
use crate::gates::{GateReport, GateReportView};
use crate::graph::{Graph, GraphView};
use crate::growth::{sampled, samples_are_few};
use crate::scalar::{Complex, Real};
use crate::state::{State, StateView};
use crate::json::{json_read, json_written, members_of, Json};
use crate::text::{broken_lines, decimal, join2, lines_come_apart, lines_of, one_line};
use crate::trace::{
    entry_pairs, header_pairs, line_reads, stream_pairs, streamed_steps_are_the_same, trace_lines,
    EntryView, Trace, TraceEntry,
};

verus! {

/// What one step of a run showed.
pub struct StepFact {
    pub action: Action,
    pub residual: Real,
    pub drift: Real,
    pub report: InvariantReport,
    pub nodes: nat,
}

/// The stream that the auditor sees.
pub open spec fn observations(h: Seq<StepFact>) -> Seq<Observation> {
    h.map_values(|f: StepFact| (f.action, f.residual))
}

/// How many steps broke Inv2.
pub open spec fn inv2_of(h: Seq<StepFact>) -> nat {
    tally(|i: int| !h[i].report.inv2_ok, h.len() as int)
}

/// How many steps broke Inv3.
pub open spec fn inv3_of(h: Seq<StepFact>) -> nat {
    tally(|i: int| !h[i].report.inv3_ok, h.len() as int)
}

/// How many steps broke Inv4.
pub open spec fn inv4_of(h: Seq<StepFact>) -> nat {
    tally(|i: int| !h[i].report.inv4_ok, h.len() as int)
}

/// The largest drift of a run, and zero where no drift is above zero.
pub open spec fn max_drift(h: Seq<StepFact>) -> Real
    decreases h.len(),
{
    if h.len() == 0 {
        Real { bits: 0 }
    } else {
        let before = max_drift(h.drop_last());
        if h.last().drift.above(before) {
            h.last().drift
        } else {
            before
        }
    }
}

/// The number of nodes after each of the steps that are checkpoints.
pub open spec fn samples_of(h: Seq<StepFact>, checkpoints: Seq<u64>) -> Seq<(u64, usize)> {
    sampled(h.map_values(|f: StepFact| f.nodes), checkpoints)
}

/// Every drift is a NaN or at most the largest, which is no NaN.
pub proof fn max_drift_bounds(h: Seq<StepFact>, i: int)
    requires
        0 <= i < h.len(),
    ensures
        !max_drift(h).nan(),
        h[i].drift.nan() || h[i].drift.at_most(max_drift(h)),
        max_drift(h).rank() >= 0,
    decreases h.len(),
{
    reveal_with_fuel(max_drift, 2);
    let fewer = h.drop_last();
    if fewer.len() > 0 {
        max_drift_bounds(fewer, if i < fewer.len() {
            i
        } else {
            0
        });
    }
}

proof fn facts_grow(h: Seq<StepFact>, f: StepFact)
    ensures
        inv2_of(h.push(f)) == inv2_of(h) + if f.report.inv2_ok {
            0nat
        } else {
            1nat
        },
        inv3_of(h.push(f)) == inv3_of(h) + if f.report.inv3_ok {
            0nat
        } else {
            1nat
        },
        inv4_of(h.push(f)) == inv4_of(h) + if f.report.inv4_ok {
            0nat
        } else {
            1nat
        },
        inv2_of(h) <= h.len(),
        inv3_of(h) <= h.len(),
        inv4_of(h) <= h.len(),
        observations(h.push(f)) == observations(h).push((f.action, f.residual)),
        h.push(f).drop_last() == h,
        h.push(f).map_values(|x: StepFact| x.nodes) == h.map_values(|x: StepFact| x.nodes).push(
            f.nodes,
        ),
        h.push(f).map_values(|x: StepFact| x.nodes).drop_last() == h.map_values(
            |x: StepFact| x.nodes,
        ),
{
    let g = h.push(f);
    let n = h.len() as int;
    assert(g[n] == f);
    assert forall|i: int| 0 <= i < n implies #[trigger] g[i] == h[i] by {}
    tally_agrees(|i: int| !g[i].report.inv2_ok, |i: int| !h[i].report.inv2_ok, n);
    tally_agrees(|i: int| !g[i].report.inv3_ok, |i: int| !h[i].report.inv3_ok, n);
    tally_agrees(|i: int| !g[i].report.inv4_ok, |i: int| !h[i].report.inv4_ok, n);
    tally_bounded(|i: int| !h[i].report.inv2_ok, n);
    tally_bounded(|i: int| !h[i].report.inv3_ok, n);
    tally_bounded(|i: int| !h[i].report.inv4_ok, n);
    assert(observations(g) =~= observations(h).push((f.action, f.residual)));
    assert(g.drop_last() =~= h);
    let sizes = h.map_values(|x: StepFact| x.nodes);
    assert(g.map_values(|x: StepFact| x.nodes) =~= sizes.push(f.nodes));
    assert(sizes.push(f.nodes).drop_last() =~= sizes);
}

/// What a step of `engine` to the state `next` shows.
pub open spec fn fact_of<O, P, G, D, C>(
    engine: Engine<O, P, G, D, C>,
    action: Action,
    next: StateView,
    a: Condition,
) -> StepFact where
    O: OpticalBackend,
    P: Predictor,
    G: GraphBackend,
    D: Diffuser,
    C: Invariants,
 {
    StepFact {
        action,
        residual: engine.residual_of(next, a),
        drift: engine.invariants.drifted(engine.energy_of(next), next.energy_0),
        report: engine.report_of(next, a),
        nodes: next.g.nodes.len(),
    }
}

/// What the steps of a walk through the states `ss` show.
pub open spec fn facts_of<O, P, G, D, C>(
    engine: Engine<O, P, G, D, C>,
    ss: Seq<State>,
    actions: Seq<Action>,
    a: Condition,
) -> Seq<StepFact> where
    O: OpticalBackend,
    P: Predictor,
    G: GraphBackend,
    D: Diffuser,
    C: Invariants,
 {
    Seq::new(actions.len(), |i: int| fact_of(engine, actions[i], ss[i + 1]@, a))
}

/// Watches a run and keeps what the receipt needs.
pub struct Verifier {
    auditor: StreamingAuditor,
    checkpoints: Vec<u64>,
    samples: Vec<(u64, usize)>,
    inv1_max_drift: Real,
    inv2: u64,
    inv3: u64,
    inv4: u64,
    steps_done: u64,
    history: Ghost<Seq<StepFact>>,
}

/// One step of a verified run.
pub struct VerifiedStep<M> {
    pub state: State,
    /// The gates after they saw the step.
    pub monitor: M,
    /// What the streamed trace says of the step.
    pub entry: TraceEntry,
    /// Whether the run ends here, because strict checking found an invariant broken.
    pub stop: bool,
}

/// What a verified run found.
pub struct VerifyRun {
    pub state: State,
    pub steps: u64,
    pub inv1_max_drift: Real,
    pub inv2_violations: u64,
    pub inv3_violations: u64,
    pub inv4_violations: u64,
    pub trace_audit: TraceAudit,
    /// Steps and the numbers of nodes after them, for the fit of the growth exponent.
    pub samples: Vec<(u64, usize)>,
    pub final_nodes: usize,
    pub final_edges: usize,
    pub gates: GateReport,
    pub invariants_ok: bool,
}

impl VerifyRun {
    /// Whether this is what a run found that ended in `last`, on which the invariants
    /// then gave `report`, and of which the gates gave `gates`.
    pub open spec fn summarises(
        &self,
        audit: AuditConfig,
        checkpoints: Seq<u64>,
        h: Seq<StepFact>,
        last: State,
        report: InvariantReport,
        gates: GateReportView,
    ) -> bool {
        &&& self.state == last
        &&& self.steps == h.len()
        &&& self.inv1_max_drift == max_drift(h)
        &&& self.inv2_violations == inv2_of(h)
        &&& self.inv3_violations == inv3_of(h)
        &&& self.inv4_violations == inv4_of(h)
        &&& self.trace_audit.describes(audit, observations(h))
        &&& self.samples@ == samples_of(h, checkpoints)
        &&& self.final_nodes == last.g@.nodes.len()
        &&& self.final_edges == last.g@.edges.len()
        &&& self.gates@ == gates
        &&& self.invariants_ok == (report.green() && inv2_of(h) == 0 && inv3_of(h) == 0 && inv4_of(
            h,
        ) == 0)
    }
}

/// Whether a list holds a number.
pub fn holds(list: &Vec<u64>, n: u64) -> (r: bool)
    ensures
        r == list@.contains(n),
{
    let mut i: usize = 0;
    while i < list.len()
        invariant
            i <= list@.len(),
            forall|j: int| 0 <= j < i ==> list@[j] != n,
        decreases list@.len() - i,
    {
        if list[i] == n {
            assert(list@[i as int] == n);
            return true;
        }
        i += 1;
    }
    false
}

impl View for Verifier {
    type V = Seq<StepFact>;

    /// What the steps watched so far showed.
    closed spec fn view(&self) -> Seq<StepFact> {
        self.history@
    }
}

impl Verifier {
    /// The bounds of the audit.
    pub closed spec fn audit(&self) -> AuditConfig {
        self.auditor.bounds()
    }

    /// The steps to sample.
    pub closed spec fn marks(&self) -> Seq<u64> {
        self.checkpoints@
    }

    /// Whether what is kept describes the steps watched so far.
    pub closed spec fn wf(&self) -> bool {
        let h = self@;
        &&& self.auditor.wf()
        &&& self.auditor@ == observations(h)
        &&& self.samples@ == samples_of(h, self.checkpoints@)
        &&& self.inv1_max_drift == max_drift(h)
        &&& self.inv2 == inv2_of(h)
        &&& self.inv3 == inv3_of(h)
        &&& self.inv4 == inv4_of(h)
        &&& self.steps_done == h.len()
    }

    /// A verifier that has seen nothing.
    pub fn new(audit: AuditConfig, checkpoints: Vec<u64>) -> (r: Self)
        ensures
            r.wf(),
            r@ == Seq::<StepFact>::empty(),
            r.audit() == audit,
            r.marks() == checkpoints@,
    {
        let r = Verifier {
            auditor: StreamingAuditor::new(audit),
            checkpoints,
            samples: Vec::new(),
            inv1_max_drift: Real::zero(),
            inv2: 0,
            inv3: 0,
            inv4: 0,
            steps_done: 0,
            history: Ghost(Seq::empty()),
        };
        assert(observations(r@) =~= Seq::empty());
        assert(r.samples@ =~= samples_of(r@, r.checkpoints@));
        r
    }

    /// Takes what one step showed into account.
    pub fn observe(
        &mut self,
        action: Action,
        residual: Real,
        drift: Real,
        report: &InvariantReport,
        nodes: usize,
    )
        requires
            old(self).wf(),
            old(self)@.len() < u64::MAX,
        ensures
            final(self).wf(),
            final(self)@ == old(self)@.push(
                StepFact { action, residual, drift, report: *report, nodes: nodes as nat },
            ),
            final(self).audit() == old(self).audit(),
            final(self).marks() == old(self).marks(),
    {
        let ghost f = StepFact { action, residual, drift, report: *report, nodes: nodes as nat };
        let ghost h = self@;
        proof {
            facts_grow(h, f);
        }
        if drift.gt(&self.inv1_max_drift) {
            self.inv1_max_drift = drift;
        }
        if !report.inv2_ok {
            self.inv2 = self.inv2 + 1;
        }
        if !report.inv3_ok {
            self.inv3 = self.inv3 + 1;
        }
        if !report.inv4_ok {
            self.inv4 = self.inv4 + 1;
        }
        self.auditor.observe(action, residual);
        self.steps_done = self.steps_done + 1;
        if holds(&self.checkpoints, self.steps_done) {
            self.samples.push((self.steps_done, nodes));
        }
        self.history = Ghost(h.push(f));
    }

    /// Has the engine take one step, takes what it showed into account, and shows it to
    /// the gates.
    pub fn step<O, P, G, D, C, M>(
        &mut self,
        engine: &mut Engine<O, P, G, D, C>,
        monitor: M,
        state: State,
        action: Action,
        a: Condition,
    ) -> (r: Result<VerifiedStep<M>, AriaError>) where
        O: OpticalBackend,
        P: Predictor,
        G: GraphBackend,
        D: Diffuser,
        C: Invariants,
        M: Monitor,

        requires
            old(self).wf(),
            old(self)@.len() < u64::MAX,
        ensures
            final(self).wf(),
            final(self).audit() == old(self).audit(),
            final(self).marks() == old(self).marks(),
            match r {
                Ok(step) => {
                    &&& Engine::applies(
                        *old(engine),
                        state@,
                        action,
                        a,
                        Ok(step.state),
                        *final(engine),
                    )
                    &&& final(self)@ == old(self)@.push(
                        fact_of(*old(engine), action, step.state@, a),
                    )
                    &&& step.stop == old(engine).rejects(step.state@, a)
                    &&& step.entry@ == old(engine).entry_of(state, action, step.state, a)
                    &&& step.monitor == monitor.noticed(
                        action,
                        step.state@,
                        old(engine).residual_of(step.state@, a),
                        old(engine).config.eps,
                    )
                },
                Err(e) => Engine::applies(*old(engine), state@, action, a, Err(e), *final(engine))
                    && final(self)@ == old(self)@,
            },
    {
        let t_before = state.t;
        let next = match engine.apply(state, action, a) {
            Ok(next) => next,
            Err(e) => {
                return Err(e);
            },
        };
        proof {
            Engine::operators_are_kept(*old(engine), state@, action, a, Ok(next), *engine);
        }
        let residual = engine.residual(&next, a);
        let energy = engine.optical.shared_energy(&next.psi);
        let drift = engine.invariants.drift(energy, next.energy_0);
        let report = engine.check(&next, a);
        self.observe(action, residual, drift, &report, next.g.node_count());
        let seen = monitor.observe(action, &next, residual, engine.config.eps);
        let entry = TraceEntry {
            t: t_before,
            action: action.symbol().to_string(),
            res: residual,
            energy,
            graph_size: next.g.size(),
            condition: condition_label(a).to_string(),
        };
        let stop = engine.config.strict && !report.all_ok();
        Ok(VerifiedStep { state: next, monitor: seen, entry, stop })
    }

    /// What the run found, given the state it ended in, the check of that state, and
    /// what the gates found.
    pub fn finish(self, state: State, final_report: &InvariantReport, gates: GateReport) -> (r:
        VerifyRun)
        requires
            self.wf(),
        ensures
            r.summarises(self.audit(), self.marks(), self@, state, *final_report, gates@),
    {
        let invariants_ok = final_report.all_ok() && self.inv2 == 0 && self.inv3 == 0 && self.inv4
            == 0;
        let final_nodes = state.g.node_count();
        let final_edges = state.g.edge_count();
        VerifyRun {
            state,
            steps: self.steps_done,
            inv1_max_drift: self.inv1_max_drift,
            inv2_violations: self.inv2,
            inv3_violations: self.inv3,
            inv4_violations: self.inv4,
            trace_audit: self.auditor.finish(),
            samples: self.samples,
            final_nodes,
            final_edges,
            gates,
            invariants_ok,
        }
    }

    /// The actions that are kept.
    pub closed spec fn kept_actions(&self) -> nat {
        self.auditor.stored().len()
    }

    /// The samples that are kept.
    pub closed spec fn kept_samples(&self) -> nat {
        self.samples@.len()
    }

    /// However long the run, no more actions are kept than the audit's window holds, and
    /// no more samples than there are checkpoints.
    pub proof fn memory_is_bounded(&self)
        requires
            self.wf(),
        ensures
            self.kept_actions() <= self.audit().w,
            self.kept_samples() <= self.marks().len(),
    {
        self.auditor.memory_is_bounded();
        samples_are_few(self@.map_values(|f: StepFact| f.nodes), self.checkpoints@);
    }
}

// ---------------------------------------------------------------------------
// A whole run
// ---------------------------------------------------------------------------

/// What a run is verified on.
pub struct VerifyOpts<S> {
    /// What hands out the actions, one per step.
    pub schedule: S,
    /// How many steps to take.
    pub steps: u64,
    /// The initial field.
    pub psi0: Vec<Complex>,
    /// The initial graph.
    pub g0: Graph,
    pub audit: AuditConfig,
    /// The steps after which the number of nodes is sampled.
    pub checkpoints: Vec<u64>,
}

/// What starting a verified run answers: the hard bounds come first, then the seed graph,
/// then the shapes.
pub open spec fn began<O, P, G, D, C>(
    engine: Engine<O, P, G, D, C>,
    psi0: Seq<Complex>,
    g0: GraphView,
) -> Result<StateView, ErrorView> where
    O: OpticalBackend,
    P: Predictor,
    G: GraphBackend,
    D: Diffuser,
    C: Invariants,
 {
    match engine.invariants.bounds(engine.config) {
        Err(e) => Err(e),
        Ok(()) => if !engine.graph_backend.graph_ok(g0) {
            Err(
                ErrorView::Config(
                    "seed graph fails GraphOK at latent_dim="@ + crate::text::numeral(
                        engine.config.latent_dim as nat,
                    ),
                ),
            )
        } else {
            engine.started(psi0, g0, engine.config.condition)
        },
    }
}

/// Starts a verified run.
pub fn begin<O, P, G, D, C>(engine: &Engine<O, P, G, D, C>, psi0: Vec<Complex>, g0: Graph) -> (r:
    Result<State, AriaError>) where
    O: OpticalBackend,
    P: Predictor,
    G: GraphBackend,
    D: Diffuser,
    C: Invariants,

    ensures
        outcome(r) == began(*engine, psi0@, g0@),
{
    match engine.invariants.validate(&engine.config) {
        Err(e) => Err(e),
        Ok(()) => {
            if !engine.graph_backend.ok(&g0) {
                return Err(
                    AriaError::Config(
                        join2(
                            "seed graph fails GraphOK at latent_dim=",
                            decimal(engine.config.latent_dim as u64).as_str(),
                        ),
                    ),
                );
            }
            engine.init_within_bounds(psi0, g0, engine.config.condition)
        },
    }
}

/// Whether a run under strict checking ends exactly at the first step that broke an
/// invariant, and otherwise at the end of the schedule.
pub open spec fn ends_in_time(strict: bool, h: Seq<StepFact>, planned: nat) -> bool {
    &&& h.len() <= planned
    &&& forall|i: int|
        0 <= i < h.len() - 1 && strict ==> (#[trigger] h[i]).report.green()
    &&& h.len() < planned ==> strict && h.len() > 0 && !h.last().report.green()
}

/// Whether the engine `before` runs from `s` as planned through the states `ss`, ends as
/// `after`, and is summarised by `run`.
pub open spec fn surveyed<O, P, G, D, C, M, S>(
    before: Engine<O, P, G, D, C>,
    s: State,
    opts: VerifyOpts<S>,
    ss: Seq<State>,
    run: VerifyRun,
    after: Engine<O, P, G, D, C>,
) -> bool where
    O: OpticalBackend,
    P: Predictor,
    G: GraphBackend,
    D: Diffuser,
    C: Invariants,
    M: Monitor,
    S: Schedule,
 {
    let a = before.config.condition;
    let actions = drawn(opts.schedule, run.steps as nat);
    let h = facts_of(before, ss, actions, a);
    &&& Engine::completes(before, s, actions, a, ss, after)
    &&& ends_in_time(before.config.strict, h, opts.steps as nat)
    &&& run.summarises(
        opts.audit,
        opts.checkpoints@,
        h,
        ss.last(),
        before.report_of(ss.last()@, a),
        before.overseen::<M>(ss, actions, a),
    )
}

/// Whether the engine `before` runs from `s` as planned, ends as `after`, and is
/// summarised by `run`.
pub open spec fn found<O, P, G, D, C, M, S>(
    before: Engine<O, P, G, D, C>,
    s: State,
    opts: VerifyOpts<S>,
    run: VerifyRun,
    after: Engine<O, P, G, D, C>,
) -> bool where
    O: OpticalBackend,
    P: Predictor,
    G: GraphBackend,
    D: Diffuser,
    C: Invariants,
    M: Monitor,
    S: Schedule,
 {
    exists|ss: Seq<State>| #[trigger]
        surveyed::<O, P, G, D, C, M, S>(before, s, opts, ss, run, after)
}

/// Whether the engine `before`, running from `s` as planned, takes the first `k` actions
/// through the states `ss` and then fails with `e` at the next, which leaves it as `after`.
/// Had strict checking found one of the states before it broken, the run had ended there.
pub open spec fn broke_off_at<O, P, G, D, C, S>(
    before: Engine<O, P, G, D, C>,
    s: State,
    opts: VerifyOpts<S>,
    k: nat,
    ss: Seq<State>,
    last: Engine<O, P, G, D, C>,
    e: AriaError,
    after: Engine<O, P, G, D, C>,
) -> bool where
    O: OpticalBackend,
    P: Predictor,
    G: GraphBackend,
    D: Diffuser,
    C: Invariants,
    S: Schedule,
 {
    let a = before.config.condition;
    let actions = drawn(opts.schedule, k);
    let h = facts_of(before, ss, actions, a);
    &&& k < opts.steps
    &&& Engine::completes(before, s, actions, a, ss, last)
    &&& before.config.strict ==> forall|i: int|
        0 <= i < h.len() ==> (#[trigger] h[i]).report.green()
    &&& Engine::applies(
        last,
        ss.last()@,
        rest_of(opts.schedule, k).dealt().0,
        a,
        Err(e),
        after,
    )
}

/// Whether the engine `before`, running from `s` as planned, fails with `e` at an action
/// that was handed out in time, and is left as `after`.
pub open spec fn broke_off<O, P, G, D, C, S>(
    before: Engine<O, P, G, D, C>,
    s: State,
    opts: VerifyOpts<S>,
    e: AriaError,
    after: Engine<O, P, G, D, C>,
) -> bool where
    O: OpticalBackend,
    P: Predictor,
    G: GraphBackend,
    D: Diffuser,
    C: Invariants,
    S: Schedule,
 {
    exists|k: nat, ss: Seq<State>, last: Engine<O, P, G, D, C>| #[trigger]
        broke_off_at(before, s, opts, k, ss, last, e, after)
}

/// Whether a verified run has come as far as the facts `h` show.
#[verifier::opaque]
spec fn underway<O, P, G, D, C>(
    before: Engine<O, P, G, D, C>,
    s: State,
    actions: Seq<Action>,
    ss: Seq<State>,
    h: Seq<StepFact>,
    now: Engine<O, P, G, D, C>,
) -> bool where
    O: OpticalBackend,
    P: Predictor,
    G: GraphBackend,
    D: Diffuser,
    C: Invariants,
 {
    let a = before.config.condition;
    &&& Engine::completes(before, s, actions, a, ss, now)
    &&& ss.len() == actions.len() + 1
    &&& now == before.with_backend(now.graph_backend)
    &&& h == facts_of(before, ss, actions, a)
    &&& forall|j: int|
        0 <= j < h.len() - 1 && before.config.strict ==> (#[trigger] h[j]).report.green()
}

proof fn underway_starts<O, P, G, D, C>(before: Engine<O, P, G, D, C>, s: State) where
    O: OpticalBackend,
    P: Predictor,
    G: GraphBackend,
    D: Diffuser,
    C: Invariants,

    ensures
        underway(before, s, Seq::empty(), seq![s], Seq::empty(), before),
{
    reveal(underway);
    let h: Seq<StepFact> = Seq::empty();
    Engine::completes_nothing(before, s, before.config.condition);
    assert(h =~= facts_of(before, seq![s], Seq::empty(), before.config.condition));
}

proof fn underway_grows<O, P, G, D, C>(
    before: Engine<O, P, G, D, C>,
    s: State,
    actions: Seq<Action>,
    ss: Seq<State>,
    h: Seq<StepFact>,
    last: Engine<O, P, G, D, C>,
    action: Action,
    next: State,
    now: Engine<O, P, G, D, C>,
) where O: OpticalBackend, P: Predictor, G: GraphBackend, D: Diffuser, C: Invariants
    requires
        underway(before, s, actions, ss, h, last),
        h.len() > 0 && before.config.strict ==> h.last().report.green(),
        Engine::applies(last, ss.last()@, action, before.config.condition, Ok(next), now),
    ensures
        underway(
            before,
            s,
            actions.push(action),
            ss.push(next),
            h.push(fact_of(last, action, next@, before.config.condition)),
            now,
        ),
        last == before.with_backend(last.graph_backend),
{
    reveal(underway);
    let a = before.config.condition;
    let g = h.push(fact_of(last, action, next@, a));
    Engine::operators_are_kept(last, ss.last()@, action, a, Ok(next), now);
    Engine::completes_grows(before, s, actions, a, ss, last, action, next, now);
    assert forall|j: int| 0 <= j < g.len() - 1 && before.config.strict implies (
    #[trigger] g[j]).report.green() by {
        assert(g[j] == h[j]);
    }
    assert(g =~= facts_of(before, ss.push(next), actions.push(action), a));
}

/// A verification on its way: one step after another, until it is done.
pub struct Verification<M, S> {
    verifier: Verifier,
    monitor: M,
    schedule: S,
    state: State,
    steps: u64,
    done: u64,
    stopped: bool,
}

impl<M: Monitor, S: Schedule> Verification<M, S> {
    /// What the steps taken so far showed.
    pub closed spec fn facts(&self) -> Seq<StepFact> {
        self.verifier@
    }

    /// The state that the run has come to.
    pub closed spec fn at(&self) -> State {
        self.state
    }

    /// The gates, with what they saw so far.
    pub closed spec fn gates(&self) -> M {
        self.monitor
    }

    /// What is left of the schedule.
    pub closed spec fn left(&self) -> S {
        self.schedule
    }

    /// How many steps are planned.
    pub closed spec fn planned(&self) -> nat {
        self.steps as nat
    }

    /// The bounds of the audit.
    pub closed spec fn audit(&self) -> AuditConfig {
        self.verifier.audit()
    }

    /// The steps to sample.
    pub closed spec fn marks(&self) -> Seq<u64> {
        self.verifier.marks()
    }

    /// Whether strict checking has ended the run.
    pub closed spec fn ended(&self) -> bool {
        self.stopped
    }

    /// Whether what is kept describes the steps taken so far, of which there are not more
    /// than planned.
    pub closed spec fn wf(&self) -> bool {
        &&& self.verifier.wf()
        &&& self.verifier@.len() == self.done
        &&& self.done <= self.steps
    }

    /// A verification at its start.
    pub fn new<O, P, G, D, C>(engine: &Engine<O, P, G, D, C>, opts: VerifyOpts<S>) -> (r: Result<
        Self,
        AriaError,
    >) where O: OpticalBackend, P: Predictor, G: GraphBackend, D: Diffuser, C: Invariants
        ensures
            match began(*engine, opts.psi0@, opts.g0@) {
                Err(why) => r matches Err(e) && e@ == why,
                Ok(start) => r matches Ok(v) && {
                    &&& v.wf()
                    &&& v.at()@ == start
                    &&& v.facts() == Seq::<StepFact>::empty()
                    &&& v.gates() == M::opened(engine.config.gates)
                    &&& v.left() == opts.schedule
                    &&& v.planned() == opts.steps
                    &&& v.audit() == opts.audit
                    &&& v.marks() == opts.checkpoints@
                    &&& !v.ended()
                },
            },
    {
        let VerifyOpts { schedule, steps, psi0, g0, audit, checkpoints } = opts;
        match begin(engine, psi0, g0) {
            Ok(state) => Ok(
                Verification {
                    verifier: Verifier::new(audit, checkpoints),
                    monitor: M::new(&engine.config.gates),
                    schedule,
                    state,
                    steps,
                    done: 0,
                    stopped: false,
                },
            ),
            Err(e) => Err(e),
        }
    }

    /// Whether there is a step to take.
    pub fn goes_on(&self) -> (r: bool)
        requires
            self.wf(),
        ensures
            r == (self.facts().len() < self.planned() && !self.ended()),
    {
        self.done < self.steps && !self.stopped
    }

    /// Takes the next step, and gives what the streamed trace says of it.
    pub fn advance<O, P, G, D, C>(self, engine: &mut Engine<O, P, G, D, C>) -> (r: Result<
        (Self, TraceEntry),
        AriaError,
    >) where O: OpticalBackend, P: Predictor, G: GraphBackend, D: Diffuser, C: Invariants
        requires
            self.wf(),
            self.facts().len() < self.planned(),
        ensures
            ({
                let before = *old(engine);
                let a = before.config.condition;
                let (action, rest) = self.left().dealt();
                match r {
                    Err(e) => Engine::applies(
                        before,
                        self.at()@,
                        action,
                        a,
                        Err(e),
                        *final(engine),
                    ),
                    Ok((v, entry)) => {
                        &&& v.wf()
                        &&& Engine::applies(
                            before,
                            self.at()@,
                            action,
                            a,
                            Ok(v.at()),
                            *final(engine),
                        )
                        &&& v.facts() == self.facts().push(fact_of(before, action, v.at()@, a))
                        &&& v.gates() == self.gates().noticed(
                            action,
                            v.at()@,
                            before.residual_of(v.at()@, a),
                            before.config.eps,
                        )
                        &&& v.left() == rest
                        &&& v.planned() == self.planned()
                        &&& v.audit() == self.audit()
                        &&& v.marks() == self.marks()
                        &&& v.ended() == before.rejects(v.at()@, a)
                        &&& entry@ == before.entry_of(self.at(), action, v.at(), a)
                    },
                }
            }),
    {
        let Verification { mut verifier, monitor, mut schedule, state, steps, done, stopped } =
            self;
        let a = engine.config.condition;
        let action = schedule.next_action();
        match verifier.step(engine, monitor, state, action, a) {
            Ok(step) => Ok(
                (
                    Verification {
                        verifier,
                        monitor: step.monitor,
                        schedule,
                        state: step.state,
                        steps,
                        done: done + 1,
                        stopped: step.stop,
                    },
                    step.entry,
                ),
            ),
            Err(e) => Err(e),
        }
    }

    /// What the run found, with a check of the state that it ended in.
    pub fn finish<O, P, G, D, C>(self, engine: &Engine<O, P, G, D, C>) -> (r: VerifyRun) where
        O: OpticalBackend,
        P: Predictor,
        G: GraphBackend,
        D: Diffuser,
        C: Invariants,

        requires
            self.wf(),
        ensures
            r.summarises(
                self.audit(),
                self.marks(),
                self.facts(),
                self.at(),
                engine.report_of(self.at()@, engine.config.condition),
                self.gates().found(),
            ),
    {
        let report = engine.check(&self.state, engine.config.condition);
        self.verifier.finish(self.state, &report, self.monitor.finish())
    }
}

/// Runs as many steps as planned, watches every one, and says what was found. What is
/// kept on the way does not grow with the number of steps.
pub fn verify<O, P, G, D, C, M, S>(
    engine: &mut Engine<O, P, G, D, C>,
    opts: VerifyOpts<S>,
) -> (r: Result<VerifyRun, AriaError>) where
    O: OpticalBackend,
    P: Predictor,
    G: GraphBackend,
    D: Diffuser,
    C: Invariants,
    M: Monitor,
    S: Schedule,

    ensures
        match began(*old(engine), opts.psi0@, opts.g0@) {
            Err(why) => r matches Err(e) && e@ == why && *final(engine) == *old(engine),
            Ok(start) => exists|s: State| #[trigger]
                s@ == start && match r {
                    Err(e) => broke_off(*old(engine), s, opts, e, *final(engine)),
                    Ok(run) => found::<O, P, G, D, C, M, S>(
                        *old(engine),
                        s,
                        opts,
                        run,
                        *final(engine),
                    ),
                },
        },
{
    let ghost a = engine.config.condition;
    let mut v = match Verification::<M, S>::new(engine, opts) {
        Ok(v) => v,
        Err(e) => {
            return Err(e);
        },
    };
    let ghost origin = v.at();
    let ghost mut ss: Seq<State> = seq![origin];
    proof {
        underway_starts(*engine, origin);
    }
    while v.goes_on()
        invariant
            a == old(engine).config.condition,
            began(*old(engine), opts.psi0@, opts.g0@) == Ok::<StateView, ErrorView>(origin@),
            v.wf(),
            v.facts().len() <= v.planned(),
            v.planned() == opts.steps,
            v.audit() == opts.audit,
            v.marks() == opts.checkpoints@,
            ss.len() == v.facts().len() + 1,
            ss.last() == v.at(),
            drawn(opts.schedule, v.facts().len()).len() == v.facts().len(),
            underway(
                *old(engine),
                origin,
                drawn(opts.schedule, v.facts().len()),
                ss,
                v.facts(),
                *engine,
            ),
            v.gates() == old(engine).watching::<M>(
                ss,
                drawn(opts.schedule, v.facts().len()),
                a,
                v.facts().len(),
            ),
            v.left() == rest_of(opts.schedule, v.facts().len()),
            engine.config == old(engine).config,
            v.ended() == (v.facts().len() > 0 && old(engine).config.strict
                && !v.facts().last().report.green()),
        decreases v.planned() - v.facts().len(),
    {
        let ghost last = *engine;
        let ghost n = v.facts().len();
        let ghost was = v;
        match v.advance(engine) {
            Ok((next, _)) => {
                proof {
                    let (action, rest) = was.left().dealt();
                    let actions = drawn(opts.schedule, n);
                    let states = ss.push(next.at());
                    assert(drawn(opts.schedule, n + 1) == actions.push(action));
                    Engine::operators_are_kept(last, was.at()@, action, a, Ok(next.at()), *engine);
                    underway_grows(
                        *old(engine),
                        origin,
                        actions,
                        ss,
                        was.facts(),
                        last,
                        action,
                        next.at(),
                        *engine,
                    );
                    old(engine).watchers_agree::<M>(
                        ss,
                        actions,
                        states,
                        actions.push(action),
                        a,
                        n,
                    );
                    ss = states;
                }
                v = next;
            },
            Err(e) => {
                proof {
                    reveal(underway);
                    assert(broke_off_at(*old(engine), origin, opts, n, ss, last, e, *engine));
                }
                return Err(e);
            },
        }
    }
    let run = v.finish(engine);
    proof {
        reveal(underway);
        assert(surveyed::<O, P, G, D, C, M, S>(*old(engine), origin, opts, ss, run, *engine));
    }
    Ok(run)
}

/// Under strict checking a verification that does not fail takes all the steps that were
/// planned and finds no invariant broken after any of them; if there was one step at least,
/// it ends green.
pub proof fn strict_verifications_are_green<O, P, G, D, C, M, S>(
    before: Engine<O, P, G, D, C>,
    s: State,
    opts: VerifyOpts<S>,
    run: VerifyRun,
    after: Engine<O, P, G, D, C>,
) where
    O: OpticalBackend,
    P: Predictor,
    G: GraphBackend,
    D: Diffuser,
    C: Invariants,
    M: Monitor,
    S: Schedule,

    requires
        before.config.strict,
        found::<O, P, G, D, C, M, S>(before, s, opts, run, after),
    ensures
        run.steps == opts.steps,
        run.inv2_violations == 0,
        run.inv3_violations == 0,
        run.inv4_violations == 0,
        opts.steps > 0 ==> run.invariants_ok,
{
    let a = before.config.condition;
    let n = run.steps as nat;
    let actions = drawn(opts.schedule, n);
    let ss = choose|ss: Seq<State>| #[trigger]
        surveyed::<O, P, G, D, C, M, S>(before, s, opts, ss, run, after);
    let h = facts_of(before, ss, actions, a);
    draws_begin_alike(opts.schedule, n, n);
    assert forall|i: int| 0 <= i < h.len() implies (#[trigger] h[i]).report.green() by {
        Engine::strict_walks_are_green(before, s, actions, a, ss, after, i + 1);
    }
    tally_empty(|i: int| !h[i].report.inv2_ok, h.len() as int);
    tally_empty(|i: int| !h[i].report.inv3_ok, h.len() as int);
    tally_empty(|i: int| !h[i].report.inv4_ok, h.len() as int);
    if n > 0 {
        Engine::strict_walks_are_green(before, s, actions, a, ss, after, n as int);
    }
}

/// A streamed trace holds the run: where a verified run streamed its header and one line
/// per step, the file comes apart into just these lines, its first line is that of the
/// trace which a plain run along the same actions keeps, and every other line reads as
/// the object of the step that the plain run recorded there.
pub proof fn streams_hold_the_trace<O, P, G, D, C>(
    es: Seq<Engine<O, P, G, D, C>>,
    ss: Seq<State>,
    actions: Seq<Action>,
    a: Condition,
    entries: Seq<EntryView>,
    ls: Seq<Seq<char>>,
    s: State,
    kept: Seq<State>,
    trace: Trace,
    after: Engine<O, P, G, D, C>,
) where O: OpticalBackend, P: Predictor, G: GraphBackend, D: Diffuser, C: Invariants
    requires
        Engine::walks(es, ss, actions, a),
        entries.len() == actions.len(),
        forall|i: int|
            0 <= i < actions.len() ==> #[trigger] entries[i] == es[i].entry_of(
                ss[i],
                actions[i],
                ss[i + 1],
                a,
            ),
        ls.len() == actions.len() + 1,
        ls[0] == json_written(header_pairs(es[0].header_of(a))),
        line_reads(ls[0], header_pairs(es[0].header_of(a))),
        forall|i: int|
            0 <= i < actions.len() ==> line_reads(
                #[trigger] ls[i + 1],
                stream_pairs(entries[i]),
            ),
        s@ == ss[0]@,
        Engine::ran(es[0], s, actions, a, kept, trace, after),
    ensures
        lines_of(broken_lines(ls)) == ls,
        ls[0] == trace_lines(trace.header(), trace.steps())[0],
        trace.steps() == entries,
        forall|i: int|
            0 <= i < actions.len() ==> json_read(#[trigger] ls[i + 1]) == Ok::<
                Map<Seq<char>, Json>,
                Seq<char>,
            >(members_of(entry_pairs(trace.steps()[i]))),
{
    let n = actions.len() as int;
    assert forall|j: int| 0 <= j < ls.len() implies one_line(#[trigger] ls[j]) by {
        if j > 0 {
            assert(line_reads(ls[(j - 1) + 1], stream_pairs(entries[j - 1])));
        }
    }
    lines_come_apart(ls);
    let others = choose|others: Seq<Engine<O, P, G, D, C>>| #[trigger]
        Engine::walks(others, kept, actions, a) && others[0] == es[0] && kept[0] == s
            && others.last() == after;
    assert forall|i: int| 0 <= i < n implies trace.steps()[i] == #[trigger] entries[i] by {
        Engine::walks_coincide(es, ss, others, kept, actions, a, i);
        Engine::walks_coincide(es, ss, others, kept, actions, a, i + 1);
        Engine::walks_begin(es, ss, actions, a, i);
        Engine::clock_counts_diffusions(
            es.take(i + 1),
            ss.take(i + 1),
            actions.take(i),
            a,
        );
        assert(ss[i]@.t == kept[i]@.t);
        assert(ss[i + 1]@.g == kept[i + 1]@.g);
    }
    assert(trace.steps() =~= entries);
    assert forall|i: int| 0 <= i < n implies json_read(#[trigger] ls[i + 1]) == Ok::<
        Map<Seq<char>, Json>,
        Seq<char>,
    >(members_of(entry_pairs(trace.steps()[i]))) by {
        assert(line_reads(ls[i + 1], stream_pairs(entries[i])));
        streamed_steps_are_the_same(entries[i]);
    }
}

} // verus!
