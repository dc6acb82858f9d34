//! The surface of the Python extension: what its classes hold, what they decide, and
//! what they are shown as. It defines no step of its own; every run goes through the
//! engine.

use vstd::prelude::*;

use crate::action::{parse_action, Action};
use crate::backend::{
    Diffuser, GraphBackend, Invariants, Monitor, OpticalBackend, Predictor, Schedule,
};
use crate::cli::{
    asked, gates_asked, no_flags_no_change, puts_out, run_configured, was_read, RunArgs, RunRefusal,
};
use crate::condition::{condition_name, Condition};
use crate::config::{AriaConfig, Gate, GateConfig};
use crate::engine::{phi_cycle, Engine};
use crate::error::{AriaError, InvariantReport};
use crate::graph::{copied, empty_graph, Graph};
use crate::json::{misrenders, Numerals};
use crate::runner::{
    faithful, outcomes_agree, run_with_graph, runs_out, strict_runs_end_green, RunOutcome,
};
use crate::scalar::{Complex, Real};
use crate::state::{State, StateView};
use crate::text::{decimal, join2, join3, join4, join5, numeral};

verus! {

/// An error, by the class of exception that it is raised as.
pub enum Raised {
    /// A `ValueError` with a text.
    Value(String),
    /// A `ValueError` about something that the runtime rejected.
    Rejected(AriaError),
    /// A `RuntimeError` about something that failed in the runtime.
    Failed(AriaError),
}

// ---------------------------------------------------------------------------
// Config
// ---------------------------------------------------------------------------

/// The class `Config`.
#[derive(Clone)]
pub struct PyConfig {
    pub inner: AriaConfig,
}

/// The arguments of `Config`: any subset of the defaults.
pub struct ConfigArgs {
    pub n_modes: Option<usize>,
    pub latent_dim: Option<usize>,
    pub eps: Option<Real>,
    pub stutter_k: Option<u64>,
    pub schedule: Option<String>,
    pub condition: Option<Result<Condition, String>>,
    pub seed: Option<u64>,
    pub strict: Option<bool>,
    pub max_graph_size: Option<usize>,
    pub gates: Option<Result<Vec<Gate>, String>>,
    pub allow_sub_spec_dims: Option<bool>,
}

/// The configuration that the arguments ask for.
pub open spec fn configured(defaults: AriaConfig, args: ConfigArgs) -> AriaConfig {
    let stutter_k = asked(args.stutter_k, defaults.stutter_k);
    AriaConfig {
        n_modes: asked(args.n_modes, defaults.n_modes),
        latent_dim: asked(args.latent_dim, defaults.latent_dim),
        eps: asked(args.eps, defaults.eps),
        stutter_k,
        schedule: asked(args.schedule, defaults.schedule),
        condition: asked(was_read(args.condition), defaults.condition),
        seed: match args.seed {
            Some(v) => Some(v),
            None => defaults.seed,
        },
        strict: asked(args.strict, defaults.strict),
        max_graph_size: asked(args.max_graph_size, defaults.max_graph_size),
        gates: gates_asked(args.gates, stutter_k, defaults.gates),
        allow_sub_spec_dims: asked(args.allow_sub_spec_dims, defaults.allow_sub_spec_dims),
        ..defaults
    }
}

/// How a configuration is shown, given the text of its tolerance.
pub open spec fn config_shown(c: AriaConfig, eps: Seq<char>) -> Seq<char> {
    "Config(n_modes="@ + numeral(c.n_modes as nat) + ", latent_dim="@ + numeral(
        c.latent_dim as nat,
    ) + ", eps="@ + eps + ", schedule='"@ + c.schedule@ + "', condition='"@
        + crate::condition::condition_spelling(c.condition) + "')"@
}

impl PyConfig {
    /// Lays the arguments over the defaults. A condition that cannot be read is
    /// reported before gates that cannot.
    pub fn new(defaults: AriaConfig, args: ConfigArgs) -> (r: Result<Self, Raised>)
        ensures
            match (args.condition, args.gates) {
                (Some(Err(why)), _) => r == Err::<Self, Raised>(Raised::Value(why)),
                (_, Some(Err(why))) => r == Err::<Self, Raised>(Raised::Value(why)),
                _ => r matches Ok(c) && c.inner == configured(defaults, args),
            },
    {
        let mut inner = defaults;
        if let Some(v) = args.n_modes {
            inner.n_modes = v;
        }
        if let Some(v) = args.latent_dim {
            inner.latent_dim = v;
        }
        if let Some(v) = args.eps {
            inner.eps = v;
        }
        if let Some(v) = args.stutter_k {
            inner.stutter_k = v;
        }
        if let Some(v) = args.schedule {
            inner.schedule = v;
        }
        match args.condition {
            Some(Ok(c)) => {
                inner.condition = c;
            },
            Some(Err(why)) => {
                return Err(Raised::Value(why));
            },
            None => {},
        }
        if let Some(v) = args.seed {
            inner.seed = Some(v);
        }
        if let Some(v) = args.strict {
            inner.strict = v;
        }
        if let Some(v) = args.max_graph_size {
            inner.max_graph_size = v;
        }
        match args.gates {
            Some(Ok(enabled)) => {
                inner.gates = GateConfig { enabled, stutter_k: inner.stutter_k };
            },
            Some(Err(why)) => {
                return Err(Raised::Value(why));
            },
            None => {},
        }
        if let Some(v) = args.allow_sub_spec_dims {
            inner.allow_sub_spec_dims = v;
        }
        Ok(PyConfig { inner })
    }

    pub fn n_modes(&self) -> (r: usize)
        ensures
            r == self.inner.n_modes,
    {
        self.inner.n_modes
    }

    pub fn latent_dim(&self) -> (r: usize)
        ensures
            r == self.inner.latent_dim,
    {
        self.inner.latent_dim
    }

    pub fn eps(&self) -> (r: Real)
        ensures
            r == self.inner.eps,
    {
        self.inner.eps
    }

    pub fn schedule(&self) -> (r: String)
        ensures
            r@ == self.inner.schedule@,
    {
        self.inner.schedule.as_str().to_string()
    }

    pub fn condition(&self) -> (r: String)
        ensures
            r@ == crate::condition::condition_spelling(self.inner.condition),
    {
        condition_name(self.inner.condition).to_string()
    }

    /// How the configuration is shown, given the text of its tolerance.
    pub fn repr(&self, eps: &str) -> (r: String)
        ensures
            r@ == config_shown(self.inner, eps@),
    {
        let head = join4(
            "Config(n_modes=",
            decimal(self.inner.n_modes as u64).as_str(),
            ", latent_dim=",
            decimal(self.inner.latent_dim as u64).as_str(),
        );
        let middle = join5(
            head.as_str(),
            ", eps=",
            eps,
            ", schedule='",
            self.inner.schedule.as_str(),
        );
        join4(middle.as_str(), "', condition='", condition_name(self.inner.condition), "')")
    }
}

// ---------------------------------------------------------------------------
// InvariantReport
// ---------------------------------------------------------------------------

/// The class `InvariantReport`.
#[derive(Clone)]
pub struct PyInvariantReport {
    pub inv1: bool,
    pub inv2: bool,
    pub inv3: bool,
    pub inv4: bool,
    pub failures: Vec<String>,
}

/// How a truth value is shown.
pub open spec fn truth(b: bool) -> Seq<char> {
    if b {
        "true"@
    } else {
        "false"@
    }
}

fn show_truth(b: bool) -> (r: &'static str)
    ensures
        r@ == truth(b),
{
    if b {
        "true"
    } else {
        "false"
    }
}

impl PyInvariantReport {
    /// A report, with its failures in words.
    pub fn new(report: &InvariantReport, failures: Vec<String>) -> (r: Self)
        ensures
            r == (PyInvariantReport {
                inv1: report.inv1_ok,
                inv2: report.inv2_ok,
                inv3: report.inv3_ok,
                inv4: report.inv4_ok,
                failures,
            }),
    {
        PyInvariantReport {
            inv1: report.inv1_ok,
            inv2: report.inv2_ok,
            inv3: report.inv3_ok,
            inv4: report.inv4_ok,
            failures,
        }
    }

    /// Whether all four invariants hold.
    pub fn all_ok(&self) -> (r: bool)
        ensures
            r == (self.inv1 && self.inv2 && self.inv3 && self.inv4),
    {
        self.inv1 && self.inv2 && self.inv3 && self.inv4
    }

    pub fn repr(&self) -> (r: String)
        ensures
            r@ == "InvariantReport(inv1="@ + truth(self.inv1) + ", inv2="@ + truth(self.inv2)
                + ", inv3="@ + truth(self.inv3) + ", inv4="@ + truth(self.inv4) + ")"@,
    {
        let head = join4(
            "InvariantReport(inv1=",
            show_truth(self.inv1),
            ", inv2=",
            show_truth(self.inv2),
        );
        let middle = join4(head.as_str(), ", inv3=", show_truth(self.inv3), ", inv4=");
        join3(middle.as_str(), show_truth(self.inv4), ")")
    }
}

// ---------------------------------------------------------------------------
// State
// ---------------------------------------------------------------------------

/// The class `State`.
#[derive(Clone)]
pub struct PyState {
    pub inner: State,
}

impl PyState {
    pub fn t(&self) -> (r: u64)
        ensures
            r == self.inner.t,
    {
        self.inner.t
    }

    pub fn prev_res(&self) -> (r: Real)
        ensures
            r == self.inner.prev_res,
    {
        self.inner.prev_res
    }

    pub fn graph_size(&self) -> (r: usize)
        ensures
            r == self.inner.g@.shown_size(),
    {
        self.inner.g.size()
    }

    /// The latent.
    pub fn z(&self) -> (r: Vec<Real>)
        ensures
            r@ == self.inner.z@,
    {
        copied(&self.inner.z)
    }

    /// The field, as pairs of real and imaginary parts.
    pub fn psi(&self) -> (r: Vec<(Real, Real)>)
        ensures
            r@ == self.inner.psi@.map_values(|c: Complex| (c.re, c.im)),
    {
        let mut pairs: Vec<(Real, Real)> = Vec::new();
        let mut i: usize = 0;
        let ghost all = self.inner.psi@.map_values(|c: Complex| (c.re, c.im));
        while i < self.inner.psi.len()
            invariant
                i <= self.inner.psi@.len(),
                all == self.inner.psi@.map_values(|c: Complex| (c.re, c.im)),
                pairs@ == all.take(i as int),
            decreases self.inner.psi@.len() - i,
        {
            let c = self.inner.psi[i];
            pairs.push((c.re, c.im));
            i += 1;
            assert(pairs@ =~= all.take(i as int));
        }
        assert(pairs@ =~= all);
        pairs
    }

    /// How the state is shown, given the text of its energy.
    pub fn repr(&self, energy: &str) -> (r: String)
        ensures
            r@ == "State(t="@ + numeral(self.inner.t as nat) + ", energy="@ + energy@ + ", |G|="@
                + numeral(self.inner.g@.shown_size() as nat) + ")"@,
    {
        let head = join5(
            "State(t=",
            decimal(self.inner.t).as_str(),
            ", energy=",
            energy,
            ", |G|=",
        );
        join3(head.as_str(), decimal(self.inner.g.size() as u64).as_str(), ")")
    }
}

// ---------------------------------------------------------------------------
// AriaEngine
// ---------------------------------------------------------------------------

/// The class `AriaEngine`: an engine and the condition it runs under. Steps are taken
/// on copies, so the states handed in are never changed.
pub struct PyAriaEngine<O, P, G, D, C> where
    O: OpticalBackend,
    P: Predictor,
    G: GraphBackend,
    D: Diffuser,
    C: Invariants,
 {
    pub engine: Engine<O, P, G, D, C>,
    pub condition: Condition,
}

impl<O, P, G, D, C> PyAriaEngine<O, P, G, D, C> where
    O: OpticalBackend,
    P: Predictor,
    G: GraphBackend,
    D: Diffuser,
    C: Invariants,
 {
    /// An engine under the condition that its configuration names.
    pub fn new(engine: Engine<O, P, G, D, C>) -> (r: Self)
        ensures
            r.engine == engine,
            r.condition == engine.config.condition,
    {
        let condition = engine.config.condition;
        PyAriaEngine { engine, condition }
    }

    /// The initial state, on an initial field and an empty graph.
    pub fn init(&self, psi0: Vec<Complex>) -> (r: Result<PyState, Raised>)
        ensures
            match self.engine.initiated(psi0@, empty_graph(), self.condition) {
                Ok(s) => r matches Ok(p) && p.inner@ == s,
                Err(why) => r matches Err(Raised::Rejected(e)) && e@ == why,
            },
    {
        match self.engine.init(psi0, Graph::empty(), self.condition) {
            Ok(inner) => Ok(PyState { inner }),
            Err(e) => Err(Raised::Rejected(e)),
        }
    }

    /// Takes one action.
    pub fn take_action(&mut self, state: &PyState, action: Action) -> (r: Result<PyState, Raised>)
        ensures
            final(self).condition == old(self).condition,
            match r {
                Ok(p) => Engine::applies(
                    old(self).engine,
                    state.inner@,
                    action,
                    old(self).condition,
                    Ok(p.inner),
                    final(self).engine,
                ),
                Err(Raised::Failed(e)) => Engine::applies(
                    old(self).engine,
                    state.inner@,
                    action,
                    old(self).condition,
                    Err(e),
                    final(self).engine,
                ),
                Err(_) => false,
            },
    {
        match self.engine.apply(state.inner.copied(), action, self.condition) {
            Ok(inner) => Ok(PyState { inner }),
            Err(e) => Err(Raised::Failed(e)),
        }
    }

    /// Takes one action, by its name.
    pub fn apply(&mut self, state: &PyState, action: &str) -> (r: Result<PyState, Raised>)
        ensures
            final(self).condition == old(self).condition,
            match crate::action::action_named(crate::text::lowered(action@)) {
                None => {
                    &&& r matches Err(Raised::Value(why)) && why@ == "unknown action '"@
                        + crate::text::lowered(action@)
                        + "' (expected OpticalStep|Predict|Match|Diffuse|Stutter)"@
                    &&& final(self).engine == old(self).engine
                },
                Some(named) => match r {
                    Ok(p) => Engine::applies(
                        old(self).engine,
                        state.inner@,
                        named,
                        old(self).condition,
                        Ok(p.inner),
                        final(self).engine,
                    ),
                    Err(Raised::Failed(e)) => Engine::applies(
                        old(self).engine,
                        state.inner@,
                        named,
                        old(self).condition,
                        Err(e),
                        final(self).engine,
                    ),
                    Err(_) => false,
                },
            },
    {
        match parse_action(action) {
            Ok(named) => self.take_action(state, named),
            Err(why) => Err(Raised::Value(why)),
        }
    }

    /// Takes one full cycle.
    pub fn step_phi(&mut self, state: &PyState) -> (r: Result<PyState, Raised>)
        ensures
            final(self).condition == old(self).condition,
            match r {
                Ok(p) => cycles_from(
                    old(self).engine,
                    state.inner@,
                    old(self).condition,
                    Ok(p.inner),
                    final(self).engine,
                ),
                Err(Raised::Failed(e)) => cycles_from(
                    old(self).engine,
                    state.inner@,
                    old(self).condition,
                    Err(e),
                    final(self).engine,
                ),
                Err(_) => false,
            },
    {
        let start = state.inner.copied();
        let ghost origin = start;
        let r = self.engine.step_phi(start, self.condition);
        assert(origin@ == state.inner@);
        assert(cycles_from(old(self).engine, origin@, self.condition, r, self.engine));
        match r {
            Ok(inner) => Ok(PyState { inner }),
            Err(e) => Err(Raised::Failed(e)),
        }
    }

    /// Checks a state without taking an action.
    pub fn check(&self, state: &PyState) -> (r: InvariantReport)
        ensures
            r == self.engine.report_of(state.inner@, self.condition),
    {
        self.engine.check(&state.inner, self.condition)
    }

    /// How the engine is shown, given the text of its tolerance.
    pub fn repr(&self, eps: &str) -> (r: String)
        ensures
            r@ == "AriaEngine(n_modes="@ + numeral(self.engine.config.n_modes as nat)
                + ", latent_dim="@ + numeral(self.engine.config.latent_dim as nat) + ", eps="@
                + eps@ + ", condition='"@ + crate::condition::condition_spelling(self.condition)
                + "')"@,
    {
        let config = self.engine.config();
        let head = join4(
            "AriaEngine(n_modes=",
            decimal(config.n_modes as u64).as_str(),
            ", latent_dim=",
            decimal(config.latent_dim as u64).as_str(),
        );
        let middle = join4(head.as_str(), ", eps=", eps, ", condition='");
        join3(middle.as_str(), condition_name(self.condition), "')")
    }
}

/// Why `run_trace_jsonl` gives no text.
pub enum TraceFailure {
    /// The run failed.
    Failed(AriaError),
    /// The renderer answered a number with something else.
    Unwritable(Real),
}

/// Whether `run_trace_jsonl` can answer `r`.
pub open spec fn traces_out<O, P, G, D, C, M, S, N>(
    before: Engine<O, P, G, D, C>,
    psi0: Seq<Complex>,
    schedule: S,
    steps: nat,
    numerals: N,
    r: Result<String, TraceFailure>,
    after: Engine<O, P, G, D, C>,
    rest: S,
) -> bool where
    O: OpticalBackend,
    P: Predictor,
    G: GraphBackend,
    D: Diffuser,
    C: Invariants,
    M: Monitor,
    S: Schedule,
    N: Numerals,
 {
    exists|ran: Result<RunOutcome, AriaError>|
        {
            &&& #[trigger] runs_out::<O, P, G, D, C, M, S>(
                before,
                psi0,
                empty_graph(),
                schedule,
                steps,
                ran,
                after,
                rest,
            )
            &&& match ran {
                Err(e) => r == Err::<String, TraceFailure>(TraceFailure::Failed(e)),
                Ok(o) => match r {
                    Ok(text) => text@ == o.jsonl(),
                    Err(TraceFailure::Unwritable(x)) => x.finite() && misrenders(numerals, x),
                    Err(TraceFailure::Failed(_)) => false,
                },
            }
        }
}

/// Runs the scheduled actions from a field and an empty graph, and gives the text of the
/// trace.
pub fn run_trace_jsonl<O, P, G, D, C, M, S, N>(
    engine: &mut Engine<O, P, G, D, C>,
    psi0: Vec<Complex>,
    schedule: &mut S,
    steps: u64,
    numerals: &N,
) -> (r: Result<String, TraceFailure>) where
    O: OpticalBackend,
    P: Predictor,
    G: GraphBackend,
    D: Diffuser,
    C: Invariants,
    M: Monitor,
    S: Schedule,
    N: Numerals,

    ensures
        traces_out::<O, P, G, D, C, M, S, N>(
            *old(engine),
            psi0@,
            *old(schedule),
            steps as nat,
            *numerals,
            r,
            *final(engine),
            *final(schedule),
        ),
{
    let ran = run_with_graph::<O, P, G, D, C, M, S>(engine, psi0, Graph::empty(), schedule, steps);
    assert(runs_out::<O, P, G, D, C, M, S>(
        *old(engine),
        psi0@,
        empty_graph(),
        *old(schedule),
        steps as nat,
        ran,
        *engine,
        *schedule,
    ));
    match ran {
        Err(e) => Err(TraceFailure::Failed(e)),
        Ok(o) => match o.trace.to_jsonl(numerals) {
            Ok(text) => Ok(text),
            Err(x) => Err(TraceFailure::Unwritable(x)),
        },
    }
}

/// A notebook and the command line write one text: where `run_trace_jsonl` gives a text
/// under a configuration, the command line, given the same configuration, no flags and the
/// same number of steps, completes its run too. Unless the run ends on a state that breaks
/// an invariant, which under strict checking no step leads to, it then writes that same
/// text.
pub proof fn notebooks_equal_the_command_line<O, P, G, D, C, M1, M2, S, N>(
    before: Engine<O, P, G, D, C>,
    args: RunArgs,
    psi0: Seq<Complex>,
    schedule: S,
    steps: nat,
    numerals: N,
    text: String,
    after1: Engine<O, P, G, D, C>,
    rest1: S,
    ran: Result<RunOutcome, AriaError>,
    after2: Engine<O, P, G, D, C>,
    rest2: S,
    written: Result<String, RunRefusal>,
) where
    O: OpticalBackend,
    P: Predictor,
    G: GraphBackend,
    D: Diffuser,
    C: Invariants,
    M1: Monitor,
    M2: Monitor,
    S: Schedule,
    N: Numerals,

    requires
        args.schedule is None,
        args.eps is None,
        args.optical is None,
        args.condition is None,
        args.n_modes is None,
        args.latent_dim is None,
        args.stutter_k is None,
        args.seed is None,
        args.gates is None,
        !args.no_strict,
        args.match_policy is None,
        args.merge_tau is None,
        faithful(numerals),
        traces_out::<O, P, G, D, C, M1, S, N>(
            before,
            psi0,
            schedule,
            steps,
            numerals,
            Ok(text),
            after1,
            rest1,
        ),
        runs_out::<O, P, G, D, C, M2, S>(
            (Engine { config: run_configured(before.config, args), ..before }),
            psi0,
            empty_graph(),
            schedule,
            steps,
            ran,
            after2,
            rest2,
        ),
        ran matches Ok(o) ==> puts_out(o, false, numerals, written),
    ensures
        ran is Ok,
        before.config.strict && steps > 0 ==> ran->Ok_0.summary.report.green(),
        ran->Ok_0.summary.report.green() ==> (written matches Ok(same) && same@ == text@),
{
    no_flags_no_change(before.config, args);
    let first = choose|first: Result<RunOutcome, AriaError>|
        {
            &&& #[trigger] runs_out::<O, P, G, D, C, M1, S>(
                before,
                psi0,
                empty_graph(),
                schedule,
                steps,
                first,
                after1,
                rest1,
            )
            &&& match first {
                Err(_) => false,
                Ok(o) => text@ == o.jsonl(),
            }
        };
    outcomes_agree::<O, P, G, D, C, M1, M2, S>(
        before,
        psi0,
        empty_graph(),
        schedule,
        steps,
        first,
        after1,
        rest1,
        ran,
        after2,
        rest2,
    );
    if before.config.strict && steps > 0 {
        strict_runs_end_green::<O, P, G, D, C, M2, S>(
            before,
            psi0,
            empty_graph(),
            schedule,
            steps,
            ran->Ok_0,
            after2,
            rest2,
        );
    }
}

/// Whether one full cycle from a state that looks like `s` can answer `r`.
pub open spec fn cycles_from<O, P, G, D, C>(
    before: Engine<O, P, G, D, C>,
    s: StateView,
    a: Condition,
    r: Result<State, AriaError>,
    after: Engine<O, P, G, D, C>,
) -> bool where
    O: OpticalBackend,
    P: Predictor,
    G: GraphBackend,
    D: Diffuser,
    C: Invariants,
 {
    exists|st: State|
        (#[trigger] st@) == s && match r {
            Ok(next) => crate::growth::cycled(before, st, a, next, after),
            Err(e) => Engine::fails(before, st, phi_cycle(), a, e, after),
        }
}

// ---------------------------------------------------------------------------
// Readout and Tokenizer
// ---------------------------------------------------------------------------

/// What a readout head decodes to.
#[derive(Clone, Copy, PartialEq, Eq, Debug, Structural)]
pub enum ReadoutKind {
    Discrete,
    Continuous,
}

/// The class `Readout`, without its weights.
#[derive(Clone, Copy, PartialEq, Eq, Debug, Structural)]
pub struct PyReadout {
    pub kind: ReadoutKind,
    pub dim: usize,
}

/// The name of a kind of readout.
pub open spec fn kind_name(kind: ReadoutKind) -> Seq<char> {
    match kind {
        ReadoutKind::Discrete => "discrete"@,
        ReadoutKind::Continuous => "continuous"@,
    }
}

/// The index that greedy decoding picks: each logit is held against the best before it.
pub open spec fn greedy(logits: Seq<Real>) -> int
    decreases logits.len(),
{
    if logits.len() <= 1 {
        0
    } else {
        let best = greedy(logits.drop_last());
        if logits.last().above(logits.drop_last()[best]) {
            logits.len() - 1
        } else {
            best
        }
    }
}

/// Among numbers, greedy decoding picks the largest, and the lowest index of it.
pub proof fn greedy_is_argmax(logits: Seq<Real>)
    requires
        logits.len() > 0,
        forall|j: int| 0 <= j < logits.len() ==> !(#[trigger] logits[j]).nan(),
    ensures
        0 <= greedy(logits) < logits.len(),
        forall|j: int| 0 <= j < logits.len() ==> (#[trigger] logits[j]).at_most(
            logits[greedy(logits)],
        ),
        forall|j: int| 0 <= j < greedy(logits) ==> logits[greedy(logits)].above(
            #[trigger] logits[j],
        ),
    decreases logits.len(),
{
    if logits.len() > 1 {
        let fewer = logits.drop_last();
        assert forall|j: int| 0 <= j < fewer.len() implies !(#[trigger] fewer[j]).nan() by {
            assert(!logits[j].nan());
        }
        greedy_is_argmax(fewer);
        let best = greedy(fewer);
        assert(!logits[best].nan() && !logits.last().nan());
        assert forall|j: int| 0 <= j < fewer.len() implies (#[trigger] logits[j]).at_most(
            logits[best],
        ) by {
            assert(fewer[j].at_most(fewer[best]));
        }
        assert forall|j: int| 0 <= j < best implies logits[best].above(#[trigger] logits[j]) by {
            assert(fewer[best].above(fewer[j]));
        }
    }
}

impl PyReadout {
    pub fn kind(&self) -> (r: &'static str)
        ensures
            r@ == kind_name(self.kind),
    {
        match self.kind {
            ReadoutKind::Discrete => "discrete",
            ReadoutKind::Continuous => "continuous",
        }
    }

    pub fn dim(&self) -> (r: usize)
        ensures
            r == self.dim,
    {
        self.dim
    }

    /// Whether the method `what`, which needs a head of the kind `wanted`, may be
    /// called.
    pub fn require(&self, what: &str, wanted: ReadoutKind) -> (r: Result<(), Raised>)
        ensures
            self.kind == wanted ==> r is Ok,
            self.kind != wanted ==> (r matches Err(Raised::Value(why)) && why@ == what@
                + " requires a "@ + kind_name(wanted) + " readout"@),
    {
        if self.kind == wanted {
            return Ok(());
        }
        let head = join2(what, " requires a ");
        let name = (PyReadout { kind: wanted, dim: self.dim }).kind();
        Err(Raised::Value(join3(head.as_str(), name, " readout")))
    }

    /// Decodes logits greedily: the index of the largest, and the lowest such index
    /// where several are largest. Only a discrete head decodes to a token.
    pub fn decode_id(&self, logits: &Vec<Real>) -> (r: Result<u32, Raised>)
        requires
            0 < logits@.len() <= u32::MAX,
        ensures
            match self.kind {
                ReadoutKind::Discrete => r == Ok::<u32, Raised>(greedy(logits@) as u32),
                ReadoutKind::Continuous => r matches Err(Raised::Value(why)) && why@
                    == "decode_id"@ + " requires a "@ + "discrete"@ + " readout"@,
            },
    {
        if let Err(e) = self.require("decode_id", ReadoutKind::Discrete) {
            return Err(e);
        }
        let mut best: usize = 0;
        let mut i: usize = 1;
        assert(greedy(logits@.take(1)) == 0);
        while i < logits.len()
            invariant
                1 <= i <= logits@.len() <= u32::MAX,
                best == greedy(logits@.take(i as int)),
                best < i,
            decreases logits@.len() - i,
        {
            assert(logits@.take(i + 1).drop_last() =~= logits@.take(i as int));
            if logits[i].gt(&logits[best]) {
                best = i;
            }
            i += 1;
        }
        assert(logits@.take(i as int) =~= logits@);
        Ok(best as u32)
    }

    pub fn repr(&self) -> (r: String)
        ensures
            r@ == "Readout(kind='"@ + kind_name(self.kind) + "', dim="@ + numeral(self.dim as nat)
                + ")"@,
    {
        join5("Readout(kind='", self.kind(), "', dim=", decimal(self.dim as u64).as_str(), ")")
    }
}

/// The class `Tokenizer`, without its merges.
#[derive(Clone, Copy, PartialEq, Eq, Debug, Structural)]
pub struct PyTokenizer {
    pub vocab_size: usize,
}

impl PyTokenizer {
    pub fn vocab_size(&self) -> (r: usize)
        ensures
            r == self.vocab_size,
    {
        self.vocab_size
    }

    pub fn repr(&self) -> (r: String)
        ensures
            r@ == "Tokenizer(vocab_size="@ + numeral(self.vocab_size as nat) + ")"@,
    {
        join3("Tokenizer(vocab_size=", decimal(self.vocab_size as u64).as_str(), ")")
    }
}

} // verus!
