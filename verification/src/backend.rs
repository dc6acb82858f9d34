//! What an engine is built from.
//!
//! The four operators of the runtime, the checks, the gates and the schedule are supplied
//! by implementations of these traits. Their spec functions name what an implementation
//! computes, so that the engine's contracts can say exactly how its steps are put together
//! from them. An implementation promises that its results are functions of what it is
//! given, and of its own value. Which functions, it may say; by default they are left open.

use vstd::prelude::*;

use crate::action::Action;
use crate::condition::Condition;
use crate::config::{AriaConfig, GateConfig};
use crate::error::{told, AriaError, ErrorView, InvariantReport, Violation};
use crate::gates::{GateReport, GateReportView};
use crate::graph::{journal_view, ops_view, Graph, GraphOp, GraphView, OpView, UndoOp, UndoView};
use crate::policy::MatchPolicy;
use crate::scalar::{Complex, Real};
use crate::state::{State, StateView};

verus! {

/// The optical operator.
pub trait OpticalBackend {
    /// The field that one unitary step at clock `t` makes of `psi`.
    closed spec fn stepped(&self, t: u64, psi: Seq<Complex>) -> Seq<Complex> {
        arbitrary::<spec_fn(&Self, u64, Seq<Complex>) -> Seq<Complex>>()(self, t, psi)
    }

    /// The energy of a field, as this operator measures it.
    closed spec fn field_energy(&self, psi: Seq<Complex>) -> Real {
        arbitrary::<spec_fn(&Self, Seq<Complex>) -> Real>()(self, psi)
    }

    /// The energy of a field by the summation that a state is measured with.
    closed spec fn state_energy(&self, psi: Seq<Complex>) -> Real {
        arbitrary::<spec_fn(&Self, Seq<Complex>) -> Real>()(self, psi)
    }

    /// Applies the unitary step of clock `t`.
    fn unitary_step(&self, t: u64, psi: &Vec<Complex>) -> (r: Vec<Complex>)
        ensures
            r@ == self.stepped(t, psi@),
    ;

    /// The energy of a field, as this operator measures it: what a run starts from.
    fn energy(&self, psi: &Vec<Complex>) -> (r: Real)
        ensures
            r == self.field_energy(psi@),
    ;

    /// The energy of a field by the summation that all operators share: what is said of
    /// every later state. An operator without a measure of its own has the two agree.
    fn shared_energy(&self, psi: &Vec<Complex>) -> (r: Real)
        ensures
            r == self.state_energy(psi@),
    ;
}

/// The embedding, the predictor and the distance of the latent space.
pub trait Predictor {
    /// The latent that a field embeds to.
    closed spec fn embedding(&self, psi: Seq<Complex>) -> Seq<Real> {
        arbitrary::<spec_fn(&Self, Seq<Complex>) -> Seq<Real>>()(self, psi)
    }

    /// The latent predicted from a latent under a condition.
    closed spec fn prediction(&self, z: Seq<Real>, a: Condition) -> Seq<Real> {
        arbitrary::<spec_fn(&Self, Seq<Real>, Condition) -> Seq<Real>>()(self, z, a)
    }

    /// The distance of two latents.
    closed spec fn distance(&self, a: Seq<Real>, b: Seq<Real>) -> Real {
        arbitrary::<spec_fn(&Self, Seq<Real>, Seq<Real>) -> Real>()(self, a, b)
    }

    /// Embeds a field.
    fn embed(&self, psi: &Vec<Complex>) -> (r: Vec<Real>)
        ensures
            r@ == self.embedding(psi@),
    ;

    /// Predicts from a latent.
    fn predict(&self, z: &Vec<Real>, a: Condition) -> (r: Vec<Real>)
        ensures
            r@ == self.prediction(z@, a),
    ;

    /// Measures the distance of two latents.
    fn dist(&self, a: &Vec<Real>, b: &Vec<Real>) -> (r: Real)
        ensures
            r == self.distance(a@, b@),
    ;
}

/// What proposes edits to the graph.
///
/// A backend proposes atomic ops; the engine applies them as a transaction and
/// tells the backend, which may mirror the graph in structures of its own, what
/// was committed and what was taken back.
pub trait GraphBackend: Sized {
    /// The edits proposed for a latent.
    closed spec fn proposal(
        &self,
        g: GraphView,
        z: Seq<Real>,
        policy: MatchPolicy,
        target: Option<GraphView>,
        t: u64,
    ) -> Seq<OpView> {
        arbitrary::<
            spec_fn(&Self, GraphView, Seq<Real>, MatchPolicy, Option<GraphView>, u64) -> Seq<OpView>,
        >()(self, g, z, policy, target, t)
    }

    /// The embedding of a node after a latent was merged into it.
    closed spec fn averaged(&self, held: Seq<Real>, seen: Seq<Real>) -> Seq<Real> {
        arbitrary::<spec_fn(&Self, Seq<Real>, Seq<Real>) -> Seq<Real>>()(self, held, seen)
    }

    /// Whether a graph is accepted.
    closed spec fn graph_ok(&self, g: GraphView) -> bool {
        arbitrary::<spec_fn(&Self, GraphView) -> bool>()(self, g)
    }

    /// The backend after it mirrored committed edits.
    closed spec fn committed(&self, ops: Seq<OpView>, g: GraphView) -> Self {
        arbitrary::<spec_fn(&Self, Seq<OpView>, GraphView) -> Self>()(self, ops, g)
    }

    /// The backend after it mirrored a rollback.
    closed spec fn reverted(&self, journal: Seq<UndoView>, g: GraphView) -> Self {
        arbitrary::<spec_fn(&Self, Seq<UndoView>, GraphView) -> Self>()(self, journal, g)
    }

    /// Proposes the edits that absorb the latent `z` at clock `t`. New ids are taken
    /// from [`Graph::next_id`].
    fn edit_ops(
        &self,
        g: &Graph,
        z: &Vec<Real>,
        policy: MatchPolicy,
        target: Option<&Graph>,
        t: u64,
    ) -> (r: Vec<GraphOp>)
        ensures
            ops_view(r@) == self.proposal(
                g@,
                z@,
                policy,
                match target {
                    Some(h) => Some(h@),
                    None => None,
                },
                t,
            ),
    ;

    /// Averages a latent into the embedding that a node holds, as the graph's merges do.
    fn average(&self, held: &Vec<Real>, seen: &Vec<Real>) -> (r: Vec<Real>)
        ensures
            r@ == self.averaged(held@, seen@),
    ;

    /// Checks a graph.
    fn ok(&self, g: &Graph) -> (r: bool)
        ensures
            r == self.graph_ok(g@),
    ;

    /// Mirrors committed edits; `g` is the graph after them.
    fn commit_ops(&mut self, ops: &Vec<GraphOp>, g: &Graph)
        ensures
            *final(self) == old(self).committed(ops_view(ops@), g@),
    ;

    /// Mirrors a rollback; `journal` was just replayed and `g` is the graph it restored.
    fn revert_ops(&mut self, journal: &Vec<UndoOp>, g: &Graph)
        ensures
            *final(self) == old(self).reverted(journal_view(journal@), g@),
    ;
}

/// The diffusion operator over a graph.
pub trait Diffuser {
    /// The latent that one diffusion step makes of `z`.
    closed spec fn diffused(&self, g: GraphView, z: Seq<Real>, policy: Seq<char>) -> Seq<Real> {
        arbitrary::<spec_fn(&Self, GraphView, Seq<Real>, Seq<char>) -> Seq<Real>>()(self, g, z, policy)
    }

    /// Diffuses a latent over the graph, by the named policy.
    fn diffuse(&self, g: &Graph, z: &Vec<Real>, policy: &str) -> (r: Vec<Real>)
        ensures
            r@ == self.diffused(g@, z@, policy@),
    ;
}

/// The checks that a run is held to.
pub trait Invariants {
    /// What the hard bounds say of a configuration.
    closed spec fn bounds(&self, config: AriaConfig) -> Result<(), ErrorView> {
        arbitrary::<spec_fn(&Self, AriaConfig) -> Result<(), ErrorView>>()(self, config)
    }

    /// An amplitude in words.
    closed spec fn amplitude(&self, c: Complex) -> Seq<char> {
        arbitrary::<spec_fn(&Self, Complex) -> Seq<char>>()(self, c)
    }

    /// Which of Inv1 to Inv4 hold of a state.
    closed spec fn report(
        &self,
        s: StateView,
        residual: Real,
        eps: Real,
        eps_energy: Real,
        n_modes: usize,
        latent_dim: usize,
    ) -> InvariantReport {
        arbitrary::<
            spec_fn(&Self, StateView, Real, Real, Real, usize, usize) -> InvariantReport,
        >()(self, s, residual, eps, eps_energy, n_modes, latent_dim)
    }

    /// What a report found broken, in words.
    closed spec fn violation(
        &self,
        report: InvariantReport,
        action: Action,
        energy: Real,
        energy_0: Real,
        residual: Real,
        prev_res: Real,
        eps: Real,
    ) -> Seq<char> {
        arbitrary::<
            spec_fn(&Self, InvariantReport, Action, Real, Real, Real, Real, Real) -> Seq<char>,
        >()(self, report, action, energy, energy_0, residual, prev_res, eps)
    }

    /// How far an energy has drifted.
    closed spec fn drifted(&self, energy: Real, energy_0: Real) -> Real {
        arbitrary::<spec_fn(&Self, Real, Real) -> Real>()(self, energy, energy_0)
    }

    /// Checks a configuration against the hard bounds.
    fn validate(&self, config: &AriaConfig) -> (r: Result<(), AriaError>)
        ensures
            told(r) == self.bounds(*config),
    ;

    /// Puts an amplitude into words.
    fn show_amplitude(&self, c: Complex) -> (r: String)
        ensures
            r@ == self.amplitude(c),
    ;

    /// Checks Inv1 to Inv4 on a state and the residual measured on it.
    fn check_all(
        &self,
        state: &State,
        residual: Real,
        eps: Real,
        eps_energy: Real,
        n_modes: usize,
        latent_dim: usize,
    ) -> (r: InvariantReport)
        ensures
            r == self.report(state@, residual, eps, eps_energy, n_modes, latent_dim),
    ;

    /// Puts what a report found broken into words. It is asked of a report that found
    /// something.
    fn violation_from_report(
        &self,
        report: &InvariantReport,
        action: Action,
        energy: Real,
        energy_0: Real,
        residual: Real,
        prev_res: Real,
        eps: Real,
    ) -> (r: Violation)
        requires
            !report.green(),
        ensures
            r.text@ == self.violation(*report, action, energy, energy_0, residual, prev_res, eps),
    ;

    /// How far an energy has drifted from the one at the start.
    fn drift(&self, energy: Real, energy_0: Real) -> (r: Real)
        ensures
            r == self.drifted(energy, energy_0),
    ;
}

/// Checks whose answers were had beforehand: they answer every question with what they
/// hold.
pub struct Foretold {
    pub bounds: Result<(), AriaError>,
    pub amplitude: String,
    pub report: InvariantReport,
    pub violation: Violation,
    pub drift: Real,
}

impl Invariants for Foretold {
    open spec fn bounds(&self, config: AriaConfig) -> Result<(), ErrorView> {
        told(self.bounds)
    }

    open spec fn amplitude(&self, c: Complex) -> Seq<char> {
        self.amplitude@
    }

    open spec fn report(
        &self,
        s: StateView,
        residual: Real,
        eps: Real,
        eps_energy: Real,
        n_modes: usize,
        latent_dim: usize,
    ) -> InvariantReport {
        self.report
    }

    open spec fn violation(
        &self,
        report: InvariantReport,
        action: Action,
        energy: Real,
        energy_0: Real,
        residual: Real,
        prev_res: Real,
        eps: Real,
    ) -> Seq<char> {
        self.violation.text@
    }

    open spec fn drifted(&self, energy: Real, energy_0: Real) -> Real {
        self.drift
    }

    fn validate(&self, config: &AriaConfig) -> Result<(), AriaError> {
        match &self.bounds {
            Ok(()) => Ok(()),
            Err(e) => Err(e.copied()),
        }
    }

    fn show_amplitude(&self, c: Complex) -> String {
        self.amplitude.as_str().to_string()
    }

    fn check_all(
        &self,
        state: &State,
        residual: Real,
        eps: Real,
        eps_energy: Real,
        n_modes: usize,
        latent_dim: usize,
    ) -> InvariantReport {
        self.report
    }

    fn violation_from_report(
        &self,
        report: &InvariantReport,
        action: Action,
        energy: Real,
        energy_0: Real,
        residual: Real,
        prev_res: Real,
        eps: Real,
    ) -> Violation {
        Violation { text: self.violation.text.as_str().to_string() }
    }

    fn drift(&self, energy: Real, energy_0: Real) -> Real {
        self.drift
    }
}

/// A passive observer of a run: the operating gates. Every step hands it on to the next.
pub trait Monitor: Sized {
    /// The monitor that a run under `gates` starts with.
    closed spec fn opened(gates: GateConfig) -> Self {
        arbitrary::<spec_fn(GateConfig) -> Self>()(gates)
    }

    /// The monitor after it saw a step to the state `s`.
    closed spec fn noticed(self, action: Action, s: StateView, residual: Real, eps: Real) -> Self {
        arbitrary::<spec_fn(Self, Action, StateView, Real, Real) -> Self>()(
            self,
            action,
            s,
            residual,
            eps,
        )
    }

    /// What the monitor found.
    closed spec fn found(self) -> GateReportView {
        arbitrary::<spec_fn(Self) -> GateReportView>()(self)
    }

    /// A monitor for the gates of a configuration.
    fn new(gates: &GateConfig) -> (r: Self)
        ensures
            r == Self::opened(*gates),
    ;

    /// The monitor after it saw one completed step.
    fn observe(self, action: Action, state: &State, residual: Real, eps: Real) -> (r: Self)
        ensures
            r == self.noticed(action, state@, residual, eps),
    ;

    /// What the monitor found.
    fn finish(self) -> (r: GateReport)
        ensures
            r@ == self.found(),
    ;
}

/// The monitor of a run that nobody watches.
pub struct Unwatched {}

impl Monitor for Unwatched {
    open spec fn opened(gates: GateConfig) -> Self {
        Unwatched {  }
    }

    open spec fn noticed(self, action: Action, s: StateView, residual: Real, eps: Real) -> Self {
        self
    }

    open spec fn found(self) -> GateReportView {
        GateReportView { enabled: Seq::empty(), breaches: Seq::empty() }
    }

    fn new(gates: &GateConfig) -> Self {
        Unwatched {  }
    }

    fn observe(self, action: Action, state: &State, residual: Real, eps: Real) -> Self {
        self
    }

    fn finish(self) -> (r: GateReport) {
        let r = GateReport { enabled: Vec::new(), breaches: Vec::new() };
        assert(r@ =~= self.found());
        r
    }
}

/// What hands out the actions of a run, one after another.
pub trait Schedule: Sized {
    /// The next action, and the schedule behind it.
    closed spec fn dealt(self) -> (Action, Self) {
        arbitrary::<spec_fn(Self) -> (Action, Self)>()(self)
    }

    /// Hands out the next action.
    fn next_action(&mut self) -> (r: Action)
        ensures
            (r, *final(self)) == old(self).dealt(),
    ;
}

/// What is left of a schedule that handed out `n` actions.
pub open spec fn rest_of<S: Schedule>(schedule: S, n: nat) -> S
    decreases n,
{
    if n == 0 {
        schedule
    } else {
        rest_of(schedule, (n - 1) as nat).dealt().1
    }
}

/// The first `n` actions that a schedule hands out.
pub open spec fn drawn<S: Schedule>(schedule: S, n: nat) -> Seq<Action>
    decreases n,
{
    if n == 0 {
        Seq::empty()
    } else {
        drawn(schedule, (n - 1) as nat).push(rest_of(schedule, (n - 1) as nat).dealt().0)
    }
}

/// A schedule hands out as many actions as it is asked for, and a shorter run of it
/// begins as a longer one does.
pub proof fn draws_begin_alike<S: Schedule>(schedule: S, k: nat, n: nat)
    requires
        k <= n,
    ensures
        drawn(schedule, n).len() == n,
        drawn(schedule, n).take(k as int) == drawn(schedule, k),
        k < n ==> drawn(schedule, n)[k as int] == rest_of(schedule, k).dealt().0,
    decreases n,
{
    if n > 0 {
        draws_begin_alike(schedule, if k < n {
            k
        } else {
            (n - 1) as nat
        }, (n - 1) as nat);
        let fewer = drawn(schedule, (n - 1) as nat);
        if k < n {
            assert(drawn(schedule, n).take(k as int) =~= fewer.take(k as int));
        } else {
            assert(drawn(schedule, n).take(k as int) =~= drawn(schedule, n));
        }
    } else {
        assert(drawn(schedule, n).take(0) =~= drawn(schedule, 0));
    }
}

/// The preferred schedule: optical step, prediction, match, diffusion, over and over.
#[derive(Clone, Copy, Debug, PartialEq, Eq, Structural)]
pub struct PhiCycle {
    pub next: Action,
}

impl Schedule for PhiCycle {
    open spec fn dealt(self) -> (Action, Self) {
        (
            self.next,
            PhiCycle {
                next: match self.next {
                    Action::OpticalStep => Action::Predict,
                    Action::Predict => Action::Match,
                    Action::Match => Action::Diffuse,
                    _ => Action::OpticalStep,
                },
            },
        )
    }

    fn next_action(&mut self) -> Action {
        let action = self.next;
        self.next = match action {
            Action::OpticalStep => Action::Predict,
            Action::Predict => Action::Match,
            Action::Match => Action::Diffuse,
            _ => Action::OpticalStep,
        };
        action
    }
}

} // verus!
