//! The engine: one deterministic step per named action, checked after each.

use vstd::prelude::*;

use crate::action::Action;
use crate::backend::{
    drawn, draws_begin_alike, rest_of, Diffuser, GraphBackend, Invariants, Monitor,
    OpticalBackend, Predictor, Schedule, Unwatched,
};
use crate::condition::{condition_label, Condition};
use crate::config::{AriaConfig, GateConfig};
use crate::error::{AriaError, ErrorView, InvariantReport, Violation};
use crate::gates::{GateReport, GateReportView};
use crate::graph::{copied, journal_view, ops_view, Graph, GraphView, OpView, UndoView};
use crate::scalar::{Complex, Real};
use crate::state::{State, StateView};
use crate::text::{decimal, join2, join4, join5};
use crate::trace::{symbols_of, trace_lines, EntryView, HeaderView, Trace};

verus! {

/// The engine: a configuration and the operators it runs on.
#[derive(Debug)]
pub struct Engine<O, P, G, D, C> where
    O: OpticalBackend,
    P: Predictor,
    G: GraphBackend,
    D: Diffuser,
    C: Invariants,
 {
    pub config: AriaConfig,
    pub optical: O,
    pub predictor: P,
    pub graph_backend: G,
    pub diffuser: D,
    pub invariants: C,
}

/// What an action makes of a state before it is checked.
pub enum Attempt {
    /// A state, and the graph edits that led to it.
    Next { state: StateView, ops: Seq<OpView>, journal: Seq<UndoView> },
    /// The graph refused the edits.
    Refused { why: Seq<char> },
    /// The edits would grow the graph beyond its bound.
    TooLarge { size: usize, journal: Seq<UndoView> },
    /// The clock has reached its end.
    ClockFull,
}

/// Decides a step by what its check found: under strict checking a broken invariant
/// fails it, with the words that were found for it.
pub fn settle(
    strict: bool,
    next: State,
    report: &InvariantReport,
    violation: Option<Violation>,
) -> (r: Result<State, AriaError>)
    requires
        strict && !report.green() ==> violation is Some,
    ensures
        r == if strict && !report.green() {
            Err(AriaError::InvariantViolation(violation->0))
        } else {
            Ok(next)
        },
{
    match violation {
        Some(v) => if strict && !report.all_ok() {
            Err(AriaError::InvariantViolation(v))
        } else {
            Ok(next)
        },
        None => Ok(next),
    }
}

/// What a step or a start answered, as a mathematical value.
pub open spec fn outcome(r: Result<State, AriaError>) -> Result<StateView, ErrorView> {
    match r {
        Ok(s) => Ok(s@),
        Err(e) => Err(e@),
    }
}

impl<O, P, G, D, C> Engine<O, P, G, D, C> where
    O: OpticalBackend,
    P: Predictor,
    G: GraphBackend,
    D: Diffuser,
    C: Invariants,
 {
    /// The residual of a state: how far its latent is from the one predicted.
    pub open spec fn residual_of(&self, s: StateView, a: Condition) -> Real {
        self.predictor.distance(
            s.z,
            self.predictor.prediction(self.predictor.embedding(s.psi), a),
        )
    }

    /// The energy of a state.
    pub open spec fn energy_of(&self, s: StateView) -> Real {
        self.optical.state_energy(s.psi)
    }

    /// The engine with another graph backend.
    pub open spec fn with_backend(self, graph_backend: G) -> Self {
        Engine { graph_backend, ..self }
    }

    /// What an action makes of a state.
    pub open spec fn attempt(&self, s: StateView, action: Action, a: Condition) -> Attempt {
        let before = self.residual_of(s, a);
        match action {
            Action::OpticalStep => Attempt::Next {
                state: StateView {
                    psi: self.optical.stepped(s.t, s.psi),
                    prev_res: before,
                    ..s
                },
                ops: Seq::empty(),
                journal: Seq::empty(),
            },
            Action::Predict => Attempt::Next {
                state: StateView {
                    z: self.predictor.prediction(self.predictor.embedding(s.psi), a),
                    prev_res: before,
                    ..s
                },
                ops: Seq::empty(),
                journal: Seq::empty(),
            },
            Action::Match => {
                let ops = self.graph_backend.proposal(
                    s.g,
                    s.z,
                    self.config.match_policy,
                    None,
                    s.t,
                );
                match s.g.edited(ops, self.config.latent_dim, self.graph_backend) {
                    Err(why) => Attempt::Refused { why },
                    Ok((h, journal)) => if h.size() > self.config.max_graph_size {
                        Attempt::TooLarge { size: h.shown_size(), journal }
                    } else {
                        Attempt::Next {
                            state: StateView { g: h, prev_res: before, ..s },
                            ops,
                            journal,
                        }
                    },
                }
            },
            Action::Diffuse => if s.t == u64::MAX {
                Attempt::ClockFull
            } else {
                Attempt::Next {
                    state: StateView {
                        z: self.diffuser.diffused(s.g, s.z, self.config.diff_policy@),
                        t: (s.t + 1) as u64,
                        prev_res: before,
                        ..s
                    },
                    ops: Seq::empty(),
                    journal: Seq::empty(),
                }
            },
            Action::Stutter => Attempt::Next {
                state: s,
                ops: Seq::empty(),
                journal: Seq::empty(),
            },
        }
    }

    /// What the check of a state finds.
    pub open spec fn report_of(&self, s: StateView, a: Condition) -> InvariantReport {
        self.invariants.report(
            s,
            self.residual_of(s, a),
            self.config.eps,
            self.config.eps_energy,
            self.config.n_modes,
            self.config.latent_dim,
        )
    }

    /// The words for what the check of a state finds broken after an action.
    pub open spec fn words_of(&self, s: StateView, action: Action, a: Condition) -> Seq<char> {
        self.invariants.violation(
            self.report_of(s, a),
            action,
            self.energy_of(s),
            s.energy_0,
            self.residual_of(s, a),
            s.prev_res,
            self.config.eps,
        )
    }

    /// Whether a state fails the step that led to it.
    pub open spec fn rejects(&self, s: StateView, a: Condition) -> bool {
        self.config.strict && !self.report_of(s, a).green()
    }

    /// The graph backend after a step that led to a new state: a match is mirrored,
    /// and taken back again if the step failed its check.
    pub open spec fn mirrored(
        &self,
        s: StateView,
        action: Action,
        next: StateView,
        ops: Seq<OpView>,
        journal: Seq<UndoView>,
        kept: bool,
    ) -> G {
        if action != Action::Match {
            self.graph_backend
        } else if kept {
            self.graph_backend.committed(ops, next.g)
        } else {
            self.graph_backend.committed(ops, next.g).reverted(journal, s.g)
        }
    }

    /// What one action on a state answers, and the engine that it leaves.
    pub open spec fn stepped(&self, s: StateView, action: Action, a: Condition) -> (
        Result<StateView, ErrorView>,
        Self,
    ) {
        match self.attempt(s, action, a) {
            Attempt::Refused { why } => (
                Err(ErrorView::Backend("Match op refused: "@ + why)),
                *self,
            ),
            Attempt::TooLarge { size, journal } => (
                Err(
                    ErrorView::Schedule(
                        "graph size "@ + crate::text::numeral(size as nat) + " exceeds max "@
                            + crate::text::numeral(self.config.max_graph_size as nat),
                    ),
                ),
                self.with_backend(self.graph_backend.reverted(journal, s.g)),
            ),
            Attempt::ClockFull => (Err(ErrorView::Backend("t overflowed u64"@)), *self),
            Attempt::Next { state, ops, journal } => {
                let kept = !self.rejects(state, a);
                (
                    if kept {
                        Ok(state)
                    } else {
                        Err(ErrorView::InvariantViolation(self.words_of(state, action, a)))
                    },
                    self.with_backend(self.mirrored(s, action, state, ops, journal, kept)),
                )
            },
        }
    }

    /// Whether the engine `before`, told to take `action` on `s`, answers `r` and is the
    /// engine `after` from then on.
    #[verifier::opaque]
    pub open spec fn applies(
        before: Self,
        s: StateView,
        action: Action,
        a: Condition,
        r: Result<State, AriaError>,
        after: Self,
    ) -> bool {
        (outcome(r), after) == before.stepped(s, action, a)
    }

    /// An engine over the given operators.
    pub fn new(
        config: AriaConfig,
        optical: O,
        predictor: P,
        graph_backend: G,
        diffuser: D,
        invariants: C,
    ) -> (r: Self)
        ensures
            r == (Engine { config, optical, predictor, graph_backend, diffuser, invariants }),
    {
        Engine { config, optical, predictor, graph_backend, diffuser, invariants }
    }

    /// The residual of a state.
    pub fn residual(&self, state: &State, a: Condition) -> (r: Real)
        ensures
            r == self.residual_of(state@, a),
    {
        let embedded = self.predictor.embed(&state.psi);
        let predicted = self.predictor.predict(&embedded, a);
        self.predictor.dist(&state.z, &predicted)
    }

    /// Checks a state without taking a step.
    pub fn check(&self, state: &State, a: Condition) -> (r: InvariantReport)
        ensures
            r == self.report_of(state@, a),
    {
        let residual = self.residual(state, a);
        self.invariants.check_all(
            state,
            residual,
            self.config.eps,
            self.config.eps_energy,
            self.config.n_modes,
            self.config.latent_dim,
        )
    }

    /// Asks for the words of a report, where it fails the step.
    fn words(
        &self,
        state: &State,
        action: Action,
        a: Condition,
        report: &InvariantReport,
    ) -> (r: Option<Violation>)
        requires
            *report == self.report_of(state@, a),
        ensures
            r is Some == self.rejects(state@, a),
            r matches Some(v) ==> v.text@ == self.words_of(state@, action, a),
    {
        if self.config.strict && !report.all_ok() {
            let energy = self.optical.shared_energy(&state.psi);
            let residual = self.residual(state, a);
            Some(
                self.invariants.violation_from_report(
                    report,
                    action,
                    energy,
                    state.energy_0,
                    residual,
                    state.prev_res,
                    self.config.eps,
                ),
            )
        } else {
            None
        }
    }

    /// Takes one named action.
    pub fn apply(&mut self, state: State, action: Action, a: Condition) -> (r: Result<
        State,
        AriaError,
    >)
        ensures
            Self::applies(*old(self), state@, action, a, r, *final(self)),
    {
        if action == Action::Match {
            return self.apply_match(state, a);
        }
        proof {
            reveal(Engine::applies);
        }
        let mut state = state;
        let ghost s = state@;
        match action {
            Action::OpticalStep => {
                let before = self.residual(&state, a);
                state.psi = self.optical.unitary_step(state.t, &state.psi);
                state.prev_res = before;
            },
            Action::Predict => {
                let before = self.residual(&state, a);
                let embedded = self.predictor.embed(&state.psi);
                state.z = self.predictor.predict(&embedded, a);
                state.prev_res = before;
            },
            Action::Diffuse => {
                let before = self.residual(&state, a);
                let z = self.diffuser.diffuse(&state.g, &state.z, self.config.diff_policy.as_str());
                if state.t == u64::MAX {
                    return Err(AriaError::Backend("t overflowed u64".to_string()));
                }
                state.z = z;
                state.t = state.t + 1;
                state.prev_res = before;
            },
            _ => {},
        }
        let report = self.check(&state, a);
        let violation = self.words(&state, action, a, &report);
        assert(self.attempt(s, action, a)->state == state@);
        settle(self.config.strict, state, &report, violation)
    }

    /// Takes the action Match: the backend proposes edits, the graph takes them all
    /// or none, and whatever fails afterwards takes them back.
    fn apply_match(&mut self, state: State, a: Condition) -> (r: Result<
        State,
        AriaError,
    >)
        ensures
            Self::applies(*old(self), state@, Action::Match, a, r, *final(self)),
    {
        proof {
            reveal(Engine::applies);
        }
        let ghost s = state@;
        let ghost start = *self;
        let mut state = state;
        let before = self.residual(&state, a);
        let ops = self.graph_backend.edit_ops(
            &state.g,
            &state.z,
            self.config.match_policy,
            None,
            state.t,
        );
        let journal = match state.g.apply_ops(&ops, self.config.latent_dim, &self.graph_backend) {
            Ok(journal) => journal,
            Err(why) => {
                return Err(AriaError::Backend(join2("Match op refused: ", why.as_str())));
            },
        };
        proof {
            s.g.journals_restore(ops_view(ops@), self.config.latent_dim, self.graph_backend);
        }
        if state.g.larger_than(self.config.max_graph_size) {
            let size: usize = state.g.size();
            state.g.undo_ops(&journal);
            self.graph_backend.revert_ops(&journal, &state.g);
            return Err(
                AriaError::Schedule(
                    join4(
                        "graph size ",
                        decimal(size as u64).as_str(),
                        " exceeds max ",
                        decimal(self.config.max_graph_size as u64).as_str(),
                    ),
                ),
            );
        }
        self.graph_backend.commit_ops(&ops, &state.g);
        state.prev_res = before;
        let report = self.check(&state, a);
        let violation = self.words(&state, Action::Match, a, &report);
        assert(start.attempt(s, Action::Match, a)->state == state@);
        if violation.is_some() {
            state.g.undo_ops(&journal);
            self.graph_backend.revert_ops(&journal, &state.g);
        }
        let r = settle(self.config.strict, state, &report, violation);
        assert(start.attempt(s, Action::Match, a)->ops == ops_view(ops@));
        assert(start.attempt(s, Action::Match, a)->Next_journal == journal_view(journal@));
        r
    }

    // -----------------------------------------------------------------------
    // Starting
    // -----------------------------------------------------------------------

    /// The state that a run starts from.
    pub open spec fn initial(&self, psi0: Seq<Complex>, g0: GraphView, a0: Condition) -> StateView {
        let z0 = self.predictor.embedding(psi0);
        StateView {
            psi: psi0,
            z: z0,
            g: g0,
            t: 0,
            prev_res: self.predictor.distance(z0, self.predictor.prediction(z0, a0)),
            energy_0: self.optical.field_energy(psi0),
        }
    }

    /// What starting a run within the hard bounds answers: the complaint about the
    /// first shape that does not fit, or the initial state.
    pub open spec fn started(&self, psi0: Seq<Complex>, g0: GraphView, a0: Condition) -> Result<
        StateView,
        ErrorView,
    > {
        let z0 = self.predictor.embedding(psi0);
        let p0 = self.predictor.prediction(z0, a0);
        if psi0.len() != self.config.n_modes {
            Err(
                ErrorView::Config(
                    "ψ₀ has "@ + crate::text::numeral(psi0.len()) + " modes but config.n_modes = "@
                        + crate::text::numeral(self.config.n_modes as nat),
                ),
            )
        } else if first_unfit(psi0) < psi0.len() {
            let i = first_unfit(psi0);
            Err(
                ErrorView::Config(
                    "ψ₀["@ + crate::text::numeral(i) + "] = "@ + self.invariants.amplitude(
                        psi0[i as int],
                    ) + " is not finite"@,
                ),
            )
        } else if z0.len() != self.config.latent_dim {
            Err(
                ErrorView::Config(
                    "embed(ψ₀) has dim "@ + crate::text::numeral(z0.len())
                        + " but config.latent_dim = "@ + crate::text::numeral(
                        self.config.latent_dim as nat,
                    ) + " — backend/config mismatch"@,
                ),
            )
        } else if p0.len() != self.config.latent_dim {
            Err(
                ErrorView::Config(
                    "P(z) has dim "@ + crate::text::numeral(p0.len())
                        + " but config.latent_dim = "@ + crate::text::numeral(
                        self.config.latent_dim as nat,
                    ) + " — backend/config mismatch"@,
                ),
            )
        } else {
            Ok(self.initial(psi0, g0, a0))
        }
    }

    /// Starts a run whose configuration is known to be within the hard bounds.
    pub fn init_within_bounds(&self, psi0: Vec<Complex>, g0: Graph, a0: Condition) -> (r: Result<
        State,
        AriaError,
    >)
        ensures
            outcome(r) == self.started(psi0@, g0@, a0),
    {
        if psi0.len() != self.config.n_modes {
            return Err(
                AriaError::Config(
                    join4(
                        "ψ₀ has ",
                        decimal(psi0.len() as u64).as_str(),
                        " modes but config.n_modes = ",
                        decimal(self.config.n_modes as u64).as_str(),
                    ),
                ),
            );
        }
        let mut i: usize = 0;
        assert(psi0@.skip(0) =~= psi0@);
        while i < psi0.len()
            invariant
                i <= psi0@.len(),
                psi0@.len() == self.config.n_modes,
                first_unfit(psi0@) == first_unfit(psi0@.skip(i as int)) + i,
            decreases psi0@.len() - i,
        {
            let c = psi0[i];
            assert(psi0@.skip(i as int).skip(1) =~= psi0@.skip(i + 1));
            if !c.re.is_finite() || !c.im.is_finite() {
                let shown = self.invariants.show_amplitude(c);
                return Err(
                    AriaError::Config(
                        join5(
                            "ψ₀[",
                            decimal(i as u64).as_str(),
                            "] = ",
                            shown.as_str(),
                            " is not finite",
                        ),
                    ),
                );
            }
            i += 1;
        }
        let energy_0 = self.optical.energy(&psi0);
        let z0 = self.predictor.embed(&psi0);
        if z0.len() != self.config.latent_dim {
            return Err(
                AriaError::Config(
                    join5(
                        "embed(ψ₀) has dim ",
                        decimal(z0.len() as u64).as_str(),
                        " but config.latent_dim = ",
                        decimal(self.config.latent_dim as u64).as_str(),
                        " — backend/config mismatch",
                    ),
                ),
            );
        }
        let p0 = self.predictor.predict(&z0, a0);
        if p0.len() != self.config.latent_dim {
            return Err(
                AriaError::Config(
                    join5(
                        "P(z) has dim ",
                        decimal(p0.len() as u64).as_str(),
                        " but config.latent_dim = ",
                        decimal(self.config.latent_dim as u64).as_str(),
                        " — backend/config mismatch",
                    ),
                ),
            );
        }
        let prev_res = self.predictor.dist(&z0, &p0);
        Ok(State { psi: psi0, z: z0, g: g0, t: 0, prev_res, energy_0 })
    }

    /// What starting a run answers: the hard bounds come first, then the shapes.
    pub open spec fn initiated(&self, psi0: Seq<Complex>, g0: GraphView, a0: Condition) -> Result<
        StateView,
        ErrorView,
    > {
        match self.invariants.bounds(self.config) {
            Err(e) => Err(e),
            Ok(()) => self.started(psi0, g0, a0),
        }
    }

    /// Starts a run: the hard bounds come first, then the shapes.
    pub fn init(&self, psi0: Vec<Complex>, g0: Graph, a0: Condition) -> (r: Result<
        State,
        AriaError,
    >)
        ensures
            outcome(r) == self.initiated(psi0@, g0@, a0),
    {
        match self.invariants.validate(&self.config) {
            Err(e) => Err(e),
            Ok(()) => self.init_within_bounds(psi0, g0, a0),
        }
    }

    // -----------------------------------------------------------------------
    // Running
    // -----------------------------------------------------------------------

    /// Whether the engines `es` and states `ss` are passed through, one by one, when
    /// the actions are taken in turn.
    pub open spec fn walks(
        es: Seq<Self>,
        ss: Seq<State>,
        actions: Seq<Action>,
        a: Condition,
    ) -> bool {
        &&& es.len() == actions.len() + 1
        &&& ss.len() == actions.len() + 1
        &&& forall|i: int|
            0 <= i < actions.len() ==> Self::applies(
                #[trigger] es[i],
                ss[i]@,
                actions[i],
                a,
                Ok(ss[i + 1]),
                es[i + 1],
            )
    }

    /// Whether the engine `before` can walk from `s` along all of `actions` and end as
    /// `after` in the last of the states `ss`.
    pub open spec fn completes(
        before: Self,
        s: State,
        actions: Seq<Action>,
        a: Condition,
        ss: Seq<State>,
        after: Self,
    ) -> bool {
        exists|es: Seq<Self>| #[trigger]
            Self::walks(es, ss, actions, a) && es[0] == before && ss[0] == s && es.last() == after
    }

    /// Whether the engine `before`, told to take `actions` from `s`, can fail with `e`
    /// at one of them and be left as `after`.
    pub open spec fn fails(
        before: Self,
        s: State,
        actions: Seq<Action>,
        a: Condition,
        e: AriaError,
        after: Self,
    ) -> bool {
        exists|ss: Seq<State>, last: Self, k: int|
            0 <= k < actions.len() && #[trigger] Self::completes(
                before,
                s,
                actions.take(k),
                a,
                ss,
                last,
            ) && Self::applies(last, ss.last()@, #[trigger] actions[k], a, Err(e), after)
    }

    /// One step more along a walk.
    pub proof fn completes_grows(
        before: Self,
        s: State,
        actions: Seq<Action>,
        a: Condition,
        ss: Seq<State>,
        last: Self,
        action: Action,
        next: State,
        after: Self,
    )
        requires
            Self::completes(before, s, actions, a, ss, last),
            Self::applies(last, ss.last()@, action, a, Ok(next), after),
        ensures
            Self::completes(before, s, actions.push(action), a, ss.push(next), after),
    {
        let es = choose|es: Seq<Self>| #[trigger]
            Self::walks(es, ss, actions, a) && es[0] == before && ss[0] == s && es.last() == last;
        let longer = es.push(after);
        let states = ss.push(next);
        let taken = actions.push(action);
        assert forall|i: int| 0 <= i < taken.len() implies Self::applies(
            #[trigger] longer[i],
            states[i]@,
            taken[i],
            a,
            Ok(states[i + 1]),
            longer[i + 1],
        ) by {
            if i < actions.len() {
                assert(Self::applies(es[i], ss[i]@, actions[i], a, Ok(ss[i + 1]), es[i + 1]));
            }
        }
        assert(Self::walks(longer, states, taken, a));
    }

    /// The walk that takes no step.
    pub proof fn completes_nothing(before: Self, s: State, a: Condition)
        ensures
            Self::completes(before, s, Seq::empty(), a, seq![s], before),
    {
        assert(Self::walks(seq![before], seq![s], Seq::empty(), a));
    }

    /// Takes one full cycle: optical step, prediction, match, diffusion.
    pub fn step_phi(&mut self, state: State, a: Condition) -> (r: Result<
        State,
        AriaError,
    >)
        ensures
            match r {
                Ok(s) => exists|ss: Seq<State>| #[trigger]
                    Self::completes(*old(self), state, phi_cycle(), a, ss, *final(self))
                        && ss.last() == s,
                Err(e) => Self::fails(*old(self), state, phi_cycle(), a, e, *final(self)),
            },
    {
        let ghost mut taken: Seq<Action> = Seq::empty();
        let ghost mut ss: Seq<State> = seq![state];
        proof {
            Self::completes_nothing(*old(self), state, a);
        }
        let mut current = state;
        let cycle: [Action; 4] = [
            Action::OpticalStep,
            Action::Predict,
            Action::Match,
            Action::Diffuse,
        ];
        assert(cycle@ =~= phi_cycle());
        let mut i: usize = 0;
        while i < 4
            invariant
                i <= 4,
                cycle@ == phi_cycle(),
                taken == phi_cycle().take(i as int),
                Self::completes(*old(self), state, taken, a, ss, *self),
                ss.len() > 0,
                ss.last() == current,
            decreases 4 - i,
        {
            let ghost last = *self;
            let action = cycle[i];
            match self.apply(current, action, a) {
                Ok(next) => {
                    proof {
                        Self::completes_grows(
                            *old(self),
                            state,
                            taken,
                            a,
                            ss,
                            last,
                            action,
                            next,
                            *self,
                        );
                        assert(taken.push(action) =~= phi_cycle().take(i + 1));
                        taken = taken.push(action);
                        ss = ss.push(next);
                    }
                    current = next;
                },
                Err(e) => {
                    assert(Self::completes(
                        *old(self),
                        state,
                        phi_cycle().take(i as int),
                        a,
                        ss,
                        last,
                    ));
                    assert(Self::applies(
                        last,
                        ss.last()@,
                        phi_cycle()[i as int],
                        a,
                        Err(e),
                        *self,
                    ));
                    return Err(e);
                },
            }
            i += 1;
        }
        assert(taken =~= phi_cycle());
        Ok(current)
    }

    /// What the trace says of one step.
    pub open spec fn entry_of(
        &self,
        s: State,
        action: Action,
        next: State,
        a: Condition,
    ) -> EntryView {
        EntryView {
            t: s.t,
            action: crate::action::symbol_of(action),
            res: self.residual_of(next@, a),
            energy: self.energy_of(next@),
            graph_size: next.g@.shown_size(),
            condition: crate::condition::condition_label_of(a),
        }
    }

    /// What the trace says of a walk through the states `ss`.
    pub open spec fn entries_of(
        &self,
        ss: Seq<State>,
        actions: Seq<Action>,
        a: Condition,
    ) -> Seq<EntryView> {
        Seq::new(actions.len(), |i: int| self.entry_of(ss[i], actions[i], ss[i + 1], a))
    }

    /// The header of the traces that this engine writes.
    pub open spec fn header_of(&self, a: Condition) -> HeaderView {
        HeaderView {
            n_modes: self.config.n_modes,
            latent_dim: self.config.latent_dim,
            eps: self.config.eps,
            seed: self.config.seed,
            schedule: self.config.schedule@,
            condition: a,
            match_policy: self.config.match_policy,
        }
    }

    /// Whether a run of `actions` from `s` can end in the last of the states `ss` with
    /// the trace `trace`.
    pub open spec fn ran(
        before: Self,
        s: State,
        actions: Seq<Action>,
        a: Condition,
        ss: Seq<State>,
        trace: Trace,
        after: Self,
    ) -> bool {
        &&& Self::completes(before, s, actions, a, ss, after)
        &&& trace.header() == before.header_of(a)
        &&& trace.steps() == before.entries_of(ss, actions, a)
    }

    /// No step changes the configuration or an operator other than the graph backend.
    pub proof fn operators_are_kept(
        before: Self,
        s: StateView,
        action: Action,
        a: Condition,
        r: Result<State, AriaError>,
        after: Self,
    )
        requires
            Self::applies(before, s, action, a, r, after),
        ensures
            after == before.with_backend(after.graph_backend),
            action != Action::Match ==> after == before,
    {
        reveal(Engine::applies);
    }

    /// The monitor after it saw the first `n` steps of a walk through the states `ss`.
    pub open spec fn watching<M: Monitor>(
        &self,
        ss: Seq<State>,
        actions: Seq<Action>,
        a: Condition,
        n: nat,
    ) -> M
        decreases n,
    {
        if n == 0 {
            M::opened(self.config.gates)
        } else {
            self.watching::<M>(ss, actions, a, (n - 1) as nat).noticed(
                actions[n - 1],
                ss[n as int]@,
                self.residual_of(ss[n as int]@, a),
                self.config.eps,
            )
        }
    }

    /// What the gates of the configuration find who see every step of a walk through the
    /// states `ss`.
    pub open spec fn overseen<M: Monitor>(
        &self,
        ss: Seq<State>,
        actions: Seq<Action>,
        a: Condition,
    ) -> GateReportView {
        self.watching::<M>(ss, actions, a, actions.len()).found()
    }

    /// What a monitor saw of walks that look alike so far is the same.
    pub proof fn watchers_agree<M: Monitor>(
        &self,
        ss1: Seq<State>,
        actions1: Seq<Action>,
        ss2: Seq<State>,
        actions2: Seq<Action>,
        a: Condition,
        n: nat,
    )
        requires
            n <= actions1.len(),
            n <= actions2.len(),
            forall|i: int| 0 <= i < n ==> #[trigger] actions1[i] == actions2[i],
            forall|i: int| 0 < i <= n ==> (#[trigger] ss1[i])@ == ss2[i]@,
        ensures
            self.watching::<M>(ss1, actions1, a, n) == self.watching::<M>(ss2, actions2, a, n),
        decreases n,
    {
        if n > 0 {
            self.watchers_agree::<M>(ss1, actions1, ss2, actions2, a, (n - 1) as nat);
            assert(actions1[n - 1] == actions2[n - 1]);
            assert(ss1[n as int]@ == ss2[n as int]@);
        }
    }

    /// Takes one step of a run, records it and shows it to the monitor.
    fn advance<M: Monitor>(
        &mut self,
        state: State,
        action: Action,
        a: Condition,
        trace: &mut Trace,
        monitor: M,
    ) -> (r: Result<(State, M), AriaError>)
        ensures
            final(trace).header() == old(trace).header(),
            match r {
                Ok((next, seen)) => {
                    &&& Self::applies(*old(self), state@, action, a, Ok(next), *final(self))
                    &&& final(trace).steps() == old(trace).steps().push(
                        old(self).entry_of(state, action, next, a),
                    )
                    &&& seen == monitor.noticed(
                        action,
                        next@,
                        old(self).residual_of(next@, a),
                        old(self).config.eps,
                    )
                },
                Err(e) => Self::applies(*old(self), state@, action, a, Err(e), *final(self)),
            },
    {
        let t_before = state.t;
        let next = match self.apply(state, action, a) {
            Ok(next) => next,
            Err(e) => {
                return Err(e);
            },
        };
        proof {
            Self::operators_are_kept(*old(self), state@, action, a, Ok(next), *self);
        }
        let residual = self.residual(&next, a);
        let energy = self.optical.shared_energy(&next.psi);
        trace.push(t_before, action, residual, energy, next.g.size(), condition_label(a));
        let seen = monitor.observe(action, &next, residual, self.config.eps);
        Ok((next, seen))
    }

    /// An empty trace for a run of this engine.
    fn blank_trace(&self, a: Condition) -> (r: Trace)
        ensures
            r.header() == self.header_of(a),
            r.steps() == Seq::<EntryView>::empty(),
    {
        Trace::new(
            self.config.n_modes,
            self.config.latent_dim,
            self.config.eps,
            self.config.seed,
            self.config.schedule.as_str(),
            a,
            self.config.match_policy,
        )
    }

    /// Whether the engine `before` walks from `s` along all of `actions`, and then fails
    /// with `e` at one more, which leaves it as `after`.
    pub open spec fn stops(
        before: Self,
        s: State,
        actions: Seq<Action>,
        action: Action,
        a: Condition,
        e: AriaError,
        after: Self,
    ) -> bool {
        exists|ss: Seq<State>, last: Self| #[trigger]
            Self::completes(before, s, actions, a, ss, last) && Self::applies(
                last,
                ss.last()@,
                action,
                a,
                Err(e),
                after,
            )
    }

    /// Whether a run of `steps` scheduled actions from `s` fails with `e` at one of them.
    /// The schedule has then handed out the action that failed, and none behind it.
    pub open spec fn broken_off<S: Schedule>(
        before: Self,
        s: State,
        schedule: S,
        steps: nat,
        a: Condition,
        e: AriaError,
        after: Self,
        rest: S,
    ) -> bool {
        exists|k: nat|
            {
                &&& k < steps
                &&& #[trigger] Self::stops(
                    before,
                    s,
                    drawn(schedule, k),
                    rest_of(schedule, k).dealt().0,
                    a,
                    e,
                    after,
                )
                &&& rest == rest_of(schedule, k).dealt().1
            }
    }

    /// Whether a run of `steps` scheduled actions from `s` answers `r`: the last state and
    /// the trace, or the error of the step that failed.
    pub open spec fn completed<S: Schedule>(
        before: Self,
        s: State,
        schedule: S,
        steps: nat,
        a: Condition,
        r: Result<(State, Trace), AriaError>,
        after: Self,
        rest: S,
    ) -> bool {
        match r {
            Ok((last, trace)) => {
                &&& rest == rest_of(schedule, steps)
                &&& exists|ss: Seq<State>| #[trigger]
                    Self::ran(before, s, drawn(schedule, steps), a, ss, trace, after) && ss.last()
                        == last
            },
            Err(e) => Self::broken_off(before, s, schedule, steps, a, e, after, rest),
        }
    }

    /// Whether a run of `steps` scheduled actions from `s` under the eyes of the gates
    /// answers `r`.
    pub open spec fn monitored<M: Monitor, S: Schedule>(
        before: Self,
        s: State,
        schedule: S,
        steps: nat,
        a: Condition,
        r: Result<(State, Trace, GateReport), AriaError>,
        after: Self,
        rest: S,
    ) -> bool {
        match r {
            Ok((last, trace, gates)) => {
                &&& rest == rest_of(schedule, steps)
                &&& exists|ss: Seq<State>|
                    {
                        &&& #[trigger] Self::ran(
                            before,
                            s,
                            drawn(schedule, steps),
                            a,
                            ss,
                            trace,
                            after,
                        )
                        &&& gates@ == before.overseen::<M>(ss, drawn(schedule, steps), a)
                        &&& ss.last() == last
                    }
            },
            Err(e) => Self::broken_off(before, s, schedule, steps, a, e, after, rest),
        }
    }

    /// Whether latents are those after each step of a walk through the states `ss`.
    pub open spec fn shows_latents(latents: Seq<Vec<Real>>, ss: Seq<State>) -> bool {
        &&& ss.len() == latents.len() + 1
        &&& forall|i: int| 0 <= i < latents.len() ==> (#[trigger] latents[i])@ == ss[i + 1].z@
    }

    /// Whether a run of `steps` scheduled actions from `s` that keeps its latents
    /// answers `r`.
    pub open spec fn latents_kept<M: Monitor, S: Schedule>(
        before: Self,
        s: State,
        schedule: S,
        steps: nat,
        a: Condition,
        r: Result<(State, Trace, GateReport, Vec<Vec<Real>>), AriaError>,
        after: Self,
        rest: S,
    ) -> bool {
        match r {
            Ok((last, trace, gates, latents)) => {
                &&& rest == rest_of(schedule, steps)
                &&& exists|ss: Seq<State>|
                    {
                        &&& #[trigger] Self::ran(
                            before,
                            s,
                            drawn(schedule, steps),
                            a,
                            ss,
                            trace,
                            after,
                        )
                        &&& gates@ == before.overseen::<M>(ss, drawn(schedule, steps), a)
                        &&& ss.last() == last
                        &&& Self::shows_latents(latents@, ss)
                    }
            },
            Err(e) => Self::broken_off(before, s, schedule, steps, a, e, after, rest),
        }
    }

    /// Whether a run has come `n` steps far: through the states `ss`, recorded in `trace`,
    /// seen by `monitor`, with `schedule` left.
    #[verifier::opaque]
    spec fn underway<M: Monitor, S: Schedule>(
        before: Self,
        s: State,
        scheduled: S,
        n: nat,
        a: Condition,
        ss: Seq<State>,
        trace: Trace,
        monitor: M,
        schedule: S,
        now: Self,
    ) -> bool {
        &&& Self::ran(before, s, drawn(scheduled, n), a, ss, trace, now)
        &&& drawn(scheduled, n).len() == n
        &&& ss.len() == n + 1
        &&& monitor == before.watching::<M>(ss, drawn(scheduled, n), a, n)
        &&& schedule == rest_of(scheduled, n)
        &&& now == before.with_backend(now.graph_backend)
    }

    proof fn underway_starts<M: Monitor, S: Schedule>(
        before: Self,
        s: State,
        schedule: S,
        a: Condition,
        trace: Trace,
    )
        requires
            trace.header() == before.header_of(a),
            trace.steps() == Seq::<EntryView>::empty(),
        ensures
            Self::underway(
                before,
                s,
                schedule,
                0,
                a,
                seq![s],
                trace,
                M::opened(before.config.gates),
                schedule,
                before,
            ),
    {
        reveal(Engine::underway);
        Self::completes_nothing(before, s, a);
        assert(trace.steps() =~= before.entries_of(seq![s], drawn(schedule, 0), a));
    }

    /// One step more of a run.
    proof fn underway_grows<M: Monitor, S: Schedule>(
        before: Self,
        s: State,
        scheduled: S,
        n: nat,
        a: Condition,
        ss: Seq<State>,
        trace: Trace,
        monitor: M,
        schedule: S,
        last: Self,
        next: State,
        longer: Trace,
        seen: M,
        now: Self,
    )
        requires
            Self::underway(before, s, scheduled, n, a, ss, trace, monitor, schedule, last),
            Self::applies(last, ss.last()@, schedule.dealt().0, a, Ok(next), now),
            longer.header() == trace.header(),
            longer.steps() == trace.steps().push(
                last.entry_of(ss.last(), schedule.dealt().0, next, a),
            ),
            seen == monitor.noticed(
                schedule.dealt().0,
                next@,
                last.residual_of(next@, a),
                last.config.eps,
            ),
        ensures
            Self::underway(
                before,
                s,
                scheduled,
                n + 1,
                a,
                ss.push(next),
                longer,
                seen,
                schedule.dealt().1,
                now,
            ),
    {
        reveal(Engine::underway);
        let actions = drawn(scheduled, n);
        let action = schedule.dealt().0;
        let states = ss.push(next);
        Self::operators_are_kept(last, ss.last()@, action, a, Ok(next), now);
        Self::completes_grows(before, s, actions, a, ss, last, action, next, now);
        assert(drawn(scheduled, n + 1) == actions.push(action));
        assert(before.entries_of(states, actions.push(action), a) =~= before.entries_of(
            ss,
            actions,
            a,
        ).push(before.entry_of(ss.last(), action, next, a)));
        before.watchers_agree::<M>(ss, actions, states, actions.push(action), a, n);
    }

    /// Takes the scheduled actions in turn, keeps a trace, and keeps the latent after
    /// every step beside it. The gates of the configuration watch.
    pub fn run_monitored_with_latents<M: Monitor, S: Schedule>(
        &mut self,
        state: State,
        schedule: &mut S,
        steps: u64,
        a: Condition,
    ) -> (r: Result<(State, Trace, GateReport, Vec<Vec<Real>>), AriaError>)
        ensures
            Self::latents_kept::<M, S>(
                *old(self),
                state,
                *old(schedule),
                steps as nat,
                a,
                r,
                *final(self),
                *final(schedule),
            ),
    {
        let ghost mut ss: Seq<State> = seq![state];
        let mut trace = self.blank_trace(a);
        let mut latents: Vec<Vec<Real>> = Vec::new();
        let mut monitor = M::new(&self.config.gates);
        let mut current = state;
        let mut i: u64 = 0;
        proof {
            Self::underway_starts::<M, S>(*self, state, *schedule, a, trace);
        }
        while i < steps
            invariant
                i <= steps,
                Self::underway(
                    *old(self),
                    state,
                    *old(schedule),
                    i as nat,
                    a,
                    ss,
                    trace,
                    monitor,
                    *schedule,
                    *self,
                ),
                ss.len() == i + 1,
                ss.last() == current,
                Self::shows_latents(latents@, ss),
            decreases steps - i,
        {
            let ghost last = *self;
            let ghost left = *schedule;
            let ghost recorded = trace;
            let ghost watcher = monitor;
            let action = schedule.next_action();
            match self.advance(current, action, a, &mut trace, monitor) {
                Ok((next, watching)) => {
                    proof {
                        Self::underway_grows(
                            *old(self),
                            state,
                            *old(schedule),
                            i as nat,
                            a,
                            ss,
                            recorded,
                            watcher,
                            left,
                            last,
                            next,
                            trace,
                            watching,
                            *self,
                        );
                    }
                    let z = copied(&next.z);
                    let ghost kept = latents@;
                    latents.push(z);
                    proof {
                        let longer = ss.push(next);
                        assert forall|j: int| 0 <= j < latents@.len() implies (
                        #[trigger] latents@[j])@ == longer[j + 1].z@ by {
                            if j < kept.len() {
                                assert(latents@[j] == kept[j]);
                                assert(longer[j + 1] == ss[j + 1]);
                            }
                        }
                        ss = longer;
                    }
                    monitor = watching;
                    current = next;
                },
                Err(e) => {
                    proof {
                        reveal(Engine::underway);
                        assert(Self::stops(
                            *old(self),
                            state,
                            drawn(*old(schedule), i as nat),
                            rest_of(*old(schedule), i as nat).dealt().0,
                            a,
                            e,
                            *self,
                        ));
                    }
                    return Err(e);
                },
            }
            i += 1;
        }
        proof {
            reveal(Engine::underway);
        }
        let gates = monitor.finish();
        Ok((current, trace, gates, latents))
    }

    /// Takes the scheduled actions in turn and keeps a trace, under the eyes of the gates
    /// of the configuration.
    pub fn run_monitored<M: Monitor, S: Schedule>(
        &mut self,
        state: State,
        schedule: &mut S,
        steps: u64,
        a: Condition,
    ) -> (r: Result<(State, Trace, GateReport), AriaError>)
        ensures
            Self::monitored::<M, S>(
                *old(self),
                state,
                *old(schedule),
                steps as nat,
                a,
                r,
                *final(self),
                *final(schedule),
            ),
    {
        let ghost mut ss: Seq<State> = seq![state];
        let mut trace = self.blank_trace(a);
        let mut monitor = M::new(&self.config.gates);
        let mut current = state;
        let mut i: u64 = 0;
        proof {
            Self::underway_starts::<M, S>(*self, state, *schedule, a, trace);
        }
        while i < steps
            invariant
                i <= steps,
                Self::underway(
                    *old(self),
                    state,
                    *old(schedule),
                    i as nat,
                    a,
                    ss,
                    trace,
                    monitor,
                    *schedule,
                    *self,
                ),
                ss.len() == i + 1,
                ss.last() == current,
            decreases steps - i,
        {
            let ghost last = *self;
            let ghost left = *schedule;
            let ghost recorded = trace;
            let ghost watcher = monitor;
            let action = schedule.next_action();
            match self.advance(current, action, a, &mut trace, monitor) {
                Ok((next, watching)) => {
                    proof {
                        Self::underway_grows(
                            *old(self),
                            state,
                            *old(schedule),
                            i as nat,
                            a,
                            ss,
                            recorded,
                            watcher,
                            left,
                            last,
                            next,
                            trace,
                            watching,
                            *self,
                        );
                        ss = ss.push(next);
                    }
                    monitor = watching;
                    current = next;
                },
                Err(e) => {
                    proof {
                        reveal(Engine::underway);
                        assert(Self::stops(
                            *old(self),
                            state,
                            drawn(*old(schedule), i as nat),
                            rest_of(*old(schedule), i as nat).dealt().0,
                            a,
                            e,
                            *self,
                        ));
                    }
                    return Err(e);
                },
            }
            i += 1;
        }
        proof {
            reveal(Engine::underway);
        }
        let gates = monitor.finish();
        Ok((current, trace, gates))
    }

    /// Takes the scheduled actions in turn and keeps a trace.
    pub fn run<S: Schedule>(
        &mut self,
        state: State,
        schedule: &mut S,
        steps: u64,
        a: Condition,
    ) -> (r: Result<(State, Trace), AriaError>)
        ensures
            Self::completed(
                *old(self),
                state,
                *old(schedule),
                steps as nat,
                a,
                r,
                *final(self),
                *final(schedule),
            ),
    {
        match self.run_monitored::<Unwatched, S>(state, schedule, steps, a) {
            Ok((last, trace, _)) => Ok((last, trace)),
            Err(e) => Err(e),
        }
    }

    /// Whether a summary can be what is said of a run that ended in `s` with `trace`.
    pub open spec fn sums_up(
        &self,
        s: State,
        trace: Trace,
        a: Condition,
        summary: RunSummary,
    ) -> bool {
        &&& summary.steps == trace.steps().len()
        &&& summary.t == s.t
        &&& summary.graph_size == s.g@.shown_size()
        &&& summary.energy == self.energy_of(s@)
        &&& summary.residual == self.residual_of(s@, a)
        &&& summary.action_sequence@ == symbols_of(trace.steps())
        &&& summary.report == self.report_of(s@, a)
    }

    /// Sums a finished run up, with a check of the state it ended in.
    pub fn summarise(&self, state: &State, trace: &Trace, a: Condition) -> (r: RunSummary)
        ensures
            self.sums_up(*state, *trace, a, r),
    {
        RunSummary {
            steps: trace.entries.len() as u64,
            t: state.t,
            graph_size: state.g.size(),
            energy: self.optical.shared_energy(&state.psi),
            residual: self.residual(state, a),
            action_sequence: trace.action_sequence(),
            report: self.check(state, a),
        }
    }

    /// The configuration.
    pub fn config(&self) -> (r: &AriaConfig)
        ensures
            *r == self.config,
    {
        &self.config
    }

    /// The graph backend, to look at.
    pub fn graph_backend(&self) -> (r: &G)
        ensures
            *r == self.graph_backend,
    {
        &self.graph_backend
    }
}

/// What is said of a finished run.
pub struct RunSummary {
    pub steps: u64,
    pub t: u64,
    pub graph_size: usize,
    pub energy: Real,
    pub residual: Real,
    pub action_sequence: String,
    pub report: InvariantReport,
}

/// Whether both parts of an amplitude are finite.
pub open spec fn amplitude_ok(c: Complex) -> bool {
    c.re.finite() && c.im.finite()
}

/// Where the first amplitude stands that is not finite; the length of the field where
/// there is none.
pub open spec fn first_unfit(psi: Seq<Complex>) -> nat
    decreases psi.len(),
{
    if psi.len() == 0 || !amplitude_ok(psi[0]) {
        0
    } else {
        first_unfit(psi.skip(1)) + 1
    }
}

/// The preferred cycle of actions.
pub open spec fn phi_cycle() -> Seq<Action> {
    seq![Action::OpticalStep, Action::Predict, Action::Match, Action::Diffuse]
}

// ---------------------------------------------------------------------------
// Laws
// ---------------------------------------------------------------------------

/// How many of the actions advance the clock.
pub open spec fn diffusions(actions: Seq<Action>) -> nat
    decreases actions.len(),
{
    if actions.len() == 0 {
        0
    } else {
        diffusions(actions.drop_last()) + if actions.last() == Action::Diffuse {
            1nat
        } else {
            0nat
        }
    }
}

impl<O, P, G, D, C> Engine<O, P, G, D, C> where
    O: OpticalBackend,
    P: Predictor,
    G: GraphBackend,
    D: Diffuser,
    C: Invariants,
 {
    /// Each action changes its own part of the state and leaves the rest: an optical
    /// step the field, a prediction the latent, a match the graph, a diffusion the
    /// latent and the clock, a stutter nothing. All but the stutter set the previous
    /// residual to the one the step started from. The reference energy never moves,
    /// and no match leaves a graph above its bound.
    pub proof fn steps_touch_only_their_part(
        before: Self,
        s: StateView,
        action: Action,
        a: Condition,
        next: State,
        after: Self,
    )
        requires
            Self::applies(before, s, action, a, Ok(next), after),
        ensures
            next.energy_0 == s.energy_0,
            action == Action::Stutter ==> next@ == s,
            action != Action::Stutter ==> next.prev_res == before.residual_of(s, a),
            action != Action::OpticalStep ==> next.psi@ == s.psi,
            action != Action::Predict && action != Action::Diffuse ==> next.z@ == s.z,
            action != Action::Match ==> next.g@ == s.g,
            next.t == s.t + if action == Action::Diffuse {
                1int
            } else {
                0int
            },
            action == Action::Match ==> next.g@.size() <= before.config.max_graph_size,
    {
        reveal(Engine::applies);
    }

    /// Under strict checking a step succeeds only with a state on which all invariants
    /// hold. A step fails for an invariant only under strict checking, and only where the
    /// state that the action leads to breaks one.
    pub proof fn strictness_decides(
        before: Self,
        s: StateView,
        action: Action,
        a: Condition,
        r: Result<State, AriaError>,
        after: Self,
    )
        requires
            Self::applies(before, s, action, a, r, after),
        ensures
            r matches Ok(next) ==> !before.rejects(next@, a),
            r matches Err(AriaError::InvariantViolation(_)) ==> {
                &&& before.config.strict
                &&& before.attempt(s, action, a) matches Attempt::Next { state, .. }
                    && before.rejects(state, a)
            },
    {
        reveal(Engine::applies);
    }

    /// A step that fails leaves the engine as it was, or its graph backend last told of
    /// a rollback to the very graph that the step started from: what the journal it is
    /// told of gives back of the edited graph.
    pub proof fn failures_are_taken_back(
        before: Self,
        s: StateView,
        action: Action,
        a: Condition,
        e: AriaError,
        after: Self,
    )
        requires
            Self::applies(before, s, action, a, Err(e), after),
        ensures
            after == before || {
                let ops = before.graph_backend.proposal(
                    s.g,
                    s.z,
                    before.config.match_policy,
                    None,
                    s.t,
                );
                &&& action == Action::Match
                &&& s.g.edited(ops, before.config.latent_dim, before.graph_backend) matches Ok((h, journal))
                    && h.undone(journal) == s.g && (after == before.with_backend(
                    before.graph_backend.reverted(journal, s.g),
                ) || after == before.with_backend(
                    before.graph_backend.committed(ops, h).reverted(journal, s.g),
                ))
            },
    {
        reveal(Engine::applies);
        let ops = before.graph_backend.proposal(s.g, s.z, before.config.match_policy, None, s.t);
        s.g.journals_restore(ops, before.config.latent_dim, before.graph_backend);
    }

    /// A step keeps a well-formed graph well-formed.
    pub proof fn graphs_stay_well_formed(
        before: Self,
        s: StateView,
        action: Action,
        a: Condition,
        next: State,
        after: Self,
    )
        requires
            Self::applies(before, s, action, a, Ok(next), after),
            s.g.wf(),
        ensures
            next.g@.wf(),
    {
        reveal(Engine::applies);
        let ops = before.graph_backend.proposal(s.g, s.z, before.config.match_policy, None, s.t);
        s.g.edits_keep_wf(ops, before.config.latent_dim, before.graph_backend);
    }

    /// Along a walk the clock counts the diffusions, the reference energy stays, a graph
    /// within its bound stays within it, and a well-formed graph stays well-formed.
    pub proof fn clock_counts_diffusions(
        es: Seq<Self>,
        ss: Seq<State>,
        actions: Seq<Action>,
        a: Condition,
    )
        requires
            Self::walks(es, ss, actions, a),
        ensures
            ss.last().t == ss[0].t + diffusions(actions),
            ss.last().energy_0 == ss[0].energy_0,
            es.last() == es[0].with_backend(es.last().graph_backend),
            ss[0].g@.size() <= es[0].config.max_graph_size ==> ss.last().g@.size()
                <= es[0].config.max_graph_size,
            ss[0].g@.wf() ==> ss.last().g@.wf(),
        decreases actions.len(),
    {
        if actions.len() > 0 {
            let n = actions.len() - 1;
            let shorter = actions.drop_last();
            assert forall|i: int| 0 <= i < shorter.len() implies Self::applies(
                #[trigger] es.drop_last()[i],
                ss.drop_last()[i]@,
                shorter[i],
                a,
                Ok(ss.drop_last()[i + 1]),
                es.drop_last()[i + 1],
            ) by {
                assert(Self::applies(es[i], ss[i]@, actions[i], a, Ok(ss[i + 1]), es[i + 1]));
            }
            Self::clock_counts_diffusions(es.drop_last(), ss.drop_last(), shorter, a);
            assert(Self::applies(es[n], ss[n]@, actions[n], a, Ok(ss[n + 1]), es[n + 1]));
            Self::steps_touch_only_their_part(es[n], ss[n]@, actions[n], a, ss[n + 1], es[n + 1]);
            Self::operators_are_kept(es[n], ss[n]@, actions[n], a, Ok(ss[n + 1]), es[n + 1]);
            if ss[0].g@.wf() {
                Self::graphs_stay_well_formed(es[n], ss[n]@, actions[n], a, ss[n + 1], es[n + 1]);
            }
        }
    }

    /// A full cycle advances the clock by exactly one.
    pub proof fn a_cycle_is_one_tick(
        before: Self,
        s: State,
        a: Condition,
        ss: Seq<State>,
        after: Self,
    )
        requires
            Self::completes(before, s, phi_cycle(), a, ss, after),
        ensures
            ss.last().t == s.t + 1,
            ss.last().energy_0 == s.energy_0,
    {
        let es = choose|es: Seq<Self>| #[trigger]
            Self::walks(es, ss, phi_cycle(), a) && es[0] == before && ss[0] == s && es.last()
                == after;
        Self::clock_counts_diffusions(es, ss, phi_cycle(), a);
        reveal_with_fuel(diffusions, 5);
        assert(phi_cycle().drop_last() =~= seq![
            Action::OpticalStep,
            Action::Predict,
            Action::Match,
        ]);
        assert(phi_cycle().drop_last().drop_last() =~= seq![Action::OpticalStep, Action::Predict]);
        assert(phi_cycle().drop_last().drop_last().drop_last() =~= seq![Action::OpticalStep]);
        assert(phi_cycle().drop_last().drop_last().drop_last().drop_last() =~= Seq::empty());
    }

    /// Whether two engines take the same steps: they have the same operators, and their
    /// configurations agree in all that a step reads. Seed, schedule, condition, stutter
    /// budget, gates and the like may differ.
    pub open spec fn alike(self, other: Self) -> bool {
        &&& self.optical == other.optical
        &&& self.predictor == other.predictor
        &&& self.graph_backend == other.graph_backend
        &&& self.diffuser == other.diffuser
        &&& self.invariants == other.invariants
        &&& self.config.n_modes == other.config.n_modes
        &&& self.config.latent_dim == other.config.latent_dim
        &&& self.config.eps == other.config.eps
        &&& self.config.eps_energy == other.config.eps_energy
        &&& self.config.match_policy == other.config.match_policy
        &&& self.config.diff_policy@ == other.config.diff_policy@
        &&& self.config.max_graph_size == other.config.max_graph_size
        &&& self.config.strict == other.config.strict
    }

    /// A step is a deterministic function, failures included: engines that are alike
    /// answer alike and stay alike.
    pub proof fn steps_are_determined(
        before1: Self,
        before2: Self,
        s: StateView,
        action: Action,
        a: Condition,
        r1: Result<State, AriaError>,
        after1: Self,
        r2: Result<State, AriaError>,
        after2: Self,
    )
        requires
            before1.alike(before2),
            Self::applies(before1, s, action, a, r1, after1),
            Self::applies(before2, s, action, a, r2, after2),
        ensures
            outcome(r1) == outcome(r2),
            after1.alike(after2),
            before1 == before2 ==> after1 == after2,
    {
        reveal(Engine::applies);
        assert(before1.attempt(s, action, a) == before2.attempt(s, action, a));
    }

    /// Two walks of engines that are alike, along the same actions from states that look
    /// alike, pass through states that look alike.
    pub proof fn walks_coincide(
        es1: Seq<Self>,
        ss1: Seq<State>,
        es2: Seq<Self>,
        ss2: Seq<State>,
        actions: Seq<Action>,
        a: Condition,
        i: int,
    )
        requires
            Self::walks(es1, ss1, actions, a),
            Self::walks(es2, ss2, actions, a),
            es1[0].alike(es2[0]),
            ss1[0]@ == ss2[0]@,
            0 <= i <= actions.len(),
        ensures
            es1[i].alike(es2[i]),
            es1[0] == es2[0] ==> es1[i] == es2[i],
            ss1[i]@ == ss2[i]@,
        decreases i,
    {
        if i > 0 {
            let k = i - 1;
            Self::walks_coincide(es1, ss1, es2, ss2, actions, a, k);
            assert(Self::applies(es1[k], ss1[k]@, actions[k], a, Ok(ss1[k + 1]), es1[k + 1]));
            assert(Self::applies(es2[k], ss2[k]@, actions[k], a, Ok(ss2[k + 1]), es2[k + 1]));
            Self::steps_are_determined(
                es1[k],
                es2[k],
                ss1[k]@,
                actions[k],
                a,
                Ok(ss1[k + 1]),
                es1[k + 1],
                Ok(ss2[k + 1]),
                es2[k + 1],
            );
        }
    }

    /// The beginning of a walk is a walk.
    pub proof fn walks_begin(
        es: Seq<Self>,
        ss: Seq<State>,
        actions: Seq<Action>,
        a: Condition,
        k: int,
    )
        requires
            Self::walks(es, ss, actions, a),
            0 <= k <= actions.len(),
        ensures
            Self::walks(es.take(k + 1), ss.take(k + 1), actions.take(k), a),
    {
        let es_k = es.take(k + 1);
        let ss_k = ss.take(k + 1);
        let fewer = actions.take(k);
        assert forall|j: int| 0 <= j < fewer.len() implies Self::applies(
            #[trigger] es_k[j],
            ss_k[j]@,
            fewer[j],
            a,
            Ok(ss_k[j + 1]),
            es_k[j + 1],
        ) by {
            assert(Self::applies(es[j], ss[j]@, actions[j], a, Ok(ss[j + 1]), es[j + 1]));
        }
    }

    /// Two completed runs of engines that are alike, along the same actions from states
    /// that look alike, pass through states that look alike and record the same steps,
    /// whoever watched them.
    pub proof fn alike_runs_agree(
        before1: Self,
        before2: Self,
        s1: State,
        s2: State,
        actions: Seq<Action>,
        a: Condition,
        ss1: Seq<State>,
        trace1: Trace,
        after1: Self,
        ss2: Seq<State>,
        trace2: Trace,
        after2: Self,
    )
        requires
            before1.alike(before2),
            s1@ == s2@,
            Self::ran(before1, s1, actions, a, ss1, trace1, after1),
            Self::ran(before2, s2, actions, a, ss2, trace2, after2),
        ensures
            ss1.len() == actions.len() + 1,
            ss2.len() == actions.len() + 1,
            forall|i: int| 0 <= i <= actions.len() ==> (#[trigger] ss1[i])@ == ss2[i]@,
            after1.alike(after2),
            before1 == before2 ==> after1 == after2,
            trace1.steps() == trace2.steps(),
    {
        let es1 = choose|es: Seq<Self>| #[trigger]
            Self::walks(es, ss1, actions, a) && es[0] == before1 && ss1[0] == s1 && es.last()
                == after1;
        let es2 = choose|es: Seq<Self>| #[trigger]
            Self::walks(es, ss2, actions, a) && es[0] == before2 && ss2[0] == s2 && es.last()
                == after2;
        let n = actions.len() as int;
        assert forall|i: int| 0 <= i <= n implies (#[trigger] ss1[i])@ == ss2[i]@ by {
            Self::walks_coincide(es1, ss1, es2, ss2, actions, a, i);
        }
        Self::walks_coincide(es1, ss1, es2, ss2, actions, a, n);
        assert forall|i: int| 0 <= i < n implies before1.entry_of(
            ss1[i],
            actions[i],
            ss1[i + 1],
            a,
        ) == before2.entry_of(ss2[i], actions[i], ss2[i + 1], a) by {
            assert(ss1[i]@.t == ss2[i]@.t);
            assert(ss1[i + 1]@.g == ss2[i + 1]@.g);
        }
        assert(trace1.steps() =~= trace2.steps());
    }

    /// Runs are reproducible: two completed runs of one engine along the same actions
    /// from states that look alike end in states that look alike and record the same
    /// trace, whoever watched them.
    pub proof fn runs_are_reproducible(
        before: Self,
        s1: State,
        s2: State,
        actions: Seq<Action>,
        a: Condition,
        ss1: Seq<State>,
        trace1: Trace,
        after1: Self,
        ss2: Seq<State>,
        trace2: Trace,
        after2: Self,
    )
        requires
            s1@ == s2@,
            Self::ran(before, s1, actions, a, ss1, trace1, after1),
            Self::ran(before, s2, actions, a, ss2, trace2, after2),
        ensures
            ss1.last()@ == ss2.last()@,
            after1 == after2,
            trace1.header() == trace2.header(),
            trace1.steps() == trace2.steps(),
            trace_lines(trace1.header(), trace1.steps()) == trace_lines(
                trace2.header(),
                trace2.steps(),
            ),
    {
        Self::alike_runs_agree(
            before,
            before,
            s1,
            s2,
            actions,
            a,
            ss1,
            trace1,
            after1,
            ss2,
            trace2,
            after2,
        );
        assert(ss1[actions.len() as int]@ == ss2[actions.len() as int]@);
    }

    /// Where one run fails, an engine that is alike does not get past.
    proof fn no_way_past(
        before1: Self,
        before2: Self,
        s1: State,
        s2: State,
        actions: Seq<Action>,
        a: Condition,
        k: int,
        ss1: Seq<State>,
        last1: Self,
        e: AriaError,
        after1: Self,
        m: int,
        ss2: Seq<State>,
        last2: Self,
    )
        requires
            before1.alike(before2),
            s1@ == s2@,
            0 <= k < actions.len(),
            0 <= m <= actions.len(),
            Self::completes(before1, s1, actions.take(k), a, ss1, last1),
            Self::applies(last1, ss1.last()@, actions[k], a, Err(e), after1),
            Self::completes(before2, s2, actions.take(m), a, ss2, last2),
        ensures
            m <= k,
    {
        if k < m {
            let es1 = choose|es: Seq<Self>| #[trigger]
                Self::walks(es, ss1, actions.take(k), a) && es[0] == before1 && ss1[0] == s1
                    && es.last() == last1;
            let es2 = choose|es: Seq<Self>| #[trigger]
                Self::walks(es, ss2, actions.take(m), a) && es[0] == before2 && ss2[0] == s2
                    && es.last() == last2;
            Self::walks_begin(es2, ss2, actions.take(m), a, k);
            assert(actions.take(m).take(k) =~= actions.take(k));
            Self::walks_coincide(
                es1,
                ss1,
                es2.take(k + 1),
                ss2.take(k + 1),
                actions.take(k),
                a,
                k,
            );
            Self::clock_counts_diffusions(es1, ss1, actions.take(k), a);
            assert(actions.take(m)[k] == actions[k]);
            assert(Self::applies(
                es2[k],
                ss2[k]@,
                actions.take(m)[k],
                a,
                Ok(ss2[k + 1]),
                es2[k + 1],
            ));
            Self::steps_are_determined(
                last1,
                es2[k],
                ss1.last()@,
                actions[k],
                a,
                Err(e),
                after1,
                Ok(ss2[k + 1]),
                es2[k + 1],
            );
        }
    }

    /// Two runs that fail at the same action fail alike.
    proof fn failures_coincide(
        before1: Self,
        before2: Self,
        s1: State,
        s2: State,
        actions: Seq<Action>,
        a: Condition,
        k: int,
        ss1: Seq<State>,
        last1: Self,
        e1: AriaError,
        after1: Self,
        ss2: Seq<State>,
        last2: Self,
        e2: AriaError,
        after2: Self,
    )
        requires
            before1.alike(before2),
            s1@ == s2@,
            0 <= k < actions.len(),
            Self::completes(before1, s1, actions.take(k), a, ss1, last1),
            Self::applies(last1, ss1.last()@, actions[k], a, Err(e1), after1),
            Self::completes(before2, s2, actions.take(k), a, ss2, last2),
            Self::applies(last2, ss2.last()@, actions[k], a, Err(e2), after2),
        ensures
            e1@ == e2@,
            after1.alike(after2),
    {
        let es1 = choose|es: Seq<Self>| #[trigger]
            Self::walks(es, ss1, actions.take(k), a) && es[0] == before1 && ss1[0] == s1
                && es.last() == last1;
        let es2 = choose|es: Seq<Self>| #[trigger]
            Self::walks(es, ss2, actions.take(k), a) && es[0] == before2 && ss2[0] == s2
                && es.last() == last2;
        Self::walks_coincide(es1, ss1, es2, ss2, actions.take(k), a, k);
        Self::clock_counts_diffusions(es1, ss1, actions.take(k), a);
        Self::steps_are_determined(
            last1,
            last2,
            ss1.last()@,
            actions[k],
            a,
            Err(e1),
            after1,
            Err(e2),
            after2,
        );
    }

    /// Whether two answers to a run say the same, the headers of the traces aside.
    pub open spec fn runs_agree(
        r1: Result<(State, Trace), AriaError>,
        r2: Result<(State, Trace), AriaError>,
    ) -> bool {
        match (r1, r2) {
            (Ok((s1, trace1)), Ok((s2, trace2))) => s1@ == s2@ && trace1.steps()
                == trace2.steps(),
            (Err(e1), Err(e2)) => e1@ == e2@,
            _ => false,
        }
    }

    /// A run that fails comes as far as the actions before the one that failed.
    proof fn failure_found<S: Schedule>(
        before: Self,
        s: State,
        schedule: S,
        steps: nat,
        a: Condition,
        e: AriaError,
        after: Self,
        rest: S,
    ) -> (found: (int, Seq<State>, Self))
        requires
            Self::broken_off(before, s, schedule, steps, a, e, after, rest),
        ensures
            ({
                let (k, ss, last) = found;
                let actions = drawn(schedule, steps);
                &&& 0 <= k < actions.len()
                &&& Self::completes(before, s, actions.take(k), a, ss, last)
                &&& Self::applies(last, ss.last()@, actions[k], a, Err(e), after)
                &&& rest == rest_of(schedule, (k + 1) as nat)
            }),
    {
        let k = choose|k: nat|
            {
                &&& k < steps
                &&& #[trigger] Self::stops(
                    before,
                    s,
                    drawn(schedule, k),
                    rest_of(schedule, k).dealt().0,
                    a,
                    e,
                    after,
                )
                &&& rest == rest_of(schedule, k).dealt().1
            };
        let (ss, last) = choose|ss: Seq<State>, last: Self| #[trigger]
            Self::completes(before, s, drawn(schedule, k), a, ss, last) && Self::applies(
                last,
                ss.last()@,
                rest_of(schedule, k).dealt().0,
                a,
                Err(e),
                after,
            );
        draws_begin_alike(schedule, k, steps);
        (k as int, ss, last)
    }

    /// A run is a deterministic function, failures included: engines that are alike, on
    /// the same schedule and from states that look alike, both complete with the same
    /// states and steps, or both fail with the same error, and leave the schedule in the
    /// same place. Where their headers agree, so do the headers of their traces.
    pub proof fn runs_are_determined<S: Schedule>(
        before1: Self,
        before2: Self,
        s1: State,
        s2: State,
        schedule: S,
        steps: nat,
        a: Condition,
        r1: Result<(State, Trace), AriaError>,
        after1: Self,
        rest1: S,
        r2: Result<(State, Trace), AriaError>,
        after2: Self,
        rest2: S,
    )
        requires
            before1.alike(before2),
            s1@ == s2@,
            Self::completed(before1, s1, schedule, steps, a, r1, after1, rest1),
            Self::completed(before2, s2, schedule, steps, a, r2, after2, rest2),
        ensures
            Self::runs_agree(r1, r2),
            after1.alike(after2),
            rest1 == rest2,
            r1 is Ok && before1.header_of(a) == before2.header_of(a) ==> r1->Ok_0.1.header()
                == r2->Ok_0.1.header(),
    {
        let actions = drawn(schedule, steps);
        let n = actions.len() as int;
        assert(actions.take(n) =~= actions);
        match (r1, r2) {
            (Ok((l1, t1)), Ok((l2, t2))) => {
                let ss1 = choose|ss: Seq<State>| #[trigger]
                    Self::ran(before1, s1, actions, a, ss, t1, after1) && ss.last() == l1;
                let ss2 = choose|ss: Seq<State>| #[trigger]
                    Self::ran(before2, s2, actions, a, ss, t2, after2) && ss.last() == l2;
                Self::alike_runs_agree(
                    before1,
                    before2,
                    s1,
                    s2,
                    actions,
                    a,
                    ss1,
                    t1,
                    after1,
                    ss2,
                    t2,
                    after2,
                );
                assert(ss1[n]@ == ss2[n]@);
            },
            (Ok((l1, t1)), Err(e2)) => {
                let ss1 = choose|ss: Seq<State>| #[trigger]
                    Self::ran(before1, s1, actions, a, ss, t1, after1) && ss.last() == l1;
                let (k, ss2, last2) = Self::failure_found(
                    before2,
                    s2,
                    schedule,
                    steps,
                    a,
                    e2,
                    after2,
                    rest2,
                );
                Self::no_way_past(
                    before2,
                    before1,
                    s2,
                    s1,
                    actions,
                    a,
                    k,
                    ss2,
                    last2,
                    e2,
                    after2,
                    n,
                    ss1,
                    after1,
                );
            },
            (Err(e1), Ok((l2, t2))) => {
                let ss2 = choose|ss: Seq<State>| #[trigger]
                    Self::ran(before2, s2, actions, a, ss, t2, after2) && ss.last() == l2;
                let (k, ss1, last1) = Self::failure_found(
                    before1,
                    s1,
                    schedule,
                    steps,
                    a,
                    e1,
                    after1,
                    rest1,
                );
                Self::no_way_past(
                    before1,
                    before2,
                    s1,
                    s2,
                    actions,
                    a,
                    k,
                    ss1,
                    last1,
                    e1,
                    after1,
                    n,
                    ss2,
                    after2,
                );
            },
            (Err(e1), Err(e2)) => {
                let (k1, ss1, last1) = Self::failure_found(
                    before1,
                    s1,
                    schedule,
                    steps,
                    a,
                    e1,
                    after1,
                    rest1,
                );
                let (k2, ss2, last2) = Self::failure_found(
                    before2,
                    s2,
                    schedule,
                    steps,
                    a,
                    e2,
                    after2,
                    rest2,
                );
                if k1 < k2 {
                    Self::no_way_past(
                        before1,
                        before2,
                        s1,
                        s2,
                        actions,
                        a,
                        k1,
                        ss1,
                        last1,
                        e1,
                        after1,
                        k2,
                        ss2,
                        last2,
                    );
                } else if k2 < k1 {
                    Self::no_way_past(
                        before2,
                        before1,
                        s2,
                        s1,
                        actions,
                        a,
                        k2,
                        ss2,
                        last2,
                        e2,
                        after2,
                        k1,
                        ss1,
                        last1,
                    );
                } else {
                    Self::failures_coincide(
                        before1,
                        before2,
                        s1,
                        s2,
                        actions,
                        a,
                        k1,
                        ss1,
                        last1,
                        e1,
                        after1,
                        ss2,
                        last2,
                        e2,
                        after2,
                    );
                }
            },
        }
    }

    /// What a monitored run answers, without the report of the gates.
    pub open spec fn without_gates(r: Result<(State, Trace, GateReport), AriaError>) -> Result<
        (State, Trace),
        AriaError,
    > {
        match r {
            Ok((s, trace, gates)) => Ok((s, trace)),
            Err(e) => Err(e),
        }
    }

    /// What a run that keeps its latents answers, without them and without the report of
    /// the gates.
    pub open spec fn without_latents(
        r: Result<(State, Trace, GateReport, Vec<Vec<Real>>), AriaError>,
    ) -> Result<(State, Trace), AriaError> {
        match r {
            Ok((s, trace, gates, latents)) => Ok((s, trace)),
            Err(e) => Err(e),
        }
    }

    /// Gates are passive: whatever gates a configuration enables, and whoever watches for
    /// them, the run is the one that nobody watches. It completes with the same state and
    /// the same trace, or fails with the same error, and it leaves the schedule in the same
    /// place.
    pub proof fn gates_change_nothing<M: Monitor, S: Schedule>(
        before: Self,
        gates: GateConfig,
        s1: State,
        s2: State,
        schedule: S,
        steps: nat,
        a: Condition,
        plain: Result<(State, Trace), AriaError>,
        after1: Self,
        rest1: S,
        watched: Result<(State, Trace, GateReport), AriaError>,
        after2: Self,
        rest2: S,
    )
        requires
            s1@ == s2@,
            Self::completed(before, s1, schedule, steps, a, plain, after1, rest1),
            Self::monitored::<M, S>(
                (Engine { config: AriaConfig { gates, ..before.config }, ..before }),
                s2,
                schedule,
                steps,
                a,
                watched,
                after2,
                rest2,
            ),
        ensures
            Self::runs_agree(plain, Self::without_gates(watched)),
            plain is Ok ==> plain->Ok_0.1.header() == watched->Ok_0.1.header(),
            rest1 == rest2,
    {
        let other = Engine { config: AriaConfig { gates, ..before.config }, ..before };
        let r2 = Self::without_gates(watched);
        assert(Self::completed(other, s2, schedule, steps, a, r2, after2, rest2));
        Self::runs_are_determined(
            before,
            other,
            s1,
            s2,
            schedule,
            steps,
            a,
            plain,
            after1,
            rest1,
            r2,
            after2,
            rest2,
        );
    }

    /// Keeping latents changes nothing: the run fails exactly where the plain one does and
    /// with the same error; otherwise it gives the same state, the same trace and the same
    /// report of the gates. There is one latent per step, that of the state after it, and
    /// the last is that of the last state. The schedule is left in the same place.
    pub proof fn latents_change_nothing<M: Monitor, S: Schedule>(
        before: Self,
        s1: State,
        s2: State,
        schedule: S,
        steps: nat,
        a: Condition,
        plain: Result<(State, Trace, GateReport), AriaError>,
        after1: Self,
        rest1: S,
        kept: Result<(State, Trace, GateReport, Vec<Vec<Real>>), AriaError>,
        after2: Self,
        rest2: S,
    )
        requires
            s1@ == s2@,
            Self::monitored::<M, S>(before, s1, schedule, steps, a, plain, after1, rest1),
            Self::latents_kept::<M, S>(before, s2, schedule, steps, a, kept, after2, rest2),
        ensures
            Self::runs_agree(Self::without_gates(plain), Self::without_latents(kept)),
            rest1 == rest2,
            match (plain, kept) {
                (Ok((l1, t1, gates1)), Ok((l2, t2, gates2, latents))) => {
                    &&& t1.header() == t2.header()
                    &&& gates1@ == gates2@
                    &&& latents@.len() == steps
                    &&& steps > 0 ==> latents@.last()@ == l1.z@
                    &&& exists|ss: Seq<State>| #[trigger]
                        Self::ran(before, s1, drawn(schedule, steps), a, ss, t1, after1)
                            && Self::shows_latents(latents@, ss)
                },
                _ => true,
            },
    {
        let actions = drawn(schedule, steps);
        draws_begin_alike(schedule, steps, steps);
        let r1 = Self::without_gates(plain);
        let r2 = Self::without_latents(kept);
        assert(Self::completed(before, s1, schedule, steps, a, r1, after1, rest1));
        assert(Self::completed(before, s2, schedule, steps, a, r2, after2, rest2));
        Self::runs_are_determined(
            before,
            before,
            s1,
            s2,
            schedule,
            steps,
            a,
            r1,
            after1,
            rest1,
            r2,
            after2,
            rest2,
        );
        match (plain, kept) {
            (Ok((l1, t1, gates1)), Ok((l2, t2, gates2, latents))) => {
                let ss1 = choose|ss: Seq<State>|
                    {
                        &&& #[trigger] Self::ran(before, s1, actions, a, ss, t1, after1)
                        &&& gates1@ == before.overseen::<M>(ss, actions, a)
                        &&& ss.last() == l1
                    };
                let ss2 = choose|ss: Seq<State>|
                    {
                        &&& #[trigger] Self::ran(before, s2, actions, a, ss, t2, after2)
                        &&& gates2@ == before.overseen::<M>(ss, actions, a)
                        &&& ss.last() == l2
                        &&& Self::shows_latents(latents@, ss)
                    };
                Self::alike_runs_agree(
                    before,
                    before,
                    s1,
                    s2,
                    actions,
                    a,
                    ss1,
                    t1,
                    after1,
                    ss2,
                    t2,
                    after2,
                );
                before.watchers_agree::<M>(ss1, actions, ss2, actions, a, actions.len());
                assert forall|i: int| 0 <= i < latents@.len() implies (#[trigger] latents@[i])@
                    == ss1[i + 1].z@ by {
                    assert(latents@[i]@ == ss2[i + 1].z@);
                    assert(ss1[i + 1]@ == ss2[i + 1]@);
                    assert(ss1[i + 1]@.z == ss2[i + 1]@.z);
                }
                assert(Self::shows_latents(latents@, ss1));
                if steps > 0 {
                    assert(latents@[steps - 1]@ == ss1[steps as int].z@);
                }
            },
            _ => {},
        }
    }

    /// A strict success is green: a step that succeeds under strict checking leads to a
    /// state on which every later check holds.
    pub proof fn strict_success_is_green(
        before: Self,
        s: StateView,
        action: Action,
        a: Condition,
        next: State,
        after: Self,
    )
        requires
            before.config.strict,
            Self::applies(before, s, action, a, Ok(next), after),
        ensures
            after.report_of(next@, a).green(),
    {
        Self::strictness_decides(before, s, action, a, Ok(next), after);
        Self::operators_are_kept(before, s, action, a, Ok(next), after);
    }

    /// Under strict checking all invariants hold of every state that a walk passes through
    /// after its start.
    pub proof fn strict_walks_are_green(
        before: Self,
        s: State,
        actions: Seq<Action>,
        a: Condition,
        ss: Seq<State>,
        after: Self,
        i: int,
    )
        requires
            before.config.strict,
            Self::completes(before, s, actions, a, ss, after),
            0 < i <= actions.len(),
        ensures
            before.report_of(ss[i]@, a).green(),
            after.report_of(ss[i]@, a).green(),
    {
        let es = choose|es: Seq<Self>| #[trigger]
            Self::walks(es, ss, actions, a) && es[0] == before && ss[0] == s && es.last() == after;
        let k = i - 1;
        Self::walks_begin(es, ss, actions, a, k);
        Self::clock_counts_diffusions(es.take(k + 1), ss.take(k + 1), actions.take(k), a);
        Self::clock_counts_diffusions(es, ss, actions, a);
        assert(Self::applies(es[k], ss[k]@, actions[k], a, Ok(ss[k + 1]), es[k + 1]));
        Self::strictness_decides(es[k], ss[k]@, actions[k], a, Ok(ss[k + 1]), es[k + 1]);
    }

    /// Leniency changes no state: where a strict engine succeeds, the lenient one succeeds
    /// with a state that looks the same, and only for a broken invariant do the two differ.
    pub proof fn leniency_keeps_the_state(
        strict: Self,
        lenient: Self,
        s: StateView,
        action: Action,
        a: Condition,
        r1: Result<State, AriaError>,
        after1: Self,
        r2: Result<State, AriaError>,
        after2: Self,
    )
        requires
            strict.config.strict,
            lenient == (Engine { config: AriaConfig { strict: false, ..strict.config }, ..strict }),
            Self::applies(strict, s, action, a, r1, after1),
            Self::applies(lenient, s, action, a, r2, after2),
        ensures
            r1 is Ok ==> outcome(r1) == outcome(r2) && after1.graph_backend == after2.graph_backend,
            r1 matches Err(e) ==> e is InvariantViolation || outcome(r1) == outcome(r2),
            !(r2 matches Err(AriaError::InvariantViolation(_))),
    {
        reveal(Engine::applies);
        assert(strict.attempt(s, action, a) == lenient.attempt(s, action, a));
    }

    /// The same engine, started on the same field and graph and run along the same
    /// actions, writes the same trace line for line.
    pub proof fn same_input_same_trace(
        before: Self,
        psi0: Seq<Complex>,
        g0: GraphView,
        actions: Seq<Action>,
        a: Condition,
        s1: State,
        ss1: Seq<State>,
        trace1: Trace,
        after1: Self,
        s2: State,
        ss2: Seq<State>,
        trace2: Trace,
        after2: Self,
    )
        requires
            before.started(psi0, g0, a) == Ok::<StateView, ErrorView>(s1@),
            before.started(psi0, g0, a) == Ok::<StateView, ErrorView>(s2@),
            Self::ran(before, s1, actions, a, ss1, trace1, after1),
            Self::ran(before, s2, actions, a, ss2, trace2, after2),
        ensures
            ss1.last()@ == ss2.last()@,
            trace_lines(trace1.header(), trace1.steps()) == trace_lines(
                trace2.header(),
                trace2.steps(),
            ),
    {
        Self::runs_are_reproducible(
            before,
            s1,
            s2,
            actions,
            a,
            ss1,
            trace1,
            after1,
            ss2,
            trace2,
            after2,
        );
    }

    /// A completed run recorded one entry per action, and every entry shows the clock
    /// before its step and the symbol of the action taken.
    pub proof fn traces_are_complete(
        before: Self,
        s: State,
        actions: Seq<Action>,
        a: Condition,
        ss: Seq<State>,
        trace: Trace,
        after: Self,
    )
        requires
            Self::ran(before, s, actions, a, ss, trace, after),
        ensures
            trace.steps().len() == actions.len(),
            ss.last().t == s.t + diffusions(actions),
            forall|i: int|
                0 <= i < actions.len() ==> {
                    &&& (#[trigger] trace.steps()[i]).action == crate::action::symbol_of(actions[i])
                    &&& trace.steps()[i].t == s.t + diffusions(actions.take(i))
                },
    {
        let es = choose|es: Seq<Self>| #[trigger]
            Self::walks(es, ss, actions, a) && es[0] == before && ss[0] == s && es.last() == after;
        Self::clock_counts_diffusions(es, ss, actions, a);
        assert forall|i: int| 0 <= i < actions.len() implies {
            &&& (#[trigger] trace.steps()[i]).action == crate::action::symbol_of(actions[i])
            &&& trace.steps()[i].t == s.t + diffusions(actions.take(i))
        } by {
            let fewer = actions.take(i);
            let es_i = es.take(i + 1);
            let ss_i = ss.take(i + 1);
            assert forall|j: int| 0 <= j < fewer.len() implies Self::applies(
                #[trigger] es_i[j],
                ss_i[j]@,
                fewer[j],
                a,
                Ok(ss_i[j + 1]),
                es_i[j + 1],
            ) by {
                assert(Self::applies(es[j], ss[j]@, actions[j], a, Ok(ss[j + 1]), es[j + 1]));
            }
            Self::clock_counts_diffusions(es_i, ss_i, fewer, a);
        }
    }
}

} // verus!
