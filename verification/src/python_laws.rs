//! What the classes of the Python extension are for.

use vstd::prelude::*;

use crate::action::Action;
use crate::backend::{
    drawn, Diffuser, GraphBackend, Invariants, Monitor, OpticalBackend, Predictor, Schedule,
};
use crate::condition::Condition;
use crate::config::{AriaConfig, Gate};
use crate::engine::Engine;
use crate::engine_laws::a_cycle_goes_round_the_operators;
use crate::error::{AriaError, InvariantReport};
use crate::graph::{empty_graph, Graph};
use crate::json::Numerals;
use crate::python::{
    greedy, greedy_is_argmax, run_trace_jsonl, ConfigArgs, PyAriaEngine, PyConfig,
    PyInvariantReport, PyReadout, PyState, PyTokenizer, Raised, ReadoutKind, TraceFailure,
};
use crate::runner::{runs_out, RunOutcome};
use crate::scalar::{Complex, Real};
use crate::state::State;
use crate::text::{broken_lines, numeral};
use crate::trace::{trace_lines, Trace};

verus! {

/// Each argument of `Config` sets its own setting, and without it the setting is the
/// default. Gates that are asked for take the stutter budget that the configuration has;
/// strict checking can be turned on and off; and no argument touches the energy tolerance,
/// the policies, the merge distance, the optical backend or the vocabulary.
pub proof fn config_arguments_set_their_own(
    defaults: AriaConfig,
    args: ConfigArgs,
    c: PyConfig,
)
    requires
        call_ensures(PyConfig::new, (defaults, args), Ok::<PyConfig, Raised>(c)),
    ensures
        c.inner.n_modes == (match args.n_modes {
            Some(v) => v,
            None => defaults.n_modes,
        }),
        c.inner.latent_dim == (match args.latent_dim {
            Some(v) => v,
            None => defaults.latent_dim,
        }),
        c.inner.eps == (match args.eps {
            Some(v) => v,
            None => defaults.eps,
        }),
        c.inner.stutter_k == (match args.stutter_k {
            Some(v) => v,
            None => defaults.stutter_k,
        }),
        c.inner.schedule == (match args.schedule {
            Some(v) => v,
            None => defaults.schedule,
        }),
        c.inner.seed == (match args.seed {
            Some(v) => Some(v),
            None => defaults.seed,
        }),
        c.inner.strict == (match args.strict {
            Some(v) => v,
            None => defaults.strict,
        }),
        c.inner.max_graph_size == (match args.max_graph_size {
            Some(v) => v,
            None => defaults.max_graph_size,
        }),
        c.inner.allow_sub_spec_dims == (match args.allow_sub_spec_dims {
            Some(v) => v,
            None => defaults.allow_sub_spec_dims,
        }),
        args.condition matches Some(asked) ==> asked == Ok::<Condition, String>(
            c.inner.condition,
        ),
        args.condition is None ==> c.inner.condition == defaults.condition,
        args.gates matches Some(asked) ==> asked == Ok::<Vec<Gate>, String>(
            c.inner.gates.enabled,
        ) && c.inner.gates.stutter_k == c.inner.stutter_k,
        args.gates is None ==> c.inner.gates == defaults.gates,
        c.inner.eps_energy == defaults.eps_energy,
        c.inner.match_policy == defaults.match_policy,
        c.inner.diff_policy == defaults.diff_policy,
        c.inner.merge_tau == defaults.merge_tau,
        c.inner.optical == defaults.optical,
        c.inner.vocab_size == defaults.vocab_size,
{
}

/// A configuration is refused where, and only where, the condition or the gates could not be
/// read; the condition comes first.
pub proof fn config_complains_in_order(
    defaults: AriaConfig,
    args: ConfigArgs,
    r: Result<PyConfig, Raised>,
)
    requires
        call_ensures(PyConfig::new, (defaults, args), r),
    ensures
        r is Err <==> (args.condition is Some && args.condition->Some_0 is Err) || (args.gates
            is Some && args.gates->Some_0 is Err),
        r matches Err(raised) ==> {
            &&& raised is Value
            &&& if args.condition is Some && args.condition->Some_0 is Err {
                args.condition == Some(Err::<Condition, String>(raised->Value_0))
            } else {
                args.gates == Some(Err::<Vec<Gate>, String>(raised->Value_0))
            }
        },
{
}

/// An engine made in Python runs under the condition of its configuration: it starts, acts,
/// goes round and checks under it.
pub proof fn python_engines_keep_their_condition<O, P, G, D, C>(
    engine: Engine<O, P, G, D, C>,
    made: PyAriaEngine<O, P, G, D, C>,
    psi0: Vec<Complex>,
    start: PyState,
) where O: OpticalBackend, P: Predictor, G: GraphBackend, D: Diffuser, C: Invariants
    requires
        call_ensures(PyAriaEngine::<O, P, G, D, C>::new, (engine,), made),
        call_ensures(
            PyAriaEngine::<O, P, G, D, C>::init,
            (&made, psi0),
            Ok::<PyState, Raised>(start),
        ),
    ensures
        made.engine == engine,
        made.condition == engine.config.condition,
        start.inner.psi@ == psi0@,
        start.inner.z@ == engine.predictor.embedding(psi0@),
        start.inner.g@.nodes.len() == 0,
        start.inner.g@.edges.len() == 0,
        start.inner.t == 0,
        start.inner.energy_0 == engine.optical.field_energy(psi0@),
        start.inner.prev_res == engine.predictor.distance(
            start.inner.z@,
            engine.predictor.prediction(start.inner.z@, engine.config.condition),
        ),
{
    assert(start.inner@ == engine.initiated(
        psi0@,
        empty_graph(),
        engine.config.condition,
    )->Ok_0);
    assert(start.inner@.psi == psi0@);
    assert(start.inner@.g == empty_graph());
}

/// An action taken in Python is the engine's, on the state that was handed in and under the
/// engine's own condition.
pub proof fn python_actions_are_the_engines<O, P, G, D, C>(
    e: &mut PyAriaEngine<O, P, G, D, C>,
    state: PyState,
    action: Action,
    next: PyState,
) where O: OpticalBackend, P: Predictor, G: GraphBackend, D: Diffuser, C: Invariants
    requires
        call_ensures(
            PyAriaEngine::<O, P, G, D, C>::take_action,
            (e, &state, action),
            Ok::<PyState, Raised>(next),
        ),
    ensures
        final(e).condition == old(e).condition,
        Engine::applies(
            old(e).engine,
            state.inner@,
            action,
            old(e).condition,
            Ok(next.inner),
            final(e).engine,
        ),
        action == Action::Predict ==> next.inner.z@ == old(e).engine.predictor.prediction(
            old(e).engine.predictor.embedding(state.inner.psi@),
            old(e).condition,
        ),
        action == Action::OpticalStep ==> next.inner.psi@ == old(e).engine.optical.stepped(
            state.inner.t,
            state.inner.psi@,
        ),
        action == Action::Diffuse ==> next.inner.z@ == old(e).engine.diffuser.diffused(
            state.inner.g@,
            state.inner.z@,
            old(e).engine.config.diff_policy@,
        ),
        action == Action::Stutter ==> next.inner@ == state.inner@,
{
    reveal(Engine::applies);
}

/// An action taken in Python by name is the one that the name stands for, in capitals or
/// small letters: its symbol and its full name both give it.
pub proof fn python_actions_go_by_name<O, P, G, D, C>(
    e: &mut PyAriaEngine<O, P, G, D, C>,
    state: PyState,
    name: &str,
    action: Action,
    r: Result<PyState, Raised>,
) where O: OpticalBackend, P: Predictor, G: GraphBackend, D: Diffuser, C: Invariants
    requires
        name@ == crate::action::symbol_of(action) || name@ == crate::action::name_of(action),
        call_ensures(PyAriaEngine::<O, P, G, D, C>::apply, (e, &state, name), r),
    ensures
        match r {
            Ok(next) => Engine::applies(
                old(e).engine,
                state.inner@,
                action,
                old(e).condition,
                Ok(next.inner),
                final(e).engine,
            ),
            Err(raised) => raised is Failed && Engine::applies(
                old(e).engine,
                state.inner@,
                action,
                old(e).condition,
                Err(raised->Failed_0),
                final(e).engine,
            ),
        },
        final(e).condition == old(e).condition,
{
    crate::action::names_read_back(action);
}

/// What fails in Python is raised by its kind: a start that does not fit is rejected, with
/// the complaint of the engine; an action or a cycle that fails has failed; a name that stands
/// for no action is a value that is quoted, in small letters, and leaves the engine as it was.
pub proof fn python_failures_are_raised_by_kind<O, P, G, D, C>(
    made: PyAriaEngine<O, P, G, D, C>,
    psi0: Vec<Complex>,
    g0: Graph,
    raised: Raised,
    why: Result<State, AriaError>,
    e: &mut PyAriaEngine<O, P, G, D, C>,
    state: PyState,
    name: &str,
    r: Result<PyState, Raised>,
) where O: OpticalBackend, P: Predictor, G: GraphBackend, D: Diffuser, C: Invariants
    requires
        call_ensures(
            PyAriaEngine::<O, P, G, D, C>::init,
            (&made, psi0),
            Err::<PyState, Raised>(raised),
        ),
        g0@ == empty_graph(),
        call_ensures(Engine::<O, P, G, D, C>::init, (&made.engine, psi0, g0, made.condition), why),
        crate::action::action_named(crate::text::lowered(name@)) is None,
        call_ensures(PyAriaEngine::<O, P, G, D, C>::apply, (e, &state, name), r),
    ensures
        raised is Rejected,
        why is Err && raised->Rejected_0@ == why->Err_0@,
        r is Err && r->Err_0 is Value,
        r->Err_0->Value_0@ == "unknown action '"@ + crate::text::lowered(name@)
            + "' (expected OpticalStep|Predict|Match|Diffuse|Stutter)"@,
        final(e).engine == old(e).engine,
{
}

/// An action that fails in Python fails as the engine does.
pub proof fn python_actions_fail_as_the_engine<O, P, G, D, C>(
    e: &mut PyAriaEngine<O, P, G, D, C>,
    state: PyState,
    action: Action,
    raised: Raised,
) where O: OpticalBackend, P: Predictor, G: GraphBackend, D: Diffuser, C: Invariants
    requires
        call_ensures(
            PyAriaEngine::<O, P, G, D, C>::take_action,
            (e, &state, action),
            Err::<PyState, Raised>(raised),
        ),
    ensures
        raised is Failed,
        Engine::applies(
            old(e).engine,
            state.inner@,
            action,
            old(e).condition,
            Err(raised->Failed_0),
            final(e).engine,
        ),
{
}

/// A cycle in Python goes round the engine's operators under the engine's own condition.
pub proof fn python_cycles_are_the_engines<O, P, G, D, C>(
    e: &mut PyAriaEngine<O, P, G, D, C>,
    state: PyState,
    next: PyState,
) where O: OpticalBackend, P: Predictor, G: GraphBackend, D: Diffuser, C: Invariants
    requires
        call_ensures(
            PyAriaEngine::<O, P, G, D, C>::step_phi,
            (e, &state),
            Ok::<PyState, Raised>(next),
        ),
    ensures
        ({
            let was = old(e).engine;
            let turned = was.optical.stepped(state.inner.t, state.inner.psi@);
            let z = was.predictor.prediction(was.predictor.embedding(turned), old(e).condition);
            &&& next.inner.psi@ == turned
            &&& next.inner.z@ == was.diffuser.diffused(
                next.inner.g@,
                z,
                was.config.diff_policy@,
            )
            &&& next.inner.t == state.inner.t + 1
            &&& next.inner.energy_0 == state.inner.energy_0
        }),
        final(e).condition == old(e).condition,
{
    let was = old(e).engine;
    let a = old(e).condition;
    let st = choose|st: State|
        (#[trigger] st@) == state.inner@ && crate::growth::cycled(
            was,
            st,
            a,
            next.inner,
            final(e).engine,
        );
    let ss = choose|ss: Seq<State>| #[trigger]
        Engine::completes(was, st, crate::engine::phi_cycle(), a, ss, final(e).engine)
            && ss.last() == next.inner;
    a_cycle_goes_round_the_operators(was, st, a, ss, final(e).engine);
    assert(st@.psi == state.inner@.psi && st@.t == state.inner@.t);
    assert(st@.energy_0 == state.inner@.energy_0);
}

/// A check in Python is that of the engine under its own condition.
pub proof fn python_checks_are_the_engines<O, P, G, D, C>(
    e: PyAriaEngine<O, P, G, D, C>,
    state: PyState,
    r: InvariantReport,
) where O: OpticalBackend, P: Predictor, G: GraphBackend, D: Diffuser, C: Invariants
    requires
        call_ensures(PyAriaEngine::<O, P, G, D, C>::check, (&e, &state), r),
    ensures
        r == e.engine.invariants.report(
            state.inner@,
            e.engine.predictor.distance(
                state.inner.z@,
                e.engine.predictor.prediction(
                    e.engine.predictor.embedding(state.inner.psi@),
                    e.condition,
                ),
            ),
            e.engine.config.eps,
            e.engine.config.eps_energy,
            e.engine.config.n_modes,
            e.engine.config.latent_dim,
        ),
{
}

/// A report in Python shows each invariant under its own number, and all are well exactly
/// where each is.
pub proof fn python_reports_show_each_invariant(
    report: InvariantReport,
    failures: Vec<String>,
    r: PyInvariantReport,
    all_ok: bool,
)
    requires
        call_ensures(PyInvariantReport::new, (&report, failures), r),
        call_ensures(PyInvariantReport::all_ok, (&r,), all_ok),
    ensures
        r.inv1 == report.inv1_ok,
        r.inv2 == report.inv2_ok,
        r.inv3 == report.inv3_ok,
        r.inv4 == report.inv4_ok,
        r.failures == failures,
        all_ok == report.green(),
{
}

/// A state in Python shows its own clock, residual, latent and field, and the nodes and
/// edges of its graph together.
pub proof fn python_states_show_themselves(
    state: PyState,
    t: u64,
    prev_res: Real,
    graph_size: usize,
    z: Vec<Real>,
    psi: Vec<(Real, Real)>,
    i: int,
)
    requires
        call_ensures(PyState::t, (&state,), t),
        call_ensures(PyState::prev_res, (&state,), prev_res),
        call_ensures(PyState::graph_size, (&state,), graph_size),
        call_ensures(PyState::z, (&state,), z),
        call_ensures(PyState::psi, (&state,), psi),
        0 <= i < state.inner.psi@.len(),
    ensures
        t == state.inner.t,
        prev_res == state.inner.prev_res,
        state.inner.g@.nodes.len() + state.inner.g@.edges.len() <= usize::MAX ==> graph_size
            == state.inner.g@.nodes.len() + state.inner.g@.edges.len(),
        z@ == state.inner.z@,
        psi@.len() == state.inner.psi@.len(),
        psi@[i].0 == state.inner.psi@[i].re,
        psi@[i].1 == state.inner.psi@[i].im,
{
}

/// The text of a run in Python is that of the trace of a run that started on the given field
/// and a graph without nodes and edges, under the configured condition, and took as many of
/// the scheduled actions as were asked for.
pub proof fn python_traces_are_of_their_run<O, P, G, D, C, M, S, N>(
    e: &mut Engine<O, P, G, D, C>,
    psi0: Vec<Complex>,
    schedule: &mut S,
    steps: u64,
    numerals: N,
    text: String,
) where
    O: OpticalBackend,
    P: Predictor,
    G: GraphBackend,
    D: Diffuser,
    C: Invariants,
    M: Monitor,
    S: Schedule,
    N: Numerals,

    requires
        call_ensures(
            run_trace_jsonl::<O, P, G, D, C, M, S, N>,
            (e, psi0, schedule, steps, &numerals),
            Ok::<String, TraceFailure>(text),
        ),
    ensures
        exists|ss: Seq<State>, trace: Trace|
            {
                &&& #[trigger] Engine::ran(
                    *old(e),
                    ss[0],
                    drawn(*old(schedule), steps as nat),
                    old(e).config.condition,
                    ss,
                    trace,
                    *final(e),
                )
                &&& ss[0].psi@ == psi0@
                &&& ss[0].z@ == old(e).predictor.embedding(psi0@)
                &&& ss[0].g@.nodes.len() == 0
                &&& ss[0].g@.edges.len() == 0
                &&& ss[0].t == 0
                &&& text@ == broken_lines(trace_lines(trace.header(), trace.steps()))
            },
{
    let before = *old(e);
    let after = *final(e);
    let a = before.config.condition;
    let n = steps as nat;
    let actions = drawn(*old(schedule), n);
    let ran = choose|ran: Result<RunOutcome, AriaError>|
        {
            &&& #[trigger] runs_out::<O, P, G, D, C, M, S>(
                before,
                psi0@,
                empty_graph(),
                *old(schedule),
                n,
                ran,
                after,
                *final(schedule),
            )
            &&& match ran {
                Err(_) => false,
                Ok(o) => text@ == o.jsonl(),
            }
        };
    let o = ran->Ok_0;
    let start = before.initiated(psi0@, empty_graph(), a)->Ok_0;
    let s = choose|s: State| #[trigger]
        s@ == start && Engine::monitored::<M, S>(
            before,
            s,
            *old(schedule),
            n,
            a,
            Ok((o.state, o.trace, o.gates)),
            after,
            *final(schedule),
        );
    let ss = choose|ss: Seq<State>|
        {
            &&& #[trigger] Engine::ran(before, s, actions, a, ss, o.trace, after)
            &&& o.gates@ == before.overseen::<M>(ss, actions, a)
            &&& ss.last() == o.state
        };
    assert(s@.psi == psi0@ && s@.g == empty_graph());
    assert(Engine::ran(before, ss[0], actions, a, ss, o.trace, after));
}

/// Greedy decoding gives the position of a largest logit, and of the first of them. Only a
/// discrete head decodes to a token.
pub proof fn decoding_picks_the_first_largest(
    readout: PyReadout,
    logits: Vec<Real>,
    r: Result<u32, Raised>,
)
    requires
        0 < logits@.len() <= u32::MAX,
        forall|j: int| 0 <= j < logits@.len() ==> !(#[trigger] logits@[j]).nan(),
        call_ensures(PyReadout::decode_id, (&readout, &logits), r),
    ensures
        r is Ok <==> readout.kind == ReadoutKind::Discrete,
        r matches Ok(id) ==> {
            &&& id < logits@.len()
            &&& forall|j: int|
                0 <= j < logits@.len() ==> (#[trigger] logits@[j]).at_most(logits@[id as int])
            &&& forall|j: int|
                0 <= j < id ==> logits@[id as int].above(#[trigger] logits@[j])
        },
{
    greedy_is_argmax(logits@);
    assert(greedy(logits@) as u32 as int == greedy(logits@));
}

/// A method that needs a head of one kind is refused for a head of the other, and only then.
pub proof fn readouts_are_asked_for_their_kind(
    readout: PyReadout,
    what: &str,
    wanted: ReadoutKind,
    r: Result<(), Raised>,
)
    requires
        call_ensures(PyReadout::require, (&readout, what, wanted), r),
    ensures
        r is Ok <==> readout.kind == wanted,
        r matches Err(raised) ==> raised is Value && raised->Value_0@ == what@ + " requires a "@
            + (match wanted {
            ReadoutKind::Discrete => "discrete"@,
            ReadoutKind::Continuous => "continuous"@,
        }) + " readout"@,
{
}

/// A configuration is shown with its own modes, latent dimension, tolerance, schedule and
/// condition, each under its name.
pub proof fn configs_are_shown(c: PyConfig, eps: &str, r: String)
    requires
        call_ensures(PyConfig::repr, (&c, eps), r),
    ensures
        r@ == "Config(n_modes="@ + numeral(c.inner.n_modes as nat) + ", latent_dim="@ + numeral(
            c.inner.latent_dim as nat,
        ) + ", eps="@ + eps@ + ", schedule='"@ + c.inner.schedule@ + "', condition='"@ + (
        match c.inner.condition {
            Condition::Token => "token"@,
            Condition::Diffusion => "diffusion"@,
            Condition::WorldModel => "world_model"@,
        }) + "')"@,
{
}

/// What a configuration gives back is what it holds.
pub proof fn configs_give_back_what_they_hold(
    c: PyConfig,
    n_modes: usize,
    latent_dim: usize,
    eps: Real,
    schedule: String,
    condition: String,
)
    requires
        call_ensures(PyConfig::n_modes, (&c,), n_modes),
        call_ensures(PyConfig::latent_dim, (&c,), latent_dim),
        call_ensures(PyConfig::eps, (&c,), eps),
        call_ensures(PyConfig::schedule, (&c,), schedule),
        call_ensures(PyConfig::condition, (&c,), condition),
    ensures
        n_modes == c.inner.n_modes,
        latent_dim == c.inner.latent_dim,
        eps == c.inner.eps,
        schedule@ == c.inner.schedule@,
        condition@ == (match c.inner.condition {
            Condition::Token => "token"@,
            Condition::Diffusion => "diffusion"@,
            Condition::WorldModel => "world_model"@,
        }),
{
}

/// An engine is shown with the modes, the latent dimension and the tolerance of its
/// configuration and the condition it runs under; a state with its clock, energy and graph
/// size.
pub proof fn engines_and_states_are_shown<O, P, G, D, C>(
    e: PyAriaEngine<O, P, G, D, C>,
    eps: &str,
    engine: String,
    state: PyState,
    energy: &str,
    shown: String,
) where O: OpticalBackend, P: Predictor, G: GraphBackend, D: Diffuser, C: Invariants
    requires
        call_ensures(PyAriaEngine::<O, P, G, D, C>::repr, (&e, eps), engine),
        call_ensures(PyState::repr, (&state, energy), shown),
    ensures
        engine@ == "AriaEngine(n_modes="@ + numeral(e.engine.config.n_modes as nat)
            + ", latent_dim="@ + numeral(e.engine.config.latent_dim as nat) + ", eps="@ + eps@
            + ", condition='"@ + (match e.condition {
            Condition::Token => "token"@,
            Condition::Diffusion => "diffusion"@,
            Condition::WorldModel => "world_model"@,
        }) + "')"@,
        state.inner.g@.nodes.len() + state.inner.g@.edges.len() <= usize::MAX ==> shown@
            == "State(t="@ + numeral(state.inner.t as nat) + ", energy="@ + energy@ + ", |G|="@
            + numeral(state.inner.g@.nodes.len() + state.inner.g@.edges.len()) + ")"@,
{
}

/// A report is shown with each invariant under its own number; a readout with its kind and
/// dimension; a tokenizer with the size of its vocabulary.
pub proof fn reports_and_heads_are_shown(
    report: PyInvariantReport,
    shown: String,
    readout: PyReadout,
    head: String,
    tokenizer: PyTokenizer,
    vocabulary: String,
)
    requires
        call_ensures(PyInvariantReport::repr, (&report,), shown),
        call_ensures(PyReadout::repr, (&readout,), head),
        call_ensures(PyTokenizer::repr, (&tokenizer,), vocabulary),
    ensures
        shown@ == "InvariantReport(inv1="@ + (if report.inv1 {
            "true"@
        } else {
            "false"@
        }) + ", inv2="@ + (if report.inv2 {
            "true"@
        } else {
            "false"@
        }) + ", inv3="@ + (if report.inv3 {
            "true"@
        } else {
            "false"@
        }) + ", inv4="@ + (if report.inv4 {
            "true"@
        } else {
            "false"@
        }) + ")"@,
        head@ == "Readout(kind='"@ + (match readout.kind {
            ReadoutKind::Discrete => "discrete"@,
            ReadoutKind::Continuous => "continuous"@,
        }) + "', dim="@ + numeral(readout.dim as nat) + ")"@,
        vocabulary@ == "Tokenizer(vocab_size="@ + numeral(tokenizer.vocab_size as nat) + ")"@,
{
}

} // verus!
