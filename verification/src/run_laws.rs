//! What runs, their traces and their verification are for.
//!
//! The laws of this module say what a whole run hands out in terms of the states that it
//! passed through and of the operators of its engine.

use vstd::prelude::*;

use crate::action::Action;
use crate::audit::tally;
use crate::backend::{
    drawn, draws_begin_alike, rest_of, Diffuser, GraphBackend, Invariants, Monitor,
    OpticalBackend, Predictor, Schedule,
};
use crate::condition::Condition;
use crate::engine::{Engine, RunSummary};
use crate::engine_laws::{
    diffusions_go_over_the_graph, matches_make_the_proposed_edits, optical_steps_turn_the_field,
    predictions_follow_the_condition, stutters_change_nothing,
};
use crate::error::{AriaError, ErrorView, InvariantReport};
use crate::gates::GateReport;
use crate::graph::Graph;
use crate::runner::{latents_with, run_with_graph, RunOutcome};
use crate::scalar::{Complex, Real};
use crate::state::State;
use crate::trace::{Trace, TraceEntry};
use crate::verify::{
    begin, found, surveyed, verify, StepFact, Verification, VerifiedStep, Verifier, VerifyOpts,
    VerifyRun,
};

verus! {

// ---------------------------------------------------------------------------
// Schedules
// ---------------------------------------------------------------------------

/// A schedule hands out its next action first, and then what the schedule behind it hands
/// out.
pub proof fn schedules_hand_out_in_turn<S: Schedule>(schedule: S, n: nat)
    ensures
        drawn(schedule, n + 1) == seq![schedule.dealt().0] + drawn(schedule.dealt().1, n),
        rest_of(schedule, n + 1) == rest_of(schedule.dealt().1, n),
        rest_of(schedule, 0) == schedule,
        drawn(schedule, 0).len() == 0,
    decreases n,
{
    if n > 0 {
        schedules_hand_out_in_turn(schedule, (n - 1) as nat);
        assert(drawn(schedule, n + 1) =~= seq![schedule.dealt().0] + drawn(
            schedule.dealt().1,
            n,
        ));
    } else {
        reveal_with_fuel(drawn, 2);
        reveal_with_fuel(rest_of, 2);
        assert(drawn(schedule, 1) =~= seq![schedule.dealt().0] + drawn(schedule.dealt().1, 0));
    }
}

/// The preferred schedule hands out the cycle: whatever it hands out next, a prediction
/// follows an optical step, a match a prediction, a diffusion a match, and an optical step a
/// diffusion.
pub proof fn the_preferred_schedule_keeps_the_cycle(phi: crate::backend::PhiCycle)
    ensures
        phi.dealt().0 == phi.next,
        phi.next == Action::OpticalStep ==> phi.dealt().1.dealt().0 == Action::Predict,
        phi.next == Action::Predict ==> phi.dealt().1.dealt().0 == Action::Match,
        phi.next == Action::Match ==> phi.dealt().1.dealt().0 == Action::Diffuse,
        phi.next == Action::Diffuse ==> phi.dealt().1.dealt().0 == Action::OpticalStep,
{
}

// ---------------------------------------------------------------------------
// Runs
// ---------------------------------------------------------------------------

/// Every step of a run starts with the operators and the configuration of the run.
proof fn a_step_of_a_run<O, P, G, D, C>(
    before: Engine<O, P, G, D, C>,
    s: State,
    actions: Seq<Action>,
    a: Condition,
    ss: Seq<State>,
    after: Engine<O, P, G, D, C>,
    i: int,
) -> (step: (Engine<O, P, G, D, C>, Engine<O, P, G, D, C>)) where
    O: OpticalBackend,
    P: Predictor,
    G: GraphBackend,
    D: Diffuser,
    C: Invariants,

    requires
        Engine::completes(before, s, actions, a, ss, after),
        0 <= i < actions.len(),
    ensures
        ss.len() == actions.len() + 1,
        ss[0] == s,
        step.0 == before.with_backend(step.0.graph_backend),
        i == 0 ==> step.0 == before,
        Engine::applies(step.0, ss[i]@, actions[i], a, Ok(ss[i + 1]), step.1),
{
    let es = choose|es: Seq<Engine<O, P, G, D, C>>| #[trigger]
        Engine::walks(es, ss, actions, a) && es[0] == before && ss[0] == s && es.last() == after;
    Engine::walks_begin(es, ss, actions, a, i);
    Engine::clock_counts_diffusions(es.take(i + 1), ss.take(i + 1), actions.take(i), a);
    assert(Engine::applies(es[i], ss[i]@, actions[i], a, Ok(ss[i + 1]), es[i + 1]));
    (es[i], es[i + 1])
}

/// Along a run every action does what it is for, with the operators, the settings and the
/// condition of the run: an optical step turns the field at the clock it finds, a prediction
/// takes the latent that is predicted from the field under the run's condition, a diffusion
/// goes over the graph it finds by the configured policy and advances the clock, a stutter
/// leaves the state alone. What an action is not for, it leaves.
pub proof fn runs_follow_their_operators<O, P, G, D, C>(
    before: Engine<O, P, G, D, C>,
    s: State,
    actions: Seq<Action>,
    a: Condition,
    ss: Seq<State>,
    after: Engine<O, P, G, D, C>,
    i: int,
) where O: OpticalBackend, P: Predictor, G: GraphBackend, D: Diffuser, C: Invariants
    requires
        Engine::completes(before, s, actions, a, ss, after),
        0 <= i < actions.len(),
    ensures
        ss.len() == actions.len() + 1,
        ss[0] == s,
        ss[i + 1].energy_0 == s.energy_0,
        ss[i + 1].psi@ == if actions[i] == Action::OpticalStep {
            before.optical.stepped(ss[i].t, ss[i].psi@)
        } else {
            ss[i].psi@
        },
        ss[i + 1].z@ == if actions[i] == Action::Predict {
            before.predictor.prediction(before.predictor.embedding(ss[i].psi@), a)
        } else if actions[i] == Action::Diffuse {
            before.diffuser.diffused(ss[i].g@, ss[i].z@, before.config.diff_policy@)
        } else {
            ss[i].z@
        },
        ss[i + 1].t == ss[i].t + if actions[i] == Action::Diffuse {
            1int
        } else {
            0int
        },
        actions[i] != Action::Match ==> ss[i + 1].g@ == ss[i].g@,
        actions[i] == Action::Match ==> ss[i + 1].g@.nodes.len() + ss[i + 1].g@.edges.len()
            <= before.config.max_graph_size,
        ss[i + 1].prev_res == if actions[i] == Action::Stutter {
            ss[i].prev_res
        } else {
            before.predictor.distance(
                ss[i].z@,
                before.predictor.prediction(before.predictor.embedding(ss[i].psi@), a),
            )
        },
    decreases i,
{
    let (e, next) = a_step_of_a_run(before, s, actions, a, ss, after, i);
    if i > 0 {
        runs_follow_their_operators(before, s, actions, a, ss, after, i - 1);
    }
    match actions[i] {
        Action::OpticalStep => {
            optical_steps_turn_the_field(e, ss[i]@, a, ss[i + 1], next);
        },
        Action::Predict => {
            predictions_follow_the_condition(e, ss[i]@, a, ss[i + 1], next);
        },
        Action::Match => {
            matches_make_the_proposed_edits(e, ss[i]@, a, ss[i + 1], next);
        },
        Action::Diffuse => {
            diffusions_go_over_the_graph(e, ss[i]@, a, ss[i + 1], next);
        },
        Action::Stutter => {
            stutters_change_nothing(e, ss[i]@, a, ss[i + 1], next);
        },
    }
}

/// Along a run the graph and its backend go together: a match makes the edits that the
/// backend of that moment proposes for the graph and the latent it finds, by the configured
/// policy and at the clock it finds, and leaves the backend that mirrored them; any other
/// action leaves both alone. The run starts with the backend of the engine and leaves the
/// last one behind.
pub proof fn backends_follow_the_matches<O, P, G, D, C>(
    before: Engine<O, P, G, D, C>,
    s: State,
    actions: Seq<Action>,
    a: Condition,
    ss: Seq<State>,
    after: Engine<O, P, G, D, C>,
) where O: OpticalBackend, P: Predictor, G: GraphBackend, D: Diffuser, C: Invariants
    requires
        Engine::completes(before, s, actions, a, ss, after),
    ensures
        exists|gs: Seq<G>|
            {
                &&& #[trigger] gs.len() == actions.len() + 1
                &&& gs[0] == before.graph_backend
                &&& after == (Engine { graph_backend: gs.last(), ..before })
                &&& forall|i: int|
                    0 <= i < actions.len() && actions[i] == Action::Match ==> {
                        let ops = (#[trigger] gs[i]).proposal(
                            ss[i].g@,
                            ss[i].z@,
                            before.config.match_policy,
                            None,
                            ss[i].t,
                        );
                        let edited = ss[i].g@.edited(ops, before.config.latent_dim, gs[i]);
                        &&& edited is Ok
                        &&& edited->Ok_0.0 == ss[i + 1].g@
                        &&& gs[i + 1] == gs[i].committed(ops, ss[i + 1].g@)
                    }
                &&& forall|i: int|
                    0 <= i < actions.len() && actions[i] != Action::Match ==> gs[i + 1]
                        == #[trigger] gs[i] && ss[i + 1].g@ == ss[i].g@
            },
{
    let es = choose|es: Seq<Engine<O, P, G, D, C>>| #[trigger]
        Engine::walks(es, ss, actions, a) && es[0] == before && ss[0] == s && es.last() == after;
    let gs = Seq::new(es.len(), |i: int| es[i].graph_backend);
    Engine::clock_counts_diffusions(es, ss, actions, a);
    assert forall|i: int| 0 <= i < actions.len() && actions[i] == Action::Match implies {
        let ops = (#[trigger] gs[i]).proposal(
            ss[i].g@,
            ss[i].z@,
            before.config.match_policy,
            None,
            ss[i].t,
        );
        let edited = ss[i].g@.edited(ops, before.config.latent_dim, gs[i]);
        &&& edited is Ok
        &&& edited->Ok_0.0 == ss[i + 1].g@
        &&& gs[i + 1] == gs[i].committed(ops, ss[i + 1].g@)
    } by {
        Engine::walks_begin(es, ss, actions, a, i);
        Engine::clock_counts_diffusions(es.take(i + 1), ss.take(i + 1), actions.take(i), a);
        assert(Engine::applies(es[i], ss[i]@, actions[i], a, Ok(ss[i + 1]), es[i + 1]));
        matches_make_the_proposed_edits(es[i], ss[i]@, a, ss[i + 1], es[i + 1]);
    }
    assert forall|i: int| 0 <= i < actions.len() && actions[i] != Action::Match implies gs[i + 1]
        == #[trigger] gs[i] && ss[i + 1].g@ == ss[i].g@ by {
        assert(Engine::applies(es[i], ss[i]@, actions[i], a, Ok(ss[i + 1]), es[i + 1]));
        Engine::operators_are_kept(es[i], ss[i]@, actions[i], a, Ok(ss[i + 1]), es[i + 1]);
        runs_follow_their_operators(before, s, actions, a, ss, after, i);
    }
    assert(gs.len() == actions.len() + 1);
}

/// A trace has one entry per step. Each shows the clock before its step, and of the state
/// after its step the residual under the run's condition, the field's energy by the shared
/// sum, and the nodes and edges of the graph together.
pub proof fn traces_show_the_states_after_their_steps<O, P, G, D, C>(
    before: Engine<O, P, G, D, C>,
    s: State,
    actions: Seq<Action>,
    a: Condition,
    ss: Seq<State>,
    trace: Trace,
    after: Engine<O, P, G, D, C>,
    i: int,
) where O: OpticalBackend, P: Predictor, G: GraphBackend, D: Diffuser, C: Invariants
    requires
        Engine::ran(before, s, actions, a, ss, trace, after),
        0 <= i < actions.len(),
    ensures
        trace.steps().len() == actions.len(),
        ss.len() == actions.len() + 1,
        ss[0] == s,
        trace.steps()[i].t == ss[i].t,
        trace.steps()[i].action == (match actions[i] {
            Action::OpticalStep => "O"@,
            Action::Predict => "P"@,
            Action::Match => "M"@,
            Action::Diffuse => "D"@,
            Action::Stutter => "S"@,
        }),
        trace.steps()[i].res == before.predictor.distance(
            ss[i + 1].z@,
            before.predictor.prediction(before.predictor.embedding(ss[i + 1].psi@), a),
        ),
        trace.steps()[i].energy == before.optical.state_energy(ss[i + 1].psi@),
        ss[i + 1].g@.nodes.len() + ss[i + 1].g@.edges.len() <= usize::MAX
            ==> trace.steps()[i].graph_size == ss[i + 1].g@.nodes.len() + ss[i + 1].g@.edges.len(),
        trace.steps()[i].condition == (match a {
            Condition::Token => "token"@,
            Condition::Diffusion => "diffusion"@,
            Condition::WorldModel => "worldmodel"@,
        }),
{
    let (e, next) = a_step_of_a_run(before, s, actions, a, ss, after, i);
}

/// The last entry of a trace shows the size of the graph that the run ends with.
pub proof fn traces_end_with_the_graph_they_leave<O, P, G, D, C>(
    before: Engine<O, P, G, D, C>,
    s: State,
    actions: Seq<Action>,
    a: Condition,
    ss: Seq<State>,
    trace: Trace,
    after: Engine<O, P, G, D, C>,
) where O: OpticalBackend, P: Predictor, G: GraphBackend, D: Diffuser, C: Invariants
    requires
        Engine::ran(before, s, actions, a, ss, trace, after),
        actions.len() > 0,
        ss.last().g@.nodes.len() + ss.last().g@.edges.len() <= usize::MAX,
    ensures
        trace.steps().last().graph_size == ss.last().g@.nodes.len() + ss.last().g@.edges.len(),
{
    traces_show_the_states_after_their_steps(
        before,
        s,
        actions,
        a,
        ss,
        trace,
        after,
        actions.len() - 1,
    );
}

/// The graph size of a trace moves with the matches: the entry of a match differs from the
/// one before it by what the match added to the graph, and the entry of any other action
/// does not differ.
pub proof fn graph_sizes_move_with_the_matches<O, P, G, D, C>(
    before: Engine<O, P, G, D, C>,
    s: State,
    actions: Seq<Action>,
    a: Condition,
    ss: Seq<State>,
    trace: Trace,
    after: Engine<O, P, G, D, C>,
    i: int,
) where O: OpticalBackend, P: Predictor, G: GraphBackend, D: Diffuser, C: Invariants
    requires
        Engine::ran(before, s, actions, a, ss, trace, after),
        0 < i < actions.len(),
        forall|j: int|
            0 <= j < ss.len() ==> (#[trigger] ss[j]).g@.nodes.len() + ss[j].g@.edges.len()
                <= usize::MAX,
    ensures
        actions[i] != Action::Match ==> trace.steps()[i].graph_size
            == trace.steps()[i - 1].graph_size,
        trace.steps()[i].graph_size - trace.steps()[i - 1].graph_size == (
        ss[i + 1].g@.nodes.len() - ss[i].g@.nodes.len()) + (ss[i + 1].g@.edges.len()
            - ss[i].g@.edges.len()),
{
    traces_show_the_states_after_their_steps(before, s, actions, a, ss, trace, after, i);
    traces_show_the_states_after_their_steps(before, s, actions, a, ss, trace, after, i - 1);
    runs_follow_their_operators(before, s, actions, a, ss, after, i);
}

/// The header of a trace records the settings of the run it came from, and the condition
/// that the run was asked for.
pub proof fn headers_record_the_run<O, P, G, D, C>(
    before: Engine<O, P, G, D, C>,
    s: State,
    actions: Seq<Action>,
    a: Condition,
    ss: Seq<State>,
    trace: Trace,
    after: Engine<O, P, G, D, C>,
) where O: OpticalBackend, P: Predictor, G: GraphBackend, D: Diffuser, C: Invariants
    requires
        Engine::ran(before, s, actions, a, ss, trace, after),
    ensures
        trace.config_n_modes == before.config.n_modes,
        trace.config_latent_dim == before.config.latent_dim,
        trace.config_eps == before.config.eps,
        trace.config_seed == before.config.seed,
        trace.config_schedule@ == before.config.schedule@,
        trace.config_condition == a,
        trace.config_match_policy == before.config.match_policy,
{
}

/// A plain run, a monitored run and a run that keeps its latents, where they complete, all
/// take as many actions as were asked for, those that the schedule hands out, from the state
/// and under the condition that they were given, and end in the state they hand out. The
/// schedule is left where the last of these actions left it.
pub proof fn runs_take_the_scheduled_actions<O, P, G, D, C, M, S>(
    e: &mut Engine<O, P, G, D, C>,
    s: State,
    schedule: &mut S,
    steps: u64,
    a: Condition,
    last: State,
    trace: Trace,
    gates: GateReport,
    latents: Vec<Vec<Real>>,
) where
    O: OpticalBackend,
    P: Predictor,
    G: GraphBackend,
    D: Diffuser,
    C: Invariants,
    M: Monitor,
    S: Schedule,

    requires
        ({
            ||| call_ensures(
                Engine::<O, P, G, D, C>::run::<S>,
                (e, s, schedule, steps, a),
                Ok::<(State, Trace), AriaError>((last, trace)),
            )
            ||| call_ensures(
                Engine::<O, P, G, D, C>::run_monitored::<M, S>,
                (e, s, schedule, steps, a),
                Ok::<(State, Trace, GateReport), AriaError>((last, trace, gates)),
            )
            ||| call_ensures(
                Engine::<O, P, G, D, C>::run_monitored_with_latents::<M, S>,
                (e, s, schedule, steps, a),
                Ok::<(State, Trace, GateReport, Vec<Vec<Real>>), AriaError>(
                    (last, trace, gates, latents),
                ),
            )
        }),
    ensures
        trace.steps().len() == steps,
        trace.config_condition == a,
        *final(schedule) == rest_of(*old(schedule), steps as nat),
        exists|ss: Seq<State>|
            {
                &&& #[trigger] Engine::ran(
                    *old(e),
                    s,
                    drawn(*old(schedule), steps as nat),
                    a,
                    ss,
                    trace,
                    *final(e),
                )
                &&& ss.len() == steps + 1
                &&& ss[0] == s
                &&& ss.last() == last
            },
{
    let actions = drawn(*old(schedule), steps as nat);
    draws_begin_alike(*old(schedule), steps as nat, steps as nat);
    let ss = choose|ss: Seq<State>| #[trigger]
        Engine::ran(*old(e), s, actions, a, ss, trace, *final(e)) && ss.last() == last;
    assert(Engine::completes(*old(e), s, actions, a, ss, *final(e)));
    headers_record_the_run(*old(e), s, actions, a, ss, trace, *final(e));
}

/// A run, monitored or not, fails only at an action that was handed out in time: the actions
/// before it succeeded one after the other, under the condition that was asked for, and the
/// error is that of the step that did not.
pub proof fn runs_fail_where_a_step_fails<O, P, G, D, C, M, S>(
    e: &mut Engine<O, P, G, D, C>,
    s: State,
    schedule: &mut S,
    steps: u64,
    a: Condition,
    why: AriaError,
) where
    O: OpticalBackend,
    P: Predictor,
    G: GraphBackend,
    D: Diffuser,
    C: Invariants,
    M: Monitor,
    S: Schedule,

    requires
        ({
            ||| call_ensures(
                Engine::<O, P, G, D, C>::run::<S>,
                (e, s, schedule, steps, a),
                Err::<(State, Trace), AriaError>(why),
            )
            ||| call_ensures(
                Engine::<O, P, G, D, C>::run_monitored::<M, S>,
                (e, s, schedule, steps, a),
                Err::<(State, Trace, GateReport), AriaError>(why),
            )
            ||| call_ensures(
                Engine::<O, P, G, D, C>::run_monitored_with_latents::<M, S>,
                (e, s, schedule, steps, a),
                Err::<(State, Trace, GateReport, Vec<Vec<Real>>), AriaError>(why),
            )
        }),
    ensures
        exists|k: nat, ss: Seq<State>, then: Engine<O, P, G, D, C>|
            {
                &&& k < steps
                &&& #[trigger] Engine::completes(
                    *old(e),
                    s,
                    drawn(*old(schedule), k),
                    a,
                    ss,
                    then,
                )
                &&& Engine::applies(
                    then,
                    ss.last()@,
                    rest_of(*old(schedule), k).dealt().0,
                    a,
                    Err(why),
                    *final(e),
                )
                &&& *final(schedule) == rest_of(*old(schedule), k + 1)
            },
{
    assert(Engine::broken_off(
        *old(e),
        s,
        *old(schedule),
        steps as nat,
        a,
        why,
        *final(e),
        *final(schedule),
    ));
    let k = choose|k: nat|
        {
            &&& k < steps
            &&& #[trigger] Engine::stops(
                *old(e),
                s,
                drawn(*old(schedule), k),
                rest_of(*old(schedule), k).dealt().0,
                a,
                why,
                *final(e),
            )
            &&& *final(schedule) == rest_of(*old(schedule), k).dealt().1
        };
    assert(rest_of(*old(schedule), k + 1) == rest_of(*old(schedule), k).dealt().1);
}

/// A run that keeps its latents hands out, for every step, the latent of the state after it.
pub proof fn latents_are_those_after_the_steps<O, P, G, D, C, M, S>(
    e: &mut Engine<O, P, G, D, C>,
    s: State,
    schedule: &mut S,
    steps: u64,
    a: Condition,
    last: State,
    trace: Trace,
    gates: GateReport,
    latents: Vec<Vec<Real>>,
) where
    O: OpticalBackend,
    P: Predictor,
    G: GraphBackend,
    D: Diffuser,
    C: Invariants,
    M: Monitor,
    S: Schedule,

    requires
        call_ensures(
            Engine::<O, P, G, D, C>::run_monitored_with_latents::<M, S>,
            (e, s, schedule, steps, a),
            Ok::<(State, Trace, GateReport, Vec<Vec<Real>>), AriaError>(
                (last, trace, gates, latents),
            ),
        ),
    ensures
        latents@.len() == steps,
        exists|ss: Seq<State>|
            {
                &&& #[trigger] Engine::ran(
                    *old(e),
                    s,
                    drawn(*old(schedule), steps as nat),
                    a,
                    ss,
                    trace,
                    *final(e),
                )
                &&& ss.last() == last
                &&& forall|i: int|
                    0 <= i < steps ==> (#[trigger] latents@[i])@ == ss[i + 1].z@
            },
        steps > 0 ==> latents@.last()@ == last.z@,
        forall|i: int|
            0 < i < steps && drawn(*old(schedule), steps as nat)[i] == Action::Stutter
                ==> (#[trigger] latents@[i])@ == latents@[i - 1]@,
{
    let actions = drawn(*old(schedule), steps as nat);
    draws_begin_alike(*old(schedule), steps as nat, steps as nat);
    let ss = choose|ss: Seq<State>|
        {
            &&& #[trigger] Engine::ran(*old(e), s, actions, a, ss, trace, *final(e))
            &&& gates@ == old(e).overseen::<M>(ss, actions, a)
            &&& ss.last() == last
            &&& Engine::<O, P, G, D, C>::shows_latents(latents@, ss)
        };
    assert(Engine::completes(*old(e), s, actions, a, ss, *final(e)));
    assert forall|i: int| 0 < i < steps && actions[i] == Action::Stutter implies (
    #[trigger] latents@[i])@ == latents@[i - 1]@ by {
        runs_follow_their_operators(*old(e), s, actions, a, ss, *final(e), i);
    }
    if steps > 0 {
        assert(latents@[steps - 1]@ == ss[steps as int].z@);
    }
}

/// The gates of a monitored run, with or without latents: they open with the configured
/// gates, see every step in turn, each with the action taken, the state after it, its
/// residual under the run's condition and the residual tolerance, and close with the report
/// that is handed out.
pub proof fn gates_see_every_step<O, P, G, D, C, M, S>(
    e: &mut Engine<O, P, G, D, C>,
    s: State,
    schedule: &mut S,
    steps: u64,
    a: Condition,
    last: State,
    trace: Trace,
    gates: GateReport,
    latents: Vec<Vec<Real>>,
) where
    O: OpticalBackend,
    P: Predictor,
    G: GraphBackend,
    D: Diffuser,
    C: Invariants,
    M: Monitor,
    S: Schedule,

    requires
        ({
            ||| call_ensures(
                Engine::<O, P, G, D, C>::run_monitored::<M, S>,
                (e, s, schedule, steps, a),
                Ok::<(State, Trace, GateReport), AriaError>((last, trace, gates)),
            )
            ||| call_ensures(
                Engine::<O, P, G, D, C>::run_monitored_with_latents::<M, S>,
                (e, s, schedule, steps, a),
                Ok::<(State, Trace, GateReport, Vec<Vec<Real>>), AriaError>(
                    (last, trace, gates, latents),
                ),
            )
        }),
    ensures
        exists|ss: Seq<State>, ms: Seq<M>|
            {
                &&& #[trigger] Engine::ran(
                    *old(e),
                    s,
                    drawn(*old(schedule), steps as nat),
                    a,
                    ss,
                    trace,
                    *final(e),
                )
                &&& ss.last() == last
                &&& ms.len() == steps + 1
                &&& ms[0] == M::opened(old(e).config.gates)
                &&& forall|i: int|
                    0 <= i < steps ==> ms[i + 1] == (#[trigger] ms[i]).noticed(
                        drawn(*old(schedule), steps as nat)[i],
                        ss[i + 1]@,
                        old(e).predictor.distance(
                            ss[i + 1].z@,
                            old(e).predictor.prediction(
                                old(e).predictor.embedding(ss[i + 1].psi@),
                                a,
                            ),
                        ),
                        old(e).config.eps,
                    )
                &&& gates@ == (#[trigger] ms.last()).found()
            },
{
    let actions = drawn(*old(schedule), steps as nat);
    draws_begin_alike(*old(schedule), steps as nat, steps as nat);
    let ss = choose|ss: Seq<State>|
        {
            &&& #[trigger] Engine::ran(*old(e), s, actions, a, ss, trace, *final(e))
            &&& gates@ == old(e).overseen::<M>(ss, actions, a)
            &&& ss.last() == last
        };
    gates_are_shown_the_walk::<O, P, G, D, C, M>(*old(e), ss, actions, a, gates);
    let ms = choose|ms: Seq<M>| #[trigger] seen_by(*old(e), ss, actions, a, gates, ms);
    assert(gates@ == ms.last().found());
}

/// Whether gates saw a walk through the states `ss` one step after another, from the
/// configured gates to the report.
spec fn seen_by<O, P, G, D, C, M>(
    e: Engine<O, P, G, D, C>,
    ss: Seq<State>,
    actions: Seq<Action>,
    a: Condition,
    gates: GateReport,
    ms: Seq<M>,
) -> bool where
    O: OpticalBackend,
    P: Predictor,
    G: GraphBackend,
    D: Diffuser,
    C: Invariants,
    M: Monitor,
 {
    &&& ms.len() == actions.len() + 1
    &&& ms[0] == M::opened(e.config.gates)
    &&& forall|i: int|
        0 <= i < actions.len() ==> ms[i + 1] == (#[trigger] ms[i]).noticed(
            actions[i],
            ss[i + 1]@,
            e.predictor.distance(
                ss[i + 1].z@,
                e.predictor.prediction(e.predictor.embedding(ss[i + 1].psi@), a),
            ),
            e.config.eps,
        )
    &&& gates@ == ms.last().found()
}

/// What oversees a walk saw it one step after another.
proof fn gates_are_shown_the_walk<O, P, G, D, C, M>(
    e: Engine<O, P, G, D, C>,
    ss: Seq<State>,
    actions: Seq<Action>,
    a: Condition,
    gates: GateReport,
) where
    O: OpticalBackend,
    P: Predictor,
    G: GraphBackend,
    D: Diffuser,
    C: Invariants,
    M: Monitor,

    requires
        gates@ == e.overseen::<M>(ss, actions, a),
    ensures
        exists|ms: Seq<M>| #[trigger] seen_by(e, ss, actions, a, gates, ms),
{
    let n = actions.len();
    let ms = Seq::new(n + 1, |i: int| e.watching::<M>(ss, actions, a, i as nat));
    assert forall|i: int| 0 <= i < n implies ms[i + 1] == (#[trigger] ms[i]).noticed(
        actions[i],
        ss[i + 1]@,
        e.predictor.distance(
            ss[i + 1].z@,
            e.predictor.prediction(e.predictor.embedding(ss[i + 1].psi@), a),
        ),
        e.config.eps,
    ) by {
        assert(ms[i + 1] == e.watching::<M>(ss, actions, a, (i + 1) as nat));
    }
    assert(ms.last() == e.watching::<M>(ss, actions, a, n));
    assert(seen_by(e, ss, actions, a, gates, ms));
}

/// A summary tells the number of recorded steps, and of the state the run ended in its
/// clock, the size of its graph, its energy by the shared sum, its residual under the
/// condition, and what the check finds; and the sequence of actions that the trace gives.
pub proof fn summaries_tell_of_the_last_state<O, P, G, D, C>(
    e: Engine<O, P, G, D, C>,
    st: State,
    trace: Trace,
    a: Condition,
    summary: RunSummary,
    report: InvariantReport,
    sequence: String,
) where O: OpticalBackend, P: Predictor, G: GraphBackend, D: Diffuser, C: Invariants
    requires
        call_ensures(Engine::<O, P, G, D, C>::summarise, (&e, &st, &trace, a), summary),
        call_ensures(Trace::action_sequence, (&trace,), sequence),
        call_ensures(Engine::<O, P, G, D, C>::check, (&e, &st, a), report),
    ensures
        summary.steps == trace.steps().len(),
        summary.t == st.t,
        st.g@.nodes.len() + st.g@.edges.len() <= usize::MAX ==> summary.graph_size
            == st.g@.nodes.len() + st.g@.edges.len(),
        summary.energy == e.optical.state_energy(st.psi@),
        summary.residual == e.predictor.distance(
            st.z@,
            e.predictor.prediction(e.predictor.embedding(st.psi@), a),
        ),
        summary.report == report,
        summary.action_sequence@ == sequence@,
{
}

/// A whole run starts on the field and the graph it is given, under the configured
/// condition, takes the scheduled actions and hands out the state it came to; what it says
/// of the end is said of that state.
pub proof fn outcomes_tell_of_their_run<O, P, G, D, C, M, S>(
    e: &mut Engine<O, P, G, D, C>,
    psi0: Vec<Complex>,
    g0: Graph,
    schedule: &mut S,
    steps: u64,
    o: RunOutcome,
) where
    O: OpticalBackend,
    P: Predictor,
    G: GraphBackend,
    D: Diffuser,
    C: Invariants,
    M: Monitor,
    S: Schedule,

    requires
        call_ensures(
            run_with_graph::<O, P, G, D, C, M, S>,
            (e, psi0, g0, schedule, steps),
            Ok::<RunOutcome, AriaError>(o),
        ),
    ensures
        old(e).invariants.bounds(old(e).config) is Ok,
        exists|ss: Seq<State>|
            {
                &&& #[trigger] Engine::ran(
                    *old(e),
                    ss[0],
                    drawn(*old(schedule), steps as nat),
                    old(e).config.condition,
                    ss,
                    o.trace,
                    *final(e),
                )
                &&& ss.len() == steps + 1
                &&& ss[0].psi@ == psi0@
                &&& ss[0].g@ == g0@
                &&& ss[0].z@ == old(e).predictor.embedding(psi0@)
                &&& ss[0].t == 0
                &&& ss[0].energy_0 == old(e).optical.field_energy(psi0@)
                &&& ss.last() == o.state
            },
        o.summary.steps == steps,
        o.summary.t == o.state.t,
        o.state.g@.nodes.len() + o.state.g@.edges.len() <= usize::MAX ==> o.summary.graph_size
            == o.state.g@.nodes.len() + o.state.g@.edges.len(),
        o.summary.energy == old(e).optical.state_energy(o.state.psi@),
        o.summary.residual == old(e).predictor.distance(
            o.state.z@,
            old(e).predictor.prediction(
                old(e).predictor.embedding(o.state.psi@),
                old(e).config.condition,
            ),
        ),
        o.summary.report == old(e).invariants.report(
            o.state@,
            o.summary.residual,
            old(e).config.eps,
            old(e).config.eps_energy,
            old(e).config.n_modes,
            old(e).config.latent_dim,
        ),
        o.state.energy_0 == old(e).optical.field_energy(psi0@),
        *final(schedule) == rest_of(*old(schedule), steps as nat),
{
    let before = *old(e);
    let after = *final(e);
    let a = before.config.condition;
    let n = steps as nat;
    let actions = drawn(*old(schedule), n);
    draws_begin_alike(*old(schedule), n, n);
    let start = before.initiated(psi0@, g0@, a)->Ok_0;
    let s = choose|s: State| #[trigger]
        s@ == start && Engine::monitored::<M, S>(
            before,
            s,
            *old(schedule),
            n,
            a,
            Ok((o.state, o.trace, o.gates)),
            after,
            *final(schedule),
        ) && after.sums_up(o.state, o.trace, a, o.summary);
    let ss = choose|ss: Seq<State>|
        {
            &&& #[trigger] Engine::ran(before, s, actions, a, ss, o.trace, after)
            &&& o.gates@ == before.overseen::<M>(ss, actions, a)
            &&& ss.last() == o.state
        };
    let es = choose|es: Seq<Engine<O, P, G, D, C>>| #[trigger]
        Engine::walks(es, ss, actions, a) && es[0] == before && ss[0] == s && es.last() == after;
    Engine::clock_counts_diffusions(es, ss, actions, a);
    assert(s@.psi == psi0@ && s@.g == g0@);
    assert(ss[0] == s);
    assert(Engine::ran(before, ss[0], actions, a, ss, o.trace, after));
}

/// The gates of a whole run see every one of its steps, as those of a monitored run do, under
/// the configured condition.
pub proof fn outcome_gates_see_every_step<O, P, G, D, C, M, S>(
    e: &mut Engine<O, P, G, D, C>,
    psi0: Vec<Complex>,
    g0: Graph,
    schedule: &mut S,
    steps: u64,
    o: RunOutcome,
) where
    O: OpticalBackend,
    P: Predictor,
    G: GraphBackend,
    D: Diffuser,
    C: Invariants,
    M: Monitor,
    S: Schedule,

    requires
        call_ensures(
            run_with_graph::<O, P, G, D, C, M, S>,
            (e, psi0, g0, schedule, steps),
            Ok::<RunOutcome, AriaError>(o),
        ),
    ensures
        exists|ss: Seq<State>, ms: Seq<M>|
            {
                &&& #[trigger] Engine::ran(
                    *old(e),
                    ss[0],
                    drawn(*old(schedule), steps as nat),
                    old(e).config.condition,
                    ss,
                    o.trace,
                    *final(e),
                )
                &&& ss[0].psi@ == psi0@
                &&& ss[0].g@ == g0@
                &&& ss.last() == o.state
                &&& ms.len() == steps + 1
                &&& ms[0] == M::opened(old(e).config.gates)
                &&& forall|i: int|
                    0 <= i < steps ==> ms[i + 1] == (#[trigger] ms[i]).noticed(
                        drawn(*old(schedule), steps as nat)[i],
                        ss[i + 1]@,
                        old(e).predictor.distance(
                            ss[i + 1].z@,
                            old(e).predictor.prediction(
                                old(e).predictor.embedding(ss[i + 1].psi@),
                                old(e).config.condition,
                            ),
                        ),
                        old(e).config.eps,
                    )
                &&& o.gates@ == (#[trigger] ms.last()).found()
            },
{
    let before = *old(e);
    let after = *final(e);
    let a = before.config.condition;
    let n = steps as nat;
    let actions = drawn(*old(schedule), n);
    draws_begin_alike(*old(schedule), n, n);
    let start = before.initiated(psi0@, g0@, a)->Ok_0;
    let s = choose|s: State| #[trigger]
        s@ == start && Engine::monitored::<M, S>(
            before,
            s,
            *old(schedule),
            n,
            a,
            Ok((o.state, o.trace, o.gates)),
            after,
            *final(schedule),
        );
    let ss = choose|ss: Seq<State>|
        {
            &&& #[trigger] Engine::ran(before, s, actions, a, ss, o.trace, after)
            &&& o.gates@ == before.overseen::<M>(ss, actions, a)
            &&& ss.last() == o.state
        };
    assert(s@.psi == psi0@ && s@.g == g0@);
    gates_are_shown_the_walk::<O, P, G, D, C, M>(before, ss, actions, a, o.gates);
    let ms = choose|ms: Seq<M>| #[trigger] seen_by(before, ss, actions, a, o.gates, ms);
    assert(Engine::ran(before, ss[0], actions, a, ss, o.trace, after));
    assert(o.gates@ == ms.last().found());
}

/// A run for its latents starts on the field and the graph it is given, under the configured
/// condition, and hands out the latent after each of the scheduled actions.
pub proof fn latent_runs_hand_out_their_latents<O, P, G, D, C, S>(
    e: &mut Engine<O, P, G, D, C>,
    psi0: Vec<Complex>,
    g0: Graph,
    schedule: &mut S,
    steps: u64,
    zs: Vec<Vec<Real>>,
) where
    O: OpticalBackend,
    P: Predictor,
    G: GraphBackend,
    D: Diffuser,
    C: Invariants,
    S: Schedule,

    requires
        call_ensures(
            latents_with::<O, P, G, D, C, S>,
            (e, psi0, g0, schedule, steps),
            Ok::<Vec<Vec<Real>>, AriaError>(zs),
        ),
    ensures
        zs@.len() == steps,
        exists|ss: Seq<State>|
            {
                &&& #[trigger] Engine::completes(
                    *old(e),
                    ss[0],
                    drawn(*old(schedule), steps as nat),
                    old(e).config.condition,
                    ss,
                    *final(e),
                )
                &&& ss[0].psi@ == psi0@
                &&& ss[0].g@ == g0@
                &&& ss[0].z@ == old(e).predictor.embedding(psi0@)
                &&& ss[0].t == 0
                &&& forall|i: int| 0 <= i < steps ==> (#[trigger] zs@[i])@ == ss[i + 1].z@
            },
{
    let before = *old(e);
    let after = *final(e);
    let a = before.config.condition;
    let n = steps as nat;
    let actions = drawn(*old(schedule), n);
    draws_begin_alike(*old(schedule), n, n);
    let start = before.initiated(psi0@, g0@, a)->Ok_0;
    let s = choose|s: State| #[trigger]
        s@ == start && exists|ss: Seq<State>, trace: Trace|
            #[trigger]
            Engine::ran(before, s, actions, a, ss, trace, after)
                && Engine::<O, P, G, D, C>::shows_latents(zs@, ss);
    let (ss, trace) = choose|ss: Seq<State>, trace: Trace|
        #[trigger]
        Engine::ran(before, s, actions, a, ss, trace, after)
            && Engine::<O, P, G, D, C>::shows_latents(zs@, ss);
    assert(s@.psi == psi0@ && s@.g == g0@);
    assert(Engine::completes(before, ss[0], actions, a, ss, after));
}

// ---------------------------------------------------------------------------
// Verification
// ---------------------------------------------------------------------------

/// A tally counts positions: it is the size of the set of those that satisfy the predicate.
pub proof fn tallies_count(p: spec_fn(int) -> bool, n: int)
    requires
        n >= 0,
    ensures
        Set::new(|i: int| 0 <= i < n && p(i)).finite(),
        tally(p, n) == Set::new(|i: int| 0 <= i < n && p(i)).len(),
    decreases n,
{
    let here = Set::new(|i: int| 0 <= i < n && p(i));
    if n == 0 {
        assert(here =~= Set::empty());
    } else {
        tallies_count(p, n - 1);
        let fewer = Set::new(|i: int| 0 <= i < n - 1 && p(i));
        if p(n - 1) {
            assert(here =~= fewer.insert(n - 1));
        } else {
            assert(here =~= fewer);
        }
    }
}

/// Whether a run started on what its options say is summarised by `run`.
spec fn verified<O, P, G, D, C, M, S>(
    before: Engine<O, P, G, D, C>,
    opts: VerifyOpts<S>,
    run: VerifyRun,
    after: Engine<O, P, G, D, C>,
) -> bool where
    O: OpticalBackend,
    P: Predictor,
    G: GraphBackend,
    D: Diffuser,
    C: Invariants,
    M: Monitor,
    S: Schedule,
 {
    &&& crate::verify::began(before, opts.psi0@, opts.g0@) is Ok
    &&& exists|s: State| #[trigger]
        s@ == crate::verify::began(before, opts.psi0@, opts.g0@)->Ok_0 && found::<O, P, G, D, C, M, S>(
            before,
            s,
            opts,
            run,
            after,
        )
}

/// The states of a verified run.
proof fn verified_states<O, P, G, D, C, M, S>(
    before: Engine<O, P, G, D, C>,
    opts: VerifyOpts<S>,
    run: VerifyRun,
    after: Engine<O, P, G, D, C>,
) -> (ss: Seq<State>) where
    O: OpticalBackend,
    P: Predictor,
    G: GraphBackend,
    D: Diffuser,
    C: Invariants,
    M: Monitor,
    S: Schedule,

    requires
        verified::<O, P, G, D, C, M, S>(before, opts, run, after),
    ensures
        surveyed::<O, P, G, D, C, M, S>(before, ss[0], opts, ss, run, after),
        ss.len() == run.steps + 1,
        drawn(opts.schedule, run.steps as nat).len() == run.steps,
        ss[0].psi@ == opts.psi0@,
        ss[0].g@ == opts.g0@,
        ss[0].z@ == before.predictor.embedding(opts.psi0@),
        ss[0].t == 0,
        forall|i: int|
            0 <= i < ss.len() ==> (#[trigger] ss[i]).energy_0 == before.optical.field_energy(
                opts.psi0@,
            ),
{
    let a = before.config.condition;
    let n = run.steps as nat;
    let actions = drawn(opts.schedule, n);
    draws_begin_alike(opts.schedule, n, n);
    let start = crate::verify::began(before, opts.psi0@, opts.g0@)->Ok_0;
    let s = choose|s: State| #[trigger] s@ == start && found::<O, P, G, D, C, M, S>(before, s, opts, run, after);
    let ss = choose|ss: Seq<State>| #[trigger]
        surveyed::<O, P, G, D, C, M, S>(before, s, opts, ss, run, after);
    assert(s@.psi == opts.psi0@ && s@.g == opts.g0@);
    assert forall|i: int| 0 <= i < ss.len() implies (#[trigger] ss[i]).energy_0
        == before.optical.field_energy(opts.psi0@) by {
        if i > 0 {
            runs_follow_their_operators(before, s, actions, a, ss, after, i - 1);
        }
    }
    ss
}

/// A verified run starts on the field and the graph of its options, takes the actions that
/// the schedule hands out under the configured condition, and ends in the state it hands
/// out. Unless strict checking ends it, it takes as many as were planned.
pub proof fn verified_runs_take_the_scheduled_actions<O, P, G, D, C, M, S>(
    e: &mut Engine<O, P, G, D, C>,
    opts: VerifyOpts<S>,
    run: VerifyRun,
) where
    O: OpticalBackend,
    P: Predictor,
    G: GraphBackend,
    D: Diffuser,
    C: Invariants,
    M: Monitor,
    S: Schedule,

    requires
        call_ensures(verify::<O, P, G, D, C, M, S>, (e, opts), Ok::<VerifyRun, AriaError>(run)),
    ensures
        old(e).invariants.bounds(old(e).config) is Ok,
        old(e).graph_backend.graph_ok(opts.g0@),
        run.steps == opts.steps,
        run.final_nodes == run.state.g@.nodes.len(),
        run.final_edges == run.state.g@.edges.len(),
        exists|ss: Seq<State>|
            {
                &&& #[trigger] Engine::completes(
                    *old(e),
                    ss[0],
                    drawn(opts.schedule, run.steps as nat),
                    old(e).config.condition,
                    ss,
                    *final(e),
                )
                &&& ss.len() == run.steps + 1
                &&& ss[0].psi@ == opts.psi0@
                &&& ss[0].g@ == opts.g0@
                &&& ss[0].z@ == old(e).predictor.embedding(opts.psi0@)
                &&& ss[0].t == 0
                &&& ss.last() == run.state
            },
{
    let ss = verified_states::<O, P, G, D, C, M, S>(*old(e), opts, run, *final(e));
    if old(e).config.strict {
        crate::verify::strict_verifications_are_green::<O, P, G, D, C, M, S>(
            *old(e),
            ss[0],
            opts,
            run,
            *final(e),
        );
    }
}

/// The largest drift of a verified run is measured from its start. It bounds the drift of
/// every state that the run passed through, where that is a number: the drift of the state's
/// energy, by the shared sum, from the energy that the optical operator measured on the
/// field the run started from. And it is the drift of one of these states, or zero.
pub proof fn drift_is_measured_from_the_start<O, P, G, D, C, M, S>(
    e: &mut Engine<O, P, G, D, C>,
    opts: VerifyOpts<S>,
    run: VerifyRun,
) where
    O: OpticalBackend,
    P: Predictor,
    G: GraphBackend,
    D: Diffuser,
    C: Invariants,
    M: Monitor,
    S: Schedule,

    requires
        call_ensures(verify::<O, P, G, D, C, M, S>, (e, opts), Ok::<VerifyRun, AriaError>(run)),
    ensures
        exists|ss: Seq<State>|
            {
                &&& #[trigger] Engine::completes(
                    *old(e),
                    ss[0],
                    drawn(opts.schedule, run.steps as nat),
                    old(e).config.condition,
                    ss,
                    *final(e),
                )
                &&& ss.len() == run.steps + 1
                &&& ss.last() == run.state
                &&& forall|i: int|
                    0 < i <= run.steps ==> {
                        let drift = old(e).invariants.drifted(
                            old(e).optical.state_energy((#[trigger] ss[i]).psi@),
                            old(e).optical.field_energy(opts.psi0@),
                        );
                        drift.nan() || drift.at_most(run.inv1_max_drift)
                    }
                &&& run.inv1_max_drift == (Real { bits: 0 }) || exists|i: int|
                    0 < i <= run.steps && run.inv1_max_drift == old(e).invariants.drifted(
                        old(e).optical.state_energy((#[trigger] ss[i]).psi@),
                        old(e).optical.field_energy(opts.psi0@),
                    )
            },
{
    let before = *old(e);
    let a = before.config.condition;
    let n = run.steps as nat;
    let actions = drawn(opts.schedule, n);
    let ss = verified_states::<O, P, G, D, C, M, S>(*old(e), opts, run, *final(e));
    let h = crate::verify::facts_of(before, ss, actions, a);
    let from = before.optical.field_energy(opts.psi0@);
    assert forall|i: int| 0 < i <= n implies {
        let drift = before.invariants.drifted(
            before.optical.state_energy((#[trigger] ss[i]).psi@),
            from,
        );
        drift == h[i - 1].drift && (drift.nan() || drift.at_most(run.inv1_max_drift))
    } by {
        assert(ss[i].energy_0 == from);
        crate::verify::max_drift_bounds(h, i - 1);
    }
    max_drift_is_reached(h);
    if run.inv1_max_drift != (Real { bits: 0 }) {
        let k = choose|k: int| 0 <= k < h.len() && (#[trigger] h[k]).drift == run.inv1_max_drift;
        assert(run.inv1_max_drift == before.invariants.drifted(
            before.optical.state_energy(ss[k + 1].psi@),
            from,
        ));
    }
    assert(Engine::completes(before, ss[0], actions, a, ss, *final(e)));
}

/// The largest drift is zero or one of the drifts.
proof fn max_drift_is_reached(h: Seq<StepFact>)
    ensures
        crate::verify::max_drift(h) == (Real { bits: 0 }) || exists|k: int|
            0 <= k < h.len() && (#[trigger] h[k]).drift == crate::verify::max_drift(h),
    decreases h.len(),
{
    if h.len() > 0 {
        let fewer = h.drop_last();
        max_drift_is_reached(fewer);
        let m = crate::verify::max_drift(h);
        if h.last().drift.above(crate::verify::max_drift(fewer)) {
            assert(h[h.len() - 1].drift == m);
        } else if m != (Real { bits: 0 }) {
            let k = choose|k: int| 0 <= k < fewer.len() && (#[trigger] fewer[k]).drift == m;
            assert(h[k].drift == m);
        }
    }
}

/// Where every energy other than the one at the start drifts by more than zero, a verified
/// run that found no drift passed through no state of another energy.
pub proof fn no_drift_means_no_move<O, P, G, D, C, M, S>(
    e: &mut Engine<O, P, G, D, C>,
    opts: VerifyOpts<S>,
    run: VerifyRun,
) where
    O: OpticalBackend,
    P: Predictor,
    G: GraphBackend,
    D: Diffuser,
    C: Invariants,
    M: Monitor,
    S: Schedule,

    requires
        call_ensures(verify::<O, P, G, D, C, M, S>, (e, opts), Ok::<VerifyRun, AriaError>(run)),
        forall|energy: Real, energy_0: Real|
            energy != energy_0 ==> (#[trigger] old(e).invariants.drifted(
                energy,
                energy_0,
            )).above(Real { bits: 0 }),
        run.inv1_max_drift == (Real { bits: 0 }),
    ensures
        exists|ss: Seq<State>|
            {
                &&& #[trigger] Engine::completes(
                    *old(e),
                    ss[0],
                    drawn(opts.schedule, run.steps as nat),
                    old(e).config.condition,
                    ss,
                    *final(e),
                )
                &&& ss.last() == run.state
                &&& forall|i: int|
                    0 < i <= run.steps ==> old(e).optical.state_energy((#[trigger] ss[i]).psi@)
                        == old(e).optical.field_energy(opts.psi0@)
            },
{
    let before = *old(e);
    let n = run.steps as nat;
    let zero = Real { bits: 0 };
    let ss = verified_states::<O, P, G, D, C, M, S>(*old(e), opts, run, *final(e));
    let h = crate::verify::facts_of(
        before,
        ss,
        drawn(opts.schedule, n),
        before.config.condition,
    );
    let from = before.optical.field_energy(opts.psi0@);
    assert forall|i: int| 0 < i <= n implies before.optical.state_energy((#[trigger] ss[i]).psi@)
        == from by {
        assert(ss[i].energy_0 == from);
        crate::verify::max_drift_bounds(h, i - 1);
        assert(!before.invariants.drifted(
            before.optical.state_energy(ss[i].psi@),
            from,
        ).above(zero));
    }
}

/// The steps, counted from one, after which a report satisfies a predicate; the first report
/// is that of the start.
pub open spec fn steps_with(
    reports: Seq<InvariantReport>,
    p: spec_fn(InvariantReport) -> bool,
) -> Set<int> {
    Set::new(|i: int| 0 < i < reports.len() && p(reports[i]))
}

/// The counts of a verified run are the numbers of steps after which the invariant was found
/// broken, by a report on the state after the step and its residual, with the configured
/// tolerances and dimensions. A run is found in order where none of these counts is above
/// zero and the last state is green.
pub proof fn violations_are_counted<O, P, G, D, C, M, S>(
    e: &mut Engine<O, P, G, D, C>,
    opts: VerifyOpts<S>,
    run: VerifyRun,
) where
    O: OpticalBackend,
    P: Predictor,
    G: GraphBackend,
    D: Diffuser,
    C: Invariants,
    M: Monitor,
    S: Schedule,

    requires
        call_ensures(verify::<O, P, G, D, C, M, S>, (e, opts), Ok::<VerifyRun, AriaError>(run)),
    ensures
        exists|ss: Seq<State>, reports: Seq<InvariantReport>|
            {
                &&& #[trigger] Engine::completes(
                    *old(e),
                    ss[0],
                    drawn(opts.schedule, run.steps as nat),
                    old(e).config.condition,
                    ss,
                    *final(e),
                )
                &&& ss.last() == run.state
                &&& #[trigger] reports.len() == run.steps + 1
                &&& forall|i: int|
                    0 <= i <= run.steps ==> #[trigger] reports[i] == old(e).invariants.report(
                        ss[i]@,
                        old(e).predictor.distance(
                            ss[i].z@,
                            old(e).predictor.prediction(
                                old(e).predictor.embedding(ss[i].psi@),
                                old(e).config.condition,
                            ),
                        ),
                        old(e).config.eps,
                        old(e).config.eps_energy,
                        old(e).config.n_modes,
                        old(e).config.latent_dim,
                    )
                &&& run.inv2_violations == steps_with(
                    reports,
                    |r: InvariantReport| !r.inv2_ok,
                ).len()
                &&& run.inv3_violations == steps_with(
                    reports,
                    |r: InvariantReport| !r.inv3_ok,
                ).len()
                &&& run.inv4_violations == steps_with(
                    reports,
                    |r: InvariantReport| !r.inv4_ok,
                ).len()
                &&& run.invariants_ok <==> {
                    &&& reports.last().inv1_ok
                    &&& reports.last().inv2_ok
                    &&& reports.last().inv3_ok
                    &&& reports.last().inv4_ok
                    &&& forall|i: int|
                        0 < i <= run.steps ==> (#[trigger] reports[i]).inv2_ok
                            && reports[i].inv3_ok && reports[i].inv4_ok
                }
            },
{
    let before = *old(e);
    let a = before.config.condition;
    let n = run.steps as nat;
    let actions = drawn(opts.schedule, n);
    let ss = verified_states::<O, P, G, D, C, M, S>(*old(e), opts, run, *final(e));
    let h = crate::verify::facts_of(before, ss, actions, a);
    let reports = Seq::new(n + 1, |i: int| before.report_of(ss[i]@, a));
    let p2 = |i: int| !h[i].report.inv2_ok;
    let p3 = |i: int| !h[i].report.inv3_ok;
    let p4 = |i: int| !h[i].report.inv4_ok;
    let q2 = |i: int| 0 < i <= n && !reports[i].inv2_ok;
    let q3 = |i: int| 0 < i <= n && !reports[i].inv3_ok;
    let q4 = |i: int| 0 < i <= n && !reports[i].inv4_ok;
    assert forall|i: int| 0 <= i < n implies (#[trigger] h[i]).report == reports[i + 1] by {}
    tallies_count_from_one(p2, q2, n as int);
    tallies_count_from_one(p3, q3, n as int);
    tallies_count_from_one(p4, q4, n as int);
    assert(steps_with(reports, |r: InvariantReport| !r.inv2_ok) =~= Set::new(q2));
    assert(steps_with(reports, |r: InvariantReport| !r.inv3_ok) =~= Set::new(q3));
    assert(steps_with(reports, |r: InvariantReport| !r.inv4_ok) =~= Set::new(q4));
    assert forall|i: int| 0 < i <= n && run.invariants_ok implies (#[trigger] reports[i]).inv2_ok
        && reports[i].inv3_ok && reports[i].inv4_ok by {
        assert(h[i - 1].report == reports[i]);
        crate::audit::tally_misses(p2, n as int, i - 1);
        crate::audit::tally_misses(p3, n as int, i - 1);
        crate::audit::tally_misses(p4, n as int, i - 1);
    }
    if forall|i: int|
        0 < i <= run.steps ==> (#[trigger] reports[i]).inv2_ok && reports[i].inv3_ok
            && reports[i].inv4_ok {
        assert forall|i: int| 0 <= i < n implies !#[trigger] p2(i) && !p3(i) && !p4(i) by {
            assert(h[i].report == reports[i + 1]);
        }
        crate::audit::tally_empty(p2, n as int);
        crate::audit::tally_empty(p3, n as int);
        crate::audit::tally_empty(p4, n as int);
    }
    assert(Engine::completes(before, ss[0], actions, a, ss, *final(e)));
}

/// A tally over positions counted from zero is the size of the set of the positions counted
/// from one.
proof fn tallies_count_from_one(p: spec_fn(int) -> bool, q: spec_fn(int) -> bool, n: int)
    requires
        n >= 0,
        forall|i: int| #[trigger] q(i) == (0 < i <= n && p(i - 1)),
    ensures
        tally(p, n) == Set::new(q).len(),
    decreases n,
{
    if n == 0 {
        assert(Set::new(q) =~= Set::empty());
    } else {
        let fewer = |i: int| q(i) && i < n;
        tallies_count_from_one(p, fewer, n - 1);
        positions_are_few(fewer, n);
        if p(n - 1) {
            assert(q(n));
            assert(Set::new(q) =~= Set::new(fewer).insert(n));
        } else {
            assert(Set::new(q) =~= Set::new(fewer));
        }
    }
}

/// Positions below a bound are finitely many.
proof fn positions_are_few(q: spec_fn(int) -> bool, n: int)
    requires
        n >= 0,
        forall|i: int| #[trigger] q(i) ==> 0 <= i < n,
    ensures
        Set::new(q).finite(),
{
    vstd::set_lib::lemma_int_range(0, n);
    assert(Set::new(q).subset_of(vstd::set_lib::set_int_range(0, n)));
    vstd::set_lib::lemma_len_subset(Set::new(q), vstd::set_lib::set_int_range(0, n));
}

/// What a verified run found beside its invariants is found on its steps: the audit on the
/// actions and the residuals after them, the samples on the nodes after them, and the gates
/// on all that a monitored run shows them.
pub proof fn audits_and_samples_follow_the_steps<O, P, G, D, C, M, S>(
    e: &mut Engine<O, P, G, D, C>,
    opts: VerifyOpts<S>,
    run: VerifyRun,
) where
    O: OpticalBackend,
    P: Predictor,
    G: GraphBackend,
    D: Diffuser,
    C: Invariants,
    M: Monitor,
    S: Schedule,

    requires
        call_ensures(verify::<O, P, G, D, C, M, S>, (e, opts), Ok::<VerifyRun, AriaError>(run)),
    ensures
        exists|ss: Seq<State>, ms: Seq<M>|
            {
                &&& #[trigger] Engine::completes(
                    *old(e),
                    ss[0],
                    drawn(opts.schedule, run.steps as nat),
                    old(e).config.condition,
                    ss,
                    *final(e),
                )
                &&& ss.last() == run.state
                &&& run.trace_audit.describes(
                    opts.audit,
                    Seq::new(
                        run.steps as nat,
                        |i: int|
                            (
                                drawn(opts.schedule, run.steps as nat)[i],
                                old(e).predictor.distance(
                                    ss[i + 1].z@,
                                    old(e).predictor.prediction(
                                        old(e).predictor.embedding(ss[i + 1].psi@),
                                        old(e).config.condition,
                                    ),
                                ),
                            ),
                    ),
                )
                &&& forall|k: u64, n: usize| #[trigger]
                    run.samples@.contains((k, n)) <==> {
                        &&& 0 < k <= run.steps
                        &&& opts.checkpoints@.contains(k)
                        &&& n == ss[k as int].g@.nodes.len() as usize
                    }
                &&& ms.len() == run.steps + 1
                &&& ms[0] == M::opened(old(e).config.gates)
                &&& forall|i: int|
                    0 <= i < run.steps ==> ms[i + 1] == (#[trigger] ms[i]).noticed(
                        drawn(opts.schedule, run.steps as nat)[i],
                        ss[i + 1]@,
                        old(e).predictor.distance(
                            ss[i + 1].z@,
                            old(e).predictor.prediction(
                                old(e).predictor.embedding(ss[i + 1].psi@),
                                old(e).config.condition,
                            ),
                        ),
                        old(e).config.eps,
                    )
                &&& run.gates@ == (#[trigger] ms.last()).found()
            },
{
    let before = *old(e);
    let a = before.config.condition;
    let n = run.steps as nat;
    let actions = drawn(opts.schedule, n);
    let ss = verified_states::<O, P, G, D, C, M, S>(*old(e), opts, run, *final(e));
    let h = crate::verify::facts_of(before, ss, actions, a);
    let obs = Seq::new(
        run.steps as nat,
        |i: int|
            (
                drawn(opts.schedule, run.steps as nat)[i],
                before.predictor.distance(
                    ss[i + 1].z@,
                    before.predictor.prediction(before.predictor.embedding(ss[i + 1].psi@), a),
                ),
            ),
    );
    assert(crate::verify::observations(h) =~= obs);
    gates_are_shown_the_walk::<O, P, G, D, C, M>(before, ss, actions, a, run.gates);
    let ms = choose|ms: Seq<M>| #[trigger] seen_by(before, ss, actions, a, run.gates, ms);
    assert(run.gates@ == ms.last().found());
    let sizes = h.map_values(|f: StepFact| f.nodes);
    assert forall|k: u64, m: usize| #[trigger] run.samples@.contains((k, m)) <==> {
        &&& 0 < k <= run.steps
        &&& opts.checkpoints@.contains(k)
        &&& m == ss[k as int].g@.nodes.len() as usize
    } by {
        crate::growth_laws::samples_are_at_the_checkpoints(sizes, opts.checkpoints@, k, m);
        if 0 < k <= run.steps {
            assert(sizes[k - 1] == h[k - 1].nodes);
        }
    }
    assert(Engine::completes(before, ss[0], actions, a, ss, *final(e)));
}

/// A verified run is refused where the configuration is out of bounds, where the seed graph
/// is not in order, or where it does not fit; it then leaves the engine as it was. A run
/// that was not refused and yet fails does so at an action that was handed out in time,
/// with the error of that step.
pub proof fn verified_runs_fail_where_a_step_fails<O, P, G, D, C, M, S>(
    e: &mut Engine<O, P, G, D, C>,
    opts: VerifyOpts<S>,
    why: AriaError,
) where
    O: OpticalBackend,
    P: Predictor,
    G: GraphBackend,
    D: Diffuser,
    C: Invariants,
    M: Monitor,
    S: Schedule,

    requires
        call_ensures(verify::<O, P, G, D, C, M, S>, (e, opts), Err::<VerifyRun, AriaError>(why)),
    ensures
        old(e).invariants.bounds(old(e).config) matches Err(found) ==> why@ == found && *final(e)
            == *old(e),
        old(e).invariants.bounds(old(e).config) is Ok && !old(e).graph_backend.graph_ok(opts.g0@)
            ==> why@ == ErrorView::Config(
            "seed graph fails GraphOK at latent_dim="@ + crate::text::numeral(
                old(e).config.latent_dim as nat,
            ),
        ) && *final(e) == *old(e),
        *final(e) == *old(e) || exists|k: nat, ss: Seq<State>, then: Engine<O, P, G, D, C>|
            {
                &&& k < opts.steps
                &&& #[trigger] Engine::completes(
                    *old(e),
                    ss[0],
                    drawn(opts.schedule, k),
                    old(e).config.condition,
                    ss,
                    then,
                )
                &&& ss[0].psi@ == opts.psi0@
                &&& ss[0].g@ == opts.g0@
                &&& Engine::applies(
                    then,
                    ss.last()@,
                    rest_of(opts.schedule, k).dealt().0,
                    old(e).config.condition,
                    Err(why),
                    *final(e),
                )
            },
{
    let before = *old(e);
    let after = *final(e);
    if crate::verify::began(before, opts.psi0@, opts.g0@) is Ok {
        let start = crate::verify::began(before, opts.psi0@, opts.g0@)->Ok_0;
        let s = choose|s: State| #[trigger]
            s@ == start && crate::verify::broke_off(before, s, opts, why, after);
        let (k, ss, then) = choose|k: nat, ss: Seq<State>, then: Engine<O, P, G, D, C>| #[trigger]
            crate::verify::broke_off_at(before, s, opts, k, ss, then, why, after);
        assert(s@.psi == opts.psi0@ && s@.g == opts.g0@);
        assert(ss[0] == s);
        assert(Engine::completes(
            before,
            ss[0],
            drawn(opts.schedule, k),
            before.config.condition,
            ss,
            then,
        ));
    }
}

/// Step by step: what a verification on its way does with the next action is what the engine
/// does with it, under the configured condition. The line it streams shows the clock before
/// the step, and of the state after it the residual, the energy by the shared sum and the
/// nodes and edges together; the gates see the same residual. Under strict checking, and
/// only then, the verification ends where the state is not green.
pub proof fn verifications_advance_with_the_engine<O, P, G, D, C, M, S>(
    v: Verification<M, S>,
    e: &mut Engine<O, P, G, D, C>,
    w: Verification<M, S>,
    entry: TraceEntry,
    report: InvariantReport,
) where
    O: OpticalBackend,
    P: Predictor,
    G: GraphBackend,
    D: Diffuser,
    C: Invariants,
    M: Monitor,
    S: Schedule,

    requires
        call_ensures(
            Verification::<M, S>::advance::<O, P, G, D, C>,
            (v, e),
            Ok::<(Verification<M, S>, TraceEntry), AriaError>((w, entry)),
        ),
        call_ensures(Engine::<O, P, G, D, C>::check, (&*old(e), &w.at(), old(e).config.condition), report),
    ensures
        Engine::applies(
            *old(e),
            v.at()@,
            v.left().dealt().0,
            old(e).config.condition,
            Ok(w.at()),
            *final(e),
        ),
        w.left() == v.left().dealt().1,
        entry.t == v.at().t,
        entry.res == old(e).predictor.distance(
            w.at().z@,
            old(e).predictor.prediction(
                old(e).predictor.embedding(w.at().psi@),
                old(e).config.condition,
            ),
        ),
        entry.energy == old(e).optical.state_energy(w.at().psi@),
        w.at().g@.nodes.len() + w.at().g@.edges.len() <= usize::MAX ==> entry.graph_size
            == w.at().g@.nodes.len() + w.at().g@.edges.len(),
        w.gates() == v.gates().noticed(
            v.left().dealt().0,
            w.at()@,
            entry.res,
            old(e).config.eps,
        ),
        w.ended() <==> old(e).config.strict && !report.green(),
        w.facts().len() == v.facts().len() + 1,
        w.facts().drop_last() == v.facts(),
        w.facts().last().action == v.left().dealt().0,
        w.facts().last().residual == entry.res,
        w.facts().last().drift == old(e).invariants.drifted(
            old(e).optical.state_energy(w.at().psi@),
            v.at().energy_0,
        ),
        w.facts().last().report == report,
        w.facts().last().nodes == w.at().g@.nodes.len(),
{
    let a = old(e).config.condition;
    let action = v.left().dealt().0;
    assert(w.facts().drop_last() =~= v.facts());
    Engine::steps_touch_only_their_part(*old(e), v.at()@, action, a, w.at(), *final(e));
}

/// A verification starts on the field and the graph of its options, with nothing seen, the
/// configured gates, the whole schedule, and the bounds and checkpoints of the options. It
/// starts where, and only where, the configuration is within the hard bounds, the seed graph
/// is in order, and the field fits.
pub proof fn verifications_start_with_nothing_seen<O, P, G, D, C, M, S>(
    e: Engine<O, P, G, D, C>,
    opts: VerifyOpts<S>,
    r: Result<Verification<M, S>, AriaError>,
    state: Result<State, AriaError>,
) where
    O: OpticalBackend,
    P: Predictor,
    G: GraphBackend,
    D: Diffuser,
    C: Invariants,
    M: Monitor,
    S: Schedule,

    requires
        call_ensures(Verification::<M, S>::new::<O, P, G, D, C>, (&e, opts), r),
        call_ensures(begin::<O, P, G, D, C>, (&e, opts.psi0, opts.g0), state),
    ensures
        r is Ok <==> state is Ok,
        state is Ok <==> {
            &&& e.invariants.bounds(e.config) is Ok
            &&& e.graph_backend.graph_ok(opts.g0@)
            &&& opts.psi0@.len() == e.config.n_modes
            &&& forall|i: int|
                0 <= i < opts.psi0@.len() ==> (#[trigger] opts.psi0@[i]).re.finite()
                    && opts.psi0@[i].im.finite()
            &&& e.predictor.embedding(opts.psi0@).len() == e.config.latent_dim
            &&& e.predictor.prediction(
                e.predictor.embedding(opts.psi0@),
                e.config.condition,
            ).len() == e.config.latent_dim
        },
        r matches Err(why) ==> state is Err && why@ == state->Err_0@,
        r matches Ok(v) ==> {
            &&& v.at()@ == state->Ok_0@
            &&& v.at().psi@ == opts.psi0@
            &&& v.at().g@ == opts.g0@
            &&& v.at().z@ == e.predictor.embedding(opts.psi0@)
            &&& v.at().t == 0
            &&& v.at().energy_0 == e.optical.field_energy(opts.psi0@)
            &&& v.at().prev_res == e.predictor.distance(
                e.predictor.embedding(opts.psi0@),
                e.predictor.prediction(
                    e.predictor.embedding(opts.psi0@),
                    e.config.condition,
                ),
            )
            &&& v.facts().len() == 0
            &&& v.gates() == M::opened(e.config.gates)
            &&& v.left() == opts.schedule
            &&& v.planned() == opts.steps
            &&& v.audit() == opts.audit
            &&& v.marks() == opts.checkpoints@
            &&& !v.ended()
        },
{
    crate::engine_laws::first_unfit_is_the_first(opts.psi0@);
    if r is Ok {
        let v = r->Ok_0;
        assert(v.at()@.psi == opts.psi0@ && v.at()@.g == opts.g0@);
    }
}

/// A verification goes on exactly while steps are left of its plan and it has not ended.
pub proof fn verifications_go_on_while_steps_are_left<M: Monitor, S: Schedule>(
    v: Verification<M, S>,
    goes_on: bool,
)
    requires
        v.wf(),
        call_ensures(Verification::<M, S>::goes_on, (&v,), goes_on),
    ensures
        goes_on <==> v.facts().len() < v.planned() && !v.ended(),
{
}

/// What a verification says in the end is said of the steps it took: as many as were seen,
/// with the largest of their drifts, the numbers of steps that broke Inv2, Inv3 and Inv4, the
/// audit of their actions and residuals, the nodes after the checkpoints, the gates, and the
/// state it has come to, which is checked under the configured condition.
pub proof fn verifications_end_on_what_they_saw<O, P, G, D, C, M, S>(
    e: Engine<O, P, G, D, C>,
    v: Verification<M, S>,
    run: VerifyRun,
    report: InvariantReport,
    i: int,
) where
    O: OpticalBackend,
    P: Predictor,
    G: GraphBackend,
    D: Diffuser,
    C: Invariants,
    M: Monitor,
    S: Schedule,

    requires
        v.wf(),
        call_ensures(Verification::<M, S>::finish::<O, P, G, D, C>, (v, &e), run),
        call_ensures(Engine::<O, P, G, D, C>::check, (&e, &v.at(), e.config.condition), report),
        0 <= i < v.facts().len(),
    ensures
        run.state == v.at(),
        run.steps == v.facts().len(),
        run.final_nodes == v.at().g@.nodes.len(),
        run.final_edges == v.at().g@.edges.len(),
        run.gates@ == v.gates().found(),
        v.facts()[i].drift.nan() || v.facts()[i].drift.at_most(run.inv1_max_drift),
        run.inv1_max_drift == (Real { bits: 0 }) || exists|k: int|
            0 <= k < v.facts().len() && (#[trigger] v.facts()[k]).drift == run.inv1_max_drift,
        run.trace_audit.describes(
            v.audit(),
            Seq::new(
                v.facts().len(),
                |k: int| (v.facts()[k].action, v.facts()[k].residual),
            ),
        ),
        run.inv2_violations == 0 ==> v.facts()[i].report.inv2_ok,
        run.inv3_violations == 0 ==> v.facts()[i].report.inv3_ok,
        run.inv4_violations == 0 ==> v.facts()[i].report.inv4_ok,
        run.invariants_ok <==> {
            &&& report.inv1_ok && report.inv2_ok && report.inv3_ok && report.inv4_ok
            &&& run.inv2_violations == 0
            &&& run.inv3_violations == 0
            &&& run.inv4_violations == 0
        },
{
    let h = v.facts();
    crate::verify::max_drift_bounds(h, i);
    max_drift_is_reached(h);
    let obs = Seq::new(h.len(), |k: int| (v.facts()[k].action, v.facts()[k].residual));
    assert(crate::verify::observations(h) =~= obs);
    if run.inv2_violations == 0 {
        crate::audit::tally_misses(|k: int| !h[k].report.inv2_ok, h.len() as int, i);
    }
    if run.inv3_violations == 0 {
        crate::audit::tally_misses(|k: int| !h[k].report.inv3_ok, h.len() as int, i);
    }
    if run.inv4_violations == 0 {
        crate::audit::tally_misses(|k: int| !h[k].report.inv4_ok, h.len() as int, i);
    }
}

/// A verifier that has the engine take a step records of it what the engine's operators say
/// of the state it led to: the residual under the condition of the step, the drift of the
/// energy from the state's own reference, the report, and the nodes; the line of the streamed
/// trace shows the clock before the step and the state after it.
pub proof fn verifiers_record_the_state_after_the_step<O, P, G, D, C, M>(
    verifier: &mut Verifier,
    e: &mut Engine<O, P, G, D, C>,
    monitor: M,
    st: State,
    action: Action,
    a: Condition,
    step: VerifiedStep<M>,
    report: InvariantReport,
) where
    O: OpticalBackend,
    P: Predictor,
    G: GraphBackend,
    D: Diffuser,
    C: Invariants,
    M: Monitor,

    requires
        call_ensures(
            Verifier::step::<O, P, G, D, C, M>,
            (verifier, e, monitor, st, action, a),
            Ok::<VerifiedStep<M>, AriaError>(step),
        ),
        call_ensures(Engine::<O, P, G, D, C>::check, (&*old(e), &step.state, a), report),
    ensures
        Engine::applies(*old(e), st@, action, a, Ok(step.state), *final(e)),
        final(verifier)@.len() == old(verifier)@.len() + 1,
        final(verifier)@.last() == (StepFact {
            action,
            residual: step.entry.res,
            drift: old(e).invariants.drifted(
                old(e).optical.state_energy(step.state.psi@),
                st.energy_0,
            ),
            report,
            nodes: step.state.g@.nodes.len(),
        }),
        step.entry.t == st.t,
        step.entry.res == old(e).predictor.distance(
            step.state.z@,
            old(e).predictor.prediction(old(e).predictor.embedding(step.state.psi@), a),
        ),
        step.entry.energy == old(e).optical.state_energy(step.state.psi@),
        step.state.g@.nodes.len() + step.state.g@.edges.len() <= usize::MAX
            ==> step.entry.graph_size == step.state.g@.nodes.len() + step.state.g@.edges.len(),
        step.entry.condition@ == (match a {
            Condition::Token => "token"@,
            Condition::Diffusion => "diffusion"@,
            Condition::WorldModel => "worldmodel"@,
        }),
        step.monitor == monitor.noticed(
            action,
            step.state@,
            step.entry.res,
            old(e).config.eps,
        ),
        step.stop <==> old(e).config.strict && !report.green(),
{
    Engine::steps_touch_only_their_part(*old(e), st@, action, a, step.state, *final(e));
}

} // verus!
