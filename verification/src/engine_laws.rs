//! What the steps of an engine are for.
//!
//! The laws of this module say, for every engine and every state, what an operation does
//! in terms of the operators it was built from: which operator is asked, of what, under
//! which condition and which setting, and what becomes of the answer.

use vstd::prelude::*;

use crate::action::Action;
use crate::backend::{Diffuser, GraphBackend, Invariants, OpticalBackend, Predictor};
use crate::condition::Condition;
use crate::config::AriaConfig;
use crate::engine::{outcome, Engine};
use crate::error::{AriaError, ErrorView, InvariantReport};
use crate::graph::Graph;
use crate::scalar::{Complex, Real};
use crate::state::{State, StateView};

verus! {

// ---------------------------------------------------------------------------
// Measuring a state
// ---------------------------------------------------------------------------

/// The residual of a state under a condition is the distance from its latent to the latent
/// that is predicted, under that condition, from the embedding of its field.
pub proof fn residuals_measure_the_prediction<O, P, G, D, C>(
    e: Engine<O, P, G, D, C>,
    st: State,
    a: Condition,
    r: Real,
) where O: OpticalBackend, P: Predictor, G: GraphBackend, D: Diffuser, C: Invariants
    requires
        call_ensures(Engine::<O, P, G, D, C>::residual, (&e, &st, a), r),
    ensures
        r == e.predictor.distance(
            st.z@,
            e.predictor.prediction(e.predictor.embedding(st.psi@), a),
        ),
{
}

/// A check asks the invariants about the state itself and the residual measured on it, and
/// hands them the residual tolerance, the energy tolerance and the two dimensions of the
/// configuration, each in its place.
pub proof fn checks_ask_with_the_configured_bounds<O, P, G, D, C>(
    e: Engine<O, P, G, D, C>,
    st: State,
    a: Condition,
    r: InvariantReport,
) where O: OpticalBackend, P: Predictor, G: GraphBackend, D: Diffuser, C: Invariants
    requires
        call_ensures(Engine::<O, P, G, D, C>::check, (&e, &st, a), r),
    ensures
        r == e.invariants.report(
            st@,
            e.predictor.distance(
                st.z@,
                e.predictor.prediction(e.predictor.embedding(st.psi@), a),
            ),
            e.config.eps,
            e.config.eps_energy,
            e.config.n_modes,
            e.config.latent_dim,
        ),
{
}

/// Where Inv1 holds the drift to the energy tolerance, a state whose drift is above the
/// configured energy tolerance is not green, whatever the residual tolerance is.
pub proof fn drift_is_held_to_the_energy_tolerance<O, P, G, D, C>(
    e: Engine<O, P, G, D, C>,
    st: State,
    a: Condition,
    r: InvariantReport,
) where O: OpticalBackend, P: Predictor, G: GraphBackend, D: Diffuser, C: Invariants
    requires
        forall|s: StateView, residual: Real, eps: Real, eps_energy: Real, n: usize, d: usize|
            e.invariants.drifted(e.optical.state_energy(s.psi), s.energy_0).above(eps_energy)
                ==> !(#[trigger] e.invariants.report(s, residual, eps, eps_energy, n, d)).inv1_ok,
        call_ensures(Engine::<O, P, G, D, C>::check, (&e, &st, a), r),
        e.invariants.drifted(e.optical.state_energy(st.psi@), st.energy_0).above(
            e.config.eps_energy,
        ),
    ensures
        !r.inv1_ok,
        !r.green(),
{
}

/// Where Inv2 holds the residual to the residual tolerance, a state whose residual is above
/// the configured one is not green, whatever the energy tolerance is.
pub proof fn residuals_are_held_to_the_residual_tolerance<O, P, G, D, C>(
    e: Engine<O, P, G, D, C>,
    st: State,
    a: Condition,
    r: InvariantReport,
) where O: OpticalBackend, P: Predictor, G: GraphBackend, D: Diffuser, C: Invariants
    requires
        forall|s: StateView, residual: Real, eps: Real, eps_energy: Real, n: usize, d: usize|
            residual.above(eps) ==> !(#[trigger] e.invariants.report(
                s,
                residual,
                eps,
                eps_energy,
                n,
                d,
            )).inv2_ok,
        call_ensures(Engine::<O, P, G, D, C>::check, (&e, &st, a), r),
        e.predictor.distance(
            st.z@,
            e.predictor.prediction(e.predictor.embedding(st.psi@), a),
        ).above(e.config.eps),
    ensures
        !r.inv2_ok,
        !r.green(),
{
}

/// What is found of the residual does not depend on the energy tolerance: where Inv2 does
/// not read it, two engines that differ in nothing else find the same.
pub proof fn the_energy_tolerance_leaves_the_residual_alone<O, P, G, D, C>(
    e1: Engine<O, P, G, D, C>,
    e2: Engine<O, P, G, D, C>,
    eps_energy: Real,
    st: State,
    a: Condition,
    r1: InvariantReport,
    r2: InvariantReport,
) where O: OpticalBackend, P: Predictor, G: GraphBackend, D: Diffuser, C: Invariants
    requires
        forall|
            s: StateView,
            residual: Real,
            eps: Real,
            loose: Real,
            tight: Real,
            n: usize,
            d: usize,
        |
            (#[trigger] e1.invariants.report(s, residual, eps, loose, n, d)).inv2_ok == (
            #[trigger] e1.invariants.report(s, residual, eps, tight, n, d)).inv2_ok,
        e2 == (Engine { config: AriaConfig { eps_energy, ..e1.config }, ..e1 }),
        call_ensures(Engine::<O, P, G, D, C>::check, (&e1, &st, a), r1),
        call_ensures(Engine::<O, P, G, D, C>::check, (&e2, &st, a), r2),
    ensures
        r1.inv2_ok == r2.inv2_ok,
{
}

/// What is found of the energy does not depend on the residual tolerance: where Inv1 does
/// not read it, two engines that differ in nothing else find the same.
pub proof fn the_residual_tolerance_leaves_the_energy_alone<O, P, G, D, C>(
    e1: Engine<O, P, G, D, C>,
    e2: Engine<O, P, G, D, C>,
    eps: Real,
    st: State,
    a: Condition,
    r1: InvariantReport,
    r2: InvariantReport,
) where O: OpticalBackend, P: Predictor, G: GraphBackend, D: Diffuser, C: Invariants
    requires
        forall|
            s: StateView,
            residual: Real,
            loose: Real,
            tight: Real,
            eps_energy: Real,
            n: usize,
            d: usize,
        |
            (#[trigger] e1.invariants.report(s, residual, loose, eps_energy, n, d)).inv1_ok == (
            #[trigger] e1.invariants.report(s, residual, tight, eps_energy, n, d)).inv1_ok,
        e2 == (Engine { config: AriaConfig { eps, ..e1.config }, ..e1 }),
        call_ensures(Engine::<O, P, G, D, C>::check, (&e1, &st, a), r1),
        call_ensures(Engine::<O, P, G, D, C>::check, (&e2, &st, a), r2),
    ensures
        r1.inv1_ok == r2.inv1_ok,
{
}

/// A report is green where all four invariants hold, and only there.
pub proof fn green_means_all_four(r: InvariantReport, all_ok: bool)
    requires
        call_ensures(InvariantReport::all_ok, (&r,), all_ok),
    ensures
        all_ok == r.green(),
        r.green() <==> r == (InvariantReport {
            inv1_ok: true,
            inv2_ok: true,
            inv3_ok: true,
            inv4_ok: true,
        }),
{
}

// ---------------------------------------------------------------------------
// One step
// ---------------------------------------------------------------------------

/// An optical step turns the field by the unitary of the state's own clock. Latent, graph,
/// clock and reference energy stay; the residual that the step started from is remembered.
pub proof fn optical_steps_turn_the_field<O, P, G, D, C>(
    before: Engine<O, P, G, D, C>,
    s: StateView,
    a: Condition,
    next: State,
    after: Engine<O, P, G, D, C>,
) where O: OpticalBackend, P: Predictor, G: GraphBackend, D: Diffuser, C: Invariants
    requires
        Engine::applies(before, s, Action::OpticalStep, a, Ok(next), after),
    ensures
        next.psi@ == before.optical.stepped(s.t, s.psi),
        next.z@ == s.z,
        next.g@ == s.g,
        next.t == s.t,
        next.energy_0 == s.energy_0,
        next.prev_res == before.predictor.distance(
            s.z,
            before.predictor.prediction(before.predictor.embedding(s.psi), a),
        ),
        after == before,
{
    reveal(Engine::applies);
}

/// A prediction leaves as latent what is predicted, under the very condition of the step,
/// from the embedding of the field. Field, graph, clock and reference energy stay; the
/// residual that the step started from is remembered.
pub proof fn predictions_follow_the_condition<O, P, G, D, C>(
    before: Engine<O, P, G, D, C>,
    s: StateView,
    a: Condition,
    next: State,
    after: Engine<O, P, G, D, C>,
) where O: OpticalBackend, P: Predictor, G: GraphBackend, D: Diffuser, C: Invariants
    requires
        Engine::applies(before, s, Action::Predict, a, Ok(next), after),
    ensures
        next.z@ == before.predictor.prediction(before.predictor.embedding(s.psi), a),
        next.psi@ == s.psi,
        next.g@ == s.g,
        next.t == s.t,
        next.energy_0 == s.energy_0,
        next.prev_res == before.predictor.distance(
            s.z,
            before.predictor.prediction(before.predictor.embedding(s.psi), a),
        ),
        after == before,
{
    reveal(Engine::applies);
}

/// Right after a prediction the residual, under the same condition, is the distance of the
/// latent from itself.
pub proof fn a_prediction_leaves_no_residual<O, P, G, D, C>(
    before: Engine<O, P, G, D, C>,
    s: StateView,
    a: Condition,
    next: State,
    after: Engine<O, P, G, D, C>,
    residual: Real,
) where O: OpticalBackend, P: Predictor, G: GraphBackend, D: Diffuser, C: Invariants
    requires
        Engine::applies(before, s, Action::Predict, a, Ok(next), after),
        call_ensures(Engine::<O, P, G, D, C>::residual, (&after, &next, a), residual),
    ensures
        residual == after.predictor.distance(next.z@, next.z@),
{
    predictions_follow_the_condition(before, s, a, next, after);
    residuals_measure_the_prediction(after, next, a, residual);
}

/// Predicting twice changes no latent the second time.
pub proof fn predictions_repeat<O, P, G, D, C>(
    before: Engine<O, P, G, D, C>,
    s: StateView,
    a: Condition,
    once: State,
    between: Engine<O, P, G, D, C>,
    twice: State,
    after: Engine<O, P, G, D, C>,
) where O: OpticalBackend, P: Predictor, G: GraphBackend, D: Diffuser, C: Invariants
    requires
        Engine::applies(before, s, Action::Predict, a, Ok(once), between),
        Engine::applies(between, once@, Action::Predict, a, Ok(twice), after),
    ensures
        twice.z@ == once.z@,
        twice.prev_res == before.predictor.distance(once.z@, once.z@),
{
    predictions_follow_the_condition(before, s, a, once, between);
    predictions_follow_the_condition(between, once@, a, twice, after);
}

/// A match puts the edits that the backend proposes to the graph: for the state's graph and
/// latent, by the configured policy, without a target, at the state's clock. The graph takes
/// them all, and the backend mirrors them together with the graph they led to. Field, latent,
/// clock and reference energy stay, the residual that the step started from is remembered,
/// and nodes and edges together stay within the configured bound.
pub proof fn matches_make_the_proposed_edits<O, P, G, D, C>(
    before: Engine<O, P, G, D, C>,
    s: StateView,
    a: Condition,
    next: State,
    after: Engine<O, P, G, D, C>,
) where O: OpticalBackend, P: Predictor, G: GraphBackend, D: Diffuser, C: Invariants
    requires
        Engine::applies(before, s, Action::Match, a, Ok(next), after),
    ensures
        ({
            let ops = before.graph_backend.proposal(
                s.g,
                s.z,
                before.config.match_policy,
                None,
                s.t,
            );
            &&& s.g.edited(ops, before.config.latent_dim, before.graph_backend) is Ok
            &&& s.g.edited(ops, before.config.latent_dim, before.graph_backend)->Ok_0.0 == next.g@
            &&& after == (Engine {
                graph_backend: before.graph_backend.committed(ops, next.g@),
                ..before
            })
        }),
        next.g@.nodes.len() + next.g@.edges.len() <= before.config.max_graph_size,
        next.psi@ == s.psi,
        next.z@ == s.z,
        next.t == s.t,
        next.energy_0 == s.energy_0,
        next.prev_res == before.predictor.distance(
            s.z,
            before.predictor.prediction(before.predictor.embedding(s.psi), a),
        ),
{
    reveal(Engine::applies);
}

/// A diffusion leaves as latent what the diffuser makes of the old one over the graph of
/// that very state, by the configured policy, and advances the clock by one. Field, graph
/// and reference energy stay; the residual that the step started from is remembered.
pub proof fn diffusions_go_over_the_graph<O, P, G, D, C>(
    before: Engine<O, P, G, D, C>,
    s: StateView,
    a: Condition,
    next: State,
    after: Engine<O, P, G, D, C>,
) where O: OpticalBackend, P: Predictor, G: GraphBackend, D: Diffuser, C: Invariants
    requires
        Engine::applies(before, s, Action::Diffuse, a, Ok(next), after),
    ensures
        next.z@ == before.diffuser.diffused(s.g, s.z, before.config.diff_policy@),
        next.t == s.t + 1,
        next.psi@ == s.psi,
        next.g@ == s.g,
        next.energy_0 == s.energy_0,
        next.prev_res == before.predictor.distance(
            s.z,
            before.predictor.prediction(before.predictor.embedding(s.psi), a),
        ),
        after == before,
{
    reveal(Engine::applies);
}

/// A stutter changes nothing at all.
pub proof fn stutters_change_nothing<O, P, G, D, C>(
    before: Engine<O, P, G, D, C>,
    s: StateView,
    a: Condition,
    next: State,
    after: Engine<O, P, G, D, C>,
) where O: OpticalBackend, P: Predictor, G: GraphBackend, D: Diffuser, C: Invariants
    requires
        Engine::applies(before, s, Action::Stutter, a, Ok(next), after),
    ensures
        next@ == s,
        after == before,
{
    reveal(Engine::applies);
}

/// A step that succeeds under strict checking leads to a state of which the invariants,
/// asked with the configured tolerances and dimensions, say that all four hold.
pub proof fn strict_steps_pass_their_check<O, P, G, D, C>(
    before: Engine<O, P, G, D, C>,
    s: StateView,
    action: Action,
    a: Condition,
    next: State,
    after: Engine<O, P, G, D, C>,
) where O: OpticalBackend, P: Predictor, G: GraphBackend, D: Diffuser, C: Invariants
    requires
        before.config.strict,
        Engine::applies(before, s, action, a, Ok(next), after),
    ensures
        before.invariants.report(
            next@,
            before.predictor.distance(
                next.z@,
                before.predictor.prediction(before.predictor.embedding(next.psi@), a),
            ),
            before.config.eps,
            before.config.eps_energy,
            before.config.n_modes,
            before.config.latent_dim,
        ) == (InvariantReport { inv1_ok: true, inv2_ok: true, inv3_ok: true, inv4_ok: true }),
{
    reveal(Engine::applies);
}

/// Strict checking decides by the state that the lenient engine would go on with. Where the
/// invariants hold of it, the strict step is the lenient one. Where one is broken, the step
/// fails, and the words are those that the invariants find for the report on that state, the
/// action, the state's energy beside the one at the start, its residual beside the one
/// before the step, and the residual tolerance.
pub proof fn broken_invariants_are_put_into_words<O, P, G, D, C>(
    strict: Engine<O, P, G, D, C>,
    lenient: Engine<O, P, G, D, C>,
    s: StateView,
    action: Action,
    a: Condition,
    next: State,
    went_on: Engine<O, P, G, D, C>,
    r: Result<State, AriaError>,
    after: Engine<O, P, G, D, C>,
    report: InvariantReport,
) where O: OpticalBackend, P: Predictor, G: GraphBackend, D: Diffuser, C: Invariants
    requires
        strict.config.strict,
        lenient == (Engine { config: AriaConfig { strict: false, ..strict.config }, ..strict }),
        Engine::applies(lenient, s, action, a, Ok(next), went_on),
        Engine::applies(strict, s, action, a, r, after),
        call_ensures(Engine::<O, P, G, D, C>::check, (&strict, &next, a), report),
    ensures
        report.green() ==> {
            &&& outcome(r) == Ok::<StateView, ErrorView>(next@)
            &&& after.graph_backend == went_on.graph_backend
        },
        !report.green() ==> {
            &&& r matches Err(AriaError::InvariantViolation(v))
            &&& v.text@ == strict.invariants.violation(
                report,
                action,
                strict.optical.state_energy(next.psi@),
                s.energy_0,
                strict.predictor.distance(
                    next.z@,
                    strict.predictor.prediction(strict.predictor.embedding(next.psi@), a),
                ),
                next.prev_res,
                strict.config.eps,
            )
        },
{
    reveal(Engine::applies);
    checks_ask_with_the_configured_bounds(strict, next, a, report);
    Engine::steps_touch_only_their_part(lenient, s, action, a, next, went_on);
}

/// A match that breaks an invariant is taken back: the backend that had mirrored the edits
/// is told of the rollback, with the journal that gives back the very graph of the state.
pub proof fn broken_matches_are_rolled_back<O, P, G, D, C>(
    before: Engine<O, P, G, D, C>,
    s: StateView,
    a: Condition,
    e: AriaError,
    after: Engine<O, P, G, D, C>,
) where O: OpticalBackend, P: Predictor, G: GraphBackend, D: Diffuser, C: Invariants
    requires
        Engine::applies(before, s, Action::Match, a, Err(e), after),
        e is InvariantViolation,
    ensures
        ({
            let ops = before.graph_backend.proposal(
                s.g,
                s.z,
                before.config.match_policy,
                None,
                s.t,
            );
            &&& s.g.edited(ops, before.config.latent_dim, before.graph_backend) matches Ok(
                (h, journal),
            )
            &&& h.undone(journal) == s.g
            &&& after == (Engine {
                graph_backend: before.graph_backend.committed(ops, h).reverted(journal, s.g),
                ..before
            })
        }),
{
    reveal(Engine::applies);
    let ops = before.graph_backend.proposal(s.g, s.z, before.config.match_policy, None, s.t);
    s.g.journals_restore(ops, before.config.latent_dim, before.graph_backend);
}

/// Only a match leaves the graph backend with anything new: any other step that fails leaves
/// the engine as it was.
pub proof fn other_failures_leave_no_trace<O, P, G, D, C>(
    before: Engine<O, P, G, D, C>,
    s: StateView,
    action: Action,
    a: Condition,
    e: AriaError,
    after: Engine<O, P, G, D, C>,
) where O: OpticalBackend, P: Predictor, G: GraphBackend, D: Diffuser, C: Invariants
    requires
        Engine::applies(before, s, action, a, Err(e), after),
        action != Action::Match,
    ensures
        after == before,
        !before.config.strict ==> action == Action::Diffuse && s.t == u64::MAX,
        s.t == u64::MAX && action == Action::Diffuse ==> e@ == ErrorView::Backend(
            "t overflowed u64"@,
        ),
{
    reveal(Engine::applies);
}

/// A match that the graph would outgrow fails before the check, with both numbers in its
/// complaint, and is taken back; one that the graph does not outgrow never fails for its
/// size.
pub proof fn matches_respect_the_bound<O, P, G, D, C>(
    before: Engine<O, P, G, D, C>,
    s: StateView,
    a: Condition,
    r: Result<State, AriaError>,
    after: Engine<O, P, G, D, C>,
) where O: OpticalBackend, P: Predictor, G: GraphBackend, D: Diffuser, C: Invariants
    requires
        Engine::applies(before, s, Action::Match, a, r, after),
    ensures
        ({
            let ops = before.graph_backend.proposal(
                s.g,
                s.z,
                before.config.match_policy,
                None,
                s.t,
            );
            match s.g.edited(ops, before.config.latent_dim, before.graph_backend) {
                Err(why) => outcome(r) == Err::<StateView, ErrorView>(
                    ErrorView::Backend("Match op refused: "@ + why),
                ) && after == before,
                Ok((h, journal)) => {
                    let size = h.nodes.len() + h.edges.len();
                    let outgrown = r is Err && r->Err_0 is Schedule;
                    &&& outgrown <==> size > before.config.max_graph_size
                    &&& outgrown ==> h.undone(journal) == s.g && after == (Engine {
                        graph_backend: before.graph_backend.reverted(journal, s.g),
                        ..before
                    })
                    &&& outgrown && size <= usize::MAX ==> outcome(r) == Err::<
                        StateView,
                        ErrorView,
                    >(
                        ErrorView::Schedule(
                            "graph size "@ + crate::text::numeral(size) + " exceeds max "@
                                + crate::text::numeral(before.config.max_graph_size as nat),
                        ),
                    )
                    &&& r is Err && !outgrown ==> r->Err_0 is InvariantViolation
                },
            }
        }),
{
    reveal(Engine::applies);
    let ops = before.graph_backend.proposal(s.g, s.z, before.config.match_policy, None, s.t);
    s.g.journals_restore(ops, before.config.latent_dim, before.graph_backend);
}

/// Without strict checking an action fails only for the graph or the clock: an optical
/// step, a prediction and a stutter always succeed, and so does a diffusion whose clock has
/// not run out.
pub proof fn lenient_steps_succeed<O, P, G, D, C>(
    before: Engine<O, P, G, D, C>,
    s: StateView,
    action: Action,
    a: Condition,
    r: Result<State, AriaError>,
    after: Engine<O, P, G, D, C>,
) where O: OpticalBackend, P: Predictor, G: GraphBackend, D: Diffuser, C: Invariants
    requires
        !before.config.strict,
        Engine::applies(before, s, action, a, r, after),
        action != Action::Match,
        action == Action::Diffuse ==> s.t < u64::MAX,
    ensures
        r is Ok,
{
    reveal(Engine::applies);
}

/// One full cycle, in the operators' terms: the field is turned at the clock it had, the
/// latent is predicted from the turned field under the condition, the graph takes what is
/// proposed for that latent, the latent is diffused over the graph that the match left, and
/// the clock advances by one.
pub proof fn a_cycle_goes_round_the_operators<O, P, G, D, C>(
    before: Engine<O, P, G, D, C>,
    s: State,
    a: Condition,
    ss: Seq<State>,
    after: Engine<O, P, G, D, C>,
) where O: OpticalBackend, P: Predictor, G: GraphBackend, D: Diffuser, C: Invariants
    requires
        Engine::completes(before, s, crate::engine::phi_cycle(), a, ss, after),
    ensures
        ss.len() == 5,
        ({
            let turned = before.optical.stepped(s.t, s.psi@);
            let z = before.predictor.prediction(before.predictor.embedding(turned), a);
            let ops = before.graph_backend.proposal(
                s.g@,
                z,
                before.config.match_policy,
                None,
                s.t,
            );
            let last = ss.last();
            &&& last.psi@ == turned
            &&& s.g@.edited(ops, before.config.latent_dim, before.graph_backend) is Ok
            &&& s.g@.edited(ops, before.config.latent_dim, before.graph_backend)->Ok_0.0
                == last.g@
            &&& last.z@ == before.diffuser.diffused(last.g@, z, before.config.diff_policy@)
            &&& last.t == s.t + 1
            &&& last.energy_0 == s.energy_0
            &&& last.prev_res == before.predictor.distance(z, z)
        }),
{
    let cycle = crate::engine::phi_cycle();
    let es = choose|es: Seq<Engine<O, P, G, D, C>>| #[trigger]
        Engine::walks(es, ss, cycle, a) && es[0] == before && ss[0] == s && es.last() == after;
    assert(Engine::applies(es[0], ss[0]@, cycle[0], a, Ok(ss[1]), es[1]));
    assert(Engine::applies(es[1], ss[1]@, cycle[1], a, Ok(ss[2]), es[2]));
    assert(Engine::applies(es[2], ss[2]@, cycle[2], a, Ok(ss[3]), es[3]));
    assert(Engine::applies(es[3], ss[3]@, cycle[3], a, Ok(ss[4]), es[4]));
    optical_steps_turn_the_field(es[0], ss[0]@, a, ss[1], es[1]);
    predictions_follow_the_condition(es[1], ss[1]@, a, ss[2], es[2]);
    matches_make_the_proposed_edits(es[2], ss[2]@, a, ss[3], es[3]);
    diffusions_go_over_the_graph(es[3], ss[3]@, a, ss[4], es[4]);
}

/// What taking an action leaves, where it succeeds: each action writes what it is for, by
/// the engine's own operators and settings and under the condition of the call, and leaves
/// the rest of the state alone.
pub proof fn steps_do_what_their_action_is_for<O, P, G, D, C>(
    e: &mut Engine<O, P, G, D, C>,
    st: State,
    action: Action,
    a: Condition,
    next: State,
) where O: OpticalBackend, P: Predictor, G: GraphBackend, D: Diffuser, C: Invariants
    requires
        call_ensures(Engine::<O, P, G, D, C>::apply, (e, st, action, a), Ok::<State, AriaError>(next)),
    ensures
        Engine::applies(*old(e), st@, action, a, Ok(next), *final(e)),
        next.psi@ == if action == Action::OpticalStep {
            old(e).optical.stepped(st.t, st.psi@)
        } else {
            st.psi@
        },
        next.z@ == if action == Action::Predict {
            old(e).predictor.prediction(old(e).predictor.embedding(st.psi@), a)
        } else if action == Action::Diffuse {
            old(e).diffuser.diffused(st.g@, st.z@, old(e).config.diff_policy@)
        } else {
            st.z@
        },
        action != Action::Match ==> next.g@ == st.g@,
        next.t == if action == Action::Diffuse {
            st.t + 1
        } else {
            st.t as int
        },
        next.energy_0 == st.energy_0,
        next.prev_res == if action == Action::Stutter {
            st.prev_res
        } else {
            old(e).predictor.distance(
                st.z@,
                old(e).predictor.prediction(old(e).predictor.embedding(st.psi@), a),
            )
        },
        final(e).config == old(e).config,
        final(e).optical == old(e).optical,
        final(e).predictor == old(e).predictor,
        final(e).diffuser == old(e).diffuser,
        final(e).invariants == old(e).invariants,
        action != Action::Match ==> final(e).graph_backend == old(e).graph_backend,
{
    reveal(Engine::applies);
}

/// An action that fails fails as [`Engine::applies`] says, under the condition of the call.
pub proof fn failures_are_those_of_the_action<O, P, G, D, C>(
    e: &mut Engine<O, P, G, D, C>,
    st: State,
    action: Action,
    a: Condition,
    why: AriaError,
) where O: OpticalBackend, P: Predictor, G: GraphBackend, D: Diffuser, C: Invariants
    requires
        call_ensures(Engine::<O, P, G, D, C>::apply, (e, st, action, a), Err::<State, AriaError>(why)),
    ensures
        Engine::applies(*old(e), st@, action, a, Err(why), *final(e)),
        action == Action::Stutter ==> old(e).config.strict,
        action != Action::Match ==> *final(e) == *old(e),
{
    reveal(Engine::applies);
}

/// A whole cycle, in the operators' terms: the field is turned at the clock it had, the
/// latent is predicted from the turned field under the condition of the call, the graph takes
/// what is proposed for that latent, the latent is diffused over the graph that the match
/// left, and the clock advances by one.
pub proof fn step_phi_goes_round_the_operators<O, P, G, D, C>(
    e: &mut Engine<O, P, G, D, C>,
    st: State,
    a: Condition,
    next: State,
) where O: OpticalBackend, P: Predictor, G: GraphBackend, D: Diffuser, C: Invariants
    requires
        call_ensures(Engine::<O, P, G, D, C>::step_phi, (e, st, a), Ok::<State, AriaError>(next)),
    ensures
        ({
            let turned = old(e).optical.stepped(st.t, st.psi@);
            let z = old(e).predictor.prediction(old(e).predictor.embedding(turned), a);
            let ops = old(e).graph_backend.proposal(
                st.g@,
                z,
                old(e).config.match_policy,
                None,
                st.t,
            );
            &&& next.psi@ == turned
            &&& st.g@.edited(ops, old(e).config.latent_dim, old(e).graph_backend) is Ok
            &&& st.g@.edited(ops, old(e).config.latent_dim, old(e).graph_backend)->Ok_0.0
                == next.g@
            &&& next.z@ == old(e).diffuser.diffused(next.g@, z, old(e).config.diff_policy@)
            &&& next.t == st.t + 1
            &&& next.energy_0 == st.energy_0
            &&& next.prev_res == old(e).predictor.distance(z, z)
        }),
{
    let ss = choose|ss: Seq<State>| #[trigger]
        Engine::completes(*old(e), st, crate::engine::phi_cycle(), a, ss, *final(e)) && ss.last()
            == next;
    a_cycle_goes_round_the_operators(*old(e), st, a, ss, *final(e));
}

// ---------------------------------------------------------------------------
// Starting
// ---------------------------------------------------------------------------

/// A run starts on the field and the graph that it is given, with the embedding of the field
/// as latent, a clock of zero, the field's energy as the operator measures it for reference,
/// and as residual the distance from the latent to what is predicted from it under the
/// condition of the start.
pub proof fn runs_start_on_what_they_are_given<O, P, G, D, C>(
    e: Engine<O, P, G, D, C>,
    psi0: Vec<Complex>,
    g0: Graph,
    a0: Condition,
    st: State,
) where O: OpticalBackend, P: Predictor, G: GraphBackend, D: Diffuser, C: Invariants
    requires
        call_ensures(Engine::<O, P, G, D, C>::init, (&e, psi0, g0, a0), Ok(st)),
    ensures
        st.psi@ == psi0@,
        st.z@ == e.predictor.embedding(psi0@),
        st.g@ == g0@,
        st.t == 0,
        st.energy_0 == e.optical.field_energy(psi0@),
        st.prev_res == e.predictor.distance(
            e.predictor.embedding(psi0@),
            e.predictor.prediction(e.predictor.embedding(psi0@), a0),
        ),
{
    assert(outcome(Ok::<State, AriaError>(st)) == Ok::<StateView, ErrorView>(st@));
}

/// A run starts where, and only where, the configuration is within the hard bounds, the
/// field has as many amplitudes as there are modes and all of them are finite, and its
/// embedding and the prediction from it have the configured dimension.
pub proof fn runs_start_where_everything_fits<O, P, G, D, C>(
    e: Engine<O, P, G, D, C>,
    psi0: Vec<Complex>,
    g0: Graph,
    a0: Condition,
    r: Result<State, AriaError>,
) where O: OpticalBackend, P: Predictor, G: GraphBackend, D: Diffuser, C: Invariants
    requires
        call_ensures(Engine::<O, P, G, D, C>::init, (&e, psi0, g0, a0), r),
    ensures
        r is Ok <==> {
            &&& e.invariants.bounds(e.config) is Ok
            &&& psi0@.len() == e.config.n_modes
            &&& forall|i: int|
                0 <= i < psi0@.len() ==> (#[trigger] psi0@[i]).re.finite() && psi0@[i].im.finite()
            &&& e.predictor.embedding(psi0@).len() == e.config.latent_dim
            &&& e.predictor.prediction(e.predictor.embedding(psi0@), a0).len()
                == e.config.latent_dim
        },
        e.invariants.bounds(e.config) matches Err(why) ==> (r matches Err(found) && found@ == why),
{
    first_unfit_is_the_first(psi0@);
}

/// A run that does not start says what does not fit, with the number that was found and the
/// number that was configured: first the modes of the field, then its first amplitude that is
/// not finite, then the dimension of its embedding, then that of the prediction from it.
pub proof fn misfits_are_named_in_order<O, P, G, D, C>(
    e: Engine<O, P, G, D, C>,
    psi0: Vec<Complex>,
    g0: Graph,
    a0: Condition,
    why: AriaError,
    i: int,
) where O: OpticalBackend, P: Predictor, G: GraphBackend, D: Diffuser, C: Invariants
    requires
        call_ensures(Engine::<O, P, G, D, C>::init, (&e, psi0, g0, a0), Err::<State, AriaError>(why)),
        e.invariants.bounds(e.config) is Ok,
    ensures
        ({
            let z0 = e.predictor.embedding(psi0@);
            let p0 = e.predictor.prediction(z0, a0);
            let unfit = |j: int| !psi0@[j].re.finite() || !psi0@[j].im.finite();
            &&& psi0@.len() != e.config.n_modes ==> why@ == ErrorView::Config(
                "ψ₀ has "@ + crate::text::numeral(psi0@.len()) + " modes but config.n_modes = "@
                    + crate::text::numeral(e.config.n_modes as nat),
            )
            &&& psi0@.len() == e.config.n_modes && 0 <= i < psi0@.len() && unfit(i) && (forall|
                j: int,
            |
                0 <= j < i ==> !#[trigger] unfit(j)) ==> why@ == ErrorView::Config(
                "ψ₀["@ + crate::text::numeral(i as nat) + "] = "@ + e.invariants.amplitude(
                    psi0@[i],
                ) + " is not finite"@,
            )
            &&& psi0@.len() == e.config.n_modes && (forall|j: int|
                0 <= j < psi0@.len() ==> !#[trigger] unfit(j)) && z0.len() != e.config.latent_dim
                ==> why@ == ErrorView::Config(
                "embed(ψ₀) has dim "@ + crate::text::numeral(z0.len())
                    + " but config.latent_dim = "@ + crate::text::numeral(
                    e.config.latent_dim as nat,
                ) + " — backend/config mismatch"@,
            )
            &&& psi0@.len() == e.config.n_modes && (forall|j: int|
                0 <= j < psi0@.len() ==> !#[trigger] unfit(j)) && z0.len() == e.config.latent_dim
                ==> why@ == ErrorView::Config(
                "P(z) has dim "@ + crate::text::numeral(p0.len()) + " but config.latent_dim = "@
                    + crate::text::numeral(e.config.latent_dim as nat)
                    + " — backend/config mismatch"@,
            )
        }),
{
    first_unfit_is_the_first(psi0@);
    let k = crate::engine::first_unfit(psi0@) as int;
    let unfit = |j: int| !psi0@[j].re.finite() || !psi0@[j].im.finite();
    assert forall|j: int| 0 <= j < k implies !#[trigger] unfit(j) by {
        assert(psi0@[j].re.finite());
    }
    if 0 <= i < psi0@.len() && unfit(i) && forall|j: int| 0 <= j < i ==> !#[trigger] unfit(j) {
        assert(k <= i);
        if k < i {
            assert(unfit(k));
        }
    }
    if k < psi0@.len() {
        assert(unfit(k));
    }
}

/// The first amplitude that is not finite is one, and none before it is.
pub proof fn first_unfit_is_the_first(psi: Seq<Complex>)
    ensures
        crate::engine::first_unfit(psi) <= psi.len(),
        forall|i: int|
            0 <= i < crate::engine::first_unfit(psi) ==> (#[trigger] psi[i]).re.finite()
                && psi[i].im.finite(),
        crate::engine::first_unfit(psi) < psi.len() ==> {
            let c = psi[crate::engine::first_unfit(psi) as int];
            !c.re.finite() || !c.im.finite()
        },
    decreases psi.len(),
{
    if psi.len() > 0 && crate::engine::amplitude_ok(psi[0]) {
        let rest = psi.skip(1);
        first_unfit_is_the_first(rest);
        assert forall|i: int| 0 <= i < crate::engine::first_unfit(psi) implies (
        #[trigger] psi[i]).re.finite() && psi[i].im.finite() by {
            if i > 0 {
                assert(psi[i] == rest[i - 1]);
            }
        }
    }
}

} // verus!
