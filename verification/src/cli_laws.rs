//! What the flags of the command line are for.
//!
//! Every flag sets one thing, and what no flag sets stays as it was configured.

use vstd::prelude::*;

use crate::action::Action;
use crate::audit::AuditConfig;
use crate::backend::{Diffuser, GraphBackend, Invariants, OpticalBackend, Predictor};
use crate::cli::{
    adopt_dims, bench_config, check_plan, check_predictor_dims, check_state, corpus_summary,
    dataset_plan, find_time, parse_sizes, percentile_index, read_size, run_config, run_output,
    run_verdict, scaling_pair, sizes_read, step_plan, step_state, synthetic_summary, time_at,
    verify_audit, verify_config,
    CheckFailure, DatasetPlan, Lcg, RunArgs, RunRefusal, StepArgs, StepStart, VerifyArgs,
};
use crate::condition::Condition;
use crate::config::{AriaConfig, Gate};
use crate::engine::Engine;
use crate::error::AriaError;
use crate::gates::GateReport;
use crate::json::Numerals;
use crate::policy::MatchPolicy;
use crate::runner::RunOutcome;
use crate::scalar::Real;
use crate::state::{State, StateView};
use crate::text::{number_of, numeral, pieces_of, trimmed};
use crate::trace::trace_lines;

verus! {

/// Each flag of a run sets its own setting, and without it the setting stays as configured.
/// Gates that are asked for take the stutter budget that the run has; strict checking can
/// only be turned off; and no flag touches the energy tolerance, the diffusion policy, the
/// graph bound, the vocabulary or the dimension waiver.
pub proof fn run_flags_set_their_own(base: AriaConfig, args: RunArgs, r: AriaConfig)
    requires
        call_ensures(run_config, (base, args), Ok::<AriaConfig, String>(r)),
    ensures
        r.schedule == (match args.schedule {
            Some(v) => v,
            None => base.schedule,
        }),
        r.eps == (match args.eps {
            Some(v) => v,
            None => base.eps,
        }),
        r.optical == (match args.optical {
            Some(v) => Some(v),
            None => base.optical,
        }),
        r.n_modes == (match args.n_modes {
            Some(v) => v,
            None => base.n_modes,
        }),
        r.latent_dim == (match args.latent_dim {
            Some(v) => v,
            None => base.latent_dim,
        }),
        r.stutter_k == (match args.stutter_k {
            Some(v) => v,
            None => base.stutter_k,
        }),
        r.seed == (match args.seed {
            Some(v) => Some(v),
            None => base.seed,
        }),
        r.merge_tau == (match args.merge_tau {
            Some(v) => v,
            None => base.merge_tau,
        }),
        args.condition matches Some(c) ==> c == Ok::<Condition, String>(r.condition),
        args.condition is None ==> r.condition == base.condition,
        args.match_policy matches Some(p) ==> p == Ok::<MatchPolicy, String>(r.match_policy),
        args.match_policy is None ==> r.match_policy == base.match_policy,
        args.gates matches Some(g) ==> g == Ok::<Vec<Gate>, String>(r.gates.enabled)
            && r.gates.stutter_k == r.stutter_k,
        args.gates is None ==> r.gates == base.gates,
        r.strict <==> base.strict && !args.no_strict,
        r.eps_energy == base.eps_energy,
        r.diff_policy == base.diff_policy,
        r.max_graph_size == base.max_graph_size,
        r.allow_sub_spec_dims == base.allow_sub_spec_dims,
        r.vocab_size == base.vocab_size,
{
}

/// The flags of a run are refused where, and only where, one that has a parser of its own
/// could not be read; the complaint is that of the first of them, condition before gates
/// before policy.
pub proof fn run_flags_complain_in_order(
    base: AriaConfig,
    args: RunArgs,
    r: Result<AriaConfig, String>,
)
    requires
        call_ensures(run_config, (base, args), r),
    ensures
        r is Err <==> {
            ||| args.condition is Some && args.condition->Some_0 is Err
            ||| args.gates is Some && args.gates->Some_0 is Err
            ||| args.match_policy is Some && args.match_policy->Some_0 is Err
        },
        r matches Err(why) ==> {
            if args.condition is Some && args.condition->Some_0 is Err {
                args.condition->Some_0 == Err::<Condition, String>(why)
            } else if args.gates is Some && args.gates->Some_0 is Err {
                args.gates->Some_0 == Err::<Vec<Gate>, String>(why)
            } else {
                args.match_policy == Some(Err::<MatchPolicy, String>(why))
            }
        },
{
}

/// Each flag of a verification sets its own setting, and without it the setting stays as
/// configured, but for two: the policy is then merge, whatever is configured, and the graph
/// bound is at least a hundred thousand, and the configured one where that is more. Strict
/// checking, the tolerances and the stutter budget are the configured ones.
pub proof fn verify_flags_set_their_own(base: AriaConfig, args: VerifyArgs, r: AriaConfig)
    requires
        call_ensures(verify_config, (base, args), Ok::<AriaConfig, String>(r)),
    ensures
        r.schedule == (match args.schedule {
            Some(v) => v,
            None => base.schedule,
        }),
        r.n_modes == (match args.n_modes {
            Some(v) => v,
            None => base.n_modes,
        }),
        r.latent_dim == (match args.latent_dim {
            Some(v) => v,
            None => base.latent_dim,
        }),
        r.seed == (match args.seed {
            Some(v) => Some(v),
            None => base.seed,
        }),
        r.merge_tau == (match args.merge_tau {
            Some(v) => v,
            None => base.merge_tau,
        }),
        args.condition matches Some(c) ==> c == Ok::<Condition, String>(r.condition),
        args.condition is None ==> r.condition == base.condition,
        args.match_policy matches Some(p) ==> p == Ok::<MatchPolicy, String>(r.match_policy),
        args.match_policy is None ==> r.match_policy == MatchPolicy::Merge,
        args.gates matches Some(g) ==> g == Ok::<Vec<Gate>, String>(r.gates.enabled)
            && r.gates.stutter_k == base.stutter_k,
        args.gates is None ==> r.gates == base.gates,
        r.max_graph_size >= 100_000,
        r.max_graph_size >= base.max_graph_size,
        r.max_graph_size == 100_000 || r.max_graph_size == base.max_graph_size,
        r.strict == base.strict,
        r.eps == base.eps,
        r.eps_energy == base.eps_energy,
        r.stutter_k == base.stutter_k,
        r.diff_policy == base.diff_policy,
        r.optical == base.optical,
        r.allow_sub_spec_dims == base.allow_sub_spec_dims,
        r.vocab_size == base.vocab_size,
{
}

/// The flags of a verification are refused as those of a run are.
pub proof fn verify_flags_complain_in_order(
    base: AriaConfig,
    args: VerifyArgs,
    r: Result<AriaConfig, String>,
)
    requires
        call_ensures(verify_config, (base, args), r),
    ensures
        r is Err <==> {
            ||| args.condition is Some && args.condition->Some_0 is Err
            ||| args.gates is Some && args.gates->Some_0 is Err
            ||| args.match_policy is Some && args.match_policy->Some_0 is Err
        },
        r matches Err(why) ==> {
            if args.condition is Some && args.condition->Some_0 is Err {
                args.condition->Some_0 == Err::<Condition, String>(why)
            } else if args.gates is Some && args.gates->Some_0 is Err {
                args.gates->Some_0 == Err::<Vec<Gate>, String>(why)
            } else {
                args.match_policy == Some(Err::<MatchPolicy, String>(why))
            }
        },
{
}

/// The audit of a verification has the window and the cap that were asked for, the stutter
/// budget of the configuration and its residual tolerance.
pub proof fn audits_have_the_bounds_asked_for(
    config: AriaConfig,
    window: usize,
    d_cap: usize,
    r: AuditConfig,
)
    requires
        call_ensures(verify_audit, (&config, window, d_cap), r),
    ensures
        r.w == window,
        r.d_cap == d_cap,
        r.k == config.stutter_k,
        r.eps == config.eps,
{
}

/// A single step is planned with the action that was asked for, under the condition that was
/// asked for or else the configured one, and with the two dimensions and the residual
/// tolerance that were asked for; the condition's complaint comes first.
pub proof fn step_flags_set_their_own(
    base: AriaConfig,
    args: StepArgs,
    r: Result<(AriaConfig, Condition, Action), String>,
)
    requires
        call_ensures(step_plan, (base, args), r),
    ensures
        r matches Ok((config, condition, action)) ==> {
            &&& args.action == Ok::<Action, String>(action)
            &&& args.condition matches Some(c) ==> c == Ok::<Condition, String>(condition)
            &&& args.condition is None ==> condition == base.condition
            &&& config.n_modes == (match args.n_modes {
                Some(v) => v,
                None => base.n_modes,
            })
            &&& config.latent_dim == (match args.latent_dim {
                Some(v) => v,
                None => base.latent_dim,
            })
            &&& config.eps == (match args.eps {
                Some(v) => v,
                None => base.eps,
            })
            &&& config == (AriaConfig {
                n_modes: config.n_modes,
                latent_dim: config.latent_dim,
                eps: config.eps,
                ..base
            })
        },
        r matches Err(why) ==> {
            if args.condition is Some && args.condition->Some_0 is Err {
                args.condition->Some_0 == Err::<Condition, String>(why)
            } else {
                args.action == Err::<Action, String>(why)
            }
        },
{
}

/// A check is planned with the latent dimension and the condition that were asked for, and
/// else with the configured ones.
pub proof fn check_flags_set_their_own(
    base: AriaConfig,
    latent_dim: Option<usize>,
    condition: Option<Result<Condition, String>>,
    r: Result<(AriaConfig, Condition), String>,
)
    requires
        call_ensures(check_plan, (base, latent_dim, condition), r),
    ensures
        r matches Ok((config, c)) ==> {
            &&& condition matches Some(asked) ==> asked == Ok::<Condition, String>(c)
            &&& condition is None ==> c == base.condition
            &&& config.latent_dim == (match latent_dim {
                Some(v) => v,
                None => base.latent_dim,
            })
            &&& config == (AriaConfig { latent_dim: config.latent_dim, ..base })
        },
        r matches Err(why) ==> condition == Some(Err::<Condition, String>(why)),
{
}

/// A single step that succeeds is one of an engine built for the configuration, with the
/// action and under the condition that were planned, from the state that was given, or from
/// the start on a field and a graph without nodes and edges.
pub proof fn single_steps_are_steps_of_an_engine<O, P, G, D, C, F>(
    config: AriaConfig,
    bounds: Result<(), AriaError>,
    build: F,
    start: StepStart,
    action: Action,
    a: Condition,
    next: State,
) where
    O: OpticalBackend,
    P: Predictor,
    G: GraphBackend,
    D: Diffuser,
    C: Invariants,
    F: FnOnce(AriaConfig) -> Engine<O, P, G, D, C>,

    requires
        call_ensures(
            step_state::<O, P, G, D, C, F>,
            (config, bounds, build, start, action, a),
            Ok::<State, AriaError>(next),
        ),
    ensures
        bounds is Ok,
        exists|engine: Engine<O, P, G, D, C>, s: StateView, after: Engine<O, P, G, D, C>|
            {
                &&& build.ensures((config,), engine)
                &&& #[trigger] Engine::applies(engine, s, action, a, Ok(next), after)
                &&& start matches StepStart::Given(given) ==> s == given@
                &&& start matches StepStart::Fresh(psi0) ==> {
                    &&& s.psi == psi0@
                    &&& s.z == engine.predictor.embedding(psi0@)
                    &&& s.g.nodes.len() == 0
                    &&& s.g.edges.len() == 0
                    &&& s.g.next == 0
                    &&& s.t == 0
                    &&& s.energy_0 == engine.optical.field_energy(psi0@)
                    &&& s.prev_res == engine.predictor.distance(
                        s.z,
                        engine.predictor.prediction(s.z, a),
                    )
                }
            },
{
    let r = Ok::<State, AriaError>(next);
    let (engine, after) = choose|engine: Engine<O, P, G, D, C>, after: Engine<O, P, G, D, C>|
        build.ensures((config,), engine) && #[trigger] crate::cli::takes_step(
            engine,
            start,
            action,
            a,
            r,
            after,
        );
    match start {
        StepStart::Given(s) => {
            assert(Engine::applies(engine, s@, action, a, Ok(next), after));
        },
        StepStart::Fresh(psi0) => {
            let s = engine.initiated(psi0@, crate::graph::empty_graph(), a)->Ok_0;
            assert(Engine::applies(engine, s, action, a, Ok(next), after));
        },
    }
}

/// A configuration outside the hard bounds takes no single step and checks no state: the
/// complaint about the bounds is the answer.
pub proof fn bounds_come_first<O, P, G, D, C, F>(
    config: AriaConfig,
    why: AriaError,
    build: F,
    start: StepStart,
    action: Action,
    a: Condition,
    state: State,
    stepped: Result<State, AriaError>,
    checked: Result<(), CheckFailure>,
) where
    O: OpticalBackend,
    P: Predictor,
    G: GraphBackend,
    D: Diffuser,
    C: Invariants,
    F: FnOnce(AriaConfig) -> Engine<O, P, G, D, C>,

    requires
        call_ensures(
            step_state::<O, P, G, D, C, F>,
            (config, Err::<(), AriaError>(why), build, start, action, a),
            stepped,
        ),
        call_ensures(
            check_state::<O, P, G, D, C, F>,
            (config, Err::<(), AriaError>(why), build, &state, a),
            checked,
        ),
    ensures
        stepped == Err::<State, AriaError>(why),
        checked == Err::<(), CheckFailure>(CheckFailure::OutOfBounds(why)),
{
}

/// A state passes a check where all four invariants hold of it, asked by an engine built for
/// the configuration, with its tolerances and dimensions and the residual under the planned
/// condition; a state that does not pass is answered with that very report.
pub proof fn checks_are_those_of_an_engine<O, P, G, D, C, F>(
    config: AriaConfig,
    build: F,
    state: State,
    a: Condition,
    r: Result<(), CheckFailure>,
) where
    O: OpticalBackend,
    P: Predictor,
    G: GraphBackend,
    D: Diffuser,
    C: Invariants,
    F: FnOnce(AriaConfig) -> Engine<O, P, G, D, C>,

    requires
        call_ensures(
            check_state::<O, P, G, D, C, F>,
            (config, Ok::<(), AriaError>(()), build, &state, a),
            r,
        ),
    ensures
        exists|engine: Engine<O, P, G, D, C>|
            {
                let report = engine.invariants.report(
                    state@,
                    engine.predictor.distance(
                        state.z@,
                        engine.predictor.prediction(engine.predictor.embedding(state.psi@), a),
                    ),
                    engine.config.eps,
                    engine.config.eps_energy,
                    engine.config.n_modes,
                    engine.config.latent_dim,
                );
                let all = report.inv1_ok && report.inv2_ok && report.inv3_ok && report.inv4_ok;
                &&& #[trigger] build.ensures((config,), engine)
                &&& r is Ok <==> all
                &&& !all ==> r == Err::<(), CheckFailure>(CheckFailure::Broken(report))
            },
{
    let engine = choose|engine: Engine<O, P, G, D, C>| #[trigger]
        build.ensures((config,), engine) && r == if engine.report_of(state@, a).green() {
            Ok(())
        } else {
            Err::<(), CheckFailure>(CheckFailure::Broken(engine.report_of(state@, a)))
        };
    assert(build.ensures((config,), engine));
}

/// A finished run is accepted where the invariants hold at its end and no enabled gate is
/// breached while gates are strict; the invariants come first.
pub proof fn runs_are_accepted(
    invariants_ok: bool,
    gates: GateReport,
    strict_gates: bool,
    r: Result<(), &'static str>,
)
    requires
        call_ensures(run_verdict, (invariants_ok, &gates, strict_gates), r),
    ensures
        !invariants_ok ==> r is Err,
        invariants_ok && !strict_gates ==> r is Ok,
        invariants_ok && gates.breaches@.len() == 0 ==> r is Ok,
        invariants_ok && gates.enabled@.len() == 0 ==> r is Ok,
        strict_gates && gates.enabled@.len() > 0 && gates.breaches@.len() > 0 ==> r is Err,
        r matches Err(why) ==> (why@ == if invariants_ok {
            "operating gate breached (--strict-gates)"@
        } else {
            "invariant check failed on final state"@
        }),
{
}

/// A run from the command line writes the lines of its own trace, and only where its last
/// state is green and strict gates are not breached.
pub proof fn accepted_runs_are_written<N: Numerals>(
    outcome: RunOutcome,
    strict_gates: bool,
    numerals: N,
    text: String,
)
    requires
        call_ensures(
            run_output::<N>,
            (&outcome, strict_gates, &numerals),
            Ok::<String, RunRefusal>(text),
        ),
    ensures
        text@ == crate::text::broken_lines(
            trace_lines(outcome.trace.header(), outcome.trace.steps()),
        ),
        outcome.summary.report.inv1_ok,
        outcome.summary.report.inv2_ok,
        outcome.summary.report.inv3_ok,
        outcome.summary.report.inv4_ok,
        strict_gates && outcome.gates.enabled@.len() > 0 ==> outcome.gates.breaches@.len() == 0,
{
}

/// A run whose last state breaks an invariant is not written, and neither is one that
/// breached an enabled gate while gates are strict; the invariants come first. Any other run
/// is written, unless its renderer fails on a number.
pub proof fn refused_runs_are_not_written<N: Numerals>(
    outcome: RunOutcome,
    strict_gates: bool,
    numerals: N,
    r: Result<String, RunRefusal>,
)
    requires
        call_ensures(run_output::<N>, (&outcome, strict_gates, &numerals), r),
    ensures
        ({
            let report = outcome.summary.report;
            let green = report.inv1_ok && report.inv2_ok && report.inv3_ok && report.inv4_ok;
            let breached = outcome.gates.enabled@.len() > 0 && strict_gates
                && outcome.gates.breaches@.len() > 0;
            &&& r is Err && r->Err_0 is NotAccepted <==> !green || breached
            &&& !green ==> r->Err_0->NotAccepted_0@ == "invariant check failed on final state"@
            &&& green && breached ==> r->Err_0->NotAccepted_0@
                == "operating gate breached (--strict-gates)"@
            &&& r is Err && r->Err_0 is Unwritable ==> r->Err_0->Unwritable_0.finite()
        }),
{
}

/// Dimensions that were pinned pass where, and only where, each is the one that the
/// checkpoint was trained at; what was not pinned does not matter. The complaint names the
/// flag, the value pinned and the value trained at, the modes first.
pub proof fn pinned_dims_must_match(
    n_modes: Option<usize>,
    latent_dim: Option<usize>,
    trained_modes: usize,
    trained_dim: usize,
    path: &str,
    r: Result<(), String>,
)
    requires
        call_ensures(
            check_predictor_dims,
            (n_modes, latent_dim, trained_modes, trained_dim, path),
            r,
        ),
    ensures
        r is Ok <==> {
            &&& n_modes is Some ==> n_modes == Some(trained_modes)
            &&& latent_dim is Some ==> latent_dim == Some(trained_dim)
        },
        r matches Err(why) ==> (if n_modes is Some && n_modes != Some(trained_modes) {
            why@ == "--n-modes"@ + " "@ + numeral(n_modes->Some_0 as nat)
                + " conflicts with predictor "@ + path@ + ": the checkpoint was trained at "@
                + "N"@ + "="@ + numeral(trained_modes as nat) + ". Omit "@ + "--n-modes"@
                + " to use the checkpoint's dimensions, or pass the matching value."@
        } else {
            why@ == "--latent-dim"@ + " "@ + numeral(latent_dim->Some_0 as nat)
                + " conflicts with predictor "@ + path@ + ": the checkpoint was trained at "@
                + "dim(Z)"@ + "="@ + numeral(trained_dim as nat) + ". Omit "@ + "--latent-dim"@
                + " to use the checkpoint's dimensions, or pass the matching value."@
        }),
{
}

/// Adopting a checkpoint's dimensions sets the modes to its modes and the latent dimension to
/// its latent dimension, and nothing else.
pub proof fn adoption_sets_both_dims(
    config: AriaConfig,
    trained_modes: usize,
    trained_dim: usize,
    r: AriaConfig,
)
    requires
        call_ensures(adopt_dims, (config, trained_modes, trained_dim), r),
    ensures
        r.n_modes == trained_modes,
        r.latent_dim == trained_dim,
        r == (AriaConfig { n_modes: r.n_modes, latent_dim: r.latent_dim, ..config }),
{
}

/// A list of sizes is read piece by piece: there are as many sizes as pieces between the
/// commas, and each is the number that its piece, without the white space around it, stands
/// for. It is refused where, and only where, a piece stands for no such number.
pub proof fn sizes_are_read_piece_by_piece(
    flag: &str,
    list: &str,
    r: Result<Vec<usize>, String>,
)
    requires
        call_ensures(parse_sizes, (flag, list), r),
    ensures
        r matches Ok(sizes) ==> {
            &&& sizes@.len() == pieces_of(list@).len()
            &&& forall|i: int|
                0 <= i < sizes@.len() ==> number_of(trimmed(pieces_of(list@)[i])) == Some(
                    #[trigger] sizes@[i] as u64,
                )
        },
        r is Err ==> exists|i: int|
            0 <= i < pieces_of(list@).len() && match number_of(
                trimmed(#[trigger] pieces_of(list@)[i]),
            ) {
                None => true,
                Some(n) => n > usize::MAX,
            },
{
    let pieces = pieces_of(list@);
    sizes_match_their_pieces(flag@, pieces);
}

proof fn sizes_match_their_pieces(flag: Seq<char>, pieces: Seq<Seq<char>>)
    ensures
        match sizes_read(flag, pieces) {
            Ok(sizes) => {
                &&& sizes.len() == pieces.len()
                &&& forall|i: int|
                    0 <= i < sizes.len() ==> number_of(trimmed(pieces[i])) == Some(
                        #[trigger] sizes[i] as u64,
                    )
            },
            Err(_) => exists|i: int|
                0 <= i < pieces.len() && match number_of(trimmed(#[trigger] pieces[i])) {
                    None => true,
                    Some(n) => n > usize::MAX,
                },
        },
    decreases pieces.len(),
{
    if pieces.len() > 0 {
        let fewer = pieces.drop_last();
        sizes_match_their_pieces(flag, fewer);
        let n = pieces.len() - 1;
        assert(pieces[n] == pieces.last());
        match sizes_read(flag, fewer) {
            Err(_) => {
                let i = choose|i: int|
                    0 <= i < fewer.len() && match number_of(trimmed(#[trigger] fewer[i])) {
                        None => true,
                        Some(n) => n > usize::MAX,
                    };
                assert(pieces[i] == fewer[i]);
            },
            Ok(sizes) => {
                if sizes_read(flag, pieces) is Ok {
                    let all = sizes_read(flag, pieces)->Ok_0;
                    assert forall|i: int| 0 <= i < all.len() implies number_of(trimmed(pieces[i]))
                        == Some(#[trigger] all[i] as u64) by {
                        if i < n {
                            assert(all[i] == sizes[i]);
                            assert(pieces[i] == fewer[i]);
                        }
                    }
                }
            },
        }
    }
}

/// A measurement is set up at the modes asked for, with the latent dimension asked for where
/// it is at most twice as large and with twice the modes where not, and with all seven gates
/// where they are asked for. All else stays as configured, the stutter budget of the gates
/// included.
pub proof fn measurements_are_set_up(
    config: &mut AriaConfig,
    n: usize,
    latent_dim: usize,
    with_gates: bool,
)
    requires
        2 * n <= usize::MAX,
        call_ensures(bench_config, (config, n, latent_dim, with_gates), ()),
    ensures
        final(config).n_modes == n,
        final(config).latent_dim <= latent_dim,
        final(config).latent_dim <= 2 * n,
        final(config).latent_dim == latent_dim || final(config).latent_dim == 2 * n,
        with_gates ==> {
            &&& final(config).gates.enabled@.len() == 7
            &&& final(config).gates.enabled@[0] == Gate::Inv5
            &&& final(config).gates.enabled@[1] == Gate::Inv6
            &&& final(config).gates.enabled@[2] == Gate::Inv7
            &&& final(config).gates.enabled@[3] == Gate::Inv8
            &&& final(config).gates.enabled@[4] == Gate::Inv9
            &&& final(config).gates.enabled@[5] == Gate::Inv10
            &&& final(config).gates.enabled@[6] == Gate::Inv11
        },
        !with_gates ==> final(config).gates == old(config).gates,
        final(config).gates.stutter_k == old(config).gates.stutter_k,
        *final(config) == (AriaConfig {
            n_modes: final(config).n_modes,
            latent_dim: final(config).latent_dim,
            gates: final(config).gates,
            ..*old(config)
        }),
{
}

/// The time at a number of modes is that of the first run at it, and there is none only where
/// no run was at it.
pub proof fn times_are_of_the_first_run(
    runs: Vec<(usize, Real)>,
    n: usize,
    r: Option<Real>,
)
    requires
        call_ensures(find_time, (&runs, n), r),
    ensures
        match r {
            Some(t) => exists|i: int|
                {
                    &&& 0 <= i < runs@.len()
                    &&& (#[trigger] runs@[i]).0 == n
                    &&& runs@[i].1 == t
                    &&& forall|j: int| 0 <= j < i ==> (#[trigger] runs@[j]).0 != n
                },
            None => forall|j: int| 0 <= j < runs@.len() ==> (#[trigger] runs@[j]).0 != n,
        },
{
    first_times(runs@, n);
}

proof fn first_times(runs: Seq<(usize, Real)>, n: usize)
    ensures
        match time_at(runs, n) {
            Some(t) => exists|i: int|
                {
                    &&& 0 <= i < runs.len()
                    &&& (#[trigger] runs[i]).0 == n
                    &&& runs[i].1 == t
                    &&& forall|j: int| 0 <= j < i ==> (#[trigger] runs[j]).0 != n
                },
            None => forall|j: int| 0 <= j < runs.len() ==> (#[trigger] runs[j]).0 != n,
        },
    decreases runs.len(),
{
    if runs.len() > 0 {
        let fewer = runs.drop_last();
        first_times(fewer, n);
        assert forall|j: int| 0 <= j < fewer.len() implies #[trigger] runs[j] == fewer[j] by {}
        match time_at(fewer, n) {
            Some(t) => {
                let i = choose|i: int|
                    {
                        &&& 0 <= i < fewer.len()
                        &&& (#[trigger] fewer[i]).0 == n
                        &&& fewer[i].1 == t
                        &&& forall|j: int| 0 <= j < i ==> (#[trigger] fewer[j]).0 != n
                    };
                assert(runs[i] == fewer[i]);
            },
            None => {
                assert(runs[runs.len() - 1] == runs.last());
            },
        }
    }
}

/// The scaling of a step is judged by the times at 256 and at 1024 modes, in this order, and
/// only where both were measured.
pub proof fn scaling_is_judged_by_two_times(
    runs: Vec<(usize, Real)>,
    small: Option<Real>,
    large: Option<Real>,
    r: Option<(Real, Real)>,
)
    requires
        call_ensures(scaling_pair, (&runs,), r),
        call_ensures(find_time, (&runs, 256usize), small),
        call_ensures(find_time, (&runs, 1024usize), large),
    ensures
        r is Some <==> small is Some && large is Some,
        r matches Some((a, b)) ==> small == Some(a) && large == Some(b),
{
}

/// The point of a generator consists of what it would have given one after another, and
/// leaves it where they would have left it.
pub proof fn points_are_drawn_one_by_one(
    whole: &mut Lcg,
    dim: usize,
    point: Vec<u64>,
    single: &mut Lcg,
    bits: u64,
    i: int,
)
    requires
        call_ensures(Lcg::point, (whole, dim), point),
        0 <= i < dim,
        i == 0 ==> *old(single) == *old(whole),
        i > 0 ==> old(single).state / 2048 == point@[i - 1] && old(single).state
            == crate::cli::lcg_after(old(whole).state, i as nat),
        call_ensures(Lcg::next_bits, (single,), bits),
    ensures
        point@.len() == dim,
        bits == point@[i],
        final(single).state as int == (old(single).state * 6_364_136_223_846_793_005int
            + 1_442_695_040_888_963_407int) % 0x1_0000_0000_0000_0000int,
        bits == final(single).state / 2048,
{
    reveal_with_fuel(crate::cli::lcg_after, 2);
}

/// The generator moves on by one multiplication and one addition, in 64 bits.
pub proof fn generators_move_on(state: u64, n: nat)
    ensures
        crate::cli::lcg_after(state, 0) == state,
        crate::cli::lcg_after(state, n + 1) as int == (crate::cli::lcg_after(state, n)
            * 6_364_136_223_846_793_005int + 1_442_695_040_888_963_407int)
            % 0x1_0000_0000_0000_0000int,
{
    reveal_with_fuel(crate::cli::lcg_after, 2);
}

/// The generator of bench points starts at the same place in every process.
pub proof fn generators_start_alike(g: Lcg)
    requires
        call_ensures(Lcg::new, (), g),
    ensures
        g.state == 2_685_821_657_736_338_717,
{
    assert(0x2545_F491_4F6C_DD1Du64 == 2_685_821_657_736_338_717u64);
}

/// The percentile of a sorted list stands inside of it, no further than that share of its
/// length, and as near to it as the list reaches.
pub proof fn percentiles_stand_inside(len: usize, percent: usize, r: usize)
    requires
        0 < len,
        percent <= 100,
        call_ensures(percentile_index, (len, percent), r),
    ensures
        r < len,
        100 * r <= len * percent,
        r < len - 1 ==> len * percent < 100 * (r + 1),
{
}

/// A dataset is made from a corpus where there is one, with the modes asked for or configured
/// and the stride asked for or as many bytes as modes; and else from the seed asked for, or
/// the configured one, or 42.
pub proof fn datasets_come_from_the_input(
    base: AriaConfig,
    has_input: bool,
    stride: Option<usize>,
    n_modes: Option<usize>,
    seed: Option<u64>,
    r: DatasetPlan,
)
    requires
        call_ensures(dataset_plan, (&base, has_input, stride, n_modes, seed), r),
    ensures
        r is Corpus <==> has_input,
        r matches DatasetPlan::Corpus { n_modes: n, stride: s } ==> {
            &&& n_modes matches Some(v) ==> n == v
            &&& n_modes is None ==> n == base.n_modes
            &&& stride matches Some(v) ==> s == v
            &&& stride is None ==> s == n
        },
        r matches DatasetPlan::Synthetic { n_modes: n, seed: s } ==> {
            &&& n_modes matches Some(v) ==> n == v
            &&& n_modes is None ==> n == base.n_modes
            &&& seed matches Some(v) ==> s == v
            &&& seed is None ==> (base.seed matches Some(v) ==> s == v)
            &&& seed is None && base.seed is None ==> s == 42
        },
{
}

/// A size in a list is the number that was read, where it fits.
pub proof fn sizes_are_the_numbers_read(
    flag: &str,
    piece: &str,
    reading: Result<u64, String>,
    r: Result<usize, String>,
)
    requires
        call_ensures(read_size, (flag, piece, reading), r),
    ensures
        r is Ok <==> reading is Ok && reading->Ok_0 <= usize::MAX,
        r matches Ok(n) ==> reading == Ok::<u64, String>(n as u64),
        reading matches Err(why) ==> (r matches Err(text) && text@ == "bad "@ + flag@
            + " value '"@ + piece@ + "': "@ + why@),
{
}

/// What is said of a dataset made from a corpus gives its frames, bytes, source, modes and
/// stride, and of a synthetic one its trajectories, length, modes and seed.
pub proof fn datasets_are_summed_up(
    frames: usize,
    bytes: usize,
    source: &str,
    n_modes: usize,
    stride: usize,
    corpus: String,
    trajectories: usize,
    length: usize,
    seed: u64,
    synthetic: String,
)
    requires
        call_ensures(corpus_summary, (frames, bytes, source, n_modes, stride), corpus),
        call_ensures(synthetic_summary, (trajectories, length, n_modes, seed), synthetic),
    ensures
        corpus@ == numeral(frames as nat) + " frames from "@ + numeral(bytes as nat)
            + " bytes of "@ + source@ + " (spectral-dft, N="@ + numeral(n_modes as nat)
            + ", stride="@ + numeral(stride as nat) + ")"@,
        synthetic@ == numeral(trajectories as nat) + " synthetic trajectories × "@ + numeral(
            length as nat,
        ) + " snapshots (N="@ + numeral(n_modes as nat) + ", seed="@ + numeral(seed as nat)
            + ")"@,
{
}

} // verus!
