//! Whole runs: from a field and a graph to the outcome that a front end hands out.

use vstd::prelude::*;

use crate::backend::{
    drawn, draws_begin_alike, rest_of, Diffuser, GraphBackend, Invariants, Monitor,
    OpticalBackend, Predictor, Schedule, Unwatched,
};
use crate::engine::{Engine, RunSummary};
use crate::error::AriaError;
use crate::gates::GateReport;
use crate::graph::{Graph, GraphView};
use crate::scalar::{Complex, Real};
use crate::state::State;
use crate::json::{misrenders, Numerals};
use crate::text::broken_lines;
use crate::trace::{trace_lines, Trace};

verus! {

/// What a run left behind.
pub struct RunOutcome {
    pub state: State,
    pub trace: Trace,
    pub gates: GateReport,
    pub summary: RunSummary,
}

impl RunOutcome {
    /// The text of the trace.
    pub open spec fn jsonl(&self) -> Seq<char> {
        broken_lines(trace_lines(self.trace.header(), self.trace.steps()))
    }
}

/// Whether a renderer renders every number as itself.
pub open spec fn faithful<N: Numerals>(numerals: N) -> bool {
    forall|x: Real| x.finite() ==> !#[trigger] misrenders(numerals, x)
}

/// Whether a run of `steps` scheduled actions, started on `psi0` and `g0`, answers `r`.
pub open spec fn runs_out<O, P, G, D, C, M, S>(
    before: Engine<O, P, G, D, C>,
    psi0: Seq<Complex>,
    g0: GraphView,
    schedule: S,
    steps: nat,
    r: Result<RunOutcome, AriaError>,
    after: Engine<O, P, G, D, C>,
    rest: S,
) -> bool where
    O: OpticalBackend,
    P: Predictor,
    G: GraphBackend,
    D: Diffuser,
    C: Invariants,
    M: Monitor,
    S: Schedule,
 {
    let a = before.config.condition;
    match before.initiated(psi0, g0, a) {
        Err(why) => r matches Err(e) && e@ == why && after == before && rest == schedule,
        Ok(start) => exists|s: State| #[trigger]
            s@ == start && match r {
                Ok(o) => Engine::monitored::<M, S>(
                    before,
                    s,
                    schedule,
                    steps,
                    a,
                    Ok((o.state, o.trace, o.gates)),
                    after,
                    rest,
                ) && after.sums_up(o.state, o.trace, a, o.summary),
                Err(e) => Engine::broken_off(before, s, schedule, steps, a, e, after, rest),
            },
    }
}

/// Starts a run on a field and a graph, takes the scheduled actions under the eyes of the
/// gates, and sums it up.
pub fn run_with_graph<O, P, G, D, C, M, S>(
    engine: &mut Engine<O, P, G, D, C>,
    psi0: Vec<Complex>,
    g0: Graph,
    schedule: &mut S,
    steps: u64,
) -> (r: Result<RunOutcome, AriaError>) where
    O: OpticalBackend,
    P: Predictor,
    G: GraphBackend,
    D: Diffuser,
    C: Invariants,
    M: Monitor,
    S: Schedule,

    ensures
        runs_out::<O, P, G, D, C, M, S>(
            *old(engine),
            psi0@,
            g0@,
            *old(schedule),
            steps as nat,
            r,
            *final(engine),
            *final(schedule),
        ),
{
    let a = engine.config.condition;
    let start = match engine.init(psi0, g0, a) {
        Ok(s) => s,
        Err(e) => {
            return Err(e);
        },
    };
    let ghost first = start;
    assert(first@ == old(engine).initiated(psi0@, g0@, a)->Ok_0);
    match engine.run_monitored::<M, S>(start, schedule, steps, a) {
        Ok((state, trace, gates)) => {
            let summary = engine.summarise(&state, &trace, a);
            Ok(RunOutcome { state, trace, gates, summary })
        },
        Err(e) => Err(e),
    }
}

/// Whether a run of `steps` scheduled actions, started on `psi0` and `g0` and run for its
/// latents, answers `r`.
pub open spec fn latents_out<O, P, G, D, C, S>(
    before: Engine<O, P, G, D, C>,
    psi0: Seq<Complex>,
    g0: GraphView,
    schedule: S,
    steps: nat,
    r: Result<Vec<Vec<Real>>, AriaError>,
    after: Engine<O, P, G, D, C>,
    rest: S,
) -> bool where
    O: OpticalBackend,
    P: Predictor,
    G: GraphBackend,
    D: Diffuser,
    C: Invariants,
    S: Schedule,
 {
    let a = before.config.condition;
    match before.initiated(psi0, g0, a) {
        Err(why) => r matches Err(e) && e@ == why && after == before && rest == schedule,
        Ok(start) => exists|s: State| #[trigger]
            s@ == start && match r {
                Ok(zs) => rest == rest_of(schedule, steps) && exists|ss: Seq<State>, trace: Trace|
                    #[trigger]
                    Engine::ran(before, s, drawn(schedule, steps), a, ss, trace, after)
                        && Engine::<O, P, G, D, C>::shows_latents(zs@, ss),
                Err(e) => Engine::broken_off(before, s, schedule, steps, a, e, after, rest),
            },
    }
}

/// Starts a run on a field and a graph, takes the scheduled actions, and gives the latent
/// after each of them.
pub fn latents_with<O, P, G, D, C, S>(
    engine: &mut Engine<O, P, G, D, C>,
    psi0: Vec<Complex>,
    g0: Graph,
    schedule: &mut S,
    steps: u64,
) -> (r: Result<Vec<Vec<Real>>, AriaError>) where
    O: OpticalBackend,
    P: Predictor,
    G: GraphBackend,
    D: Diffuser,
    C: Invariants,
    S: Schedule,

    ensures
        latents_out(
            *old(engine),
            psi0@,
            g0@,
            *old(schedule),
            steps as nat,
            r,
            *final(engine),
            *final(schedule),
        ),
        r matches Ok(zs) ==> zs@.len() == steps,
{
    proof {
        draws_begin_alike(*schedule, steps as nat, steps as nat);
    }
    let a = engine.config.condition;
    let start = match engine.init(psi0, g0, a) {
        Ok(s) => s,
        Err(e) => {
            return Err(e);
        },
    };
    let ghost first = start;
    assert(first@ == old(engine).initiated(psi0@, g0@, a)->Ok_0);
    match engine.run_monitored_with_latents::<Unwatched, S>(start, schedule, steps, a) {
        Ok((_, _, _, latents)) => Ok(latents),
        Err(e) => Err(e),
    }
}

/// Two runs of one engine from the same field and graph on the same schedule, whoever
/// watches them, have one outcome: both fail with the same error, or both complete with
/// the same state, the same text of the trace and the same check of the last state.
pub proof fn outcomes_agree<O, P, G, D, C, M1, M2, S>(
    before: Engine<O, P, G, D, C>,
    psi0: Seq<Complex>,
    g0: GraphView,
    schedule: S,
    steps: nat,
    r1: Result<RunOutcome, AriaError>,
    after1: Engine<O, P, G, D, C>,
    rest1: S,
    r2: Result<RunOutcome, AriaError>,
    after2: Engine<O, P, G, D, C>,
    rest2: S,
) where
    O: OpticalBackend,
    P: Predictor,
    G: GraphBackend,
    D: Diffuser,
    C: Invariants,
    M1: Monitor,
    M2: Monitor,
    S: Schedule,

    requires
        runs_out::<O, P, G, D, C, M1, S>(before, psi0, g0, schedule, steps, r1, after1, rest1),
        runs_out::<O, P, G, D, C, M2, S>(before, psi0, g0, schedule, steps, r2, after2, rest2),
    ensures
        match (r1, r2) {
            (Ok(o1), Ok(o2)) => {
                &&& o1.state@ == o2.state@
                &&& o1.jsonl() == o2.jsonl()
                &&& o1.summary.report == o2.summary.report
            },
            (Err(e1), Err(e2)) => e1@ == e2@,
            _ => false,
        },
        rest1 == rest2,
{
    let a = before.config.condition;
    match before.initiated(psi0, g0, a) {
        Err(why) => {},
        Ok(start) => {
            let s1 = choose|s: State| #[trigger]
                s@ == start && match r1 {
                    Ok(o) => Engine::monitored::<M1, S>(
                        before,
                        s,
                        schedule,
                        steps,
                        a,
                        Ok((o.state, o.trace, o.gates)),
                        after1,
                        rest1,
                    ) && after1.sums_up(o.state, o.trace, a, o.summary),
                    Err(e) => Engine::broken_off(before, s, schedule, steps, a, e, after1, rest1),
                };
            let s2 = choose|s: State| #[trigger]
                s@ == start && match r2 {
                    Ok(o) => Engine::monitored::<M2, S>(
                        before,
                        s,
                        schedule,
                        steps,
                        a,
                        Ok((o.state, o.trace, o.gates)),
                        after2,
                        rest2,
                    ) && after2.sums_up(o.state, o.trace, a, o.summary),
                    Err(e) => Engine::broken_off(before, s, schedule, steps, a, e, after2, rest2),
                };
            let plain1 = without_summary(r1);
            let plain2 = without_summary(r2);
            assert(Engine::completed(before, s1, schedule, steps, a, plain1, after1, rest1));
            assert(Engine::completed(before, s2, schedule, steps, a, plain2, after2, rest2));
            Engine::runs_are_determined(
                before,
                before,
                s1,
                s2,
                schedule,
                steps,
                a,
                plain1,
                after1,
                rest1,
                plain2,
                after2,
                rest2,
            );
        },
    }
}

/// The last state and the trace of an outcome.
spec fn without_summary(r: Result<RunOutcome, AriaError>) -> Result<(State, Trace), AriaError> {
    match r {
        Ok(o) => Ok((o.state, o.trace)),
        Err(e) => Err(e),
    }
}

/// A run of at least one step that completes under strict checking ends green.
pub proof fn strict_runs_end_green<O, P, G, D, C, M, S>(
    before: Engine<O, P, G, D, C>,
    psi0: Seq<Complex>,
    g0: GraphView,
    schedule: S,
    steps: nat,
    o: RunOutcome,
    after: Engine<O, P, G, D, C>,
    rest: S,
) where
    O: OpticalBackend,
    P: Predictor,
    G: GraphBackend,
    D: Diffuser,
    C: Invariants,
    M: Monitor,
    S: Schedule,

    requires
        before.config.strict,
        steps > 0,
        runs_out::<O, P, G, D, C, M, S>(before, psi0, g0, schedule, steps, Ok(o), after, rest),
    ensures
        o.summary.report.green(),
{
    let a = before.config.condition;
    let actions = drawn(schedule, steps);
    let start = before.initiated(psi0, g0, a)->Ok_0;
    let s = choose|s: State| #[trigger]
        s@ == start && Engine::monitored::<M, S>(
            before,
            s,
            schedule,
            steps,
            a,
            Ok((o.state, o.trace, o.gates)),
            after,
            rest,
        ) && after.sums_up(o.state, o.trace, a, o.summary);
    let ss = choose|ss: Seq<State>|
        {
            &&& #[trigger] Engine::ran(before, s, actions, a, ss, o.trace, after)
            &&& o.gates@ == before.overseen::<M>(ss, actions, a)
            &&& ss.last() == o.state
        };
    draws_begin_alike(schedule, steps, steps);
    Engine::strict_walks_are_green(before, s, actions, a, ss, after, steps as int);
}

} // verus!
