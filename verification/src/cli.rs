//! What the command line asks for, and what becomes of it.
//!
//! Every subcommand starts from a configuration and lays its flags over it. Flags
//! that are read by a parser of their own come as what that parser answered, so that
//! the first complaint, in the order of the flags, is the one that is reported.

use vstd::prelude::*;

use crate::action::Action;
use crate::audit::AuditConfig;
use crate::backend::{Diffuser, GraphBackend, Invariants, OpticalBackend, Predictor};
use crate::condition::Condition;
use crate::config::{AriaConfig, Gate, GateConfig};
use crate::engine::{outcome, Engine};
use crate::error::{AriaError, ErrorView, InvariantReport};
use crate::gates::GateReport;
use crate::graph::{empty_graph, Graph};
use crate::json::{misrenders, Numerals};
use crate::policy::MatchPolicy;
use crate::runner::RunOutcome;
use crate::scalar::{Complex, Real};
use crate::state::{State, StateView};
use crate::text::{decimal, join2, join4, join5, parse_u64, pieces, pieces_of, trim, trimmed, views};

verus! {

/// Where a receipt goes unless another place is asked for.
pub const DEFAULT_RECEIPT: &'static str = "docs/evidence/v0.2.0_longrun_receipt.json";

/// The graph bound that a long verification has at least.
pub const VERIFY_GRAPH_SIZE: usize = 100_000;

/// The value asked for, or the one there was.
pub open spec fn asked<T>(flag: Option<T>, there: T) -> T {
    match flag {
        Some(v) => v,
        None => there,
    }
}

/// The value asked for, or the one there was.
fn ask<T>(flag: Option<T>, there: T) -> (r: T)
    ensures
        r == asked(flag, there),
{
    match flag {
        Some(v) => v,
        None => there,
    }
}

/// The value that a flag was read as, where it was given and read.
pub open spec fn was_read<T>(flag: Option<Result<T, String>>) -> Option<T> {
    match flag {
        Some(Ok(v)) => Some(v),
        _ => None,
    }
}

/// The gates asked for, which take their stutter budget from the configuration, or
/// those there were.
pub open spec fn gates_asked(
    flag: Option<Result<Vec<Gate>, String>>,
    stutter_k: u64,
    there: GateConfig,
) -> GateConfig {
    match flag {
        Some(Ok(enabled)) => GateConfig { enabled, stutter_k },
        _ => there,
    }
}

// ---------------------------------------------------------------------------
// run
// ---------------------------------------------------------------------------

/// How many steps a run takes that is not told: as many as one from a notebook.
pub const DEFAULT_STEPS: u64 = 1000;

/// The flags of `aria run` that change the configuration.
pub struct RunArgs {
    pub schedule: Option<String>,
    pub eps: Option<Real>,
    pub optical: Option<String>,
    pub condition: Option<Result<Condition, String>>,
    pub n_modes: Option<usize>,
    pub latent_dim: Option<usize>,
    pub stutter_k: Option<u64>,
    pub seed: Option<u64>,
    pub gates: Option<Result<Vec<Gate>, String>>,
    pub no_strict: bool,
    pub match_policy: Option<Result<MatchPolicy, String>>,
    pub merge_tau: Option<Real>,
}

/// The first complaint about the flags of a run.
pub open spec fn run_complaint(args: RunArgs) -> Option<String> {
    match (args.condition, args.gates, args.match_policy) {
        (Some(Err(why)), _, _) => Some(why),
        (_, Some(Err(why)), _) => Some(why),
        (_, _, Some(Err(why))) => Some(why),
        _ => None,
    }
}

/// The configuration that the flags of a run ask for.
pub open spec fn run_configured(base: AriaConfig, args: RunArgs) -> AriaConfig {
    let stutter_k = asked(args.stutter_k, base.stutter_k);
    AriaConfig {
        schedule: asked(args.schedule, base.schedule),
        optical: match args.optical {
            Some(v) => Some(v),
            None => base.optical,
        },
        eps: asked(args.eps, base.eps),
        n_modes: asked(args.n_modes, base.n_modes),
        latent_dim: asked(args.latent_dim, base.latent_dim),
        stutter_k,
        seed: match args.seed {
            Some(v) => Some(v),
            None => base.seed,
        },
        condition: asked(was_read(args.condition), base.condition),
        strict: base.strict && !args.no_strict,
        gates: gates_asked(args.gates, stutter_k, base.gates),
        match_policy: asked(was_read(args.match_policy), base.match_policy),
        merge_tau: asked(args.merge_tau, base.merge_tau),
        ..base
    }
}

/// Lays the flags of `aria run` over a configuration. Without flags the configuration
/// stays as it is, so that a run from the command line is the run that the same
/// configuration gives elsewhere; a flag can only turn strict checking off.
pub fn run_config(base: AriaConfig, args: RunArgs) -> (r: Result<AriaConfig, String>)
    ensures
        r == (match run_complaint(args) {
            Some(why) => Err(why),
            None => Ok(run_configured(base, args)),
        }),
{
    let mut config = base;
    config.schedule = ask(args.schedule, config.schedule);
    if let Some(v) = args.optical {
        config.optical = Some(v);
    }
    config.eps = ask(args.eps, config.eps);
    config.n_modes = ask(args.n_modes, config.n_modes);
    config.latent_dim = ask(args.latent_dim, config.latent_dim);
    config.stutter_k = ask(args.stutter_k, config.stutter_k);
    if let Some(v) = args.seed {
        config.seed = Some(v);
    }
    match args.condition {
        Some(Ok(c)) => {
            config.condition = c;
        },
        Some(Err(why)) => {
            return Err(why);
        },
        None => {},
    }
    config.strict = config.strict && !args.no_strict;
    match args.gates {
        Some(Ok(enabled)) => {
            config.gates = GateConfig { enabled, stutter_k: config.stutter_k };
        },
        Some(Err(why)) => {
            return Err(why);
        },
        None => {},
    }
    match args.match_policy {
        Some(Ok(p)) => {
            config.match_policy = p;
        },
        Some(Err(why)) => {
            return Err(why);
        },
        None => {},
    }
    config.merge_tau = ask(args.merge_tau, config.merge_tau);
    Ok(config)
}

/// Whether a finished run is accepted: the invariants hold at the end, and no operating
/// gate that was enabled is breached where gates are strict. A run that is not accepted
/// writes no trace, though another front end may hand the same trace out.
pub fn run_verdict(invariants_ok: bool, gates: &GateReport, strict_gates: bool) -> (r: Result<
    (),
    &'static str,
>)
    ensures
        r is Ok <==> invariants_ok && !(gates.enabled@.len() > 0 && strict_gates
            && gates.breaches@.len() > 0),
        !invariants_ok ==> (r matches Err(why) && why@ == "invariant check failed on final state"@),
        invariants_ok && r is Err ==> (r matches Err(why) && why@
            == "operating gate breached (--strict-gates)"@),
{
    if !invariants_ok {
        return Err("invariant check failed on final state");
    }
    if gates.enabled.len() > 0 && strict_gates && !gates.all_ok() {
        return Err("operating gate breached (--strict-gates)");
    }
    Ok(())
}

/// Why a run from the command line writes no trace.
pub enum RunRefusal {
    /// The run is not accepted.
    NotAccepted(&'static str),
    /// The renderer answered a number with something else.
    Unwritable(Real),
}

/// Whether what `aria run` makes of a finished run can be `r`: the text of the trace that
/// it writes, or why it writes none.
pub open spec fn puts_out<N: Numerals>(
    outcome: RunOutcome,
    strict_gates: bool,
    numerals: N,
    r: Result<String, RunRefusal>,
) -> bool {
    let breached = outcome.gates.enabled@.len() > 0 && strict_gates && outcome.gates.breaches@.len()
        > 0;
    if !outcome.summary.report.green() {
        r matches Err(RunRefusal::NotAccepted(why)) && why@
            == "invariant check failed on final state"@
    } else if breached {
        r matches Err(RunRefusal::NotAccepted(why)) && why@
            == "operating gate breached (--strict-gates)"@
    } else {
        match r {
            Ok(text) => text@ == outcome.jsonl(),
            Err(RunRefusal::Unwritable(x)) => x.finite() && misrenders(numerals, x),
            Err(RunRefusal::NotAccepted(_)) => false,
        }
    }
}

/// What `aria run` makes of a finished run: the text of its trace, where the run is
/// accepted.
pub fn run_output<N: Numerals>(outcome: &RunOutcome, strict_gates: bool, numerals: &N) -> (r:
    Result<String, RunRefusal>)
    ensures
        puts_out(*outcome, strict_gates, *numerals, r),
{
    match run_verdict(outcome.summary.report.all_ok(), &outcome.gates, strict_gates) {
        Err(why) => Err(RunRefusal::NotAccepted(why)),
        Ok(()) => match outcome.trace.to_jsonl(numerals) {
            Ok(text) => Ok(text),
            Err(x) => Err(RunRefusal::Unwritable(x)),
        },
    }
}

// ---------------------------------------------------------------------------
// step and check
// ---------------------------------------------------------------------------

/// The flags of `aria step`.
pub struct StepArgs {
    pub action: Result<Action, String>,
    pub condition: Option<Result<Condition, String>>,
    pub n_modes: Option<usize>,
    pub latent_dim: Option<usize>,
    pub eps: Option<Real>,
}

/// What `aria step` is to do: under which configuration, which condition, and which
/// action to take.
pub fn step_plan(base: AriaConfig, args: StepArgs) -> (r: Result<
    (AriaConfig, Condition, Action),
    String,
>)
    ensures
        r == (match (args.condition, args.action) {
            (Some(Err(why)), _) => Err(why),
            (_, Err(why)) => Err(why),
            (_, Ok(action)) => Ok(
                (
                    (AriaConfig {
                        n_modes: asked(args.n_modes, base.n_modes),
                        latent_dim: asked(args.latent_dim, base.latent_dim),
                        eps: asked(args.eps, base.eps),
                        ..base
                    }),
                    asked(was_read(args.condition), base.condition),
                    action,
                ),
            ),
        }),
{
    let mut config = base;
    config.n_modes = ask(args.n_modes, config.n_modes);
    config.latent_dim = ask(args.latent_dim, config.latent_dim);
    config.eps = ask(args.eps, config.eps);
    let condition = match args.condition {
        Some(Ok(c)) => c,
        Some(Err(why)) => {
            return Err(why);
        },
        None => config.condition,
    };
    match args.action {
        Ok(action) => Ok((config, condition, action)),
        Err(why) => Err(why),
    }
}

/// What `aria check` is to do: under which configuration and which condition.
pub fn check_plan(
    base: AriaConfig,
    latent_dim: Option<usize>,
    condition: Option<Result<Condition, String>>,
) -> (r: Result<(AriaConfig, Condition), String>)
    ensures
        r == (match condition {
            Some(Err(why)) => Err(why),
            _ => Ok(
                (
                    (AriaConfig { latent_dim: asked(latent_dim, base.latent_dim), ..base }),
                    asked(was_read(condition), base.condition),
                ),
            ),
        }),
{
    let mut config = base;
    config.latent_dim = ask(latent_dim, config.latent_dim);
    match condition {
        Some(Ok(c)) => Ok((config, c)),
        Some(Err(why)) => Err(why),
        None => {
            let c = config.condition;
            Ok((config, c))
        },
    }
}

/// Where a single step starts.
pub enum StepStart {
    /// From a state that was given.
    Given(State),
    /// From the initial state on a field and an empty graph.
    Fresh(Vec<Complex>),
}

/// Whether an engine, asked for the single step of `aria step`, answers with `r` and is
/// `after` from then on.
pub open spec fn takes_step<O, P, G, D, C>(
    engine: Engine<O, P, G, D, C>,
    start: StepStart,
    action: Action,
    a: Condition,
    r: Result<State, AriaError>,
    after: Engine<O, P, G, D, C>,
) -> bool where
    O: OpticalBackend,
    P: Predictor,
    G: GraphBackend,
    D: Diffuser,
    C: Invariants,
 {
    match start {
        StepStart::Given(s) => Engine::applies(engine, s@, action, a, r, after),
        StepStart::Fresh(psi0) => match engine.initiated(psi0@, empty_graph(), a) {
            Err(why) => outcome(r) == Err::<StateView, ErrorView>(why) && after == engine,
            Ok(s) => Engine::applies(engine, s, action, a, r, after),
        },
    }
}

/// Takes the single step of `aria step`. What the hard bounds say of the configuration
/// comes first: outside of them no engine is built, and no step is taken.
pub fn step_state<O, P, G, D, C, F>(
    config: AriaConfig,
    bounds: Result<(), AriaError>,
    build: F,
    start: StepStart,
    action: Action,
    a: Condition,
) -> (r: Result<State, AriaError>) where
    O: OpticalBackend,
    P: Predictor,
    G: GraphBackend,
    D: Diffuser,
    C: Invariants,
    F: FnOnce(AriaConfig) -> Engine<O, P, G, D, C>,

    requires
        bounds is Ok ==> build.requires((config,)),
    ensures
        match bounds {
            Err(e) => r == Err::<State, AriaError>(e),
            Ok(()) => exists|engine: Engine<O, P, G, D, C>, after: Engine<O, P, G, D, C>|
                build.ensures((config,), engine) && #[trigger] takes_step(
                    engine,
                    start,
                    action,
                    a,
                    r,
                    after,
                ),
        },
{
    if let Err(e) = bounds {
        return Err(e);
    }
    let mut engine = build(config);
    let ghost built = engine;
    let state = match start {
        StepStart::Given(state) => state,
        StepStart::Fresh(psi0) => {
            match engine.init(psi0, Graph::empty(), a) {
                Ok(state) => state,
                Err(e) => {
                    assert(takes_step(built, start, action, a, Err(e), engine));
                    return Err(e);
                },
            }
        },
    };
    let r = engine.apply(state, action, a);
    assert(takes_step(built, start, action, a, r, engine));
    r
}

/// Why `aria check` fails.
pub enum CheckFailure {
    /// The configuration is outside the hard bounds.
    OutOfBounds(AriaError),
    /// The state breaks an invariant.
    Broken(InvariantReport),
}

/// What is said of a state that passes `aria check`.
pub const ALL_HOLD: &'static str = "All invariants hold: Inv1 ✓ Inv2 ✓ Inv3 ✓ Inv4 ✓";

/// What is said of a state that does not.
pub const NOT_ALL_HOLD: &'static str = "invariant violations";

/// Checks the state of `aria check`. What the hard bounds say of the configuration comes
/// first: outside of them no engine is built, and no state is checked.
pub fn check_state<O, P, G, D, C, F>(
    config: AriaConfig,
    bounds: Result<(), AriaError>,
    build: F,
    state: &State,
    a: Condition,
) -> (r: Result<(), CheckFailure>) where
    O: OpticalBackend,
    P: Predictor,
    G: GraphBackend,
    D: Diffuser,
    C: Invariants,
    F: FnOnce(AriaConfig) -> Engine<O, P, G, D, C>,

    requires
        bounds is Ok ==> build.requires((config,)),
    ensures
        match bounds {
            Err(e) => r == Err::<(), CheckFailure>(CheckFailure::OutOfBounds(e)),
            Ok(()) => exists|engine: Engine<O, P, G, D, C>| #[trigger]
                build.ensures((config,), engine) && r == if engine.report_of(state@, a).green() {
                    Ok(())
                } else {
                    Err::<(), CheckFailure>(CheckFailure::Broken(engine.report_of(state@, a)))
                },
        },
{
    if let Err(e) = bounds {
        return Err(CheckFailure::OutOfBounds(e));
    }
    let engine = build(config);
    let report = engine.check(state, a);
    if report.all_ok() {
        Ok(())
    } else {
        Err(CheckFailure::Broken(report))
    }
}

// ---------------------------------------------------------------------------
// Trained predictors
// ---------------------------------------------------------------------------

/// The complaint about a dimension that was pinned to another value than the one a
/// checkpoint was trained at.
pub open spec fn dims_complaint(
    flag: Seq<char>,
    pinned: usize,
    path: Seq<char>,
    symbol: Seq<char>,
    trained: usize,
) -> Seq<char> {
    flag + " "@ + crate::text::numeral(pinned as nat) + " conflicts with predictor "@ + path
        + ": the checkpoint was trained at "@ + symbol + "="@ + crate::text::numeral(
        trained as nat,
    ) + ". Omit "@ + flag
        + " to use the checkpoint's dimensions, or pass the matching value."@
}

/// The complaint about a dimension that was pinned to another value than the one a
/// checkpoint was trained at.
fn complain_of_dims(flag: &str, pinned: usize, path: &str, symbol: &str, trained: usize) -> (r:
    String)
    ensures
        r@ == dims_complaint(flag@, pinned, path@, symbol@, trained),
{
    let head = join5(
        flag,
        " ",
        decimal(pinned as u64).as_str(),
        " conflicts with predictor ",
        path,
    );
    let middle = join5(
        head.as_str(),
        ": the checkpoint was trained at ",
        symbol,
        "=",
        decimal(trained as u64).as_str(),
    );
    join4(
        middle.as_str(),
        ". Omit ",
        flag,
        " to use the checkpoint's dimensions, or pass the matching value.",
    )
}

/// Whether dimensions that were pinned are those of a checkpoint. What was not pinned
/// does not conflict.
pub fn check_predictor_dims(
    n_modes: Option<usize>,
    latent_dim: Option<usize>,
    trained_modes: usize,
    trained_dim: usize,
    path: &str,
) -> (r: Result<(), String>)
    ensures
        match (n_modes, latent_dim) {
            (Some(v), _) if v != trained_modes => r matches Err(why) && why@ == dims_complaint(
                "--n-modes"@,
                v,
                path@,
                "N"@,
                trained_modes,
            ),
            (_, Some(v)) if v != trained_dim => r matches Err(why) && why@ == dims_complaint(
                "--latent-dim"@,
                v,
                path@,
                "dim(Z)"@,
                trained_dim,
            ),
            _ => r is Ok,
        },
{
    if let Some(v) = n_modes {
        if v != trained_modes {
            return Err(complain_of_dims("--n-modes", v, path, "N", trained_modes));
        }
    }
    if let Some(v) = latent_dim {
        if v != trained_dim {
            return Err(complain_of_dims("--latent-dim", v, path, "dim(Z)", trained_dim));
        }
    }
    Ok(())
}

/// A configuration with the dimensions of a checkpoint.
pub fn adopt_dims(config: AriaConfig, trained_modes: usize, trained_dim: usize) -> (r: AriaConfig)
    ensures
        r == (AriaConfig { n_modes: trained_modes, latent_dim: trained_dim, ..config }),
{
    let mut config = config;
    config.n_modes = trained_modes;
    config.latent_dim = trained_dim;
    config
}

// ---------------------------------------------------------------------------
// verify
// ---------------------------------------------------------------------------

/// The flags of `aria verify` that change the configuration.
pub struct VerifyArgs {
    pub schedule: Option<String>,
    pub condition: Option<Result<Condition, String>>,
    pub n_modes: Option<usize>,
    pub latent_dim: Option<usize>,
    pub seed: Option<u64>,
    pub gates: Option<Result<Vec<Gate>, String>>,
    pub match_policy: Option<Result<MatchPolicy, String>>,
    pub merge_tau: Option<Real>,
}

/// The first complaint about the flags of a verification.
pub open spec fn verify_complaint(args: VerifyArgs) -> Option<String> {
    match (args.condition, args.gates, args.match_policy) {
        (Some(Err(why)), _, _) => Some(why),
        (_, Some(Err(why)), _) => Some(why),
        (_, _, Some(Err(why))) => Some(why),
        _ => None,
    }
}

/// The configuration that the flags of a verification ask for.
pub open spec fn verify_configured(base: AriaConfig, args: VerifyArgs) -> AriaConfig {
    AriaConfig {
        schedule: asked(args.schedule, base.schedule),
        n_modes: asked(args.n_modes, base.n_modes),
        latent_dim: asked(args.latent_dim, base.latent_dim),
        seed: match args.seed {
            Some(v) => Some(v),
            None => base.seed,
        },
        condition: asked(was_read(args.condition), base.condition),
        gates: gates_asked(args.gates, base.stutter_k, base.gates),
        match_policy: asked(was_read(args.match_policy), MatchPolicy::Merge),
        merge_tau: asked(args.merge_tau, base.merge_tau),
        max_graph_size: if base.max_graph_size < VERIFY_GRAPH_SIZE {
            VERIFY_GRAPH_SIZE
        } else {
            base.max_graph_size
        },
        ..base
    }
}

/// Lays the flags of `aria verify` over a configuration. The policy is merge unless
/// another is asked for, whatever the configuration says, and the graph bound is raised
/// to what a long run needs.
pub fn verify_config(base: AriaConfig, args: VerifyArgs) -> (r: Result<AriaConfig, String>)
    ensures
        r == (match verify_complaint(args) {
            Some(why) => Err(why),
            None => Ok(verify_configured(base, args)),
        }),
{
    let mut config = base;
    config.schedule = ask(args.schedule, config.schedule);
    config.n_modes = ask(args.n_modes, config.n_modes);
    config.latent_dim = ask(args.latent_dim, config.latent_dim);
    if let Some(v) = args.seed {
        config.seed = Some(v);
    }
    match args.condition {
        Some(Ok(c)) => {
            config.condition = c;
        },
        Some(Err(why)) => {
            return Err(why);
        },
        None => {},
    }
    match args.gates {
        Some(Ok(enabled)) => {
            config.gates = GateConfig { enabled, stutter_k: config.stutter_k };
        },
        Some(Err(why)) => {
            return Err(why);
        },
        None => {},
    }
    config.match_policy = match args.match_policy {
        Some(Ok(p)) => p,
        Some(Err(why)) => {
            return Err(why);
        },
        None => MatchPolicy::Merge,
    };
    config.merge_tau = ask(args.merge_tau, config.merge_tau);
    if config.max_graph_size < VERIFY_GRAPH_SIZE {
        config.max_graph_size = VERIFY_GRAPH_SIZE;
    }
    Ok(config)
}

/// The audit bounds of a verification: the window and the cap asked for, and the rest
/// from the configuration.
pub fn verify_audit(config: &AriaConfig, window: usize, d_cap: usize) -> (r: AuditConfig)
    ensures
        r == (AuditConfig { k: config.stutter_k, w: window, d_cap, eps: config.eps }),
{
    let mut audit = AuditConfig::from_config(config);
    audit.w = window;
    audit.d_cap = d_cap;
    audit
}

// ---------------------------------------------------------------------------
// bench
// ---------------------------------------------------------------------------

/// The complaint about a number in a list that could not be read.
pub open spec fn size_complaint(flag: Seq<char>, piece: Seq<char>, why: Seq<char>) -> Seq<char> {
    "bad "@ + flag + " value '"@ + piece + "': "@ + why
}

/// A size in a list, given what reading the number answered.
pub open spec fn size_read(
    flag: Seq<char>,
    piece: Seq<char>,
    reading: Result<u64, Seq<char>>,
) -> Result<usize, Seq<char>> {
    match reading {
        Ok(n) => if n <= usize::MAX {
            Ok(n as usize)
        } else {
            Err(size_complaint(flag, piece, "number too large to fit in target type"@))
        },
        Err(why) => Err(size_complaint(flag, piece, why)),
    }
}

/// What an answer says, as a mathematical value.
pub open spec fn answer<T>(r: Result<T, String>) -> Result<T, Seq<char>> {
    match r {
        Ok(v) => Ok(v),
        Err(why) => Err(why@),
    }
}

/// What reading a number answers: the number that the text stands for, or a complaint.
pub open spec fn number_answer(s: Seq<char>) -> Result<u64, Seq<char>> {
    match crate::text::number_of(s) {
        Some(n) => Ok(n),
        None => Err(crate::text::number_complaint(s)),
    }
}

/// A size in a list, given what reading the number answered.
pub fn read_size(flag: &str, piece: &str, reading: Result<u64, String>) -> (r: Result<
    usize,
    String,
>)
    ensures
        answer(r) == size_read(flag@, piece@, answer(reading)),
{
    let why = match reading {
        Ok(n) => {
            if n <= usize::MAX as u64 {
                return Ok(n as usize);
            }
            "number too large to fit in target type".to_string()
        },
        Err(why) => why,
    };
    let head = join5("bad ", flag, " value '", piece, "': ");
    Err(join2(head.as_str(), why.as_str()))
}

/// The sizes that the pieces of a list stand for, or the complaint about the first that
/// stands for none. White space around a number does not count.
pub open spec fn sizes_read(flag: Seq<char>, pieces: Seq<Seq<char>>) -> Result<
    Seq<usize>,
    Seq<char>,
>
    decreases pieces.len(),
{
    if pieces.len() == 0 {
        Ok(Seq::empty())
    } else {
        match sizes_read(flag, pieces.drop_last()) {
            Err(why) => Err(why),
            Ok(sizes) => {
                let piece = trimmed(pieces.last());
                match size_read(flag, piece, number_answer(piece)) {
                    Err(why) => Err(why),
                    Ok(n) => Ok(sizes.push(n)),
                }
            },
        }
    }
}

/// A complaint about the first pieces is the complaint about all of them.
proof fn complaints_stick(flag: Seq<char>, pieces: Seq<Seq<char>>, k: int)
    requires
        0 <= k <= pieces.len(),
        sizes_read(flag, pieces.take(k)) is Err,
    ensures
        sizes_read(flag, pieces) == sizes_read(flag, pieces.take(k)),
    decreases pieces.len() - k,
{
    if k < pieces.len() {
        assert(pieces.take(k + 1).drop_last() =~= pieces.take(k));
        complaints_stick(flag, pieces, k + 1);
    } else {
        assert(pieces.take(k) =~= pieces);
    }
}

/// Reads a list of sizes with commas between them.
pub fn parse_sizes(flag: &str, list: &str) -> (r: Result<Vec<usize>, String>)
    ensures
        match r {
            Ok(sizes) => sizes_read(flag@, pieces_of(list@)) == Ok::<Seq<usize>, Seq<char>>(sizes@),
            Err(why) => sizes_read(flag@, pieces_of(list@)) == Err::<Seq<usize>, Seq<char>>(why@),
        },
{
    let parts = pieces(list);
    let ghost all = views(parts@);
    let mut sizes: Vec<usize> = Vec::new();
    let mut i: usize = 0;
    assert(all.take(0).len() == 0);
    while i < parts.len()
        invariant
            i <= parts@.len(),
            all == views(parts@),
            all == pieces_of(list@),
            sizes_read(flag@, all.take(i as int)) == Ok::<Seq<usize>, Seq<char>>(sizes@),
        decreases parts@.len() - i,
    {
        let piece = trim(parts[i]);
        let reading = parse_u64(piece);
        assert(answer(reading) == number_answer(piece@));
        assert(all.take(i + 1).drop_last() =~= all.take(i as int));
        assert(all.take(i + 1).last() == parts@[i as int]@);
        match read_size(flag, piece, reading) {
            Ok(n) => {
                sizes.push(n);
            },
            Err(why) => {
                proof {
                    complaints_stick(flag@, all, i + 1);
                }
                return Err(why);
            },
        }
        i += 1;
    }
    assert(all.take(i as int) =~= all);
    Ok(sizes)
}

/// Every operating gate.
pub open spec fn every_gate() -> Seq<Gate> {
    seq![
        Gate::Inv5,
        Gate::Inv6,
        Gate::Inv7,
        Gate::Inv8,
        Gate::Inv9,
        Gate::Inv10,
        Gate::Inv11,
    ]
}

/// Sets a configuration up for a measurement at `n` modes: the latent dimension is at
/// most twice the modes, and the gates are all on where that is asked for.
pub fn bench_config(config: &mut AriaConfig, n: usize, latent_dim: usize, with_gates: bool)
    requires
        2 * n <= usize::MAX,
    ensures
        *final(config) == (AriaConfig {
            n_modes: n,
            latent_dim: if latent_dim < 2 * n {
                latent_dim
            } else {
                (2 * n) as usize
            },
            gates: final(config).gates,
            ..*old(config)
        }),
        final(config).gates.stutter_k == old(config).gates.stutter_k,
        with_gates ==> final(config).gates.enabled@ == every_gate(),
        !with_gates ==> final(config).gates == old(config).gates,
{
    config.n_modes = n;
    config.latent_dim =
    if latent_dim < 2 * n {
        latent_dim
    } else {
        2 * n
    };
    if with_gates {
        config.gates.enabled =
        vec![
            Gate::Inv5,
            Gate::Inv6,
            Gate::Inv7,
            Gate::Inv8,
            Gate::Inv9,
            Gate::Inv10,
            Gate::Inv11,
        ];
        assert(config.gates.enabled@ =~= every_gate());
    }
}

/// The time of the first run at `n` modes, if there was one.
pub open spec fn time_at(runs: Seq<(usize, Real)>, n: usize) -> Option<Real>
    decreases runs.len(),
{
    if runs.len() == 0 {
        None
    } else {
        match time_at(runs.drop_last(), n) {
            Some(t) => Some(t),
            None => if runs.last().0 == n {
                Some(runs.last().1)
            } else {
                None
            },
        }
    }
}

proof fn times_stick(runs: Seq<(usize, Real)>, n: usize, k: int)
    requires
        0 <= k <= runs.len(),
        time_at(runs.take(k), n) is Some,
    ensures
        time_at(runs, n) == time_at(runs.take(k), n),
    decreases runs.len() - k,
{
    if k < runs.len() {
        assert(runs.take(k + 1).drop_last() =~= runs.take(k));
        times_stick(runs, n, k + 1);
    } else {
        assert(runs.take(k) =~= runs);
    }
}

/// The time of the first run at `n` modes.
pub fn find_time(runs: &Vec<(usize, Real)>, n: usize) -> (r: Option<Real>)
    ensures
        r == time_at(runs@, n),
{
    let mut i: usize = 0;
    assert(runs@.take(0).len() == 0);
    while i < runs.len()
        invariant
            i <= runs@.len(),
            time_at(runs@.take(i as int), n) is None,
        decreases runs@.len() - i,
    {
        assert(runs@.take(i + 1).drop_last() =~= runs@.take(i as int));
        let run = runs[i];
        if run.0 == n {
            proof {
                times_stick(runs@, n, i + 1);
            }
            return Some(run.1);
        }
        i += 1;
    }
    assert(runs@.take(i as int) =~= runs@);
    None
}

/// The times at 256 and at 1024 modes, where both were measured: their ratio is the
/// evidence of how a step scales.
pub fn scaling_pair(runs: &Vec<(usize, Real)>) -> (r: Option<(Real, Real)>)
    ensures
        r == (match (time_at(runs@, 256), time_at(runs@, 1024)) {
            (Some(a), Some(b)) => Some((a, b)),
            _ => None,
        }),
{
    match (find_time(runs, 256), find_time(runs, 1024)) {
        (Some(a), Some(b)) => Some((a, b)),
        _ => None,
    }
}

/// The state of the generator of bench points after one step.
pub open spec fn lcg_next(state: u64) -> u64 {
    ((state as nat * 6_364_136_223_846_793_005 + 1_442_695_040_888_963_407)
        % 0x1_0000_0000_0000_0000) as u64
}

/// The state of the generator of bench points after `n` steps.
pub open spec fn lcg_after(state: u64, n: nat) -> u64
    decreases n,
{
    if n == 0 {
        state
    } else {
        lcg_next(lcg_after(state, (n - 1) as nat))
    }
}

/// The generator of bench points: a linear congruential sequence, the same in every
/// process.
#[derive(Clone, Copy, PartialEq, Eq, Debug, Structural)]
pub struct Lcg {
    pub state: u64,
}

impl Lcg {
    /// The generator at its start.
    pub fn new() -> (r: Self)
        ensures
            r.state == 0x2545_F491_4F6C_DD1D,
    {
        Lcg { state: 0x2545_F491_4F6C_DD1D }
    }

    /// The next 53 bits: divided by two to the 53rd they are a number from zero up to
    /// one.
    pub fn next_bits(&mut self) -> (r: u64)
        ensures
            final(self).state == lcg_next(old(self).state),
            r == final(self).state / 2048,
            r < 0x20_0000_0000_0000,
    {
        let ghost start = self.state as nat;
        let product = self.state.wrapping_mul(6_364_136_223_846_793_005);
        self.state = product.wrapping_add(1_442_695_040_888_963_407);
        proof {
            let m = 0x1_0000_0000_0000_0000int;
            let p = start * 6_364_136_223_846_793_005;
            vstd::arithmetic::div_mod::lemma_add_mod_noop(p as int, 1_442_695_040_888_963_407, m);
            assert(1_442_695_040_888_963_407int % m == 1_442_695_040_888_963_407int);
            assert(product as int == p as int % m);
        }
        self.state / 2048
    }

    /// The next bits for each of `dim` coordinates.
    pub fn point(&mut self, dim: usize) -> (r: Vec<u64>)
        ensures
            r@.len() == dim,
            final(self).state == lcg_after(old(self).state, dim as nat),
            forall|i: int|
                0 <= i < dim ==> #[trigger] r@[i] == lcg_after(old(self).state, (i + 1) as nat)
                    / 2048,
    {
        let mut bits: Vec<u64> = Vec::new();
        let mut i: usize = 0;
        while i < dim
            invariant
                i <= dim,
                bits@.len() == i,
                self.state == lcg_after(old(self).state, i as nat),
                forall|j: int|
                    0 <= j < i ==> #[trigger] bits@[j] == lcg_after(
                        old(self).state,
                        (j + 1) as nat,
                    ) / 2048,
            decreases dim - i,
        {
            bits.push(self.next_bits());
            i += 1;
        }
        bits
    }
}

/// Where the given percentile stands in a sorted list of `len` measurements.
pub fn percentile_index(len: usize, percent: usize) -> (r: usize)
    requires
        0 < len,
        100 * len <= usize::MAX,
        percent <= 100,
    ensures
        r < len,
        r == (if len * percent / 100 < len - 1 {
            len * percent / 100
        } else {
            len - 1
        }),
{
    assert(len * percent <= 100 * len) by (nonlinear_arith)
        requires
            percent <= 100,
    ;
    let at: usize = len * percent / 100;
    if at < len - 1 {
        at
    } else {
        len - 1
    }
}

// ---------------------------------------------------------------------------
// dataset
// ---------------------------------------------------------------------------

/// Where the frames of a dataset come from.
#[derive(Clone, Copy, PartialEq, Eq, Debug, Structural)]
pub enum DatasetPlan {
    /// The bytes of a corpus, in windows that are `stride` bytes apart.
    Corpus { n_modes: usize, stride: usize },
    /// Synthetic trajectories, for smoke tests.
    Synthetic { n_modes: usize, seed: u64 },
}

/// What `aria dataset` is to do. Windows do not overlap unless a stride is given; the
/// seed is the one given, else the configured one, else 42.
pub fn dataset_plan(
    base: &AriaConfig,
    has_input: bool,
    stride: Option<usize>,
    n_modes: Option<usize>,
    seed: Option<u64>,
) -> (r: DatasetPlan)
    ensures
        r == {
            let n = asked(n_modes, base.n_modes);
            if has_input {
                DatasetPlan::Corpus { n_modes: n, stride: asked(stride, n) }
            } else {
                DatasetPlan::Synthetic { n_modes: n, seed: asked(seed, asked(base.seed, 42)) }
            }
        },
{
    let n = ask(n_modes, base.n_modes);
    if has_input {
        DatasetPlan::Corpus { n_modes: n, stride: ask(stride, n) }
    } else {
        DatasetPlan::Synthetic { n_modes: n, seed: ask(seed, ask(base.seed, 42)) }
    }
}

/// What is said of a dataset made from a corpus.
pub fn corpus_summary(frames: usize, bytes: usize, source: &str, n_modes: usize, stride: usize)
    -> (r: String)
    ensures
        r@ == crate::text::numeral(frames as nat) + " frames from "@ + crate::text::numeral(
            bytes as nat,
        ) + " bytes of "@ + source@ + " (spectral-dft, N="@ + crate::text::numeral(n_modes as nat)
            + ", stride="@ + crate::text::numeral(stride as nat) + ")"@,
{
    let head = join5(
        decimal(frames as u64).as_str(),
        " frames from ",
        decimal(bytes as u64).as_str(),
        " bytes of ",
        source,
    );
    let middle = join4(
        head.as_str(),
        " (spectral-dft, N=",
        decimal(n_modes as u64).as_str(),
        ", stride=",
    );
    join2(join2(middle.as_str(), decimal(stride as u64).as_str()).as_str(), ")")
}

/// What is said of a synthetic dataset.
pub fn synthetic_summary(trajectories: usize, length: usize, n_modes: usize, seed: u64) -> (r:
    String)
    ensures
        r@ == crate::text::numeral(trajectories as nat) + " synthetic trajectories × "@
            + crate::text::numeral(length as nat) + " snapshots (N="@ + crate::text::numeral(
            n_modes as nat,
        ) + ", seed="@ + crate::text::numeral(seed as nat) + ")"@,
{
    let head = join5(
        decimal(trajectories as u64).as_str(),
        " synthetic trajectories × ",
        decimal(length as u64).as_str(),
        " snapshots (N=",
        decimal(n_modes as u64).as_str(),
    );
    join4(head.as_str(), ", seed=", decimal(seed).as_str(), ")")
}

// ---------------------------------------------------------------------------
// Laws
// ---------------------------------------------------------------------------

/// Without flags a run has the configuration that it was given.
pub proof fn no_flags_no_change(base: AriaConfig, args: RunArgs)
    requires
        args.schedule is None,
        args.eps is None,
        args.optical is None,
        args.condition is None,
        args.n_modes is None,
        args.latent_dim is None,
        args.stutter_k is None,
        args.seed is None,
        args.gates is None,
        !args.no_strict,
        args.match_policy is None,
        args.merge_tau is None,
    ensures
        run_complaint(args) is None,
        run_configured(base, args) == base,
{
}

/// Where the check of a checkpoint's dimensions passes, adopting them overrides no
/// flag.
pub proof fn adoption_overrides_no_flag(
    base: AriaConfig,
    args: RunArgs,
    trained_modes: usize,
    trained_dim: usize,
)
    requires
        args.n_modes matches Some(v) ==> v == trained_modes,
        args.latent_dim matches Some(v) ==> v == trained_dim,
    ensures
        args.n_modes is Some ==> run_configured(base, args).n_modes == trained_modes,
        args.latent_dim is Some ==> run_configured(base, args).latent_dim == trained_dim,
{
}

} // verus!
