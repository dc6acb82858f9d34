//! Streaming audit of an action stream.
//!
//! A long run is judged by five reject shapes, X1 to X5, each of which is a
//! property of positions in the stream of actions and residuals, and by the
//! family of words the actions belong to. [`StreamingAuditor`] counts them
//! online and keeps no more than a window of actions; the spec functions of this
//! module say what it counts, over the whole stream.

use std::collections::VecDeque;

use vstd::prelude::*;

use crate::action::Action;
use crate::config::AriaConfig;
use crate::scalar::Real;

verus! {

/// What one step shows to the auditor: the action taken and the residual after it.
pub type Observation = (Action, Real);

/// Bounds of the finite-window audit.
#[derive(Clone, Copy, Debug)]
pub struct AuditConfig {
    /// Stutter budget K.
    pub k: u64,
    /// Optical-starve window W.
    pub w: usize,
    /// Longest run of diffusions that is not counted.
    pub d_cap: usize,
    /// Residual at or below which the latent counts as cold.
    pub eps: Real,
}

impl AuditConfig {
    /// The bounds that go with a configuration, with the usual window and diffusion cap.
    pub fn from_config(config: &AriaConfig) -> (r: Self)
        ensures
            r == (AuditConfig { k: config.stutter_k, w: 64, d_cap: 8, eps: config.eps }),
    {
        AuditConfig { k: config.stutter_k, w: 64, d_cap: 8, eps: config.eps }
    }
}

/// The X1 to X5 counters and the family label of a stream.
#[derive(Clone, Debug, Default, PartialEq, Eq)]
pub struct TraceAudit {
    pub x1: u64,
    pub x2: u64,
    pub x3: u64,
    pub x4: u64,
    pub x5: u64,
    pub family: String,
}

// ---------------------------------------------------------------------------
// What is counted
// ---------------------------------------------------------------------------

/// How many of the positions `0..n` satisfy `p`.
pub open spec fn tally(p: spec_fn(int) -> bool, n: int) -> nat
    decreases n,
{
    if n <= 0 {
        0
    } else {
        tally(p, n - 1) + if p(n - 1) {
            1nat
        } else {
            0nat
        }
    }
}

/// The length of the run of `action` that ends at position `i`.
pub open spec fn run_ending(h: Seq<Observation>, action: Action, i: int) -> nat
    decreases i + 1,
{
    if i < 0 || h[i].0 != action {
        0
    } else {
        run_ending(h, action, i - 1) + 1
    }
}

/// X1 and X5 at `i`: a run of stutters has outgrown the budget.
pub open spec fn over_stuttered(cfg: AuditConfig, h: Seq<Observation>, i: int) -> bool {
    run_ending(h, Action::Stutter, i) > cfg.k
}

/// X2 at `i`: the last W actions are there and none of them is an optical step.
pub open spec fn starved(cfg: AuditConfig, h: Seq<Observation>, i: int) -> bool {
    &&& 0 < cfg.w <= i + 1
    &&& forall|j: int| i + 1 - cfg.w <= j <= i ==> (#[trigger] h[j]).0 != Action::OpticalStep
}

/// X3 at `i`: a run of diffusions has outgrown its cap.
pub open spec fn over_diffused(cfg: AuditConfig, h: Seq<Observation>, i: int) -> bool {
    run_ending(h, Action::Diffuse, i) > cfg.d_cap
}

/// Whether, by position `i`, a prediction was made and no residual since was cold.
pub open spec fn predicted_since_cold(cfg: AuditConfig, h: Seq<Observation>, i: int) -> bool {
    exists|j: int|
        0 <= j <= i && (#[trigger] h[j]).0 == Action::Predict && forall|m: int|
            j < m <= i ==> !(#[trigger] h[m]).1.at_most(cfg.eps)
}

/// X4 at `i`: a match while hot, with no prediction since the latent was last cold.
pub open spec fn unpredicted_match(cfg: AuditConfig, h: Seq<Observation>, i: int) -> bool {
    &&& h[i].0 == Action::Match
    &&& h[i].1.above(cfg.eps)
    &&& !predicted_since_cold(cfg, h, i)
}

/// Whether the action at `i` may stand behind what precedes it in a word of
/// cycles `OPMD` with at most K stutters between one cycle and the next.
pub open spec fn in_cycle(cfg: AuditConfig, h: Seq<Observation>, i: int) -> bool {
    match h[i].0 {
        Action::OpticalStep => i == 0 || h[i - 1].0 == Action::Diffuse || h[i - 1].0
            == Action::Stutter,
        Action::Predict => i > 0 && h[i - 1].0 == Action::OpticalStep,
        Action::Match => i > 0 && h[i - 1].0 == Action::Predict,
        Action::Diffuse => i > 0 && h[i - 1].0 == Action::Match,
        Action::Stutter => i > 0 && (h[i - 1].0 == Action::Diffuse || h[i - 1].0
            == Action::Stutter) && !over_stuttered(cfg, h, i),
    }
}

/// Whether every action of the stream keeps to the cycle.
pub open spec fn keeps_cycle(cfg: AuditConfig, h: Seq<Observation>) -> bool {
    forall|i: int| 0 <= i < h.len() ==> #[trigger] in_cycle(cfg, h, i)
}

/// Whether the stream holds a stutter.
pub open spec fn stutters(h: Seq<Observation>) -> bool {
    exists|i: int| 0 <= i < h.len() && (#[trigger] h[i]).0 == Action::Stutter
}

/// The family label: bare cycles are W1, cycles with stutters W2, all else `other`.
pub open spec fn family_of(cfg: AuditConfig, h: Seq<Observation>) -> Seq<char> {
    if !keeps_cycle(cfg, h) {
        "other"@
    } else if stutters(h) {
        "W2"@
    } else {
        "W1"@
    }
}

pub open spec fn x1_of(cfg: AuditConfig, h: Seq<Observation>) -> nat {
    tally(|i: int| over_stuttered(cfg, h, i), h.len() as int)
}

pub open spec fn x2_of(cfg: AuditConfig, h: Seq<Observation>) -> nat {
    tally(|i: int| starved(cfg, h, i), h.len() as int)
}

pub open spec fn x3_of(cfg: AuditConfig, h: Seq<Observation>) -> nat {
    tally(|i: int| over_diffused(cfg, h, i), h.len() as int)
}

pub open spec fn x4_of(cfg: AuditConfig, h: Seq<Observation>) -> nat {
    tally(|i: int| unpredicted_match(cfg, h, i), h.len() as int)
}

impl TraceAudit {
    /// Whether these are the counters and the label of the stream `h`.
    pub open spec fn describes(&self, cfg: AuditConfig, h: Seq<Observation>) -> bool {
        &&& self.x1 == x1_of(cfg, h)
        &&& self.x2 == x2_of(cfg, h)
        &&& self.x3 == x3_of(cfg, h)
        &&& self.x4 == x4_of(cfg, h)
        &&& self.x5 == x1_of(cfg, h)
        &&& self.family@ == family_of(cfg, h)
    }

    /// Whether no reject shape was counted.
    pub open spec fn clean(&self) -> bool {
        self.x1 == 0 && self.x2 == 0 && self.x3 == 0 && self.x4 == 0 && self.x5 == 0
    }

    /// Whether no reject shape was counted.
    pub fn all_zero(&self) -> (r: bool)
        ensures
            r == self.clean(),
    {
        self.x1 == 0 && self.x2 == 0 && self.x3 == 0 && self.x4 == 0 && self.x5 == 0
    }
}

// ---------------------------------------------------------------------------
// Growing a stream leaves its past alone
// ---------------------------------------------------------------------------

pub proof fn tally_bounded(p: spec_fn(int) -> bool, n: int)
    ensures
        n >= 0 ==> tally(p, n) <= n,
    decreases n,
{
    if n > 0 {
        tally_bounded(p, n - 1);
    }
}

pub proof fn tally_agrees(p: spec_fn(int) -> bool, q: spec_fn(int) -> bool, n: int)
    requires
        forall|i: int| 0 <= i < n ==> #[trigger] p(i) == q(i),
    ensures
        tally(p, n) == tally(q, n),
    decreases n,
{
    if n > 0 {
        tally_agrees(p, q, n - 1);
        assert(p(n - 1) == q(n - 1));
    }
}

/// A tally of zero means that no position satisfies the predicate.
pub proof fn tally_misses(p: spec_fn(int) -> bool, n: int, i: int)
    requires
        tally(p, n) == 0,
        0 <= i < n,
    ensures
        !p(i),
    decreases n,
{
    if i < n - 1 {
        tally_misses(p, n - 1, i);
    }
}

/// A predicate that no position satisfies has a tally of zero.
pub proof fn tally_empty(p: spec_fn(int) -> bool, n: int)
    requires
        forall|i: int| 0 <= i < n ==> !#[trigger] p(i),
    ensures
        tally(p, n) == 0,
    decreases n,
{
    if n > 0 {
        tally_empty(p, n - 1);
        assert(!p(n - 1));
    }
}

proof fn run_ending_grows(h: Seq<Observation>, o: Observation, action: Action, i: int)
    requires
        i < h.len(),
    ensures
        run_ending(h.push(o), action, i) == run_ending(h, action, i),
    decreases i + 1,
{
    if i >= 0 {
        assert(h.push(o)[i] == h[i]);
        run_ending_grows(h, o, action, i - 1);
    }
}

proof fn run_ending_bounded(h: Seq<Observation>, action: Action, i: int)
    ensures
        i >= -1 ==> run_ending(h, action, i) <= i + 1,
    decreases i + 1,
{
    if i >= 0 {
        run_ending_bounded(h, action, i - 1);
    }
}

/// What holds at a position of a stream still holds there when the stream grows.
proof fn past_is_fixed(cfg: AuditConfig, h: Seq<Observation>, o: Observation, i: int)
    requires
        0 <= i < h.len(),
    ensures
        over_stuttered(cfg, h.push(o), i) == over_stuttered(cfg, h, i),
        starved(cfg, h.push(o), i) == starved(cfg, h, i),
        over_diffused(cfg, h.push(o), i) == over_diffused(cfg, h, i),
        unpredicted_match(cfg, h.push(o), i) == unpredicted_match(cfg, h, i),
        predicted_since_cold(cfg, h.push(o), i) == predicted_since_cold(cfg, h, i),
        in_cycle(cfg, h.push(o), i) == in_cycle(cfg, h, i),
{
    let g = h.push(o);
    assert forall|j: int| 0 <= j < h.len() implies #[trigger] g[j] == h[j] by {}
    run_ending_grows(h, o, Action::Stutter, i);
    run_ending_grows(h, o, Action::Diffuse, i);
    if starved(cfg, h, i) {
        assert forall|j: int| i + 1 - cfg.w <= j <= i implies (#[trigger] g[j]).0
            != Action::OpticalStep by {
            assert(g[j] == h[j]);
        }
    }
    if starved(cfg, g, i) {
        assert forall|j: int| i + 1 - cfg.w <= j <= i implies (#[trigger] h[j]).0
            != Action::OpticalStep by {
            assert(g[j] == h[j]);
        }
    }
    if predicted_since_cold(cfg, h, i) {
        let j = choose|j: int|
            0 <= j <= i && (#[trigger] h[j]).0 == Action::Predict && forall|m: int|
                j < m <= i ==> !(#[trigger] h[m]).1.at_most(cfg.eps);
        assert(g[j].0 == Action::Predict);
        assert forall|m: int| j < m <= i implies !(#[trigger] g[m]).1.at_most(cfg.eps) by {
            assert(g[m] == h[m]);
        }
    }
    if predicted_since_cold(cfg, g, i) {
        let j = choose|j: int|
            0 <= j <= i && (#[trigger] g[j]).0 == Action::Predict && forall|m: int|
                j < m <= i ==> !(#[trigger] g[m]).1.at_most(cfg.eps);
        assert(h[j].0 == Action::Predict);
        assert forall|m: int| j < m <= i implies !(#[trigger] h[m]).1.at_most(cfg.eps) by {
            assert(g[m] == h[m]);
        }
    }
}

/// One more observation adds to each counter what holds at its own position.
proof fn counters_grow(cfg: AuditConfig, h: Seq<Observation>, o: Observation)
    ensures
        x1_of(cfg, h.push(o)) == x1_of(cfg, h) + if over_stuttered(cfg, h.push(o), h.len() as int) {
            1nat
        } else {
            0nat
        },
        x2_of(cfg, h.push(o)) == x2_of(cfg, h) + if starved(cfg, h.push(o), h.len() as int) {
            1nat
        } else {
            0nat
        },
        x3_of(cfg, h.push(o)) == x3_of(cfg, h) + if over_diffused(cfg, h.push(o), h.len() as int) {
            1nat
        } else {
            0nat
        },
        x4_of(cfg, h.push(o)) == x4_of(cfg, h) + if unpredicted_match(
            cfg,
            h.push(o),
            h.len() as int,
        ) {
            1nat
        } else {
            0nat
        },
{
    let g = h.push(o);
    let n = h.len() as int;
    assert forall|i: int| 0 <= i < n implies over_stuttered(cfg, g, i) == over_stuttered(cfg, h, i)
        && starved(cfg, g, i) == starved(cfg, h, i) && over_diffused(cfg, g, i) == over_diffused(
        cfg,
        h,
        i,
    ) && unpredicted_match(cfg, g, i) == unpredicted_match(cfg, h, i) by {
        past_is_fixed(cfg, h, o, i);
    }
    tally_agrees(|i: int| over_stuttered(cfg, g, i), |i: int| over_stuttered(cfg, h, i), n);
    tally_agrees(|i: int| starved(cfg, g, i), |i: int| starved(cfg, h, i), n);
    tally_agrees(|i: int| over_diffused(cfg, g, i), |i: int| over_diffused(cfg, h, i), n);
    tally_agrees(|i: int| unpredicted_match(cfg, g, i), |i: int| unpredicted_match(cfg, h, i), n);
}

// ---------------------------------------------------------------------------
// The auditor
// ---------------------------------------------------------------------------

/// Where the stream stands in its cycle, as long as it has kept to it.
#[derive(Clone, Copy, PartialEq, Eq, Debug, Structural)]
enum FamilyPhase {
    ExpectO,
    ExpectP,
    ExpectM,
    ExpectD,
    AfterD,
}

/// Online auditor. Stores at most W action symbols, whatever the length of the
/// stream; the stream itself is kept for the proofs only.
pub struct StreamingAuditor {
    cfg: AuditConfig,
    consecutive_s: u64,
    consecutive_d: u64,
    window: VecDeque<Action>,
    saw_p_since_cold: bool,
    saw_stutter: bool,
    illegal_family: bool,
    phase: FamilyPhase,
    counts: TraceAudit,
    history: Ghost<Seq<Observation>>,
}

/// The phase that a stream which kept to the cycle is in.
spec fn phase_of(h: Seq<Observation>) -> FamilyPhase {
    if h.len() == 0 {
        FamilyPhase::ExpectO
    } else {
        match h.last().0 {
            Action::OpticalStep => FamilyPhase::ExpectP,
            Action::Predict => FamilyPhase::ExpectM,
            Action::Match => FamilyPhase::ExpectD,
            Action::Diffuse => FamilyPhase::AfterD,
            Action::Stutter => FamilyPhase::AfterD,
        }
    }
}

/// How many actions of a stream of length `n` a window of `w` holds.
spec fn held(w: usize, n: nat) -> nat {
    if n <= w {
        n
    } else {
        w as nat
    }
}

/// Whether `action` may follow in `phase`.
spec fn follows(phase: FamilyPhase, action: Action, over_budget: bool) -> bool {
    match action {
        Action::OpticalStep => phase == FamilyPhase::ExpectO || phase == FamilyPhase::AfterD,
        Action::Predict => phase == FamilyPhase::ExpectP,
        Action::Match => phase == FamilyPhase::ExpectM,
        Action::Diffuse => phase == FamilyPhase::ExpectD,
        Action::Stutter => phase == FamilyPhase::AfterD && !over_budget,
    }
}

/// A window of `w` actions, moved on by one.
spec fn slid(w: usize, window: Seq<Action>, action: Action) -> Seq<Action> {
    if w == 0 {
        window
    } else if window.len() == w {
        window.drop_first().push(action)
    } else {
        window.push(action)
    }
}

/// Whether a window of `w` is full and holds no optical step.
spec fn lacks_optical(w: usize, window: Seq<Action>) -> bool {
    &&& w > 0
    &&& window.len() == w
    &&& forall|j: int| 0 <= j < window.len() ==> #[trigger] window[j] != Action::OpticalStep
}

/// Whether a window holds the last `w` actions of a stream.
spec fn holds_last(w: usize, h: Seq<Observation>, window: Seq<Action>) -> bool {
    let kept = held(w, h.len());
    &&& window.len() == kept
    &&& forall|j: int| 0 <= j < kept ==> #[trigger] window[j] == h[h.len() - kept + j].0
}

proof fn window_grows(cfg: AuditConfig, h: Seq<Observation>, o: Observation, window: Seq<Action>)
    requires
        holds_last(cfg.w, h, window),
    ensures
        holds_last(cfg.w, h.push(o), slid(cfg.w, window, o.0)),
        lacks_optical(cfg.w, slid(cfg.w, window, o.0)) == starved(
            cfg,
            h.push(o),
            h.len() as int,
        ),
{
    let g = h.push(o);
    let n = h.len() as int;
    let kept = held(cfg.w, g.len());
    let after = slid(cfg.w, window, o.0);
    assert forall|j: int| 0 <= j < kept implies #[trigger] after[j] == g[g.len() - kept + j].0 by {
        if j < kept - 1 {
            if window.len() == cfg.w {
                assert(after[j] == window[j + 1]);
            } else {
                assert(after[j] == window[j]);
            }
        }
    }
    if starved(cfg, g, n) {
        assert forall|j: int| 0 <= j < kept implies #[trigger] after[j] != Action::OpticalStep by {
            assert(g[g.len() - kept + j].0 != Action::OpticalStep);
        }
    }
    if lacks_optical(cfg.w, after) {
        assert forall|j: int| n + 1 - cfg.w <= j <= n implies (#[trigger] g[j]).0
            != Action::OpticalStep by {
            assert(after[j - (g.len() - kept)] == g[j].0);
        }
    }
}

/// Every counter and run of a stream is at most as large as the stream is long.
proof fn counters_fit(cfg: AuditConfig, h: Seq<Observation>)
    ensures
        x1_of(cfg, h) <= h.len(),
        x2_of(cfg, h) <= h.len(),
        x3_of(cfg, h) <= h.len(),
        x4_of(cfg, h) <= h.len(),
        run_ending(h, Action::Stutter, h.len() - 1) <= h.len(),
        run_ending(h, Action::Diffuse, h.len() - 1) <= h.len(),
{
    let n = h.len() as int;
    run_ending_bounded(h, Action::Stutter, n - 1);
    run_ending_bounded(h, Action::Diffuse, n - 1);
    tally_bounded(|i: int| over_stuttered(cfg, h, i), n);
    tally_bounded(|i: int| starved(cfg, h, i), n);
    tally_bounded(|i: int| over_diffused(cfg, h, i), n);
    tally_bounded(|i: int| unpredicted_match(cfg, h, i), n);
}

/// A run grows by an action of its kind and ends at any other.
proof fn runs_grow(h: Seq<Observation>, o: Observation)
    ensures
        forall|a: Action| #[trigger]
            run_ending(h.push(o), a, h.len() as int) == if o.0 == a {
                run_ending(h, a, h.len() - 1) + 1
            } else {
                0
            },
{
    let n = h.len() as int;
    assert(h.push(o)[n] == o);
    assert forall|a: Action| #[trigger]
        run_ending(h.push(o), a, n) == if o.0 == a {
            run_ending(h, a, n - 1) + 1
        } else {
            0
        } by {
        run_ending_grows(h, o, a, n - 1);
    }
}

proof fn stutters_grow(h: Seq<Observation>, o: Observation)
    ensures
        stutters(h.push(o)) == (stutters(h) || o.0 == Action::Stutter),
{
    let g = h.push(o);
    let n = h.len() as int;
    assert(g[n] == o);
    assert forall|i: int| 0 <= i < n implies #[trigger] g[i] == h[i] by {}
    if stutters(h) {
        let i = choose|i: int| 0 <= i < h.len() && (#[trigger] h[i]).0 == Action::Stutter;
        assert(g[i].0 == Action::Stutter);
    }
    if stutters(g) && o.0 != Action::Stutter {
        let i = choose|i: int| 0 <= i < g.len() && (#[trigger] g[i]).0 == Action::Stutter;
        assert(h[i].0 == Action::Stutter);
    }
}

/// A prediction stays valid until the next cold residual.
proof fn prediction_grows(cfg: AuditConfig, h: Seq<Observation>, o: Observation)
    ensures
        predicted_since_cold(cfg, h.push(o), h.len() as int) == (o.0 == Action::Predict || (
        !o.1.at_most(cfg.eps) && predicted_since_cold(cfg, h, h.len() - 1))),
{
    let g = h.push(o);
    let n = h.len() as int;
    assert(g[n] == o);
    assert forall|j: int| 0 <= j < n implies #[trigger] g[j] == h[j] by {}
    if o.0 == Action::Predict {
        assert(g[n].0 == Action::Predict);
    } else {
        if !o.1.at_most(cfg.eps) && predicted_since_cold(cfg, h, n - 1) {
            let j = choose|j: int|
                0 <= j <= n - 1 && (#[trigger] h[j]).0 == Action::Predict && forall|m: int|
                    j < m <= n - 1 ==> !(#[trigger] h[m]).1.at_most(cfg.eps);
            assert(g[j].0 == Action::Predict);
            assert forall|m: int| j < m <= n implies !(#[trigger] g[m]).1.at_most(cfg.eps) by {
                if m < n {
                    assert(g[m] == h[m]);
                }
            }
        }
        if predicted_since_cold(cfg, g, n) {
            let j = choose|j: int|
                0 <= j <= n && (#[trigger] g[j]).0 == Action::Predict && forall|m: int|
                    j < m <= n ==> !(#[trigger] g[m]).1.at_most(cfg.eps);
            assert(j < n);
            assert(!g[n].1.at_most(cfg.eps));
            assert(h[j].0 == Action::Predict);
            assert forall|m: int| j < m <= n - 1 implies !(#[trigger] h[m]).1.at_most(cfg.eps) by {
                assert(g[m] == h[m]);
            }
        }
    }
}

/// A grown stream keeps to the cycle iff it did before and its last action fits.
proof fn cycle_grows(cfg: AuditConfig, h: Seq<Observation>, o: Observation)
    ensures
        keeps_cycle(cfg, h.push(o)) == (keeps_cycle(cfg, h) && in_cycle(
            cfg,
            h.push(o),
            h.len() as int,
        )),
{
    let g = h.push(o);
    assert forall|i: int| 0 <= i < h.len() implies in_cycle(cfg, g, i) == in_cycle(cfg, h, i) by {
        past_is_fixed(cfg, h, o, i);
    }
    if keeps_cycle(cfg, g) {
        assert forall|i: int| 0 <= i < h.len() implies #[trigger] in_cycle(cfg, h, i) by {
            assert(in_cycle(cfg, g, i));
        }
    }
}

impl View for StreamingAuditor {
    type V = Seq<Observation>;

    /// The stream observed so far.
    closed spec fn view(&self) -> Seq<Observation> {
        self.history@
    }
}

impl StreamingAuditor {
    /// The bounds that the auditor was made with.
    pub closed spec fn bounds(&self) -> AuditConfig {
        self.cfg
    }

    /// The actions held in memory.
    pub closed spec fn stored(&self) -> Seq<Action> {
        self.window@
    }

    spec fn counters_match(&self) -> bool {
        &&& self.counts.x1 == x1_of(self.cfg, self@)
        &&& self.counts.x2 == x2_of(self.cfg, self@)
        &&& self.counts.x3 == x3_of(self.cfg, self@)
        &&& self.counts.x4 == x4_of(self.cfg, self@)
        &&& self.counts.x5 == x1_of(self.cfg, self@)
    }

    /// Whether what is held describes the stream observed so far.
    pub closed spec fn wf(&self) -> bool {
        let h = self@;
        let n = h.len();
        &&& self.consecutive_s == run_ending(h, Action::Stutter, n - 1)
        &&& self.consecutive_d == run_ending(h, Action::Diffuse, n - 1)
        &&& holds_last(self.cfg.w, h, self.window@)
        &&& self.saw_p_since_cold == predicted_since_cold(self.cfg, h, n - 1)
        &&& self.saw_stutter == stutters(h)
        &&& self.illegal_family == !keeps_cycle(self.cfg, h)
        &&& !self.illegal_family ==> self.phase == phase_of(h)
        &&& self.counters_match()
    }

    /// An auditor that has seen nothing.
    pub fn new(cfg: AuditConfig) -> (r: Self)
        ensures
            r.wf(),
            r.bounds() == cfg,
            r@ == Seq::<Observation>::empty(),
    {
        StreamingAuditor {
            cfg,
            consecutive_s: 0,
            consecutive_d: 0,
            window: VecDeque::new(),
            saw_p_since_cold: false,
            saw_stutter: false,
            illegal_family: false,
            phase: FamilyPhase::ExpectO,
            counts: TraceAudit { x1: 0, x2: 0, x3: 0, x4: 0, x5: 0, family: "W1".to_string() },
            history: Ghost(Seq::empty()),
        }
    }

    /// No more than W actions are ever held.
    pub proof fn memory_is_bounded(&self)
        requires
            self.wf(),
        ensures
            self.stored().len() <= self.bounds().w,
    {
    }

    /// Whether the window holds no optical step.
    fn window_lacks_optical(&self) -> (r: bool)
        ensures
            r == (forall|j: int|
                0 <= j < self.window@.len() ==> #[trigger] self.window@[j] != Action::OpticalStep),
    {
        let mut i: usize = 0;
        while i < self.window.len()
            invariant
                i <= self.window@.len(),
                forall|j: int| 0 <= j < i ==> #[trigger] self.window@[j] != Action::OpticalStep,
            decreases self.window@.len() - i,
        {
            if self.window[i] == Action::OpticalStep {
                return false;
            }
            i += 1;
        }
        true
    }

    /// Takes one more step of the stream into account.
    pub fn observe(&mut self, action: Action, residual: Real)
        requires
            old(self).wf(),
            old(self)@.len() < u64::MAX,
        ensures
            final(self).wf(),
            final(self).bounds() == old(self).bounds(),
            final(self)@ == old(self)@.push((action, residual)),
    {
        let ghost h = self@;
        let ghost o = (action, residual);
        let ghost n = h.len() as int;
        proof {
            counters_fit(self.cfg, h);
            counters_grow(self.cfg, h, o);
            runs_grow(h, o);
            window_grows(self.cfg, h, o, self.window@);
            prediction_grows(self.cfg, h, o);
            cycle_grows(self.cfg, h, o);
            stutters_grow(h, o);
        }
        self.count_runs(action);
        self.slide_window(action);
        self.note_residual(action, residual);
        self.step_family(action);
        self.history = Ghost(h.push(o));
        assert(self@[n] == o);
        assert(n > 0 ==> self@[n - 1] == h[n - 1]);
    }

    /// Updates the two run lengths and counts the runs that are too long.
    fn count_runs(&mut self, action: Action)
        requires
            old(self).consecutive_s < u64::MAX,
            old(self).consecutive_d < u64::MAX,
            old(self).counts.x1 < u64::MAX,
            old(self).counts.x3 < u64::MAX,
            old(self).counts.x5 < u64::MAX,
        ensures
            *final(self) == (StreamingAuditor {
                consecutive_s: final(self).consecutive_s,
                consecutive_d: final(self).consecutive_d,
                saw_stutter: old(self).saw_stutter || action == Action::Stutter,
                counts: TraceAudit {
                    x1: final(self).counts.x1,
                    x3: final(self).counts.x3,
                    x5: final(self).counts.x5,
                    ..old(self).counts
                },
                ..*old(self)
            }),
            final(self).consecutive_s == (if action == Action::Stutter {
                old(self).consecutive_s + 1
            } else {
                0
            }),
            final(self).consecutive_d == (if action == Action::Diffuse {
                old(self).consecutive_d + 1
            } else {
                0
            }),
            final(self).counts.x1 == old(self).counts.x1 + if final(self).consecutive_s > old(
                self,
            ).cfg.k {
                1int
            } else {
                0int
            },
            final(self).counts.x5 == old(self).counts.x5 + if final(self).consecutive_s > old(
                self,
            ).cfg.k {
                1int
            } else {
                0int
            },
            final(self).counts.x3 == old(self).counts.x3 + if final(self).consecutive_d > old(
                self,
            ).cfg.d_cap {
                1int
            } else {
                0int
            },
    {
        match action {
            Action::Stutter => {
                self.consecutive_s = self.consecutive_s + 1;
                self.consecutive_d = 0;
                self.saw_stutter = true;
            },
            Action::Diffuse => {
                self.consecutive_s = 0;
                self.consecutive_d = self.consecutive_d + 1;
            },
            _ => {
                self.consecutive_s = 0;
                self.consecutive_d = 0;
            },
        }
        if self.consecutive_s > self.cfg.k {
            self.counts.x1 = self.counts.x1 + 1;
            self.counts.x5 = self.counts.x5 + 1;
        }
        if self.consecutive_d > self.cfg.d_cap as u64 {
            self.counts.x3 = self.counts.x3 + 1;
        }
    }

    /// Moves the window on by one action and counts it if it lacks an optical step.
    fn slide_window(&mut self, action: Action)
        requires
            old(self).counts.x2 < u64::MAX,
            old(self).window@.len() <= old(self).cfg.w,
        ensures
            *final(self) == (StreamingAuditor {
                window: final(self).window,
                counts: TraceAudit { x2: final(self).counts.x2, ..old(self).counts },
                ..*old(self)
            }),
            final(self).window@ == slid(old(self).cfg.w, old(self).window@, action),
            final(self).counts.x2 == old(self).counts.x2 + if lacks_optical(
                old(self).cfg.w,
                final(self).window@,
            ) {
                1int
            } else {
                0int
            },
    {
        if self.cfg.w > 0 {
            if self.window.len() == self.cfg.w {
                let _ = self.window.pop_front();
            }
            self.window.push_back(action);
            if self.window.len() == self.cfg.w && self.window_lacks_optical() {
                self.counts.x2 = self.counts.x2 + 1;
            }
        }
        assert(self.window@ =~= slid(old(self).cfg.w, old(self).window@, action));
    }

    /// A cold residual asks for a new prediction before the next hot match.
    fn note_residual(&mut self, action: Action, residual: Real)
        requires
            old(self).counts.x4 < u64::MAX,
        ensures
            *final(self) == (StreamingAuditor {
                saw_p_since_cold: final(self).saw_p_since_cold,
                counts: TraceAudit { x4: final(self).counts.x4, ..old(self).counts },
                ..*old(self)
            }),
            final(self).saw_p_since_cold == (action == Action::Predict || (!residual.at_most(
                old(self).cfg.eps,
            ) && old(self).saw_p_since_cold)),
            final(self).counts.x4 == old(self).counts.x4 + if action == Action::Match
                && residual.above(old(self).cfg.eps) && !final(self).saw_p_since_cold {
                1int
            } else {
                0int
            },
    {
        if residual.le(&self.cfg.eps) {
            self.saw_p_since_cold = false;
        }
        if action == Action::Predict {
            self.saw_p_since_cold = true;
        }
        if action == Action::Match && residual.gt(&self.cfg.eps) && !self.saw_p_since_cold {
            self.counts.x4 = self.counts.x4 + 1;
        }
    }

    /// Follows the cycle by one action. A stream that has left it once stays out.
    fn step_family(&mut self, action: Action)
        ensures
            *final(self) == (StreamingAuditor {
                phase: final(self).phase,
                illegal_family: final(self).illegal_family,
                ..*old(self)
            }),
            final(self).illegal_family == (old(self).illegal_family || !follows(
                old(self).phase,
                action,
                old(self).consecutive_s > old(self).cfg.k,
            )),
            !final(self).illegal_family ==> final(self).phase == (match action {
                Action::OpticalStep => FamilyPhase::ExpectP,
                Action::Predict => FamilyPhase::ExpectM,
                Action::Match => FamilyPhase::ExpectD,
                Action::Diffuse => FamilyPhase::AfterD,
                Action::Stutter => FamilyPhase::AfterD,
            }),
    {
        match (self.phase, action) {
            (FamilyPhase::ExpectP, Action::Predict) => {
                self.phase = FamilyPhase::ExpectM;
            },
            (FamilyPhase::ExpectM, Action::Match) => {
                self.phase = FamilyPhase::ExpectD;
            },
            (FamilyPhase::ExpectD, Action::Diffuse) => {
                self.phase = FamilyPhase::AfterD;
            },
            (FamilyPhase::ExpectO, Action::OpticalStep)
            | (FamilyPhase::AfterD, Action::OpticalStep) => {
                self.phase = FamilyPhase::ExpectP;
            },
            (FamilyPhase::AfterD, Action::Stutter) => {
                if self.consecutive_s > self.cfg.k {
                    self.illegal_family = true;
                }
            },
            _ => {
                self.illegal_family = true;
            },
        }
    }

    /// The counters and the family label of the stream observed.
    pub fn finish(self) -> (r: TraceAudit)
        requires
            self.wf(),
        ensures
            r.describes(self.bounds(), self@),
    {
        let family = if self.illegal_family {
            "other".to_string()
        } else if self.saw_stutter {
            "W2".to_string()
        } else {
            "W1".to_string()
        };
        TraceAudit {
            x1: self.counts.x1,
            x2: self.counts.x2,
            x3: self.counts.x3,
            x4: self.counts.x4,
            x5: self.counts.x5,
            family,
        }
    }
}

/// The stream of actions paired with residuals, as far as both go.
pub open spec fn paired(actions: Seq<Action>, residuals: Seq<Real>) -> Seq<Observation> {
    Seq::new(
        if actions.len() <= residuals.len() {
            actions.len()
        } else {
            residuals.len()
        },
        |i: int| (actions[i], residuals[i]),
    )
}

/// Audits a complete stream of actions and residuals.
pub fn audit_stream(actions: &[Action], residuals: &[Real], cfg: AuditConfig) -> (r: TraceAudit)
    ensures
        r.describes(cfg, paired(actions@, residuals@)),
{
    let mut auditor = StreamingAuditor::new(cfg);
    let mut i: usize = 0;
    assert(auditor@ =~= paired(actions@, residuals@).take(0));
    while i < actions.len() && i < residuals.len()
        invariant
            i <= actions@.len(),
            i <= residuals@.len(),
            auditor.wf(),
            auditor.bounds() == cfg,
            auditor@ == paired(actions@, residuals@).take(i as int),
        decreases actions@.len() - i,
    {
        auditor.observe(actions[i], residuals[i]);
        i += 1;
        assert(auditor@ =~= paired(actions@, residuals@).take(i as int));
    }
    assert(auditor@ =~= paired(actions@, residuals@));
    auditor.finish()
}

// ---------------------------------------------------------------------------
// Laws
// ---------------------------------------------------------------------------

/// X1 and X5 count the same thing, and an audit is determined by its stream.
pub proof fn audit_is_determined(a: TraceAudit, b: TraceAudit, cfg: AuditConfig, h: Seq<Observation>)
    requires
        a.describes(cfg, h),
        b.describes(cfg, h),
    ensures
        a.x1 == a.x5,
        a.x1 == b.x1,
        a.x2 == b.x2,
        a.x3 == b.x3,
        a.x4 == b.x4,
        a.x5 == b.x5,
        a.family@ == b.family@,
{
}

/// As a stream grows no counter falls, none grows by more than one a step, and a
/// stream that has left the cycle never comes back to it.
pub proof fn verdicts_are_final(cfg: AuditConfig, h: Seq<Observation>, o: Observation)
    ensures
        x1_of(cfg, h) <= x1_of(cfg, h.push(o)) <= x1_of(cfg, h) + 1,
        x2_of(cfg, h) <= x2_of(cfg, h.push(o)) <= x2_of(cfg, h) + 1,
        x3_of(cfg, h) <= x3_of(cfg, h.push(o)) <= x3_of(cfg, h) + 1,
        x4_of(cfg, h) <= x4_of(cfg, h.push(o)) <= x4_of(cfg, h) + 1,
        !keeps_cycle(cfg, h) ==> family_of(cfg, h.push(o)) == "other"@,
{
    counters_grow(cfg, h, o);
    cycle_grows(cfg, h, o);
}

/// The positions of a run are all of its kind, and the one before it is not.
proof fn run_is_maximal(h: Seq<Observation>, action: Action, i: int)
    requires
        -1 <= i < h.len(),
    ensures
        ({
            let r = run_ending(h, action, i);
            &&& r <= i + 1
            &&& forall|j: int| i - r < j <= i ==> (#[trigger] h[j]).0 == action
            &&& i - r >= 0 ==> h[i - r].0 != action
        }),
    decreases i + 1,
{
    if i >= 0 && h[i].0 == action {
        run_is_maximal(h, action, i - 1);
    }
}

/// In a stream that keeps to the cycle an optical step is never more than three
/// actions and one stutter budget away.
proof fn optical_step_is_near(cfg: AuditConfig, h: Seq<Observation>, i: int) -> (j: int)
    requires
        keeps_cycle(cfg, h),
        0 <= i < h.len(),
    ensures
        0 <= j <= i,
        i - j <= cfg.k + 3,
        h[j].0 == Action::OpticalStep,
{
    run_is_maximal(h, Action::Stutter, i);
    let r = run_ending(h, Action::Stutter, i);
    assert(in_cycle(cfg, h, i));
    if r > 0 {
        assert(in_cycle(cfg, h, i - r + 1));
        assert(h[i - r + 1].0 == Action::Stutter);
        assert(h[i - r].0 == Action::Diffuse);
    }
    let d = i - r;
    assert(in_cycle(cfg, h, d));
    match h[d].0 {
        Action::OpticalStep => d,
        Action::Predict => d - 1,
        Action::Match => {
            assert(in_cycle(cfg, h, d - 1));
            d - 2
        },
        Action::Diffuse => {
            assert(in_cycle(cfg, h, d - 1));
            assert(in_cycle(cfg, h, d - 2));
            d - 3
        },
        Action::Stutter => d,
    }
}

/// A stream of the families W1 and W2 is clean: it never trips X1, X4 or X5; it
/// never trips X3 as long as one diffusion is allowed, nor X2 as long as the
/// window is longer than a cycle and its stutters.
pub proof fn cycles_are_clean(cfg: AuditConfig, h: Seq<Observation>)
    requires
        keeps_cycle(cfg, h),
    ensures
        x1_of(cfg, h) == 0,
        x4_of(cfg, h) == 0,
        cfg.d_cap >= 1 ==> x3_of(cfg, h) == 0,
        cfg.w > cfg.k + 3 ==> x2_of(cfg, h) == 0,
{
    let n = h.len() as int;
    assert forall|i: int| 0 <= i < n implies !over_stuttered(cfg, h, i) && !unpredicted_match(
        cfg,
        h,
        i,
    ) by {
        assert(in_cycle(cfg, h, i));
        if h[i].0 == Action::Match && h[i].1.above(cfg.eps) {
            assert(h[i - 1].0 == Action::Predict);
            crate::scalar::threshold_splits(h[i].1, cfg.eps);
            assert forall|m: int| i - 1 < m <= i implies !(#[trigger] h[m]).1.at_most(cfg.eps) by {}
        }
    }
    tally_empty(|i: int| over_stuttered(cfg, h, i), n);
    tally_empty(|i: int| unpredicted_match(cfg, h, i), n);
    if cfg.d_cap >= 1 {
        assert forall|i: int| 0 <= i < n implies !over_diffused(cfg, h, i) by {
            assert(in_cycle(cfg, h, i));
            if h[i].0 == Action::Diffuse {
                assert(h[i - 1].0 == Action::Match);
                assert(run_ending(h, Action::Diffuse, i - 1) == 0);
            }
        }
        tally_empty(|i: int| over_diffused(cfg, h, i), n);
    }
    if cfg.w > cfg.k + 3 {
        assert forall|i: int| 0 <= i < n implies !starved(cfg, h, i) by {
            let j = optical_step_is_near(cfg, h, i);
            assert(h[j].0 == Action::OpticalStep);
        }
        tally_empty(|i: int| starved(cfg, h, i), n);
    }
}

} // verus!
