//! What the audit of a stream counts.
//!
//! Each counter is the number of positions of a shape, and each shape is spelled out over
//! the actions and residuals of the stream.

use vstd::prelude::*;

use crate::action::Action;
use crate::audit::{
    audit_stream, in_cycle, keeps_cycle, over_diffused, over_stuttered, run_ending,
    starved, stutters, tally, unpredicted_match, AuditConfig, Observation, TraceAudit,
};
use crate::config::AriaConfig;
use crate::scalar::Real;

verus! {

/// A run that ends at a position is as long as the actions of its kind right before it: it
/// is longer than a bound exactly where the last so many actions, and one more, are all of
/// that kind.
pub proof fn runs_are_unbroken(h: Seq<Observation>, action: Action, i: int, bound: nat)
    requires
        0 <= i < h.len(),
    ensures
        run_ending(h, action, i) > bound <==> bound <= i && forall|j: int|
            i - bound <= j <= i ==> (#[trigger] h[j]).0 == action,
    decreases i,
{
    if h[i].0 == action {
        if i > 0 {
            if bound > 0 {
                runs_are_unbroken(h, action, i - 1, (bound - 1) as nat);
            }
        }
        if bound > 0 && i > 0 {
            if run_ending(h, action, i - 1) > bound - 1 {
                assert forall|j: int| i - bound <= j <= i implies (#[trigger] h[j]).0 == action by {
                    if j < i {
                        assert(i - 1 - (bound - 1) <= j <= i - 1);
                    }
                }
            }
        }
        if i == 0 {
            assert(run_ending(h, action, -1) == 0);
        }
    } else {
        assert(run_ending(h, action, i) == 0);
        if bound <= i {
            assert(h[i].0 != action);
        }
    }
}

/// X1 and X5 count the positions at which the last K + 1 actions are all stutters.
pub proof fn x1_counts_long_stutters(
    audit: TraceAudit,
    cfg: AuditConfig,
    h: Seq<Observation>,
    shape: Set<int>,
)
    requires
        audit.describes(cfg, h),
        forall|i: int| #[trigger]
            shape.contains(i) <==> {
                &&& cfg.k <= i < h.len()
                &&& forall|j: int|
                    i - cfg.k <= j <= i ==> (#[trigger] h[j]).0 == Action::Stutter
            },
    ensures
        audit.x1 == shape.len(),
        audit.x5 == shape.len(),
{
    let p = |i: int| over_stuttered(cfg, h, i);
    assert forall|i: int| 0 <= i < h.len() implies #[trigger] p(i) == shape.contains(i) by {
        runs_are_unbroken(h, Action::Stutter, i, cfg.k as nat);
    }
    tallies_are_sizes(p, h.len() as int, shape);
}

/// X2 counts the positions at which there are W actions and none of the last W is an optical
/// step; where W is zero, none.
pub proof fn x2_counts_starved_windows(
    audit: TraceAudit,
    cfg: AuditConfig,
    h: Seq<Observation>,
    shape: Set<int>,
)
    requires
        audit.describes(cfg, h),
        forall|i: int| #[trigger]
            shape.contains(i) <==> {
                &&& 0 < cfg.w
                &&& cfg.w - 1 <= i < h.len()
                &&& forall|j: int|
                    i - cfg.w < j <= i ==> (#[trigger] h[j]).0 != Action::OpticalStep
            },
    ensures
        audit.x2 == shape.len(),
{
    let p = |i: int| starved(cfg, h, i);
    assert forall|i: int| 0 <= i < h.len() implies #[trigger] p(i) == shape.contains(i) by {}
    tallies_are_sizes(p, h.len() as int, shape);
}

/// X3 counts the positions at which the last actions, one more than the cap, are all
/// diffusions.
pub proof fn x3_counts_long_diffusions(
    audit: TraceAudit,
    cfg: AuditConfig,
    h: Seq<Observation>,
    shape: Set<int>,
)
    requires
        audit.describes(cfg, h),
        forall|i: int| #[trigger]
            shape.contains(i) <==> {
                &&& cfg.d_cap <= i < h.len()
                &&& forall|j: int|
                    i - cfg.d_cap <= j <= i ==> (#[trigger] h[j]).0 == Action::Diffuse
            },
    ensures
        audit.x3 == shape.len(),
{
    let p = |i: int| over_diffused(cfg, h, i);
    assert forall|i: int| 0 <= i < h.len() implies #[trigger] p(i) == shape.contains(i) by {
        runs_are_unbroken(h, Action::Diffuse, i, cfg.d_cap as nat);
    }
    tallies_are_sizes(p, h.len() as int, shape);
}

/// X4 counts the matches that leave a residual above the tolerance, where every prediction
/// so far was followed by a residual at or below it.
pub proof fn x4_counts_unpredicted_matches(
    audit: TraceAudit,
    cfg: AuditConfig,
    h: Seq<Observation>,
    shape: Set<int>,
)
    requires
        audit.describes(cfg, h),
        forall|i: int| #[trigger]
            shape.contains(i) <==> {
                &&& 0 <= i < h.len()
                &&& h[i].0 == Action::Match
                &&& h[i].1.above(cfg.eps)
                &&& forall|j: int|
                    0 <= j <= i && (#[trigger] h[j]).0 == Action::Predict ==> exists|m: int|
                        j < m <= i && (#[trigger] h[m]).1.at_most(cfg.eps)
            },
    ensures
        audit.x4 == shape.len(),
{
    let p = |i: int| unpredicted_match(cfg, h, i);
    assert forall|i: int| 0 <= i < h.len() implies #[trigger] p(i) == shape.contains(i) by {}
    tallies_are_sizes(p, h.len() as int, shape);
}

/// A tally is the size of the set of positions that satisfy the predicate.
proof fn tallies_are_sizes(p: spec_fn(int) -> bool, n: int, shape: Set<int>)
    requires
        n >= 0,
        forall|i: int| 0 <= i < n ==> #[trigger] p(i) == shape.contains(i),
        forall|i: int| #[trigger] shape.contains(i) ==> 0 <= i < n,
    ensures
        shape.finite(),
        tally(p, n) == shape.len(),
    decreases n,
{
    if n == 0 {
        assert(shape =~= Set::empty());
    } else {
        let fewer = shape.remove(n - 1);
        tallies_are_sizes(p, n - 1, fewer);
        assert(p(n - 1) == shape.contains(n - 1));
        if p(n - 1) {
            assert(shape =~= fewer.insert(n - 1));
        } else {
            assert(shape =~= fewer);
        }
    }
}

/// Whether one action may come right after another in a stream of cycles.
pub open spec fn may_follow(next: Action, last: Action) -> bool {
    match last {
        Action::OpticalStep => next == Action::Predict,
        Action::Predict => next == Action::Match,
        Action::Match => next == Action::Diffuse,
        Action::Diffuse => next == Action::OpticalStep || next == Action::Stutter,
        Action::Stutter => next == Action::OpticalStep || next == Action::Stutter,
    }
}

/// The family of a stream that keeps to the cycle is W1 or W2. It keeps to it exactly where
/// it begins with an optical step, every action may follow the one before it, and nowhere
/// are more than K actions in a row stutters.
pub proof fn families_follow_the_cycle(audit: TraceAudit, cfg: AuditConfig, h: Seq<Observation>)
    requires
        audit.describes(cfg, h),
    ensures
        audit.family@ == "W1"@ || audit.family@ == "W2"@ || audit.family@ == "other"@,
        audit.family@ != "other"@ <==> {
            &&& h.len() > 0 ==> h[0].0 == Action::OpticalStep
            &&& forall|i: int, j: int|
                0 < i < h.len() && j == i - 1 ==> #[trigger] may_follow(h[i].0, h[j].0)
            &&& audit.x1 == 0
        },
        audit.family@ == "W2"@ <==> audit.family@ != "other"@ && exists|i: int|
            0 <= i < h.len() && (#[trigger] h[i]).0 == Action::Stutter,
{
    reveal_strlit("W1");
    reveal_strlit("W2");
    reveal_strlit("other");
    assert("W1"@[1] != "W2"@[1]);
    assert("W1"@.len() != "other"@.len());
    assert("W2"@.len() != "other"@.len());
    if keeps_cycle(cfg, h) {
        cycles_are_followed(cfg, h);
    } else {
        if h.len() > 0 && h[0].0 == Action::OpticalStep && audit.x1 == 0 && (forall|
            i: int,
            j: int,
        |
            0 < i < h.len() && j == i - 1 ==> #[trigger] may_follow(h[i].0, h[j].0)) {
            following_keeps_the_cycle(cfg, h);
        }
    }
}

proof fn cycles_are_followed(cfg: AuditConfig, h: Seq<Observation>)
    requires
        keeps_cycle(cfg, h),
    ensures
        h.len() > 0 ==> h[0].0 == Action::OpticalStep,
        forall|i: int, j: int|
            0 < i < h.len() && j == i - 1 ==> #[trigger] may_follow(h[i].0, h[j].0),
        crate::audit::x1_of(cfg, h) == 0,
{
    crate::audit::cycles_are_clean(cfg, h);
    if h.len() > 0 {
        assert(in_cycle(cfg, h, 0));
    }
    assert forall|i: int, j: int| 0 < i < h.len() && j == i - 1 implies #[trigger] may_follow(
        h[i].0,
        h[j].0,
    ) by {
        assert(in_cycle(cfg, h, i));
    }
}

proof fn following_keeps_the_cycle(cfg: AuditConfig, h: Seq<Observation>)
    requires
        h.len() > 0 ==> h[0].0 == Action::OpticalStep,
        forall|i: int, j: int|
            0 < i < h.len() && j == i - 1 ==> #[trigger] may_follow(h[i].0, h[j].0),
        crate::audit::x1_of(cfg, h) == 0,
    ensures
        keeps_cycle(cfg, h),
{
    let p = |i: int| over_stuttered(cfg, h, i);
    assert forall|i: int| 0 <= i < h.len() implies #[trigger] in_cycle(cfg, h, i) by {
        crate::audit::tally_misses(p, h.len() as int, i);
        assert(!over_stuttered(cfg, h, i));
        if i > 0 {
            assert(may_follow(h[i].0, h[i - 1].0));
        }
    }
}

/// The family is W1 exactly where the actions are those of the cycle, over and over:
/// optical step, prediction, match, diffusion.
pub proof fn w1_is_the_bare_cycle(audit: TraceAudit, cfg: AuditConfig, h: Seq<Observation>)
    requires
        audit.describes(cfg, h),
    ensures
        audit.family@ == "W1"@ <==> forall|i: int|
            0 <= i < h.len() ==> (#[trigger] h[i]).0 == cycle_action(i),
{
    reveal_strlit("W1");
    reveal_strlit("W2");
    reveal_strlit("other");
    assert("W1"@[1] != "W2"@[1]);
    assert("W1"@.len() != "other"@.len());
    if audit.family@ == "W1"@ {
        assert forall|i: int| 0 <= i < h.len() implies (#[trigger] h[i]).0 == cycle_action(i) by {
            bare_cycles_go_round(cfg, h, i);
        }
    } else if forall|i: int| 0 <= i < h.len() ==> (#[trigger] h[i]).0 == cycle_action(i) {
        assert(!stutters(h));
        assert forall|i: int| 0 <= i < h.len() implies #[trigger] in_cycle(cfg, h, i) by {
            assert(h[i].0 == cycle_action(i));
            if i > 0 {
                assert(h[i - 1].0 == cycle_action(i - 1));
            }
        }
        assert(keeps_cycle(cfg, h));
    }
}

/// The action at a position of the bare cycle.
pub open spec fn cycle_action(i: int) -> Action {
    if i % 4 == 0 {
        Action::OpticalStep
    } else if i % 4 == 1 {
        Action::Predict
    } else if i % 4 == 2 {
        Action::Match
    } else {
        Action::Diffuse
    }
}

proof fn bare_cycles_go_round(cfg: AuditConfig, h: Seq<Observation>, i: int)
    requires
        keeps_cycle(cfg, h),
        !stutters(h),
        0 <= i < h.len(),
    ensures
        h[i].0 == cycle_action(i),
    decreases i,
{
    assert(in_cycle(cfg, h, i));
    assert(h[i].0 != Action::Stutter);
    if i > 0 {
        bare_cycles_go_round(cfg, h, i - 1);
        assert(h[i - 1].0 != Action::Stutter);
    }
}

/// Auditing a complete stream audits the pairs of actions and residuals, in their order, as
/// far as both go.
pub proof fn streams_are_audited_in_pairs(
    actions: &[Action],
    residuals: &[Real],
    cfg: AuditConfig,
    h: Seq<Observation>,
    r: TraceAudit,
)
    requires
        call_ensures(audit_stream, (actions, residuals, cfg), r),
        h.len() <= actions@.len(),
        h.len() <= residuals@.len(),
        h.len() == actions@.len() || h.len() == residuals@.len(),
        forall|i: int|
            0 <= i < h.len() ==> (#[trigger] h[i]).0 == actions@[i] && h[i].1 == residuals@[i],
    ensures
        r.describes(cfg, h),
{
    assert(h =~= crate::audit::paired(actions@, residuals@));
}

/// The usual bounds of an audit: the stutter budget and the residual tolerance are those of
/// the configuration, the window holds 64 actions and the cap is 8 diffusions.
pub proof fn usual_bounds(config: AriaConfig, r: AuditConfig)
    requires
        call_ensures(AuditConfig::from_config, (&config,), r),
    ensures
        r.k == config.stutter_k,
        r.eps == config.eps,
        r.w == 64,
        r.d_cap == 8,
{
}

/// An audit is clean where, and only where, none of its counters is above zero.
pub proof fn clean_means_all_zero(audit: TraceAudit, r: bool)
    requires
        call_ensures(TraceAudit::all_zero, (&audit,), r),
    ensures
        r <==> !(audit.x1 > 0 || audit.x2 > 0 || audit.x3 > 0 || audit.x4 > 0 || audit.x5 > 0),
{
}

} // verus!
