//! What measuring the growth of a graph is for.

use vstd::prelude::*;

use crate::backend::{Diffuser, GraphBackend, Invariants, OpticalBackend, Predictor};
use crate::condition::Condition;
use crate::config::AriaConfig;
use crate::engine::{phi_cycle, Engine};
use crate::engine_laws::a_cycle_goes_round_the_operators;
use crate::error::{AriaError, InvariantReport};
use crate::growth::{
    cycled, cycles, grew, grow, growth_config, growth_verdict, node_counts, sampled, GrowthFailure,
    GrowthFit,
};
use crate::policy::MatchPolicy;
use crate::scalar::Real;
use crate::state::State;

verus! {

/// There is a sample at a position exactly where the position is a checkpoint that was
/// reached, and it shows the size there. Positions count from one.
pub proof fn samples_are_at_the_checkpoints(
    sizes: Seq<nat>,
    checkpoints: Seq<u64>,
    k: u64,
    m: usize,
)
    requires
        sizes.len() <= u64::MAX,
    ensures
        sampled(sizes, checkpoints).contains((k, m)) <==> {
            &&& 0 < k <= sizes.len()
            &&& checkpoints.contains(k)
            &&& m == sizes[k - 1] as usize
        },
    decreases sizes.len(),
{
    if sizes.len() > 0 {
        let fewer = sizes.drop_last();
        samples_are_at_the_checkpoints(fewer, checkpoints, k, m);
        let before = sampled(fewer, checkpoints);
        let now = sampled(sizes, checkpoints);
        if before.contains((k, m)) {
            let i = choose|i: int| 0 <= i < before.len() && before[i] == (k, m);
            assert(now[i] == (k, m));
        }
        if checkpoints.contains(sizes.len() as u64) {
            assert(now[now.len() - 1] == (sizes.len() as u64, sizes.last() as usize));
        }
        if now.contains((k, m)) {
            let i = choose|i: int| 0 <= i < now.len() && now[i] == (k, m);
            if i < before.len() {
                assert(before[i] == (k, m));
            }
        }
        if 0 < k < sizes.len() {
            assert(fewer[k - 1] == sizes[k - 1]);
        }
    }
}

/// Samples come in the order of their positions, one for each.
pub proof fn samples_are_in_order(sizes: Seq<nat>, checkpoints: Seq<u64>, i: int, j: int)
    requires
        sizes.len() <= u64::MAX,
        0 <= i < j < sampled(sizes, checkpoints).len(),
    ensures
        sampled(sizes, checkpoints)[i].0 < sampled(sizes, checkpoints)[j].0 <= sizes.len(),
    decreases sizes.len(),
{
    if sizes.len() > 0 {
        let fewer = sizes.drop_last();
        let before = sampled(fewer, checkpoints);
        if j < before.len() {
            samples_are_in_order(fewer, checkpoints, i, j);
        } else {
            let (k, m) = before[i];
            assert(before.contains((k, m)));
            samples_are_at_the_checkpoints(fewer, checkpoints, k, m);
        }
    }
}

/// Growth is measured over whole cycles: as many as were asked for, each of which turns the
/// field at the clock it finds, predicts under the condition, matches, diffuses over the
/// graph that the match left, and advances the clock by one. There is a sample after a cycle
/// exactly where its number is a checkpoint, and it shows the nodes after that cycle.
pub proof fn growth_is_measured_over_cycles<O, P, G, D, C>(
    e: &mut Engine<O, P, G, D, C>,
    state: State,
    count: u64,
    checkpoints: Vec<u64>,
    a: Condition,
    last: State,
    samples: Vec<(u64, usize)>,
) where O: OpticalBackend, P: Predictor, G: GraphBackend, D: Diffuser, C: Invariants
    requires
        call_ensures(
            grow::<O, P, G, D, C>,
            (e, state, count, &checkpoints, a),
            Ok::<(State, Vec<(u64, usize)>), (u64, AriaError)>((last, samples)),
        ),
    ensures
        exists|ss: Seq<State>|
            {
                &&& #[trigger] grew(*old(e), state, count as nat, a, ss, *final(e))
                &&& ss.len() == count + 1
                &&& ss[0] == state
                &&& ss.last() == last
                &&& forall|i: int|
                    0 <= i < count ==> {
                        let turned = old(e).optical.stepped(ss[i].t, ss[i].psi@);
                        let z = old(e).predictor.prediction(
                            old(e).predictor.embedding(turned),
                            a,
                        );
                        let next = #[trigger] ss[i + 1];
                        &&& next.psi@ == turned
                        &&& next.z@ == old(e).diffuser.diffused(
                            next.g@,
                            z,
                            old(e).config.diff_policy@,
                        )
                        &&& next.t == ss[i].t + 1
                        &&& next.energy_0 == ss[i].energy_0
                    }
                &&& forall|k: u64, n: usize| #[trigger]
                    samples@.contains((k, n)) <==> {
                        &&& 0 < k <= count
                        &&& checkpoints@.contains(k)
                        &&& n == ss[k as int].g@.nodes.len() as usize
                    }
            },
{
    let before = *old(e);
    let ss = choose|ss: Seq<State>|
        {
            &&& #[trigger] grew(before, state, count as nat, a, ss, *final(e))
            &&& ss.last() == last
            &&& samples@ == sampled(node_counts(ss), checkpoints@)
        };
    let es = choose|es: Seq<Engine<O, P, G, D, C>>|
        {
            &&& #[trigger] cycles(es, ss, a)
            &&& ss.len() == count + 1
            &&& es[0] == before
            &&& ss[0] == state
            &&& es.last() == *final(e)
        };
    assert forall|i: int| 0 <= i < count implies {
        let turned = before.optical.stepped(ss[i].t, ss[i].psi@);
        let z = before.predictor.prediction(before.predictor.embedding(turned), a);
        let next = #[trigger] ss[i + 1];
        &&& next.psi@ == turned
        &&& next.z@ == before.diffuser.diffused(next.g@, z, before.config.diff_policy@)
        &&& next.t == ss[i].t + 1
        &&& next.energy_0 == ss[i].energy_0
    } by {
        cycles_keep_the_operators(es, ss, a, i);
        assert(cycled(es[i], ss[i], a, ss[i + 1], es[i + 1]));
        let path = choose|path: Seq<State>| #[trigger]
            Engine::completes(es[i], ss[i], phi_cycle(), a, path, es[i + 1]) && path.last()
                == ss[i + 1];
        a_cycle_goes_round_the_operators(es[i], ss[i], a, path, es[i + 1]);
    }
    let sizes = node_counts(ss);
    assert forall|k: u64, n: usize| #[trigger] samples@.contains((k, n)) <==> {
        &&& 0 < k <= count
        &&& checkpoints@.contains(k)
        &&& n == ss[k as int].g@.nodes.len() as usize
    } by {
        samples_are_at_the_checkpoints(sizes, checkpoints@, k, n);
    }
}

/// No cycle changes the configuration or an operator other than the graph backend.
proof fn cycles_keep_the_operators<O, P, G, D, C>(
    es: Seq<Engine<O, P, G, D, C>>,
    ss: Seq<State>,
    a: Condition,
    i: int,
) where O: OpticalBackend, P: Predictor, G: GraphBackend, D: Diffuser, C: Invariants
    requires
        cycles(es, ss, a),
        0 <= i < es.len(),
    ensures
        es[i] == es[0].with_backend(es[i].graph_backend),
    decreases i,
{
    if i > 0 {
        cycles_keep_the_operators(es, ss, a, i - 1);
        assert(cycled(es[i - 1], ss[i - 1], a, ss[(i - 1) + 1], es[(i - 1) + 1]));
        let path = choose|path: Seq<State>| #[trigger]
            Engine::completes(es[i - 1], ss[i - 1], phi_cycle(), a, path, es[i]) && path.last()
                == ss[i];
        let steps = choose|steps: Seq<Engine<O, P, G, D, C>>| #[trigger]
            Engine::walks(steps, path, phi_cycle(), a) && steps[0] == es[i - 1] && path[0]
                == ss[i - 1] && steps.last() == es[i];
        Engine::clock_counts_diffusions(steps, path, phi_cycle(), a);
    }
}

/// Growth is measured under the merging policy, and under the given configuration in all
/// else.
pub proof fn growth_is_measured_under_merging(base: AriaConfig, r: AriaConfig)
    requires
        call_ensures(growth_config, (base,), r),
    ensures
        r.match_policy == MatchPolicy::Merge,
        base.match_policy == MatchPolicy::Merge ==> r == base,
        r.condition == base.condition,
        r.eps == base.eps,
        r.eps_energy == base.eps_energy,
        r.n_modes == base.n_modes,
        r.latent_dim == base.latent_dim,
        r.merge_tau == base.merge_tau,
        r.max_graph_size == base.max_graph_size,
        r.strict == base.strict,
        r.gates == base.gates,
        r.diff_policy == base.diff_policy,
        r.schedule == base.schedule,
        r.seed == base.seed,
        r.allow_sub_spec_dims == base.allow_sub_spec_dims,
        r.stutter_k == base.stutter_k,
        r.optical == base.optical,
        r.vocab_size == base.vocab_size,
{
}

/// A growth is accepted where, and only where, the last state breaks no invariant and there
/// is a fit whose exponent is not above the number one; then the fit is handed on.
pub proof fn growth_is_accepted_up_to_linear(
    report: InvariantReport,
    fit: Option<GrowthFit>,
    r: Result<GrowthFit, GrowthFailure>,
)
    requires
        call_ensures(growth_verdict, (&report, &fit), r),
    ensures
        r is Ok <==> {
            &&& report.inv1_ok && report.inv2_ok && report.inv3_ok && report.inv4_ok
            &&& fit is Some
            &&& !fit->Some_0.beta.above(Real { bits: 0x3ff0_0000_0000_0000 })
        },
        r matches Ok(f) ==> fit == Some(f),
        r matches Err(GrowthFailure::Broken(found)) ==> found == report,
        r matches Err(GrowthFailure::SuperLinear(beta)) ==> fit is Some && beta
            == fit->Some_0.beta,
{
}

} // verus!
