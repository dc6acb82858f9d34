//! Growth of the graph over many cycles.

use vstd::prelude::*;

use crate::backend::{Diffuser, GraphBackend, Invariants, OpticalBackend, Predictor};
use crate::condition::Condition;
use crate::config::AriaConfig;
use crate::engine::{phi_cycle, Engine};
use crate::error::{AriaError, InvariantReport};
use crate::policy::MatchPolicy;
use crate::scalar::Real;
use crate::state::State;
use crate::verify::holds;

verus! {

/// The growth exponent above which growth is not accepted: the number 1.
pub const GROWTH_LIMIT_BITS: u64 = 0x3ff0_0000_0000_0000;

/// A fit of the growth exponent to samples of the graph.
#[derive(Clone, Copy, PartialEq, Eq, Debug, Structural)]
pub struct GrowthFit {
    pub beta: Real,
    pub r_squared: Real,
}

/// Why a measured growth is not accepted.
#[derive(Clone, Copy, PartialEq, Eq, Debug, Structural)]
pub enum GrowthFailure {
    Broken(InvariantReport),
    NoFit,
    SuperLinear(Real),
}

/// The configuration that growth is measured under: merging is what bounds it.
pub fn growth_config(base: AriaConfig) -> (r: AriaConfig)
    ensures
        r == (AriaConfig { match_policy: MatchPolicy::Merge, ..base }),
{
    let mut config = base;
    config.match_policy = MatchPolicy::Merge;
    config
}

/// Whether a measured growth is accepted: the state it ended in breaks no invariant,
/// there is a fit, and its exponent is not above one.
pub fn growth_verdict(report: &InvariantReport, fit: &Option<GrowthFit>) -> (r: Result<
    GrowthFit,
    GrowthFailure,
>)
    ensures
        r == (if !report.green() {
            Err(GrowthFailure::Broken(*report))
        } else {
            match *fit {
                None => Err(GrowthFailure::NoFit),
                Some(f) => if f.beta.above(Real { bits: GROWTH_LIMIT_BITS }) {
                    Err(GrowthFailure::SuperLinear(f.beta))
                } else {
                    Ok(f)
                },
            }
        }),
{
    if !report.all_ok() {
        return Err(GrowthFailure::Broken(*report));
    }
    match fit {
        None => Err(GrowthFailure::NoFit),
        Some(f) => if f.beta.gt(&Real { bits: GROWTH_LIMIT_BITS }) {
            Err(GrowthFailure::SuperLinear(f.beta))
        } else {
            Ok(*f)
        },
    }
}

/// The sizes at the positions that are checkpoints, each with its position; positions
/// count from one.
pub open spec fn sampled(sizes: Seq<nat>, checkpoints: Seq<u64>) -> Seq<(u64, usize)>
    decreases sizes.len(),
{
    if sizes.len() == 0 {
        Seq::empty()
    } else {
        let before = sampled(sizes.drop_last(), checkpoints);
        if checkpoints.contains(sizes.len() as u64) {
            before.push((sizes.len() as u64, sizes.last() as usize))
        } else {
            before
        }
    }
}

/// The positions from one up to `n` that are checkpoints.
spec fn marked(checkpoints: Seq<u64>, n: nat) -> Set<u64>
    decreases n,
{
    if n == 0 {
        Set::empty()
    } else if checkpoints.contains(n as u64) {
        marked(checkpoints, (n - 1) as nat).insert(n as u64)
    } else {
        marked(checkpoints, (n - 1) as nat)
    }
}

proof fn marked_are_checkpoints(sizes: Seq<nat>, checkpoints: Seq<u64>)
    requires
        sizes.len() <= u64::MAX,
    ensures
        marked(checkpoints, sizes.len()).finite(),
        marked(checkpoints, sizes.len()).len() == sampled(sizes, checkpoints).len(),
        forall|x: u64| #[trigger]
            marked(checkpoints, sizes.len()).contains(x) ==> checkpoints.contains(x) && x
                <= sizes.len(),
    decreases sizes.len(),
{
    if sizes.len() > 0 {
        marked_are_checkpoints(sizes.drop_last(), checkpoints);
    }
}

/// There are no more samples than checkpoints.
pub proof fn samples_are_few(sizes: Seq<nat>, checkpoints: Seq<u64>)
    requires
        sizes.len() <= u64::MAX,
    ensures
        sampled(sizes, checkpoints).len() <= checkpoints.len(),
{
    marked_are_checkpoints(sizes, checkpoints);
    let kept = marked(checkpoints, sizes.len());
    let all = checkpoints.to_set();
    checkpoints.lemma_cardinality_of_set();
    assert(kept.subset_of(all));
    vstd::set_lib::lemma_len_subset(kept, all);
}

/// The numbers of nodes after each cycle but the first state's.
pub open spec fn node_counts(ss: Seq<State>) -> Seq<nat> {
    Seq::new((ss.len() - 1) as nat, |i: int| ss[i + 1].g@.nodes.len())
}

/// Whether one full cycle can lead from `s` to `next`.
pub open spec fn cycled<O, P, G, D, C>(
    before: Engine<O, P, G, D, C>,
    s: State,
    a: Condition,
    next: State,
    after: Engine<O, P, G, D, C>,
) -> bool where
    O: OpticalBackend,
    P: Predictor,
    G: GraphBackend,
    D: Diffuser,
    C: Invariants,
 {
    exists|ss: Seq<State>| #[trigger]
        Engine::completes(before, s, phi_cycle(), a, ss, after) && ss.last() == next
}

/// Whether the engines `es` and states `ss` are passed through, one cycle after another.
pub open spec fn cycles<O, P, G, D, C>(
    es: Seq<Engine<O, P, G, D, C>>,
    ss: Seq<State>,
    a: Condition,
) -> bool where
    O: OpticalBackend,
    P: Predictor,
    G: GraphBackend,
    D: Diffuser,
    C: Invariants,
 {
    &&& es.len() == ss.len()
    &&& ss.len() > 0
    &&& forall|i: int|
        0 <= i < ss.len() - 1 ==> cycled(#[trigger] es[i], ss[i], a, ss[i + 1], es[i + 1])
}

/// Whether the engine `before` can go through `n` cycles from `s`, by the states `ss`,
/// and end as `after`.
pub open spec fn grew<O, P, G, D, C>(
    before: Engine<O, P, G, D, C>,
    s: State,
    n: nat,
    a: Condition,
    ss: Seq<State>,
    after: Engine<O, P, G, D, C>,
) -> bool where
    O: OpticalBackend,
    P: Predictor,
    G: GraphBackend,
    D: Diffuser,
    C: Invariants,
 {
    exists|es: Seq<Engine<O, P, G, D, C>>|
        {
            &&& #[trigger] cycles(es, ss, a)
            &&& ss.len() == n + 1
            &&& es[0] == before
            &&& ss[0] == s
            &&& es.last() == after
        }
}

/// Whether the engine `before` can go through `n` cycles from `s`, fail with `e` in the
/// next, and be left as `after`.
pub open spec fn broke<O, P, G, D, C>(
    before: Engine<O, P, G, D, C>,
    s: State,
    n: nat,
    a: Condition,
    e: AriaError,
    after: Engine<O, P, G, D, C>,
) -> bool where
    O: OpticalBackend,
    P: Predictor,
    G: GraphBackend,
    D: Diffuser,
    C: Invariants,
 {
    exists|ss: Seq<State>, last: Engine<O, P, G, D, C>| #[trigger]
        grew(before, s, n, a, ss, last) && Engine::fails(
            last,
            ss.last(),
            phi_cycle(),
            a,
            e,
            after,
        )
}

proof fn grew_once_more<O, P, G, D, C>(
    before: Engine<O, P, G, D, C>,
    s: State,
    n: nat,
    a: Condition,
    ss: Seq<State>,
    last: Engine<O, P, G, D, C>,
    next: State,
    after: Engine<O, P, G, D, C>,
) where O: OpticalBackend, P: Predictor, G: GraphBackend, D: Diffuser, C: Invariants
    requires
        grew(before, s, n, a, ss, last),
        cycled(last, ss.last(), a, next, after),
    ensures
        grew(before, s, n + 1, a, ss.push(next), after),
{
    let es = choose|es: Seq<Engine<O, P, G, D, C>>|
        {
            &&& #[trigger] cycles(es, ss, a)
            &&& ss.len() == n + 1
            &&& es[0] == before
            &&& ss[0] == s
            &&& es.last() == last
        };
    let longer = es.push(after);
    let states = ss.push(next);
    assert forall|i: int| 0 <= i < states.len() - 1 implies cycled(
        #[trigger] longer[i],
        states[i],
        a,
        states[i + 1],
        longer[i + 1],
    ) by {
        if i < ss.len() - 1 {
            assert(cycled(es[i], ss[i], a, ss[i + 1], es[i + 1]));
        }
    }
    assert(cycles(longer, states, a));
}

/// Runs full cycles and samples the number of nodes after those that are checkpoints.
/// A cycle that fails is named by its number.
pub fn grow<O, P, G, D, C>(
    engine: &mut Engine<O, P, G, D, C>,
    state: State,
    count: u64,
    checkpoints: &Vec<u64>,
    a: Condition,
) -> (r: Result<(State, Vec<(u64, usize)>), (u64, AriaError)>) where
    O: OpticalBackend,
    P: Predictor,
    G: GraphBackend,
    D: Diffuser,
    C: Invariants,

    ensures
        match r {
            Ok((s, samples)) => exists|ss: Seq<State>|
                {
                    &&& #[trigger] grew(*old(engine), state, count as nat, a, ss, *final(engine))
                    &&& ss.last() == s
                    &&& samples@ == sampled(node_counts(ss), checkpoints@)
                },
            Err((cycle, e)) => 0 < cycle <= count && broke(
                *old(engine),
                state,
                (cycle - 1) as nat,
                a,
                e,
                *final(engine),
            ),
        },
{
    let mut samples: Vec<(u64, usize)> = Vec::new();
    let mut current = state;
    let mut done: u64 = 0;
    let ghost mut ss: Seq<State> = seq![state];
    proof {
        assert(cycles(seq![*old(engine)], ss, a));
        assert(grew(*old(engine), state, 0, a, ss, *engine));
        assert(samples@ =~= sampled(node_counts(ss), checkpoints@));
    }
    while done < count
        invariant
            done <= count,
            grew(*old(engine), state, done as nat, a, ss, *engine),
            ss.len() == done + 1,
            ss.last() == current,
            samples@ == sampled(node_counts(ss), checkpoints@),
        decreases count - done,
    {
        let ghost last = *engine;
        match engine.step_phi(current, a) {
            Ok(next) => {
                proof {
                    assert(cycled(last, ss.last(), a, next, *engine));
                    grew_once_more(*old(engine), state, done as nat, a, ss, last, next, *engine);
                    assert(node_counts(ss.push(next)).drop_last() =~= node_counts(ss));
                    assert(node_counts(ss.push(next)).last() == next.g@.nodes.len());
                    ss = ss.push(next);
                }
                done = done + 1;
                if holds(checkpoints, done) {
                    samples.push((done, next.g.node_count()));
                }
                current = next;
            },
            Err(e) => {
                assert(grew(*old(engine), state, done as nat, a, ss, last));
                assert(broke(*old(engine), state, done as nat, a, e, *engine));
                return Err((done + 1, e));
            },
        }
    }
    Ok((current, samples))
}

/// After a number of cycles the clock has advanced by that number.
pub proof fn cycles_are_ticks<O, P, G, D, C>(
    es: Seq<Engine<O, P, G, D, C>>,
    ss: Seq<State>,
    a: Condition,
) where O: OpticalBackend, P: Predictor, G: GraphBackend, D: Diffuser, C: Invariants
    requires
        cycles(es, ss, a),
    ensures
        ss.last().t == ss[0].t + ss.len() - 1,
        ss.last().energy_0 == ss[0].energy_0,
    decreases ss.len(),
{
    if ss.len() > 1 {
        let n = ss.len() - 2;
        let fewer = ss.drop_last();
        assert forall|i: int| 0 <= i < fewer.len() - 1 implies cycled(
            #[trigger] es.drop_last()[i],
            fewer[i],
            a,
            fewer[i + 1],
            es.drop_last()[i + 1],
        ) by {
            assert(cycled(es[i], ss[i], a, ss[i + 1], es[i + 1]));
        }
        cycles_are_ticks(es.drop_last(), fewer, a);
        assert(cycled(es[n], ss[n], a, ss[n + 1], es[n + 1]));
        let path = choose|path: Seq<State>| #[trigger]
            Engine::completes(es[n], ss[n], phi_cycle(), a, path, es[n + 1]) && path.last()
                == ss[n + 1];
        Engine::a_cycle_is_one_tick(es[n], ss[n], a, path, es[n + 1]);
    }
}

} // verus!
