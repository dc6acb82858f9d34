//! What a written trace says.

use vstd::prelude::*;

use crate::audit::tally;
use crate::condition::Condition;
use crate::json::{
    json_members, json_read, members_of, number_at, pairs_are_members, text_at,
    unsigned_at, Json, Numerals,
};
use crate::policy::MatchPolicy;
use crate::scalar::Real;
use crate::text::lines_of;
use crate::trace::{
    entry_line, entry_pairs, entry_pairs_are_flat, header_line, header_pairs,
    header_pairs_are_flat, line_reads, parse_header, parse_trace, row_views, stream_line,
    stream_pairs, symbols_of, EntryView, Trace, TraceEntry, TraceHeader, TraceRow,
};

verus! {

/// The object of a step holds, each under its own name, the clock, the symbol of the action,
/// the residual, the energy, the graph size and the condition.
pub open spec fn tells_step(m: Map<Seq<char>, Json>, e: TraceEntry) -> bool {
    &&& unsigned_at(m, "t"@) == Some(e.t)
    &&& text_at(m, "action"@) == Some(e.action@)
    &&& unsigned_at(m, "graph_size"@) == Some(e.graph_size as u64)
    &&& text_at(m, "condition"@) == Some(e.condition@)
    &&& e.res.finite() ==> number_at(m, "res"@) == Some(e.res)
    &&& e.energy.finite() ==> number_at(m, "energy"@) == Some(e.energy)
    &&& !e.res.finite() ==> m["res"@] == Json::Null
    &&& !e.energy.finite() ==> m["energy"@] == Json::Null
}

/// The object of a header holds, each under its own name, what the run can be repeated
/// from: modes, latent dimension, residual tolerance, seed, schedule, condition and policy.
pub open spec fn tells_header(m: Map<Seq<char>, Json>, trace: Trace) -> bool {
    &&& text_at(m, "type"@) == Some("config"@)
    &&& unsigned_at(m, "n_modes"@) == Some(trace.config_n_modes as u64)
    &&& unsigned_at(m, "latent_dim"@) == Some(trace.config_latent_dim as u64)
    &&& trace.config_eps.finite() ==> number_at(m, "eps"@) == Some(trace.config_eps)
    &&& text_at(m, "schedule"@) == Some(trace.config_schedule@)
    &&& unsigned_at(m, "seed"@) == trace.config_seed
    &&& trace.config_seed is None ==> m.contains_key("seed"@) && m["seed"@] == Json::Null
    &&& text_at(m, "condition"@) == Some(
        match trace.config_condition {
            Condition::Token => "token"@,
            Condition::Diffusion => "diffusion"@,
            Condition::WorldModel => "world_model"@,
        },
    )
    &&& text_at(m, "match_policy"@) == Some(
        match trace.config_match_policy {
            MatchPolicy::Identity => "identity"@,
            MatchPolicy::OneEdit => "one_edit"@,
            MatchPolicy::Merge => "merge"@,
            MatchPolicy::RebuildGStar => "rebuild_gstar"@,
        },
    )
}

proof fn header_members(trace: Trace)
    ensures
        tells_header(members_of(header_pairs(trace.header())), trace),
{
    let h = trace.header();
    let pairs = header_pairs(h);
    header_pairs_are_flat(h);
    pairs_are_members(pairs, 0);
    pairs_are_members(pairs, 1);
    pairs_are_members(pairs, 2);
    pairs_are_members(pairs, 3);
    pairs_are_members(pairs, 4);
    pairs_are_members(pairs, 5);
    pairs_are_members(pairs, 6);
    pairs_are_members(pairs, 7);
}

proof fn step_members(entry: TraceEntry)
    ensures
        tells_step(members_of(entry_pairs(entry@)), entry),
        tells_step(members_of(stream_pairs(entry@)), entry),
{
    let e = entry@;
    let pairs = entry_pairs(e);
    entry_pairs_are_flat(e);
    pairs_are_members(pairs, 0);
    pairs_are_members(pairs, 1);
    pairs_are_members(pairs, 2);
    pairs_are_members(pairs, 3);
    pairs_are_members(pairs, 4);
    pairs_are_members(pairs, 5);
    crate::trace::streamed_steps_are_the_same(e);
}

/// A written trace has a line for its header and one for every step, in their order, and
/// each line reads as an object that tells just what the trace recorded.
pub proof fn traces_tell_what_they_recorded<N: Numerals>(
    trace: Trace,
    numerals: N,
    text: String,
    i: int,
)
    requires
        call_ensures(Trace::to_jsonl::<N>, (&trace, &numerals), Ok::<String, Real>(text)),
        0 <= i < trace.entries@.len(),
    ensures
        lines_of(text@).len() == trace.entries@.len() + 1,
        json_read(lines_of(text@)[0]) matches Ok(m) && tells_header(m, trace),
        json_read(lines_of(text@)[i + 1]) matches Ok(m) && tells_step(m, trace.entries@[i]),
{
    assert(trace.steps()[i] == trace.entries@[i]@);
    assert(line_reads(lines_of(text@)[i + 1], entry_pairs(trace.steps()[i])));
    header_members(trace);
    step_members(trace.entries@[i]);
}

/// The lines of a header and of a step read as objects that tell just what was recorded.
pub proof fn single_lines_tell_what_they_recorded<N: Numerals>(
    trace: Trace,
    entry: TraceEntry,
    numerals: N,
    header: String,
    step: String,
)
    requires
        call_ensures(header_line::<N>, (&trace, &numerals), Ok::<String, Real>(header)),
        call_ensures(entry_line::<N>, (&entry, &numerals), Ok::<String, Real>(step)),
    ensures
        json_read(header@) matches Ok(m) && tells_header(m, trace),
        json_read(step@) matches Ok(m) && tells_step(m, entry),
{
    header_members(trace);
    step_members(entry);
}

/// A streamed line reads as an object that tells just what the step recorded.
pub proof fn streamed_lines_tell_their_step<N: Numerals>(
    entry: TraceEntry,
    numerals: N,
    line: String,
)
    requires
        call_ensures(stream_line::<N>, (&entry, &numerals), Ok::<String, Real>(line)),
    ensures
        json_read(line@) matches Ok(m) && tells_step(m, entry),
{
    step_members(entry);
}

/// A trace with steps and a finite tolerance is read back: the header gives every setting
/// that the trace recorded, and the rows give clock and action of every step, in order.
pub proof fn traces_are_read_back<N: Numerals>(
    trace: Trace,
    numerals: N,
    text: String,
    jsonl: &str,
    r: Result<(TraceHeader, Vec<TraceRow>), String>,
)
    requires
        call_ensures(Trace::to_jsonl::<N>, (&trace, &numerals), Ok::<String, Real>(text)),
        jsonl@ == text@,
        call_ensures(parse_trace, (jsonl,), r),
        trace.entries@.len() > 0,
        trace.config_eps.finite(),
    ensures
        r is Ok,
        r->Ok_0.0.n_modes == trace.config_n_modes,
        r->Ok_0.0.latent_dim == trace.config_latent_dim,
        r->Ok_0.0.eps == trace.config_eps,
        r->Ok_0.0.seed == Some(trace.config_seed),
        r->Ok_0.0.schedule is Some && r->Ok_0.0.schedule->Some_0@ == trace.config_schedule@,
        r->Ok_0.0.condition == Some(trace.config_condition),
        r->Ok_0.0.match_policy == Some(trace.config_match_policy),
        r->Ok_0.1@.len() == trace.entries@.len(),
        forall|i: int|
            0 <= i < trace.entries@.len() ==> (#[trigger] r->Ok_0.1@[i]).t == trace.entries@[i].t
                && r->Ok_0.1@[i].action@ == trace.entries@[i].action@,
{
    let (h, rows) = r->Ok_0;
    assert(h@ == crate::trace::recorded(trace.header()));
    assert(row_views(rows@) == crate::trace::rows_of(trace.steps()));
    assert(row_views(rows@).len() == rows@.len());
    assert forall|i: int| 0 <= i < trace.entries@.len() implies (#[trigger] rows@[i]).t
        == trace.entries@[i].t && rows@[i].action@ == trace.entries@[i].action@ by {
        assert(row_views(rows@)[i] == rows@[i]@);
        assert(trace.steps()[i] == trace.entries@[i]@);
    }
}

/// A header is read where, and only where, its object says that it is one and gives modes,
/// a latent dimension and a tolerance that can be used. Each setting is read under its own
/// name; of seed, schedule, condition and policy, what cannot be used is as good as absent.
pub proof fn headers_are_read_by_name(
    header: serde_json::Value,
    r: Result<TraceHeader, String>,
)
    requires
        call_ensures(parse_header, (&header,), r),
    ensures
        ({
            let m = json_members(header);
            &&& r is Ok <==> {
                &&& text_at(m, "type"@) == Some("config"@)
                &&& unsigned_at(m, "n_modes"@) is Some
                &&& unsigned_at(m, "n_modes"@)->Some_0 <= usize::MAX
                &&& unsigned_at(m, "latent_dim"@) is Some
                &&& unsigned_at(m, "latent_dim"@)->Some_0 <= usize::MAX
                &&& number_at(m, "eps"@) is Some
            }
            &&& text_at(m, "type"@) != Some("config"@) ==> (r matches Err(why) && why@
                == "first trace line must be a config header"@)
            &&& text_at(m, "type"@) == Some("config"@) && unsigned_at(m, "n_modes"@) is None ==> (
            r matches Err(why) && why@ == "header missing "@ + "n_modes"@)
            &&& r matches Ok(h) ==> {
                &&& unsigned_at(m, "n_modes"@) == Some(h.n_modes as u64)
                &&& unsigned_at(m, "latent_dim"@) == Some(h.latent_dim as u64)
                &&& number_at(m, "eps"@) == Some(h.eps)
                &&& text_at(m, "schedule"@) is None ==> h.schedule is None
                &&& text_at(m, "schedule"@) matches Some(s) ==> h.schedule is Some
                    && h.schedule->Some_0@ == s
                &&& unsigned_at(m, "seed"@) matches Some(n) ==> h.seed == Some(Some(n))
                &&& m.contains_key("seed"@) && m["seed"@] == Json::Null ==> h.seed == Some(
                    None::<u64>,
                )
                &&& !m.contains_key("seed"@) ==> h.seed is None
                &&& text_at(m, "condition"@) is None ==> h.condition is None
                &&& text_at(m, "condition"@) == Some("token"@) ==> h.condition == Some(
                    Condition::Token,
                )
                &&& text_at(m, "condition"@) == Some("diffusion"@) ==> h.condition == Some(
                    Condition::Diffusion,
                )
                &&& text_at(m, "condition"@) == Some("world_model"@) ==> h.condition == Some(
                    Condition::WorldModel,
                )
                &&& text_at(m, "match_policy"@) is None ==> h.match_policy is None
                &&& text_at(m, "match_policy"@) == Some("identity"@) ==> h.match_policy == Some(
                    MatchPolicy::Identity,
                )
                &&& text_at(m, "match_policy"@) == Some("one_edit"@) ==> h.match_policy == Some(
                    MatchPolicy::OneEdit,
                )
                &&& text_at(m, "match_policy"@) == Some("merge"@) ==> h.match_policy == Some(
                    MatchPolicy::Merge,
                )
                &&& text_at(m, "match_policy"@) == Some("rebuild_gstar"@) ==> h.match_policy
                    == Some(MatchPolicy::RebuildGStar)
            }
        }),
{
    crate::condition::conditions_read_back(Condition::Token);
    crate::condition::conditions_read_back(Condition::Diffusion);
    crate::condition::conditions_read_back(Condition::WorldModel);
    crate::policy::policies_read_back(MatchPolicy::Identity);
    crate::policy::policies_read_back(MatchPolicy::OneEdit);
    crate::policy::policies_read_back(MatchPolicy::Merge);
    crate::policy::policies_read_back(MatchPolicy::RebuildGStar);
}

/// The sequence of actions is what the entries show, one behind the other: where every
/// symbol is one character, it is as long as the trace, and shows at every position the
/// symbol of the step there.
pub proof fn action_sequences_show_every_step(trace: Trace, r: String, i: int)
    requires
        call_ensures(Trace::action_sequence, (&trace,), r),
        forall|j: int|
            0 <= j < trace.entries@.len() ==> (#[trigger] trace.entries@[j]).action@.len() == 1,
        0 <= i < trace.entries@.len(),
    ensures
        r@.len() == trace.entries@.len(),
        r@[i] == trace.entries@[i].action@[0],
{
    let steps = trace.steps();
    assert forall|j: int| 0 <= j < steps.len() implies (#[trigger] steps[j]).action.len()
        == 1 by {
        assert(steps[j] == trace.entries@[j]@);
    }
    single_symbols_line_up(steps, i);
    assert(steps[i] == trace.entries@[i]@);
}

proof fn single_symbols_line_up(steps: Seq<EntryView>, i: int)
    requires
        forall|j: int| 0 <= j < steps.len() ==> (#[trigger] steps[j]).action.len() == 1,
        0 <= i < steps.len(),
    ensures
        symbols_of(steps).len() == steps.len(),
        symbols_of(steps)[i] == steps[i].action[0],
    decreases steps.len(),
{
    let fewer = steps.drop_last();
    assert(steps.last() == steps[steps.len() - 1]);
    assert forall|j: int| 0 <= j < fewer.len() implies (#[trigger] fewer[j]).action.len()
        == 1 by {
        assert(fewer[j] == steps[j]);
    }
    if fewer.len() > 0 {
        single_symbols_line_up(
            fewer,
            if i < fewer.len() {
                i
            } else {
                0
            },
        );
    }
}

/// The rows of a trace file are its lines behind the header that are not blank, in their
/// order: there are as many, and each gives the clock and the action of its line. A file is
/// read where, and only where, it has a line, the first is an object that is a header, every
/// other that is not blank is an object with a clock and an action, and there is one such.
pub proof fn trace_files_are_read_line_by_line(
    jsonl: &str,
    r: Result<(TraceHeader, Vec<TraceRow>), String>,
    i: int,
)
    requires
        call_ensures(parse_trace, (jsonl,), r),
    ensures
        ({
            let ls = lines_of(jsonl@).skip(1);
            let n = tally(|j: int| !crate::trace::blank(ls[j]), ls.len() as int);
            &&& r matches Ok((_, rows)) ==> {
                &&& lines_of(jsonl@).len() > 0
                &&& rows@.len() == n
                &&& n > 0
                &&& 0 <= i < ls.len() && !crate::trace::blank(ls[i]) ==> {
                    let k = tally(|j: int| !crate::trace::blank(ls[j]), i) as int;
                    &&& k < rows@.len()
                    &&& json_read(ls[i]) matches Ok(m) && {
                        &&& unsigned_at(m, "t"@) == Some(rows@[k].t)
                        &&& text_at(m, "action"@) == Some(rows@[k].action@)
                    }
                }
            }
        }),
        r is Err ==> {
            let ls = lines_of(jsonl@);
            ||| ls.len() == 0
            ||| json_read(ls[0]) is Err
            ||| crate::trace::members_read(json_read(ls[0])->Ok_0) is Err
            ||| exists|j: int|
                0 < j < ls.len() && !crate::trace::blank(#[trigger] ls[j]) && {
                    ||| json_read(ls[j]) is Err
                    ||| unsigned_at(json_read(ls[j])->Ok_0, "t"@) is None
                    ||| text_at(json_read(ls[j])->Ok_0, "action"@) is None
                }
            ||| forall|j: int| 0 < j < ls.len() ==> crate::trace::blank(#[trigger] ls[j])
        },
{
    let all = lines_of(jsonl@);
    let ls = all.skip(1);
    let p = |j: int| !crate::trace::blank(ls[j]);
    rows_are_counted(ls, i, p);
    if r is Ok {
        let rows = r->Ok_0.1;
        assert(row_views(rows@).len() == rows@.len());
        if 0 <= i < ls.len() && p(i) {
            let k = tally(p, i) as int;
            assert(row_views(rows@)[k] == rows@[k]@);
        }
    } else if all.len() > 0 {
        match crate::trace::rows_read(ls) {
            Err(_) => {
                let j = choose|j: int|
                    0 <= j < ls.len() && p(j) && {
                        ||| json_read(#[trigger] ls[j]) is Err
                        ||| unsigned_at(json_read(ls[j])->Ok_0, "t"@) is None
                        ||| text_at(json_read(ls[j])->Ok_0, "action"@) is None
                    };
                assert(all[j + 1] == ls[j]);
            },
            Ok(rows) => {
                if rows.len() == 0 {
                    assert forall|j: int| 0 < j < all.len() implies crate::trace::blank(
                        #[trigger] all[j],
                    ) by {
                        assert(all[j] == ls[j - 1]);
                        crate::audit::tally_misses(p, ls.len() as int, j - 1);
                        assert(!p(j - 1));
                    }
                }
            },
        }
    }
}

proof fn rows_are_counted(ls: Seq<Seq<char>>, i: int, p: spec_fn(int) -> bool)
    requires
        forall|j: int| 0 <= j < ls.len() ==> #[trigger] p(j) == !crate::trace::blank(ls[j]),
    ensures
        match crate::trace::rows_read(ls) {
            Ok(rows) => {
                &&& rows.len() == tally(p, ls.len() as int)
                &&& 0 <= i < ls.len() && p(i) ==> {
                    let k = tally(p, i) as int;
                    &&& k < rows.len()
                    &&& json_read(ls[i]) matches Ok(m) && {
                        &&& unsigned_at(m, "t"@) == Some(rows[k].0)
                        &&& text_at(m, "action"@) == Some(rows[k].1)
                    }
                }
            },
            Err(_) => exists|j: int|
                0 <= j < ls.len() && p(j) && {
                    ||| json_read(#[trigger] ls[j]) is Err
                    ||| unsigned_at(json_read(ls[j])->Ok_0, "t"@) is None
                    ||| text_at(json_read(ls[j])->Ok_0, "action"@) is None
                },
        },
    decreases ls.len(),
{
    if ls.len() > 0 {
        let fewer = ls.drop_last();
        let n = ls.len() - 1;
        assert forall|j: int| 0 <= j < fewer.len() implies #[trigger] p(j)
            == !crate::trace::blank(fewer[j]) by {
            assert(fewer[j] == ls[j]);
        }
        rows_are_counted(fewer, i, p);
        assert(p(n) == !crate::trace::blank(ls[n]));
        assert(ls.last() == ls[n]);
        match crate::trace::rows_read(fewer) {
            Err(_) => {
                let j = choose|j: int|
                    0 <= j < fewer.len() && p(j) && {
                        ||| json_read(#[trigger] fewer[j]) is Err
                        ||| unsigned_at(json_read(fewer[j])->Ok_0, "t"@) is None
                        ||| text_at(json_read(fewer[j])->Ok_0, "action"@) is None
                    };
                assert(ls[j] == fewer[j]);
            },
            Ok(rows) => {
                if 0 <= i < n {
                    assert(fewer[i] == ls[i]);
                    assert(p(i) == !crate::trace::blank(ls[i]));
                }
            },
        }
    }
}

} // verus!
