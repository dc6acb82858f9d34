//! The trace of a run.

use vstd::prelude::*;
use vstd::string::*;

use crate::action::Action;
use crate::condition::{
    condition_from_name, condition_name, condition_spelled, condition_spelling, Condition,
};
use crate::json::{
    flat, json_members, json_read, json_written, member_is_null, member_real, member_str, member_u64,
    members_of, misrenders, null, number, number_at, pairs_of, read, real_json, text, text_at,
    unsigned, unsigned_at, write_object, Json, Numerals,
};
use crate::policy::{
    policy_from_lowercase, policy_name, policy_named, policy_spelling, MatchPolicy,
};
use crate::scalar::Real;
use crate::text::{
    broken_lines, decimal, join2, join3, lines, lines_come_apart, lines_grow, put_line, lines_of,
    numeral, one_line, same, trim, trimmed, trimming_keeps, views,
};

verus! {

/// One step of a trace.
#[derive(Clone, Debug)]
pub struct TraceEntry {
    /// Clock before the step.
    pub t: u64,
    /// Symbol of the action taken.
    pub action: String,
    /// Residual after the step.
    pub res: Real,
    /// Field energy after the step.
    pub energy: Real,
    /// Graph size |V| + |E| after the step.
    pub graph_size: usize,
    /// Label of the condition.
    pub condition: String,
}

/// A trace entry as a mathematical value.
#[verifier::ext_equal]
pub struct EntryView {
    pub t: u64,
    pub action: Seq<char>,
    pub res: Real,
    pub energy: Real,
    pub graph_size: usize,
    pub condition: Seq<char>,
}

impl View for TraceEntry {
    type V = EntryView;

    open spec fn view(&self) -> EntryView {
        EntryView {
            t: self.t,
            action: self.action@,
            res: self.res,
            energy: self.energy,
            graph_size: self.graph_size,
            condition: self.condition@,
        }
    }
}

/// A trace: what is needed to replay the run, and the steps it took.
///
/// Seed, schedule, condition and match policy all shape the trajectory that the
/// entries record, so the header carries every one of them.
#[derive(Clone, Debug)]
pub struct Trace {
    pub config_n_modes: usize,
    pub config_latent_dim: usize,
    pub config_eps: Real,
    /// The seed of the run; none only if the run itself had none.
    pub config_seed: Option<u64>,
    pub config_schedule: String,
    pub config_condition: Condition,
    pub config_match_policy: MatchPolicy,
    pub entries: Vec<TraceEntry>,
}

/// The header of a trace as a mathematical value.
#[verifier::ext_equal]
pub struct HeaderView {
    pub n_modes: usize,
    pub latent_dim: usize,
    pub eps: Real,
    pub seed: Option<u64>,
    pub schedule: Seq<char>,
    pub condition: Condition,
    pub match_policy: MatchPolicy,
}

impl Trace {
    /// What the trace says of the run's configuration.
    pub open spec fn header(&self) -> HeaderView {
        HeaderView {
            n_modes: self.config_n_modes,
            latent_dim: self.config_latent_dim,
            eps: self.config_eps,
            seed: self.config_seed,
            schedule: self.config_schedule@,
            condition: self.config_condition,
            match_policy: self.config_match_policy,
        }
    }

    /// The steps of the trace.
    pub open spec fn steps(&self) -> Seq<EntryView> {
        self.entries@.map_values(|e: TraceEntry| e@)
    }

    /// A trace without steps.
    pub fn new(
        n_modes: usize,
        latent_dim: usize,
        eps: Real,
        seed: Option<u64>,
        schedule: &str,
        condition: Condition,
        match_policy: MatchPolicy,
    ) -> (r: Self)
        ensures
            r.header() == (HeaderView {
                n_modes,
                latent_dim,
                eps,
                seed,
                schedule: schedule@,
                condition,
                match_policy,
            }),
            r.steps() == Seq::<EntryView>::empty(),
    {
        let r = Trace {
            config_n_modes: n_modes,
            config_latent_dim: latent_dim,
            config_eps: eps,
            config_seed: seed,
            config_schedule: schedule.to_string(),
            config_condition: condition,
            config_match_policy: match_policy,
            entries: Vec::new(),
        };
        assert(r.steps() =~= Seq::<EntryView>::empty());
        r
    }

    /// Appends one step.
    pub fn push(
        &mut self,
        t: u64,
        action: Action,
        residual: Real,
        energy: Real,
        graph_size: usize,
        condition: &str,
    )
        ensures
            final(self).header() == old(self).header(),
            final(self).steps() == old(self).steps().push(
                EntryView {
                    t,
                    action: crate::action::symbol_of(action),
                    res: residual,
                    energy,
                    graph_size,
                    condition: condition@,
                },
            ),
    {
        self.entries.push(
            TraceEntry {
                t,
                action: action.symbol().to_string(),
                res: residual,
                energy,
                graph_size,
                condition: condition.to_string(),
            },
        );
        assert(self.steps() =~= old(self).steps().push(
            EntryView {
                t,
                action: crate::action::symbol_of(action),
                res: residual,
                energy,
                graph_size,
                condition: condition@,
            },
        ));
    }

    /// The symbols of the actions taken, in order.
    pub fn action_sequence(&self) -> (r: String)
        ensures
            r@ == symbols_of(self.steps()),
    {
        let mut out = String::new();
        let mut i: usize = 0;
        assert(self.steps().take(0).len() == 0);
        while i < self.entries.len()
            invariant
                i <= self.entries@.len(),
                out@ == symbols_of(self.steps().take(i as int)),
            decreases self.entries@.len() - i,
        {
            assert(self.steps().take(i + 1).drop_last() =~= self.steps().take(i as int));
            out.append(self.entries[i].action.as_str());
            i += 1;
        }
        assert(self.steps().take(i as int) =~= self.steps());
        out
    }

    /// The trace as JSON lines: the header, then one line per step.
    pub fn to_jsonl<N: Numerals>(&self, numerals: &N) -> (r: Result<String, Real>)
        ensures
            match r {
                Ok(text) => {
                    &&& text@ == broken_lines(trace_lines(self.header(), self.steps()))
                    &&& lines_of(text@) == trace_lines(self.header(), self.steps())
                    &&& line_reads(lines_of(text@)[0], header_pairs(self.header()))
                    &&& forall|i: int|
                        0 <= i < self.steps().len() ==> line_reads(
                            #[trigger] lines_of(text@)[i + 1],
                            entry_pairs(self.steps()[i]),
                        )
                    &&& self.steps().len() == 0 && self.config_eps.finite() ==> trace_read(text@)
                        == Err::<(HeaderRead, Seq<(u64, Seq<char>)>), Seq<char>>(
                        "trace has no step rows"@,
                    )
                    &&& self.steps().len() > 0 && self.config_eps.finite() ==> trace_read(text@)
                        == Ok::<(HeaderRead, Seq<(u64, Seq<char>)>), Seq<char>>(
                        (recorded(self.header()), rows_of(self.steps())),
                    )
                },
                Err(x) => x.finite() && misrenders(*numerals, x) && holds_number(
                    self.header(),
                    self.steps(),
                    x,
                ),
            },
    {
        let ghost header = self.header();
        let ghost steps = self.steps();
        let mut out = match header_line(self, numerals) {
            Ok(line) => line,
            Err(x) => {
                return Err(x);
            },
        };
        let ghost mut ls: Seq<Seq<char>> = seq![out@];
        let ghost first = out@;
        out.append("\n");
        proof {
            reveal_strlit("\n");
            assert(ls.skip(1).len() == 0);
            assert(broken_lines(ls.skip(1)) == Seq::<char>::empty());
            assert(out@ =~= broken_lines(ls));
        }
        let mut i: usize = 0;
        while i < self.entries.len()
            invariant
                i <= self.entries@.len(),
                header == self.header(),
                steps == self.steps(),
                out@ == broken_lines(ls),
                ls.len() == i + 1,
                ls[0] == first,
                first == json_written(header_pairs(header)),
                line_reads(first, header_pairs(header)),
                forall|j: int|
                    0 <= j < i ==> #[trigger] ls[j + 1] == json_written(entry_pairs(steps[j])),
                forall|j: int|
                    0 <= j < i ==> line_reads(#[trigger] ls[j + 1], entry_pairs(steps[j])),
            decreases self.entries@.len() - i,
        {
            assert(steps[i as int] == self.entries@[i as int]@);
            let line = match entry_line(&self.entries[i], numerals) {
                Ok(line) => line,
                Err(x) => {
                    return Err(x);
                },
            };
            put_line(&mut out, line.as_str());
            proof {
                lines_grow(ls, line@);
                ls = ls.push(line@);
            }
            i += 1;
        }
        proof {
            assert(ls =~= trace_lines(header, steps)) by {
                assert forall|j: int| 0 <= j < ls.len() implies ls[j] == trace_lines(
                    header,
                    steps,
                )[j] by {
                    if j > 0 {
                        assert(ls[(j - 1) + 1] == json_written(entry_pairs(steps[j - 1])));
                    }
                }
            }
            assert forall|j: int| 0 <= j < ls.len() implies one_line(#[trigger] ls[j]) by {
                if j > 0 {
                    assert(line_reads(ls[(j - 1) + 1], entry_pairs(steps[j - 1])));
                }
            }
            lines_come_apart(ls);
            if steps.len() == 0 && header.eps.finite() {
                header_reads_back(header, first);
                assert(ls.skip(1).len() == 0);
            }
            if steps.len() > 0 && header.eps.finite() {
                let rest = ls.skip(1);
                assert forall|j: int| 0 <= j < steps.len() implies step_reads(
                    #[trigger] rest[j],
                    steps[j],
                ) by {
                    assert(line_reads(ls[j + 1], entry_pairs(steps[j])));
                }
                assert(ls =~= seq![first] + rest);
                traces_read_back(header, steps, first, rest);
            }
        }
        Ok(out)
    }
}

// ---------------------------------------------------------------------------
// What is written
// ---------------------------------------------------------------------------

/// The symbols of a list of steps, one behind the other.
pub open spec fn symbols_of(steps: Seq<EntryView>) -> Seq<char>
    decreases steps.len(),
{
    if steps.len() == 0 {
        Seq::empty()
    } else {
        symbols_of(steps.drop_last()) + steps.last().action
    }
}

/// The members of the header line, in the order they are written.
pub open spec fn header_pairs(h: HeaderView) -> Seq<(Seq<char>, Json)> {
    seq![
        ("condition"@, Json::Text(condition_spelling(h.condition))),
        ("eps"@, real_json(h.eps)),
        ("latent_dim"@, Json::Unsigned(h.latent_dim as u64)),
        ("match_policy"@, Json::Text(policy_spelling(h.match_policy))),
        ("n_modes"@, Json::Unsigned(h.n_modes as u64)),
        ("schedule"@, Json::Text(h.schedule)),
        (
            "seed"@,
            match h.seed {
                Some(n) => Json::Unsigned(n),
                None => Json::Null,
            },
        ),
        ("type"@, Json::Text("config"@)),
    ]
}

/// The members of the line of a step, in the order they are written.
pub open spec fn entry_pairs(e: EntryView) -> Seq<(Seq<char>, Json)> {
    seq![
        ("t"@, Json::Unsigned(e.t)),
        ("action"@, Json::Text(e.action)),
        ("res"@, real_json(e.res)),
        ("energy"@, real_json(e.energy)),
        ("graph_size"@, Json::Unsigned(e.graph_size as u64)),
        ("condition"@, Json::Text(e.condition)),
    ]
}

/// The lines of a trace.
pub open spec fn trace_lines(h: HeaderView, steps: Seq<EntryView>) -> Seq<Seq<char>> {
    seq![json_written(header_pairs(h))] + steps.map_values(
        |e: EntryView| json_written(entry_pairs(e)),
    )
}

/// Whether a number stands in a trace.
pub open spec fn holds_number(h: HeaderView, steps: Seq<EntryView>, x: Real) -> bool {
    ||| h.eps == x
    ||| exists|i: int| 0 <= i < steps.len() && ((#[trigger] steps[i]).res == x || steps[i].energy == x)
}

/// Whether a text is one line that opens an object and reads back as its members.
pub open spec fn line_reads(line: Seq<char>, pairs: Seq<(Seq<char>, Json)>) -> bool {
    &&& line.len() > 0 && line[0] == '{'
    &&& one_line(line)
    &&& json_read(line) == Ok::<Map<Seq<char>, Json>, Seq<char>>(members_of(pairs))
    &&& !blank(line)
}

/// The header line names every member once.
pub proof fn header_pairs_are_flat(h: HeaderView)
    ensures
        flat(header_pairs(h)),
{
    reveal_strlit("condition");
    reveal_strlit("eps");
    reveal_strlit("latent_dim");
    reveal_strlit("match_policy");
    reveal_strlit("n_modes");
    reveal_strlit("schedule");
    reveal_strlit("seed");
    reveal_strlit("type");
    assert("condition"@.len() == 9 && "eps"@.len() == 3 && "latent_dim"@.len() == 10);
    assert("match_policy"@.len() == 12 && "n_modes"@.len() == 7 && "schedule"@.len() == 8);
    assert("seed"@.len() == 4 && "type"@.len() == 4);
    assert("seed"@[0] == 's' && "type"@[0] == 't');
}

/// The line of a step names every member once.
pub proof fn entry_pairs_are_flat(e: EntryView)
    ensures
        flat(entry_pairs(e)),
{
    reveal_strlit("t");
    reveal_strlit("action");
    reveal_strlit("res");
    reveal_strlit("energy");
    reveal_strlit("graph_size");
    reveal_strlit("condition");
    assert("t"@.len() == 1 && "action"@.len() == 6 && "res"@.len() == 3);
    assert("energy"@.len() == 6 && "graph_size"@.len() == 10 && "condition"@.len() == 9);
    assert("action"@[0] == 'a' && "energy"@[0] == 'e');
}

/// The header line of a trace.
pub fn header_line<N: Numerals>(trace: &Trace, numerals: &N) -> (r: Result<String, Real>)
    ensures
        match r {
            Ok(line) => line@ == json_written(header_pairs(trace.header())) && line_reads(
                line@,
                header_pairs(trace.header()),
            ),
            Err(x) => x == trace.config_eps && x.finite() && misrenders(*numerals, x),
        },
{
    let eps = match number(numerals, trace.config_eps) {
        Ok(v) => v,
        Err(x) => {
            return Err(x);
        },
    };
    let condition = text(condition_name(trace.config_condition));
    let latent_dim = unsigned(trace.config_latent_dim as u64);
    let match_policy = text(policy_name(trace.config_match_policy));
    let n_modes = unsigned(trace.config_n_modes as u64);
    let schedule = text(trace.config_schedule.as_str());
    let seed = match trace.config_seed {
        Some(n) => unsigned(n),
        None => null(),
    };
    let kind = text("config");
    let mut pairs: Vec<(&str, &serde_json::Value)> = Vec::new();
    pairs.push(("condition", &condition));
    pairs.push(("eps", &eps));
    pairs.push(("latent_dim", &latent_dim));
    pairs.push(("match_policy", &match_policy));
    pairs.push(("n_modes", &n_modes));
    pairs.push(("schedule", &schedule));
    pairs.push(("seed", &seed));
    pairs.push(("type", &kind));
    proof {
        header_pairs_are_flat(trace.header());
        assert(pairs_of(pairs@) =~= header_pairs(trace.header()));
    }
    let line = write_object(pairs);
    proof {
        trimming_keeps(line@, 0);
    }
    Ok(line)
}

/// The line of one step.
pub fn entry_line<N: Numerals>(entry: &TraceEntry, numerals: &N) -> (r: Result<String, Real>)
    ensures
        match r {
            Ok(line) => line@ == json_written(entry_pairs(entry@)) && line_reads(
                line@,
                entry_pairs(entry@),
            ),
            Err(x) => (x == entry.res || x == entry.energy) && x.finite() && misrenders(
                *numerals,
                x,
            ),
        },
{
    let res = match number(numerals, entry.res) {
        Ok(v) => v,
        Err(x) => {
            return Err(x);
        },
    };
    let energy = match number(numerals, entry.energy) {
        Ok(v) => v,
        Err(x) => {
            return Err(x);
        },
    };
    let t = unsigned(entry.t);
    let action = text(entry.action.as_str());
    let graph_size = unsigned(entry.graph_size as u64);
    let condition = text(entry.condition.as_str());
    let mut pairs: Vec<(&str, &serde_json::Value)> = Vec::new();
    pairs.push(("t", &t));
    pairs.push(("action", &action));
    pairs.push(("res", &res));
    pairs.push(("energy", &energy));
    pairs.push(("graph_size", &graph_size));
    pairs.push(("condition", &condition));
    proof {
        entry_pairs_are_flat(entry@);
        assert(pairs_of(pairs@) =~= entry_pairs(entry@));
    }
    let line = write_object(pairs);
    proof {
        trimming_keeps(line@, 0);
    }
    Ok(line)
}

/// The members of the line of a step in a streamed trace, in the order they are
/// written there.
pub open spec fn stream_pairs(e: EntryView) -> Seq<(Seq<char>, Json)> {
    seq![
        ("action"@, Json::Text(e.action)),
        ("condition"@, Json::Text(e.condition)),
        ("energy"@, real_json(e.energy)),
        ("graph_size"@, Json::Unsigned(e.graph_size as u64)),
        ("res"@, real_json(e.res)),
        ("t"@, Json::Unsigned(e.t)),
    ]
}

proof fn stream_pairs_are_flat(e: EntryView)
    ensures
        flat(stream_pairs(e)),
{
    reveal_strlit("t");
    reveal_strlit("action");
    reveal_strlit("res");
    reveal_strlit("energy");
    reveal_strlit("graph_size");
    reveal_strlit("condition");
    assert("t"@.len() == 1 && "action"@.len() == 6 && "res"@.len() == 3);
    assert("energy"@.len() == 6 && "graph_size"@.len() == 10 && "condition"@.len() == 9);
    assert("action"@[0] == 'a' && "energy"@[0] == 'e');
}

/// A step is the same object in a streamed trace and in one that is written at once.
pub proof fn streamed_steps_are_the_same(e: EntryView)
    ensures
        members_of(stream_pairs(e)) == members_of(entry_pairs(e)),
{
    entry_pairs_are_flat(e);
    stream_pairs_are_flat(e);
    let m1 = members_of(stream_pairs(e));
    let m2 = members_of(entry_pairs(e));
    crate::json::pairs_are_members(stream_pairs(e), 0);
    crate::json::pairs_are_members(stream_pairs(e), 1);
    crate::json::pairs_are_members(stream_pairs(e), 2);
    crate::json::pairs_are_members(stream_pairs(e), 3);
    crate::json::pairs_are_members(stream_pairs(e), 4);
    crate::json::pairs_are_members(stream_pairs(e), 5);
    crate::json::pairs_are_members(entry_pairs(e), 0);
    crate::json::pairs_are_members(entry_pairs(e), 1);
    crate::json::pairs_are_members(entry_pairs(e), 2);
    crate::json::pairs_are_members(entry_pairs(e), 3);
    crate::json::pairs_are_members(entry_pairs(e), 4);
    crate::json::pairs_are_members(entry_pairs(e), 5);
    assert forall|key: Seq<char>| #[trigger] m1.dom().contains(key) implies m2.dom().contains(key)
        && m1[key] == m2[key] by {
        crate::json::members_are_pairs(stream_pairs(e), key);
    }
    assert forall|key: Seq<char>| #[trigger] m2.dom().contains(key) implies m1.dom().contains(
        key,
    ) by {
        crate::json::members_are_pairs(entry_pairs(e), key);
    }
    assert(m1.dom() =~= m2.dom());
    assert(m1 =~= m2);
}

/// The line of one step in a streamed trace.
pub fn stream_line<N: Numerals>(entry: &TraceEntry, numerals: &N) -> (r: Result<String, Real>)
    ensures
        match r {
            Ok(line) => line@ == json_written(stream_pairs(entry@)) && line_reads(
                line@,
                stream_pairs(entry@),
            ),
            Err(x) => (x == entry.res || x == entry.energy) && x.finite() && misrenders(
                *numerals,
                x,
            ),
        },
{
    let res = match number(numerals, entry.res) {
        Ok(v) => v,
        Err(x) => {
            return Err(x);
        },
    };
    let energy = match number(numerals, entry.energy) {
        Ok(v) => v,
        Err(x) => {
            return Err(x);
        },
    };
    let t = unsigned(entry.t);
    let action = text(entry.action.as_str());
    let graph_size = unsigned(entry.graph_size as u64);
    let condition = text(entry.condition.as_str());
    let mut pairs: Vec<(&str, &serde_json::Value)> = Vec::new();
    pairs.push(("action", &action));
    pairs.push(("condition", &condition));
    pairs.push(("energy", &energy));
    pairs.push(("graph_size", &graph_size));
    pairs.push(("res", &res));
    pairs.push(("t", &t));
    proof {
        stream_pairs_are_flat(entry@);
        assert(pairs_of(pairs@) =~= stream_pairs(entry@));
    }
    let line = write_object(pairs);
    proof {
        trimming_keeps(line@, 0);
    }
    Ok(line)
}

// ---------------------------------------------------------------------------
// What is read
// ---------------------------------------------------------------------------

/// What the header of a trace tells of its run. What it does not record is absent.
pub struct TraceHeader {
    pub n_modes: usize,
    pub latent_dim: usize,
    pub eps: Real,
    /// Absent where the header has no seed; no seed where the run had none.
    pub seed: Option<Option<u64>>,
    pub schedule: Option<String>,
    pub condition: Option<Condition>,
    pub match_policy: Option<MatchPolicy>,
}

/// A header that was read, as a mathematical value.
#[verifier::ext_equal]
pub struct HeaderRead {
    pub n_modes: usize,
    pub latent_dim: usize,
    pub eps: Real,
    pub seed: Option<Option<u64>>,
    pub schedule: Option<Seq<char>>,
    pub condition: Option<Condition>,
    pub match_policy: Option<MatchPolicy>,
}

impl View for TraceHeader {
    type V = HeaderRead;

    open spec fn view(&self) -> HeaderRead {
        HeaderRead {
            n_modes: self.n_modes,
            latent_dim: self.latent_dim,
            eps: self.eps,
            seed: self.seed,
            schedule: match self.schedule {
                Some(s) => Some(s@),
                None => None,
            },
            condition: self.condition,
            match_policy: self.match_policy,
        }
    }
}

/// What is read back of a header that was written.
pub open spec fn recorded(h: HeaderView) -> HeaderRead {
    HeaderRead {
        n_modes: h.n_modes,
        latent_dim: h.latent_dim,
        eps: h.eps,
        seed: Some(h.seed),
        schedule: Some(h.schedule),
        condition: Some(h.condition),
        match_policy: Some(h.match_policy),
    }
}

/// What is read back of steps that were written: clock and action.
pub open spec fn rows_of(steps: Seq<EntryView>) -> Seq<(u64, Seq<char>)> {
    steps.map_values(|e: EntryView| (e.t, e.action))
}

/// A whole number of the header.
pub open spec fn usize_read(m: Map<Seq<char>, Json>, key: Seq<char>) -> Result<usize, Seq<char>> {
    match unsigned_at(m, key) {
        None => Err("header missing "@ + key),
        Some(n) => if n > usize::MAX {
            Err("header "@ + key + " exceeds usize"@)
        } else {
            Ok(n as usize)
        },
    }
}

/// The seed of the header: absent where there is none that can be read.
pub open spec fn seed_read(m: Map<Seq<char>, Json>) -> Option<Option<u64>> {
    if m.contains_key("seed"@) && m["seed"@] == Json::Null {
        Some(None)
    } else {
        match unsigned_at(m, "seed"@) {
            Some(n) => Some(Some(n)),
            None => None,
        }
    }
}

/// The condition of the header: absent where there is none that is known.
pub open spec fn condition_read(m: Map<Seq<char>, Json>) -> Option<Condition> {
    match text_at(m, "condition"@) {
        Some(s) => condition_spelled(s),
        None => None,
    }
}

/// The match policy of the header: absent where there is none that is known.
pub open spec fn policy_read(m: Map<Seq<char>, Json>) -> Option<MatchPolicy> {
    match text_at(m, "match_policy"@) {
        Some(s) => policy_named(s),
        None => None,
    }
}

/// What the members of a header line tell, or the first thing that is wrong with them.
/// Of seed, schedule, condition and match policy nothing is demanded: what cannot be
/// used is as good as absent.
pub open spec fn members_read(m: Map<Seq<char>, Json>) -> Result<HeaderRead, Seq<char>> {
    if text_at(m, "type"@) != Some("config"@) {
        Err("first trace line must be a config header"@)
    } else {
        match usize_read(m, "n_modes"@) {
            Err(why) => Err(why),
            Ok(n_modes) => match usize_read(m, "latent_dim"@) {
                Err(why) => Err(why),
                Ok(latent_dim) => match number_at(m, "eps"@) {
                    None => Err("header missing eps"@),
                    Some(eps) => Ok(
                        HeaderRead {
                            n_modes,
                            latent_dim,
                            eps,
                            seed: seed_read(m),
                            schedule: text_at(m, "schedule"@),
                            condition: condition_read(m),
                            match_policy: policy_read(m),
                        },
                    ),
                },
            },
        }
    }
}

/// Whether nothing but white space stands in a text.
pub open spec fn blank(s: Seq<char>) -> bool {
    trimmed(s).len() == 0
}

/// What the line of the row at `i` tells.
pub open spec fn row_read(line: Seq<char>, i: nat) -> Result<(u64, Seq<char>), Seq<char>> {
    let row = "trace row "@ + numeral(i);
    match json_read(line) {
        Err(why) => Err(row + ": "@ + why),
        Ok(m) => match unsigned_at(m, "t"@) {
            None => Err(row + " missing t"@),
            Some(t) => match text_at(m, "action"@) {
                None => Err(row + " missing action"@),
                Some(action) => Ok((t, action)),
            },
        },
    }
}

/// The rows that the lines behind the header tell. Blank lines are passed over, but
/// counted.
pub open spec fn rows_read(ls: Seq<Seq<char>>) -> Result<Seq<(u64, Seq<char>)>, Seq<char>>
    decreases ls.len(),
{
    if ls.len() == 0 {
        Ok(Seq::empty())
    } else {
        match rows_read(ls.drop_last()) {
            Err(why) => Err(why),
            Ok(rows) => if blank(ls.last()) {
                Ok(rows)
            } else {
                match row_read(ls.last(), (ls.len() - 1) as nat) {
                    Err(why) => Err(why),
                    Ok(row) => Ok(rows.push(row)),
                }
            },
        }
    }
}

/// What a trace file tells, or the first thing that is wrong with it.
pub open spec fn trace_read(text: Seq<char>) -> Result<
    (HeaderRead, Seq<(u64, Seq<char>)>),
    Seq<char>,
> {
    let ls = lines_of(text);
    if ls.len() == 0 {
        Err("trace is empty"@)
    } else {
        match json_read(ls[0]) {
            Err(why) => Err("trace header: "@ + why),
            Ok(m) => match members_read(m) {
                Err(why) => Err(why),
                Ok(header) => match rows_read(ls.skip(1)) {
                    Err(why) => Err(why),
                    Ok(rows) => if rows.len() == 0 {
                        Err("trace has no step rows"@)
                    } else {
                        Ok((header, rows))
                    },
                },
            },
        }
    }
}

/// A header that was written is read back.
proof fn header_reads_back(h: HeaderView, line: Seq<char>)
    requires
        h.eps.finite(),
        line_reads(line, header_pairs(h)),
    ensures
        json_read(line) is Ok,
        members_read(json_read(line)->Ok_0) == Ok::<HeaderRead, Seq<char>>(recorded(h)),
{
    let pairs = header_pairs(h);
    let m = members_of(pairs);
    header_pairs_are_flat(h);
    crate::json::pairs_are_members(pairs, 0);
    crate::json::pairs_are_members(pairs, 1);
    crate::json::pairs_are_members(pairs, 2);
    crate::json::pairs_are_members(pairs, 3);
    crate::json::pairs_are_members(pairs, 4);
    crate::json::pairs_are_members(pairs, 5);
    crate::json::pairs_are_members(pairs, 6);
    crate::json::pairs_are_members(pairs, 7);
    crate::condition::conditions_read_back(h.condition);
    crate::policy::policies_read_back(h.match_policy);
    assert(usize_read(m, "n_modes"@) == Ok::<usize, Seq<char>>(h.n_modes));
    assert(usize_read(m, "latent_dim"@) == Ok::<usize, Seq<char>>(h.latent_dim));
    assert(seed_read(m) == Some(h.seed));
}

/// Whether a line reads back as the members of a step, in either order.
pub open spec fn step_reads(line: Seq<char>, e: EntryView) -> bool {
    line_reads(line, entry_pairs(e)) || line_reads(line, stream_pairs(e))
}

/// Steps that were written are read back.
proof fn rows_read_back(ls: Seq<Seq<char>>, steps: Seq<EntryView>)
    requires
        ls.len() == steps.len(),
        forall|j: int| 0 <= j < steps.len() ==> step_reads(#[trigger] ls[j], steps[j]),
    ensures
        rows_read(ls) == Ok::<Seq<(u64, Seq<char>)>, Seq<char>>(rows_of(steps)),
    decreases ls.len(),
{
    if ls.len() == 0 {
        assert(rows_of(steps) =~= Seq::empty());
    } else {
        let n = ls.len() - 1;
        let e = steps[n];
        assert forall|j: int| 0 <= j < n implies step_reads(
            #[trigger] ls.drop_last()[j],
            steps.drop_last()[j],
        ) by {
            assert(step_reads(ls[j], steps[j]));
        }
        rows_read_back(ls.drop_last(), steps.drop_last());
        assert(step_reads(ls[n], e));
        entry_pairs_are_flat(e);
        stream_pairs_are_flat(e);
        crate::json::pairs_are_members(entry_pairs(e), 0);
        crate::json::pairs_are_members(entry_pairs(e), 1);
        crate::json::pairs_are_members(stream_pairs(e), 0);
        crate::json::pairs_are_members(stream_pairs(e), 5);
        assert(rows_of(steps.drop_last()).push((e.t, e.action)) =~= rows_of(steps));
    }
}

/// A trace reads back: the header that was recorded, and clock and action of every
/// step. It does not matter whether its lines were written at once or streamed.
pub proof fn traces_read_back(
    h: HeaderView,
    steps: Seq<EntryView>,
    first: Seq<char>,
    rest: Seq<Seq<char>>,
)
    requires
        h.eps.finite(),
        steps.len() > 0,
        line_reads(first, header_pairs(h)),
        rest.len() == steps.len(),
        forall|j: int| 0 <= j < steps.len() ==> step_reads(#[trigger] rest[j], steps[j]),
    ensures
        trace_read(broken_lines(seq![first] + rest)) == Ok::<
            (HeaderRead, Seq<(u64, Seq<char>)>),
            Seq<char>,
        >((recorded(h), rows_of(steps))),
{
    let ls = seq![first] + rest;
    assert forall|j: int| 0 <= j < ls.len() implies one_line(#[trigger] ls[j]) by {
        if j > 0 {
            assert(step_reads(rest[j - 1], steps[j - 1]));
        }
    }
    lines_come_apart(ls);
    header_reads_back(h, first);
    assert(ls.skip(1) =~= rest);
    rows_read_back(rest, steps);
}

/// Whether a reading agrees with what is to be read: the value, or the complaint.
pub open spec fn agrees<T>(r: Result<T, String>, expected: Result<T, Seq<char>>) -> bool {
    match expected {
        Ok(v) => r == Ok::<T, String>(v),
        Err(why) => r matches Err(e) && e@ == why,
    }
}

/// Reads a whole number of the header.
pub fn header_usize(header: &serde_json::Value, key: &str) -> (r: Result<usize, String>)
    ensures
        agrees(r, usize_read(json_members(*header), key@)),
{
    match member_u64(header, key) {
        None => Err(join2("header missing ", key)),
        Some(n) => if n > usize::MAX as u64 {
            Err(join3("header ", key, " exceeds usize"))
        } else {
            Ok(n as usize)
        },
    }
}

/// Reads the seed of the header.
fn header_seed(header: &serde_json::Value) -> (r: Option<Option<u64>>)
    ensures
        r == seed_read(json_members(*header)),
{
    if member_is_null(header, "seed") {
        Some(None)
    } else {
        match member_u64(header, "seed") {
            Some(n) => Some(Some(n)),
            None => None,
        }
    }
}

/// Reads the condition of the header.
fn header_condition(header: &serde_json::Value) -> (r: Option<Condition>)
    ensures
        r == condition_read(json_members(*header)),
{
    match member_str(header, "condition") {
        Some(s) => condition_from_name(s),
        None => None,
    }
}

/// Reads the match policy of the header.
fn header_policy(header: &serde_json::Value) -> (r: Option<MatchPolicy>)
    ensures
        r == policy_read(json_members(*header)),
{
    match member_str(header, "match_policy") {
        Some(s) => policy_from_lowercase(s),
        None => None,
    }
}

/// Whether reading a header agrees with what its members tell.
pub open spec fn header_agrees(
    r: Result<TraceHeader, String>,
    expected: Result<HeaderRead, Seq<char>>,
) -> bool {
    match expected {
        Ok(h) => r matches Ok(found) && found@ == h,
        Err(why) => r matches Err(e) && e@ == why,
    }
}

/// Reads the header of a trace from its JSON value.
pub fn parse_header(header: &serde_json::Value) -> (r: Result<TraceHeader, String>)
    ensures
        header_agrees(r, members_read(json_members(*header))),
{
    let is_config = match member_str(header, "type") {
        Some(kind) => same(kind, "config"),
        None => false,
    };
    if !is_config {
        return Err("first trace line must be a config header".to_string());
    }
    let n_modes = match header_usize(header, "n_modes") {
        Ok(n) => n,
        Err(why) => {
            return Err(why);
        },
    };
    let latent_dim = match header_usize(header, "latent_dim") {
        Ok(n) => n,
        Err(why) => {
            return Err(why);
        },
    };
    let eps = match member_real(header, "eps") {
        Some(x) => x,
        None => {
            return Err("header missing eps".to_string());
        },
    };
    let schedule = match member_str(header, "schedule") {
        Some(s) => Some(s.to_string()),
        None => None,
    };
    let seed = header_seed(header);
    let condition = header_condition(header);
    let match_policy = header_policy(header);
    Ok(TraceHeader { n_modes, latent_dim, eps, seed, schedule, condition, match_policy })
}

/// One row of a trace that was read: the clock before the step and the symbol of its
/// action.
pub struct TraceRow {
    pub t: u64,
    pub action: String,
}

impl View for TraceRow {
    type V = (u64, Seq<char>);

    open spec fn view(&self) -> (u64, Seq<char>) {
        (self.t, self.action@)
    }
}

/// The views of a list of rows.
pub open spec fn row_views(rows: Seq<TraceRow>) -> Seq<(u64, Seq<char>)> {
    rows.map_values(|row: TraceRow| row@)
}

/// Reads the line of the row at `i`.
fn parse_row(line: &str, i: usize) -> (r: Result<TraceRow, String>)
    ensures
        match row_read(line@, i as nat) {
            Ok(row) => r matches Ok(found) && found@ == row,
            Err(why) => r matches Err(e) && e@ == why,
        },
{
    let row = join2("trace row ", decimal(i as u64).as_str());
    let v = match read(line) {
        Ok(v) => v,
        Err(why) => {
            return Err(join3(row.as_str(), ": ", why.as_str()));
        },
    };
    let t = match member_u64(&v, "t") {
        Some(t) => t,
        None => {
            return Err(join2(row.as_str(), " missing t"));
        },
    };
    match member_str(&v, "action") {
        Some(action) => Ok(TraceRow { t, action: action.to_string() }),
        None => Err(join2(row.as_str(), " missing action")),
    }
}

/// Rows fail as soon as a beginning of them does, and for that reason.
proof fn row_failures_stick(ls: Seq<Seq<char>>, k: int)
    requires
        0 <= k <= ls.len(),
        rows_read(ls.take(k)) is Err,
    ensures
        rows_read(ls) == rows_read(ls.take(k)),
    decreases ls.len(),
{
    if k < ls.len() {
        assert(ls.drop_last().take(k) =~= ls.take(k));
        row_failures_stick(ls.drop_last(), k);
    } else {
        assert(ls.take(k) =~= ls);
    }
}

/// Reads a trace file: the header, and the rows behind it.
pub fn parse_trace(jsonl: &str) -> (r: Result<(TraceHeader, Vec<TraceRow>), String>)
    ensures
        match trace_read(jsonl@) {
            Ok((header, rows)) => r matches Ok((h, found)) && h@ == header && row_views(found@)
                == rows,
            Err(why) => r matches Err(e) && e@ == why,
        },
{
    let ls = lines(jsonl);
    let ghost all = lines_of(jsonl@);
    assert(forall|i: int| 0 <= i < ls@.len() ==> #[trigger] ls@[i]@ == views(ls@)[i]);
    if ls.len() == 0 {
        return Err("trace is empty".to_string());
    }
    assert(ls@[0]@ == all[0]);
    let first = match read(ls[0]) {
        Ok(v) => v,
        Err(why) => {
            return Err(join2("trace header: ", why.as_str()));
        },
    };
    let header = match parse_header(&first) {
        Ok(header) => header,
        Err(why) => {
            return Err(why);
        },
    };
    let ghost behind = all.skip(1);
    let mut rows: Vec<TraceRow> = Vec::new();
    let mut i: usize = 1;
    assert(behind.take(0).len() == 0);
    assert(row_views(rows@) =~= Seq::empty());
    while i < ls.len()
        invariant
            1 <= i <= ls@.len(),
            all == lines_of(jsonl@),
            all == views(ls@),
            behind == all.skip(1),
            json_read(all[0]) is Ok,
            header_agrees(Ok(header), members_read(json_read(all[0])->Ok_0)),
            rows_read(behind.take(i - 1)) == Ok::<Seq<(u64, Seq<char>)>, Seq<char>>(
                row_views(rows@),
            ),
        decreases ls@.len() - i,
    {
        let line = ls[i];
        let ghost so_far = row_views(rows@);
        assert(behind.take(i as int).drop_last() =~= behind.take(i - 1));
        assert(behind.take(i as int).last() == line@);
        let left = trim(line);
        if !left.is_empty() {
            match parse_row(line, i - 1) {
                Ok(row) => {
                    rows.push(row);
                    assert(row_views(rows@) =~= so_far.push(row@));
                },
                Err(why) => {
                    proof {
                        row_failures_stick(behind, i as int);
                    }
                    return Err(why);
                },
            }
        }
        i += 1;
    }
    assert(behind.take(i - 1) =~= behind);
    if rows.len() == 0 {
        return Err("trace has no step rows".to_string());
    }
    Ok((header, rows))
}

} // verus!
