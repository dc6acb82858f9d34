//! Decoding a finished run: replaying it from its trace, and writing what was decoded.

use vstd::prelude::*;

use crate::action::Action;
use crate::backend::{Diffuser, GraphBackend, Invariants, OpticalBackend, Predictor};
use crate::cli::asked;
use crate::config::AriaConfig;
use crate::engine::Engine;
use crate::error::ErrorView;
use crate::graph::GraphView;
use crate::json::{
    flat, json_written, list, list_written, misrenders, numbers, pairs_of, reals_json, text,
    unsigned, write_list, write_object, Json, Numerals,
};
use crate::scalar::{Complex, Real};
use crate::state::{State, StateView};
use crate::text::{
    broken_lines, decimal, join4, join5, lines_come_apart, lines_taken, put_line, trimming_keeps,
};
use crate::trace::{line_reads, recorded, HeaderView, Trace, TraceHeader, TraceRow};

verus! {

/// The configuration to replay a run under: what the trace's header records, and the
/// configuration at hand for all else.
pub open spec fn replayed(config: AriaConfig, header: TraceHeader) -> AriaConfig {
    AriaConfig {
        n_modes: header.n_modes,
        latent_dim: header.latent_dim,
        eps: header.eps,
        seed: asked(header.seed, config.seed),
        schedule: asked(header.schedule, config.schedule),
        condition: asked(header.condition, config.condition),
        match_policy: asked(header.match_policy, config.match_policy),
        ..config
    }
}

/// The configuration to replay a run under.
pub fn replay_config(config: AriaConfig, header: TraceHeader) -> (r: AriaConfig)
    ensures
        r == replayed(config, header),
{
    let mut config = config;
    config.n_modes = header.n_modes;
    config.latent_dim = header.latent_dim;
    config.eps = header.eps;
    if let Some(seed) = header.seed {
        config.seed = seed;
    }
    if let Some(schedule) = header.schedule {
        config.schedule = schedule;
    }
    if let Some(condition) = header.condition {
        config.condition = condition;
    }
    if let Some(match_policy) = header.match_policy {
        config.match_policy = match_policy;
    }
    config
}

/// A replay is faithful: from a header that was recorded, every setting that the header
/// holds is replayed as it was, whatever configuration is at hand.
pub proof fn replays_are_faithful(config: AriaConfig, header: TraceHeader, h: HeaderView)
    requires
        header@ == recorded(h),
    ensures
        ({
            let r = replayed(config, header);
            &&& r.n_modes == h.n_modes
            &&& r.latent_dim == h.latent_dim
            &&& r.eps == h.eps
            &&& r.seed == h.seed
            &&& r.schedule@ == h.schedule
            &&& r.condition == h.condition
            &&& r.match_policy == h.match_policy
        }),
{
}

/// A replay gives the run's latents: an engine over the same operators, under the
/// configuration that the header of the run's trace gives, passes through states that
/// look alike, takes the same latents row for row, and records the same trace. Of the
/// configuration at hand only what the header does not record and a step reads has to be
/// that of the run.
pub proof fn replays_give_the_latents<O, P, G, D, C>(
    engine: Engine<O, P, G, D, C>,
    at_hand: AriaConfig,
    header: TraceHeader,
    psi0: Seq<Complex>,
    g0: GraphView,
    actions: Seq<Action>,
    s1: State,
    ss1: Seq<State>,
    trace1: Trace,
    after1: Engine<O, P, G, D, C>,
    s2: State,
    ss2: Seq<State>,
    trace2: Trace,
    after2: Engine<O, P, G, D, C>,
    latents: Seq<Vec<Real>>,
) where O: OpticalBackend, P: Predictor, G: GraphBackend, D: Diffuser, C: Invariants
    requires
        engine.started(psi0, g0, engine.config.condition) == Ok::<StateView, ErrorView>(s1@),
        Engine::ran(engine, s1, actions, engine.config.condition, ss1, trace1, after1),
        header@ == recorded(trace1.header()),
        at_hand.eps_energy == engine.config.eps_energy,
        at_hand.diff_policy@ == engine.config.diff_policy@,
        at_hand.max_graph_size == engine.config.max_graph_size,
        at_hand.strict == engine.config.strict,
        ({
            let config = replayed(at_hand, header);
            let again = Engine { config, ..engine };
            &&& again.started(psi0, g0, config.condition) == Ok::<StateView, ErrorView>(s2@)
            &&& Engine::ran(again, s2, actions, config.condition, ss2, trace2, after2)
        }),
        Engine::<O, P, G, D, C>::shows_latents(latents, ss2),
    ensures
        replayed(at_hand, header).condition == engine.config.condition,
        latents.len() == actions.len(),
        forall|i: int|
            0 <= i < actions.len() ==> (#[trigger] latents[i])@ == ss1[i + 1].z@,
        trace1.header() == trace2.header(),
        trace1.steps() == trace2.steps(),
{
    let a = engine.config.condition;
    let config = replayed(at_hand, header);
    let again = Engine { config, ..engine };
    replays_are_faithful(at_hand, header, trace1.header());
    Engine::alike_runs_agree(
        engine,
        again,
        s1,
        s2,
        actions,
        a,
        ss1,
        trace1,
        after1,
        ss2,
        trace2,
        after2,
    );
    assert forall|i: int| 0 <= i < actions.len() implies (#[trigger] latents[i])@
        == ss1[i + 1].z@ by {
        assert(ss1[i + 1]@ == ss2[i + 1]@);
        assert(ss1[i + 1]@.z == ss2[i + 1]@.z);
    }
}

/// Whether a replay gave a latent for every row of the trace.
pub fn check_replay(latents: usize, rows: usize) -> (r: Result<(), String>)
    ensures
        r is Ok <==> latents == rows,
        r matches Err(why) ==> why@ == "replay produced "@ + crate::text::numeral(latents as nat)
            + " latents for "@ + crate::text::numeral(rows as nat)
            + " trace rows — config does not match the run"@,
{
    if latents != rows {
        return Err(
            join5(
                "replay produced ",
                decimal(latents as u64).as_str(),
                " latents for ",
                decimal(rows as u64).as_str(),
                " trace rows — config does not match the run",
            ),
        );
    }
    Ok(())
}

/// Whether a readout head takes the latents of a trace.
pub fn check_readout(dim: usize, latent_dim: usize) -> (r: Result<(), String>)
    ensures
        r is Ok <==> dim == latent_dim,
        r matches Err(why) ==> why@ == "readout dim "@ + crate::text::numeral(dim as nat)
            + " does not match trace latent_dim "@ + crate::text::numeral(latent_dim as nat),
{
    if dim != latent_dim {
        return Err(
            join4(
                "readout dim ",
                decimal(dim as u64).as_str(),
                " does not match trace latent_dim ",
                decimal(latent_dim as u64).as_str(),
            ),
        );
    }
    Ok(())
}

/// The members of the line for a step that was decoded to a token.
pub open spec fn token_pairs(t: u64, action: Seq<char>, id: u32, piece: Option<Seq<char>>) -> Seq<
    (Seq<char>, Json),
> {
    match piece {
        Some(p) => seq![
            ("action"@, Json::Text(action)),
            ("id"@, Json::Unsigned(id as u64)),
            ("piece"@, Json::Text(p)),
            ("t"@, Json::Unsigned(t)),
        ],
        None => seq![
            ("action"@, Json::Text(action)),
            ("id"@, Json::Unsigned(id as u64)),
            ("t"@, Json::Unsigned(t)),
        ],
    }
}

/// The line of a token names every member once.
pub proof fn token_pairs_are_flat(t: u64, action: Seq<char>, id: u32, piece: Option<Seq<char>>)
    ensures
        flat(token_pairs(t, action, id, piece)),
{
    reveal_strlit("action");
    reveal_strlit("id");
    reveal_strlit("piece");
    reveal_strlit("t");
    assert("action"@.len() == 6 && "id"@.len() == 2 && "piece"@.len() == 5 && "t"@.len() == 1);
}

/// The line for a step that was decoded to a token, with its piece where a tokenizer is
/// at hand.
pub fn token_line(row: &TraceRow, id: u32, piece: Option<&str>) -> (r: String)
    ensures
        r@ == json_written(
            token_pairs(
                row.t,
                row.action@,
                id,
                match piece {
                    Some(p) => Some(p@),
                    None => None,
                },
            ),
        ),
        line_reads(
            r@,
            token_pairs(
                row.t,
                row.action@,
                id,
                match piece {
                    Some(p) => Some(p@),
                    None => None,
                },
            ),
        ),
{
    let action = text(row.action.as_str());
    let token = unsigned(id as u64);
    let t = unsigned(row.t);
    let spelled = text(
        match piece {
            Some(p) => p,
            None => "",
        },
    );
    let mut pairs: Vec<(&str, &serde_json::Value)> = Vec::new();
    pairs.push(("action", &action));
    pairs.push(("id", &token));
    if piece.is_some() {
        pairs.push(("piece", &spelled));
    }
    pairs.push(("t", &t));
    proof {
        let p = match piece {
            Some(p) => Some(p@),
            None => None,
        };
        token_pairs_are_flat(row.t, row.action@, id, p);
        assert(pairs_of(pairs@) =~= token_pairs(row.t, row.action@, id, p));
    }
    let line = write_object(pairs);
    proof {
        trimming_keeps(line@, 0);
    }
    line
}

/// What was decoded from one step.
pub struct Token {
    pub id: u32,
    pub piece: Option<String>,
}

/// The members of the line for one row.
pub open spec fn row_pairs(row: TraceRow, token: Token) -> Seq<(Seq<char>, Json)> {
    token_pairs(
        row.t,
        row.action@,
        token.id,
        match token.piece {
            Some(p) => Some(p@),
            None => None,
        },
    )
}

/// The lines of a decoded run.
pub open spec fn token_lines(rows: Seq<TraceRow>, tokens: Seq<Token>) -> Seq<Seq<char>> {
    Seq::new(rows.len(), |i: int| json_written(row_pairs(rows[i], tokens[i])))
}

/// Writes a decoded run, one line for each row of its trace. The lines come apart again,
/// and each reads back as the row and the token it was written for.
pub fn emit_tokens(rows: &Vec<TraceRow>, tokens: &Vec<Token>) -> (r: String)
    requires
        rows@.len() == tokens@.len(),
    ensures
        r@ == broken_lines(token_lines(rows@, tokens@)),
        crate::text::lines_of(r@) == token_lines(rows@, tokens@),
        forall|i: int|
            0 <= i < rows@.len() ==> line_reads(
                #[trigger] token_lines(rows@, tokens@)[i],
                row_pairs(rows@[i], tokens@[i]),
            ),
{
    let mut out = String::new();
    let mut i: usize = 0;
    let ghost all = token_lines(rows@, tokens@);
    assert(all.take(0) =~= Seq::empty());
    assert(out@ =~= broken_lines(all.take(0)));
    while i < rows.len()
        invariant
            i <= rows@.len(),
            rows@.len() == tokens@.len(),
            all == token_lines(rows@, tokens@),
            out@ == broken_lines(all.take(i as int)),
            forall|j: int|
                0 <= j < i ==> line_reads(#[trigger] all[j], row_pairs(rows@[j], tokens@[j])),
        decreases rows@.len() - i,
    {
        let piece = match &tokens[i].piece {
            Some(p) => Some(p.as_str()),
            None => None,
        };
        let line = token_line(&rows[i], tokens[i].id, piece);
        assert(line@ == all[i as int]);
        put_line(&mut out, line.as_str());
        proof {
            lines_taken(all, i as int);
        }
        i += 1;
    }
    proof {
        assert(all.take(i as int) =~= all);
        assert forall|j: int| 0 <= j < all.len() implies crate::text::one_line(
            #[trigger] all[j],
        ) by {
            assert(line_reads(all[j], row_pairs(rows@[j], tokens@[j])));
        }
        lines_come_apart(all);
    }
    out
}

// ---------------------------------------------------------------------------
// Continuous heads and latents
// ---------------------------------------------------------------------------

/// The members of the line for a step that was decoded to an action vector.
pub open spec fn vector_pairs(t: u64, action: Seq<char>, vector: Seq<Real>) -> Seq<
    (Seq<char>, Json),
> {
    seq![
        ("a"@, Json::List(reals_json(vector))),
        ("action"@, Json::Text(action)),
        ("t"@, Json::Unsigned(t)),
    ]
}

/// The line of a vector names every member once.
pub proof fn vector_pairs_are_flat(t: u64, action: Seq<char>, vector: Seq<Real>)
    ensures
        flat(vector_pairs(t, action, vector)),
{
    reveal_strlit("a");
    reveal_strlit("action");
    reveal_strlit("t");
    assert("a"@.len() == 1 && "action"@.len() == 6 && "t"@.len() == 1);
    assert("a"@[0] == 'a' && "t"@[0] == 't');
}

/// The line for a step that was decoded to an action vector.
pub fn vector_line<N: Numerals>(row: &TraceRow, vector: &Vec<Real>, numerals: &N) -> (r: Result<
    String,
    Real,
>)
    ensures
        match r {
            Ok(line) => line@ == json_written(vector_pairs(row.t, row.action@, vector@))
                && line_reads(line@, vector_pairs(row.t, row.action@, vector@)),
            Err(x) => vector@.contains(x) && x.finite() && misrenders(*numerals, x),
        },
{
    let values = match numbers(numerals, vector) {
        Ok(values) => values,
        Err(x) => {
            return Err(x);
        },
    };
    let a = list(values);
    let action = text(row.action.as_str());
    let t = unsigned(row.t);
    let mut pairs: Vec<(&str, &serde_json::Value)> = Vec::new();
    pairs.push(("a", &a));
    pairs.push(("action", &action));
    pairs.push(("t", &t));
    proof {
        vector_pairs_are_flat(row.t, row.action@, vector@);
        assert(pairs_of(pairs@) =~= vector_pairs(row.t, row.action@, vector@));
    }
    let line = write_object(pairs);
    proof {
        trimming_keeps(line@, 0);
    }
    Ok(line)
}

/// The lines of a run that was decoded to action vectors.
pub open spec fn vector_lines(rows: Seq<TraceRow>, vectors: Seq<Vec<Real>>) -> Seq<Seq<char>> {
    Seq::new(
        rows.len(),
        |i: int| json_written(vector_pairs(rows[i].t, rows[i].action@, vectors[i]@)),
    )
}

/// Whether a number stands in one of the lists.
pub open spec fn among(x: Real, lists: Seq<Vec<Real>>) -> bool {
    exists|i: int| 0 <= i < lists.len() && (#[trigger] lists[i])@.contains(x)
}

/// Writes a run that was decoded to action vectors, one line for each row of its trace.
/// The lines come apart again, and each reads back as the row and the vector it was
/// written for.
pub fn emit_vectors<N: Numerals>(
    rows: &Vec<TraceRow>,
    vectors: &Vec<Vec<Real>>,
    numerals: &N,
) -> (r: Result<String, Real>)
    requires
        rows@.len() == vectors@.len(),
    ensures
        match r {
            Ok(out) => {
                &&& out@ == broken_lines(vector_lines(rows@, vectors@))
                &&& crate::text::lines_of(out@) == vector_lines(rows@, vectors@)
                &&& forall|i: int|
                    0 <= i < rows@.len() ==> line_reads(
                        #[trigger] vector_lines(rows@, vectors@)[i],
                        vector_pairs(rows@[i].t, rows@[i].action@, vectors@[i]@),
                    )
            },
            Err(x) => among(x, vectors@) && x.finite() && misrenders(*numerals, x),
        },
{
    let mut out = String::new();
    let mut i: usize = 0;
    let ghost all = vector_lines(rows@, vectors@);
    assert(all.take(0) =~= Seq::empty());
    assert(out@ =~= broken_lines(all.take(0)));
    while i < rows.len()
        invariant
            i <= rows@.len(),
            rows@.len() == vectors@.len(),
            all == vector_lines(rows@, vectors@),
            out@ == broken_lines(all.take(i as int)),
            forall|j: int|
                0 <= j < i ==> line_reads(
                    #[trigger] all[j],
                    vector_pairs(rows@[j].t, rows@[j].action@, vectors@[j]@),
                ),
        decreases rows@.len() - i,
    {
        let line = match vector_line(&rows[i], &vectors[i], numerals) {
            Ok(line) => line,
            Err(x) => {
                assert(vectors@[i as int]@.contains(x));
                return Err(x);
            },
        };
        assert(line@ == all[i as int]);
        put_line(&mut out, line.as_str());
        proof {
            lines_taken(all, i as int);
        }
        i += 1;
    }
    proof {
        assert(all.take(i as int) =~= all);
        assert forall|j: int| 0 <= j < all.len() implies crate::text::one_line(
            #[trigger] all[j],
        ) by {
            assert(line_reads(
                all[j],
                vector_pairs(rows@[j].t, rows@[j].action@, vectors@[j]@),
            ));
        }
        lines_come_apart(all);
    }
    Ok(out)
}

/// The lines of a list of latents.
pub open spec fn latent_lines(latents: Seq<Vec<Real>>) -> Seq<Seq<char>> {
    Seq::new(latents.len(), |i: int| list_written(reals_json(latents[i]@)))
}

/// Writes the latents of a run, one array per line. The lines come apart again.
pub fn dump_latents<N: Numerals>(latents: &Vec<Vec<Real>>, numerals: &N) -> (r: Result<
    String,
    Real,
>)
    ensures
        match r {
            Ok(out) => {
                &&& out@ == broken_lines(latent_lines(latents@))
                &&& crate::text::lines_of(out@) == latent_lines(latents@)
            },
            Err(x) => among(x, latents@) && x.finite() && misrenders(*numerals, x),
        },
{
    let mut out = String::new();
    let mut i: usize = 0;
    let ghost all = latent_lines(latents@);
    assert(all.take(0) =~= Seq::empty());
    assert(out@ =~= broken_lines(all.take(0)));
    while i < latents.len()
        invariant
            i <= latents@.len(),
            all == latent_lines(latents@),
            out@ == broken_lines(all.take(i as int)),
            forall|j: int| 0 <= j < i ==> crate::text::one_line(#[trigger] all[j]),
        decreases latents@.len() - i,
    {
        let values = match numbers(numerals, &latents[i]) {
            Ok(values) => values,
            Err(x) => {
                assert(latents@[i as int]@.contains(x));
                return Err(x);
            },
        };
        let line = write_list(values);
        assert(line@ == all[i as int]);
        put_line(&mut out, line.as_str());
        proof {
            lines_taken(all, i as int);
        }
        i += 1;
    }
    proof {
        assert(all.take(i as int) =~= all);
        lines_come_apart(all);
    }
    Ok(out)
}

} // verus!
