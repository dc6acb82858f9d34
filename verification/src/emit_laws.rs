//! What replaying and decoding a run are for.

use vstd::prelude::*;

use crate::config::AriaConfig;
use crate::emit::{
    check_readout, check_replay, dump_latents, emit_tokens, emit_vectors, replay_config,
    row_pairs, token_line, token_lines, token_pairs, token_pairs_are_flat, vector_line,
    vector_lines, vector_pairs, vector_pairs_are_flat, Token,
};
use crate::json::{
    json_read, members_are_pairs, members_of, pairs_are_members, reals_json, text_at, unsigned_at,
    Json, Numerals,
};
use crate::scalar::Real;
use crate::text::{lines_of, numeral};
use crate::trace::{line_reads, TraceHeader, TraceRow};

verus! {

/// A replay takes each setting that the header gives from the header, and all others from
/// the configuration at hand. Modes, latent dimension and residual tolerance are always the
/// header's.
pub proof fn replays_take_the_header_first(
    config: AriaConfig,
    header: TraceHeader,
    r: AriaConfig,
)
    requires
        call_ensures(replay_config, (config, header), r),
    ensures
        r.n_modes == header.n_modes,
        r.latent_dim == header.latent_dim,
        r.eps == header.eps,
        r.seed == (match header.seed {
            Some(v) => v,
            None => config.seed,
        }),
        r.schedule == (match header.schedule {
            Some(v) => v,
            None => config.schedule,
        }),
        r.condition == (match header.condition {
            Some(v) => v,
            None => config.condition,
        }),
        r.match_policy == (match header.match_policy {
            Some(v) => v,
            None => config.match_policy,
        }),
        r == (AriaConfig {
            n_modes: r.n_modes,
            latent_dim: r.latent_dim,
            eps: r.eps,
            seed: r.seed,
            schedule: r.schedule,
            condition: r.condition,
            match_policy: r.match_policy,
            ..config
        }),
{
}

/// A replay is accepted where it gave as many latents as the trace has rows, and a readout
/// head where it takes latents of the trace's dimension.
pub proof fn replays_must_fit(
    latents: usize,
    rows: usize,
    dim: usize,
    latent_dim: usize,
    replay: Result<(), String>,
    readout: Result<(), String>,
)
    requires
        call_ensures(check_replay, (latents, rows), replay),
        call_ensures(check_readout, (dim, latent_dim), readout),
    ensures
        replay is Ok <==> latents == rows,
        replay matches Err(why) ==> why@ == "replay produced "@ + numeral(latents as nat)
            + " latents for "@ + numeral(rows as nat)
            + " trace rows — config does not match the run"@,
        readout is Ok <==> dim == latent_dim,
        readout matches Err(why) ==> why@ == "readout dim "@ + numeral(dim as nat)
            + " does not match trace latent_dim "@ + numeral(latent_dim as nat),
{
}

/// The object of a decoded step holds, each under its own name, the clock and the action of
/// its row, the token, and the piece where there is one, and only there.
pub open spec fn tells_token(
    m: Map<Seq<char>, Json>,
    t: u64,
    action: Seq<char>,
    id: u32,
    piece: Option<Seq<char>>,
) -> bool {
    &&& unsigned_at(m, "t"@) == Some(t)
    &&& text_at(m, "action"@) == Some(action)
    &&& unsigned_at(m, "id"@) == Some(id as u64)
    &&& text_at(m, "piece"@) == piece
    &&& piece is None ==> !m.contains_key("piece"@)
}

proof fn token_members(t: u64, action: Seq<char>, id: u32, piece: Option<Seq<char>>)
    ensures
        tells_token(members_of(token_pairs(t, action, id, piece)), t, action, id, piece),
{
    let pairs = token_pairs(t, action, id, piece);
    token_pairs_are_flat(t, action, id, piece);
    pairs_are_members(pairs, 0);
    pairs_are_members(pairs, 1);
    pairs_are_members(pairs, 2);
    if piece is Some {
        pairs_are_members(pairs, 3);
    } else {
        members_are_pairs(pairs, "piece"@);
        reveal_strlit("piece");
        reveal_strlit("action");
        reveal_strlit("id");
        reveal_strlit("t");
        assert("action"@.len() == 6 && "id"@.len() == 2 && "piece"@.len() == 5 && "t"@.len() == 1);
        assert(pairs[0].0 != "piece"@ && pairs[1].0 != "piece"@ && pairs[2].0 != "piece"@);
    }
}

/// The line of a decoded step reads as an object that tells its row and its token.
pub proof fn token_lines_tell_their_row(
    row: TraceRow,
    id: u32,
    piece: Option<&str>,
    line: String,
)
    requires
        call_ensures(token_line, (&row, id, piece), line),
    ensures
        json_read(line@) matches Ok(m) && tells_token(
            m,
            row.t,
            row.action@,
            id,
            match piece {
                Some(p) => Some(p@),
                None => None,
            },
        ),
{
    token_members(
        row.t,
        row.action@,
        id,
        match piece {
            Some(p) => Some(p@),
            None => None,
        },
    );
}

/// A decoded run has one line for every row of its trace, in their order, and each reads as
/// an object that tells its row and the token decoded from it.
pub proof fn decoded_runs_tell_every_row(
    rows: Vec<TraceRow>,
    tokens: Vec<Token>,
    text: String,
    i: int,
)
    requires
        rows@.len() == tokens@.len(),
        call_ensures(emit_tokens, (&rows, &tokens), text),
        0 <= i < rows@.len(),
    ensures
        lines_of(text@).len() == rows@.len(),
        json_read(lines_of(text@)[i]) matches Ok(m) && tells_token(
            m,
            rows@[i].t,
            rows@[i].action@,
            tokens@[i].id,
            match tokens@[i].piece {
                Some(p) => Some(p@),
                None => None,
            },
        ),
{
    assert(line_reads(token_lines(rows@, tokens@)[i], row_pairs(rows@[i], tokens@[i])));
    token_members(
        rows@[i].t,
        rows@[i].action@,
        tokens@[i].id,
        match tokens@[i].piece {
            Some(p) => Some(p@),
            None => None,
        },
    );
}

proof fn vector_members(t: u64, action: Seq<char>, vector: Seq<Real>)
    ensures
        ({
            let m = members_of(vector_pairs(t, action, vector));
            &&& unsigned_at(m, "t"@) == Some(t)
            &&& text_at(m, "action"@) == Some(action)
            &&& m.contains_key("a"@)
            &&& m["a"@] == Json::List(reals_json(vector))
        }),
{
    let pairs = vector_pairs(t, action, vector);
    vector_pairs_are_flat(t, action, vector);
    pairs_are_members(pairs, 0);
    pairs_are_members(pairs, 1);
    pairs_are_members(pairs, 2);
}

/// The line of a step that was decoded to a vector reads as an object with the clock and the
/// action of its row and the numbers of the vector.
pub proof fn vector_lines_tell_their_row<N: Numerals>(
    row: TraceRow,
    vector: Vec<Real>,
    numerals: N,
    line: String,
)
    requires
        call_ensures(vector_line::<N>, (&row, &vector, &numerals), Ok::<String, Real>(line)),
    ensures
        json_read(line@) matches Ok(m) && {
            &&& unsigned_at(m, "t"@) == Some(row.t)
            &&& text_at(m, "action"@) == Some(row.action@)
            &&& m.contains_key("a"@)
            &&& m["a"@] is List
            &&& m["a"@]->List_0.len() == vector@.len()
            &&& forall|i: int|
                0 <= i < vector@.len() && vector@[i].finite() ==> #[trigger] m["a"@]->List_0[i]
                    == Json::Float(vector@[i])
        },
{
    vector_members(row.t, row.action@, vector@);
}

/// A run that was decoded to vectors has one line for every row of its trace, in their
/// order.
pub proof fn vector_runs_tell_every_row<N: Numerals>(
    rows: Vec<TraceRow>,
    vectors: Vec<Vec<Real>>,
    numerals: N,
    text: String,
    i: int,
)
    requires
        rows@.len() == vectors@.len(),
        call_ensures(
            emit_vectors::<N>,
            (&rows, &vectors, &numerals),
            Ok::<String, Real>(text),
        ),
        0 <= i < rows@.len(),
    ensures
        lines_of(text@).len() == rows@.len(),
        json_read(lines_of(text@)[i]) matches Ok(m) && {
            &&& unsigned_at(m, "t"@) == Some(rows@[i].t)
            &&& text_at(m, "action"@) == Some(rows@[i].action@)
            &&& m.contains_key("a"@)
            &&& m["a"@] is List
            &&& m["a"@]->List_0.len() == vectors@[i]@.len()
            &&& forall|j: int|
                0 <= j < vectors@[i]@.len() && vectors@[i]@[j].finite()
                    ==> #[trigger] m["a"@]->List_0[j] == Json::Float(vectors@[i]@[j])
        },
{
    assert(line_reads(
        vector_lines(rows@, vectors@)[i],
        vector_pairs(rows@[i].t, rows@[i].action@, vectors@[i]@),
    ));
    vector_members(rows@[i].t, rows@[i].action@, vectors@[i]@);
}

/// The latents of a run are written one array per line, in their order.
pub proof fn latents_are_written_in_order<N: Numerals>(
    latents: Vec<Vec<Real>>,
    numerals: N,
    text: String,
    i: int,
)
    requires
        call_ensures(dump_latents::<N>, (&latents, &numerals), Ok::<String, Real>(text)),
        0 <= i < latents@.len(),
    ensures
        lines_of(text@).len() == latents@.len(),
        lines_of(text@)[i] == crate::json::list_written(reals_json(latents@[i]@)),
{
}

} // verus!
