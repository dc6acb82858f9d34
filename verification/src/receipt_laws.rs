//! What the receipt of a verified run stands for.

use vstd::prelude::*;

use crate::backend::{
    drawn, Diffuser, GraphBackend, Invariants, Monitor, OpticalBackend, Predictor, Schedule,
};
use crate::condition::Condition;
use crate::engine::Engine;
use crate::error::AriaError;
use crate::growth::GrowthFit;
use crate::receipt::{
    beta_note, config_hash, fnv1a, git_rev, hex_char, hex_digits, Evidence, VerifyFailure,
    VerifyReceipt,
};
use crate::run_laws::drift_is_measured_from_the_start;
use crate::scalar::Real;
use crate::state::State;
use crate::text::trimmed;
use crate::verify::{verify, VerifyOpts, VerifyRun};

verus! {

/// A receipt repeats what the run found and what its surroundings supplied, each under its
/// own name: the exponent and the quality of the fit are those of the fit, and no numbers
/// where there is none; the predictor is a trained one exactly where there is a spectral
/// audit.
pub proof fn receipts_repeat_the_run(run: VerifyRun, e: Evidence, r: VerifyReceipt)
    requires
        call_ensures(VerifyReceipt::new, (run, e), r),
    ensures
        r.format@ == "aria-verify-receipt-v1"@,
        r.steps == run.steps,
        r.inv1_max_drift == run.inv1_max_drift,
        r.inv2_violations == run.inv2_violations,
        r.inv3_violations == run.inv3_violations,
        r.inv4_violations == run.inv4_violations,
        r.graph.final_nodes == run.final_nodes,
        r.graph.final_edges == run.final_edges,
        r.trace_audit == run.trace_audit,
        r.gates == run.gates,
        r.invariants_ok == run.invariants_ok,
        e.fit matches Some(f) ==> r.graph.measured_beta == f.beta && r.graph.beta_r2
            == f.r_squared,
        e.fit is None ==> r.graph.measured_beta.nan() && r.graph.beta_r2.nan() && r.beta_note
            is Some,
        r.config@ == e.config@,
        r.schedule@ == e.schedule@,
        r.condition@ == (match e.condition {
            Condition::Token => "token"@,
            Condition::Diffusion => "diffusion"@,
            Condition::WorldModel => "worldmodel"@,
        }),
        r.sigma_max_audit == e.sigma_max_audit,
        r.wall_clock_s == e.wall_clock_s,
        r.steps_per_s == e.steps_per_s,
        e.sigma_max_audit is Some ==> r.predictor@ == "trained"@,
        e.sigma_max_audit is None ==> r.predictor@ == "sim"@,
        e.git_output is None ==> r.git_rev@ == "unknown"@,
{
    assert(0x7ff8_0000_0000_0000int % 0x8000_0000_0000_0000int == 0x7ff8_0000_0000_0000int);
}

/// A receipt is accepted where, and only where, the invariants of the run are in order, its
/// largest drift is not above 1e-7, and its measured exponent, where that is a number of
/// finite size, is not above one. The first of these that fails is what is answered, with
/// the number that failed.
pub proof fn acceptance_has_three_conditions(
    receipt: VerifyReceipt,
    r: Result<(), VerifyFailure>,
)
    requires
        call_ensures(VerifyReceipt::verdict, (&receipt,), r),
    ensures
        ({
            let drifted = receipt.inv1_max_drift.above(Real { bits: 0x3e7a_d7f2_9abc_af48 });
            let grown = receipt.graph.measured_beta.finite() && receipt.graph.measured_beta.above(
                Real { bits: 0x3ff0_0000_0000_0000 },
            );
            &&& r is Ok <==> receipt.invariants_ok && !drifted && !grown
            &&& r == Err::<(), VerifyFailure>(VerifyFailure::InvariantsNotGreen)
                <==> !receipt.invariants_ok
            &&& receipt.invariants_ok && drifted ==> r == Err::<(), VerifyFailure>(
                VerifyFailure::Drift(receipt.inv1_max_drift),
            )
            &&& receipt.invariants_ok && !drifted && grown ==> r == Err::<(), VerifyFailure>(
                VerifyFailure::Growth(receipt.graph.measured_beta),
            )
        }),
{
}

/// What an accepted receipt says of the run: no state that the run passed through had
/// drifted, in numbers, by more than 1e-7 from the energy of the field it started from.
pub proof fn accepted_runs_did_not_drift<O, P, G, D, C, M, S>(
    e: &mut Engine<O, P, G, D, C>,
    opts: VerifyOpts<S>,
    run: VerifyRun,
    evidence: Evidence,
    receipt: VerifyReceipt,
) where
    O: OpticalBackend,
    P: Predictor,
    G: GraphBackend,
    D: Diffuser,
    C: Invariants,
    M: Monitor,
    S: Schedule,

    requires
        call_ensures(verify::<O, P, G, D, C, M, S>, (e, opts), Ok::<VerifyRun, AriaError>(run)),
        call_ensures(VerifyReceipt::new, (run, evidence), receipt),
        call_ensures(VerifyReceipt::verdict, (&receipt,), Ok::<(), VerifyFailure>(())),
    ensures
        run.invariants_ok,
        exists|ss: Seq<State>|
            {
                &&& #[trigger] Engine::completes(
                    *old(e),
                    ss[0],
                    drawn(opts.schedule, run.steps as nat),
                    old(e).config.condition,
                    ss,
                    *final(e),
                )
                &&& ss.last() == run.state
                &&& forall|i: int|
                    0 < i <= run.steps ==> !old(e).invariants.drifted(
                        old(e).optical.state_energy((#[trigger] ss[i]).psi@),
                        old(e).optical.field_energy(opts.psi0@),
                    ).above(Real { bits: 0x3e7a_d7f2_9abc_af48 })
            },
{
    drift_is_measured_from_the_start::<O, P, G, D, C, M, S>(e, opts, run);
    let limit = Real { bits: 0x3e7a_d7f2_9abc_af48 };
    let ss = choose|ss: Seq<State>|
        {
            &&& #[trigger] Engine::completes(
                *old(e),
                ss[0],
                drawn(opts.schedule, run.steps as nat),
                old(e).config.condition,
                ss,
                *final(e),
            )
            &&& ss.len() == run.steps + 1
            &&& ss.last() == run.state
            &&& forall|i: int|
                0 < i <= run.steps ==> {
                    let drift = old(e).invariants.drifted(
                        old(e).optical.state_energy((#[trigger] ss[i]).psi@),
                        old(e).optical.field_energy(opts.psi0@),
                    );
                    drift.nan() || drift.at_most(run.inv1_max_drift)
                }
            &&& run.inv1_max_drift == (Real { bits: 0 }) || exists|i: int|
                0 < i <= run.steps && run.inv1_max_drift == old(e).invariants.drifted(
                    old(e).optical.state_energy((#[trigger] ss[i]).psi@),
                    old(e).optical.field_energy(opts.psi0@),
                )
        };
    assert forall|i: int| 0 < i <= run.steps implies !old(e).invariants.drifted(
        old(e).optical.state_energy((#[trigger] ss[i]).psi@),
        old(e).optical.field_energy(opts.psi0@),
    ).above(limit) by {
        let drift = old(e).invariants.drifted(
            old(e).optical.state_energy(ss[i].psi@),
            old(e).optical.field_energy(opts.psi0@),
        );
        assert(drift.nan() || drift.at_most(run.inv1_max_drift));
    }
}

/// A revision is what the repository answered, without the white space around it, and
/// `unknown` exactly where it answered nothing else.
pub proof fn revisions_are_trimmed(output: Option<String>, r: String)
    requires
        call_ensures(git_rev, (&output,), r),
    ensures
        r@.len() > 0,
        output is None ==> r@ == "unknown"@,
        output matches Some(s) ==> {
            &&& trimmed(s@).len() == 0 ==> r@ == "unknown"@
            &&& trimmed(s@).len() > 0 ==> r@ == trimmed(s@)
        },
{
    reveal_strlit("unknown");
}

/// A hash reads on where it left off: the hash of a text with one byte more is the hash of
/// the text, crossed with the byte and multiplied by the prime of FNV-1a, in 64 bits.
pub proof fn hashes_read_on(bytes: Seq<u8>, b: u8)
    ensures
        fnv1a(Seq::empty()) == 14_695_981_039_346_656_037,
        fnv1a(bytes.push(b)) as int == ((fnv1a(bytes) ^ (b as u64)) as int * 1_099_511_628_211)
            % 0x1_0000_0000_0000_0000,
{
    assert(bytes.push(b).drop_last() =~= bytes);
    assert(0xcbf2_9ce4_8422_2325u64 == 14_695_981_039_346_656_037u64);
}

/// The hash of a configuration is written in sixteen hexadecimal digits, the most
/// significant first.
pub proof fn hashes_are_sixteen_digits(config: &str, r: String, i: int)
    requires
        call_ensures(config_hash, (config,), r),
        0 <= i < 16,
    ensures
        r@.len() == 16,
        r@[i] == hex_char(
            ((fnv1a(vstd::utf8::encode_utf8(config@)) as nat) / nibbles((15 - i) as nat)) % 16,
        ),
{
    digits_are_nibbles(fnv1a(vstd::utf8::encode_utf8(config@)) as nat, 16, i);
}

/// Sixteen to a power.
pub open spec fn nibbles(k: nat) -> nat
    decreases k,
{
    if k == 0 {
        1
    } else {
        16 * nibbles((k - 1) as nat)
    }
}

proof fn nibbles_are_positive(k: nat)
    ensures
        nibbles(k) > 0,
    decreases k,
{
    if k > 0 {
        nibbles_are_positive((k - 1) as nat);
    }
}

proof fn digits_are_nibbles(n: nat, width: nat, i: int)
    requires
        0 <= i < width,
    ensures
        hex_digits(n, width).len() == width,
        hex_digits(n, width)[i] == hex_char((n / nibbles((width - 1 - i) as nat)) % 16),
    decreases width,
{
    let fewer = (width - 1) as nat;
    digits_have_their_width(n / 16, fewer);
    if i < fewer {
        digits_are_nibbles(n / 16, fewer, i);
        let k = (fewer - 1 - i) as nat;
        nibbles_are_positive(k);
        vstd::arithmetic::div_mod::lemma_div_denominator(n as int, 16, nibbles(k) as int);
        assert(nibbles(k + 1) == 16 * nibbles(k));
        assert((n / 16) / nibbles(k) == n / nibbles(k + 1));
        assert(width - 1 - i == k + 1);
        assert(hex_digits(n, width)[i] == hex_digits(n / 16, fewer)[i]);
    } else {
        assert(width - 1 - i == 0);
        assert(nibbles(0) == 1);
        vstd::arithmetic::div_mod::lemma_div_basics(n as int);
    }
}

proof fn digits_have_their_width(n: nat, width: nat)
    ensures
        hex_digits(n, width).len() == width,
    decreases width,
{
    if width > 0 {
        digits_have_their_width(n / 16, (width - 1) as nat);
    }
}

/// There is a note where there is no fit, or where the exponent is nearer to zero than 1e-9,
/// and only there.
pub proof fn notes_go_with_saturation(
    fit: Option<GrowthFit>,
    predictor: &str,
    nodes: usize,
    r: Option<String>,
)
    requires
        call_ensures(beta_note, (&fit, predictor, nodes), r),
    ensures
        fit is None ==> (r matches Some(note) && note@ == "not enough checkpoints to fit β"@),
        fit matches Some(f) ==> (r is Some <==> f.beta.inside(
            Real { bits: 0x3e11_2e0b_e826_d695 },
        )),
        fit is Some && r is Some ==> r->Some_0@ == "β ≈ 0: |V| saturated under "@ + predictor@
            + " + merge (final |V| = "@ + crate::text::numeral(nodes as nat)
            + "). Inside 𝕃3 (β ≤ 1). Not evidence of a non-collapsing online latent (Q-2026-08-13-7)."@,
{
}

/// The note on a receipt is the one that goes with its fit, its predictor and its nodes.
pub proof fn receipts_carry_the_note(
    run: VerifyRun,
    e: Evidence,
    r: VerifyReceipt,
    predictor: &str,
    note: Option<String>,
)
    requires
        call_ensures(VerifyReceipt::new, (run, e), r),
        predictor@ == r.predictor@,
        call_ensures(beta_note, (&e.fit, predictor, run.final_nodes), note),
    ensures
        r.beta_note is Some <==> note is Some,
        note is Some ==> r.beta_note->Some_0@ == note->Some_0@,
{
}

/// The hash on a receipt is that of the configuration on it, and its revision the one that
/// the repository answered.
pub proof fn receipts_carry_hash_and_revision(
    run: VerifyRun,
    e: Evidence,
    r: VerifyReceipt,
    config: &str,
    hash: String,
    revision: String,
)
    requires
        call_ensures(VerifyReceipt::new, (run, e), r),
        config@ == r.config@,
        call_ensures(config_hash, (config,), hash),
        call_ensures(git_rev, (&e.git_output,), revision),
    ensures
        r.config_hash@ == hash@,
        r.git_rev@ == revision@,
{
}

} // verus!
