//! The receipt of a verified run.

use vstd::prelude::*;
use vstd::string::*;

use crate::audit::TraceAudit;
use crate::condition::{condition_label, Condition};
use crate::gates::GateReport;
use crate::growth::{GrowthFit, GROWTH_LIMIT_BITS};
use crate::scalar::Real;
use crate::text::{decimal, join5, trim, trimmed};
use crate::verify::VerifyRun;

verus! {

/// The tag of the receipt's format.
pub const RECEIPT_FORMAT: &'static str = "aria-verify-receipt-v1";

/// The drift of Inv1 above which a verified run is not accepted: the number 1e-7.
pub const DRIFT_LIMIT_BITS: u64 = 0x3e7a_d7f2_9abc_af48;

/// The growth exponent below which growth counts as saturated: the number 1e-9.
pub const SATURATION_BITS: u64 = 0x3e11_2e0b_e826_d695;

/// The bits of the quiet NaN that stands for a fit that could not be made.
pub const NAN_BITS: u64 = 0x7ff8_0000_0000_0000;

/// The largest singular values of a trained predictor's weight matrices.
#[derive(Clone, Copy, PartialEq, Eq, Debug, Structural)]
pub struct SpectralReport {
    pub token: Real,
    pub diffusion: Real,
    pub world_model: Real,
    pub embed: Real,
}

/// How the graph of a verified run ended and grew.
#[derive(Clone, Copy, PartialEq, Eq, Debug, Structural)]
pub struct VerifyGraph {
    pub final_nodes: usize,
    pub final_edges: usize,
    pub measured_beta: Real,
    pub beta_r2: Real,
}

/// What the surroundings of a verified run supply to its receipt.
pub struct Evidence {
    /// What asking the repository for its revision printed, where that worked.
    pub git_output: Option<String>,
    /// The configuration as JSON.
    pub config: String,
    pub schedule: String,
    pub condition: Condition,
    /// The spectral audit of a trained predictor; a simulated one has none.
    pub sigma_max_audit: Option<SpectralReport>,
    pub fit: Option<GrowthFit>,
    pub wall_clock_s: Real,
    pub steps_per_s: Real,
}

/// The receipt of a verified run.
#[derive(Clone, Debug)]
pub struct VerifyReceipt {
    pub format: String,
    pub git_rev: String,
    pub config_hash: String,
    pub config: String,
    pub steps: u64,
    pub schedule: String,
    pub condition: String,
    pub inv1_max_drift: Real,
    pub inv2_violations: u64,
    pub inv3_violations: u64,
    pub inv4_violations: u64,
    pub sigma_max_audit: Option<SpectralReport>,
    pub graph: VerifyGraph,
    pub trace_audit: TraceAudit,
    pub wall_clock_s: Real,
    pub steps_per_s: Real,
    pub gates: GateReport,
    pub invariants_ok: bool,
    pub predictor: String,
    pub beta_note: Option<String>,
}

// ---------------------------------------------------------------------------
// Revision and hash
// ---------------------------------------------------------------------------

/// The revision that a repository's answer names.
pub open spec fn revision_of(output: Option<Seq<char>>) -> Seq<char> {
    match output {
        Some(s) => if trimmed(s).len() > 0 {
            trimmed(s)
        } else {
            "unknown"@
        },
        None => "unknown"@,
    }
}

/// The revision that a repository's answer names, without the white space around it;
/// `unknown` where there is none.
pub fn git_rev(output: &Option<String>) -> (r: String)
    ensures
        r@ == revision_of(
            match *output {
                Some(s) => Some(s@),
                None => None,
            },
        ),
{
    match output {
        Some(s) => {
            let left = trim(s.as_str());
            if left.is_empty() {
                "unknown".to_string()
            } else {
                left.to_string()
            }
        },
        None => "unknown".to_string(),
    }
}

/// The 64-bit FNV-1a hash of a byte string.
pub open spec fn fnv1a(bytes: Seq<u8>) -> u64
    decreases bytes.len(),
{
    if bytes.len() == 0 {
        0xcbf2_9ce4_8422_2325
    } else {
        vstd::wrapping::u64_specs::wrapping_mul(
            fnv1a(bytes.drop_last()) ^ (bytes.last() as u64),
            0x0100_0000_01b3,
        )
    }
}

/// The character of a hexadecimal digit.
pub open spec fn hex_char(d: nat) -> char {
    if d < 10 {
        crate::text::digit_char(d)
    } else if d == 10 {
        'a'
    } else if d == 11 {
        'b'
    } else if d == 12 {
        'c'
    } else if d == 13 {
        'd'
    } else if d == 14 {
        'e'
    } else {
        'f'
    }
}

/// The last `width` hexadecimal digits of `n`, with leading zeros.
pub open spec fn hex_digits(n: nat, width: nat) -> Seq<char>
    decreases width,
{
    if width == 0 {
        Seq::empty()
    } else {
        hex_digits(n / 16, (width - 1) as nat).push(hex_char(n % 16))
    }
}

/// A hexadecimal digit as text.
fn hex_digit(d: u64) -> (r: &'static str)
    requires
        d < 16,
    ensures
        r@ == seq![hex_char(d as nat)],
{
    proof {
        reveal_strlit("0");
        reveal_strlit("1");
        reveal_strlit("2");
        reveal_strlit("3");
        reveal_strlit("4");
        reveal_strlit("5");
        reveal_strlit("6");
        reveal_strlit("7");
        reveal_strlit("8");
        reveal_strlit("9");
        reveal_strlit("a");
        reveal_strlit("b");
        reveal_strlit("c");
        reveal_strlit("d");
        reveal_strlit("e");
        reveal_strlit("f");
    }
    let r = match d {
        0 => "0",
        1 => "1",
        2 => "2",
        3 => "3",
        4 => "4",
        5 => "5",
        6 => "6",
        7 => "7",
        8 => "8",
        9 => "9",
        10 => "a",
        11 => "b",
        12 => "c",
        13 => "d",
        14 => "e",
        _ => "f",
    };
    assert(r@ =~= seq![hex_char(d as nat)]);
    r
}

/// The last `width` hexadecimal digits of a number.
fn hex(n: u64, width: u64) -> (r: String)
    ensures
        r@ == hex_digits(n as nat, width as nat),
    decreases width,
{
    if width == 0 {
        String::new()
    } else {
        let mut text = hex(n / 16, width - 1);
        text.append(hex_digit(n % 16));
        assert(text@ =~= hex_digits(n as nat, width as nat));
        text
    }
}

/// The hash of a configuration's JSON text: FNV-1a in sixteen hexadecimal digits. It
/// is the same in every process; it makes no cryptographic claim.
pub fn config_hash(config: &str) -> (r: String)
    ensures
        r@ == hex_digits(fnv1a(vstd::utf8::encode_utf8(config@)) as nat, 16),
{
    let bytes = config.as_bytes();
    let mut hash: u64 = 0xcbf2_9ce4_8422_2325;
    let mut i: usize = 0;
    assert(bytes@.take(0).len() == 0);
    while i < bytes.len()
        invariant
            i <= bytes@.len(),
            hash == fnv1a(bytes@.take(i as int)),
        decreases bytes@.len() - i,
    {
        assert(bytes@.take(i + 1).drop_last() =~= bytes@.take(i as int));
        hash = (hash ^ (bytes[i] as u64)).wrapping_mul(0x0100_0000_01b3);
        i += 1;
    }
    assert(bytes@.take(i as int) =~= bytes@);
    hex(hash, 16)
}

// ---------------------------------------------------------------------------
// The receipt
// ---------------------------------------------------------------------------

/// The name of a predictor's kind: a spectral audit comes with a trained one.
pub open spec fn predictor_kind(audit: Option<SpectralReport>) -> Seq<char> {
    if audit is Some {
        "trained"@
    } else {
        "sim"@
    }
}

/// The note that goes with a fit.
pub open spec fn note_on(fit: Option<GrowthFit>, predictor: Seq<char>, nodes: nat) -> Option<
    Seq<char>,
> {
    match fit {
        None => Some("not enough checkpoints to fit β"@),
        Some(f) => if f.beta.inside(Real { bits: SATURATION_BITS }) {
            Some(
                "β ≈ 0: |V| saturated under "@ + predictor + " + merge (final |V| = "@
                    + crate::text::numeral(nodes)
                    + "). Inside 𝕃3 (β ≤ 1). Not evidence of a non-collapsing online latent (Q-2026-08-13-7)."@,
            )
        } else {
            None
        },
    }
}

/// The note that goes with a fit: that there was none, or that growth has stopped.
pub fn beta_note(fit: &Option<GrowthFit>, predictor: &str, nodes: usize) -> (r: Option<String>)
    ensures
        match note_on(*fit, predictor@, nodes as nat) {
            Some(s) => r matches Some(note) && note@ == s,
            None => r is None,
        },
{
    match fit {
        None => Some("not enough checkpoints to fit β".to_string()),
        Some(f) => if f.beta.within(&Real { bits: SATURATION_BITS }) {
            Some(
                join5(
                    "β ≈ 0: |V| saturated under ",
                    predictor,
                    " + merge (final |V| = ",
                    decimal(nodes as u64).as_str(),
                    "). Inside 𝕃3 (β ≤ 1). Not evidence of a non-collapsing online latent (Q-2026-08-13-7).",
                ),
            )
        } else {
            None
        },
    }
}

impl VerifyReceipt {
    /// Whether this is the receipt of a run, with the evidence supplied to it.
    pub open spec fn attests(&self, run: VerifyRun, e: Evidence) -> bool {
        &&& self.format@ == RECEIPT_FORMAT@
        &&& self.git_rev@ == revision_of(
            match e.git_output {
                Some(s) => Some(s@),
                None => None,
            },
        )
        &&& self.config_hash@ == hex_digits(fnv1a(vstd::utf8::encode_utf8(e.config@)) as nat, 16)
        &&& self.config@ == e.config@
        &&& self.steps == run.steps
        &&& self.schedule@ == e.schedule@
        &&& self.condition@ == crate::condition::condition_label_of(e.condition)
        &&& self.inv1_max_drift == run.inv1_max_drift
        &&& self.inv2_violations == run.inv2_violations
        &&& self.inv3_violations == run.inv3_violations
        &&& self.inv4_violations == run.inv4_violations
        &&& self.sigma_max_audit == e.sigma_max_audit
        &&& self.graph == (VerifyGraph {
            final_nodes: run.final_nodes,
            final_edges: run.final_edges,
            measured_beta: match e.fit {
                Some(f) => f.beta,
                None => Real { bits: NAN_BITS },
            },
            beta_r2: match e.fit {
                Some(f) => f.r_squared,
                None => Real { bits: NAN_BITS },
            },
        })
        &&& self.trace_audit == run.trace_audit
        &&& self.wall_clock_s == e.wall_clock_s
        &&& self.steps_per_s == e.steps_per_s
        &&& self.gates == run.gates
        &&& self.invariants_ok == run.invariants_ok
        &&& self.predictor@ == predictor_kind(e.sigma_max_audit)
        &&& match note_on(e.fit, predictor_kind(e.sigma_max_audit), run.final_nodes as nat) {
            Some(s) => self.beta_note matches Some(note) && note@ == s,
            None => self.beta_note is None,
        }
    }

    /// The receipt of a run.
    pub fn new(run: VerifyRun, e: Evidence) -> (r: Self)
        ensures
            r.attests(run, e),
    {
        let predictor = if e.sigma_max_audit.is_some() {
            "trained"
        } else {
            "sim"
        };
        let (measured_beta, beta_r2) = match &e.fit {
            Some(f) => (f.beta, f.r_squared),
            None => (Real { bits: NAN_BITS }, Real { bits: NAN_BITS }),
        };
        let note = beta_note(&e.fit, predictor, run.final_nodes);
        let hash = config_hash(e.config.as_str());
        VerifyReceipt {
            format: RECEIPT_FORMAT.to_string(),
            git_rev: git_rev(&e.git_output),
            config_hash: hash,
            config: e.config,
            steps: run.steps,
            schedule: e.schedule,
            condition: condition_label(e.condition).to_string(),
            inv1_max_drift: run.inv1_max_drift,
            inv2_violations: run.inv2_violations,
            inv3_violations: run.inv3_violations,
            inv4_violations: run.inv4_violations,
            sigma_max_audit: e.sigma_max_audit,
            graph: VerifyGraph {
                final_nodes: run.final_nodes,
                final_edges: run.final_edges,
                measured_beta,
                beta_r2,
            },
            trace_audit: run.trace_audit,
            wall_clock_s: e.wall_clock_s,
            steps_per_s: e.steps_per_s,
            gates: run.gates,
            invariants_ok: run.invariants_ok,
            predictor: predictor.to_string(),
            beta_note: note,
        }
    }

    /// Why the run is not accepted, if it is not.
    pub open spec fn objection(&self) -> Option<VerifyFailure> {
        if !self.invariants_ok {
            Some(VerifyFailure::InvariantsNotGreen)
        } else if self.inv1_max_drift.above(Real { bits: DRIFT_LIMIT_BITS }) {
            Some(VerifyFailure::Drift(self.inv1_max_drift))
        } else if self.graph.measured_beta.finite() && self.graph.measured_beta.above(
            Real { bits: GROWTH_LIMIT_BITS },
        ) {
            Some(VerifyFailure::Growth(self.graph.measured_beta))
        } else {
            None
        }
    }

    /// Whether the run is accepted: its invariants are green, its energy did not drift,
    /// and its graph grew no faster than linearly.
    pub fn verdict(&self) -> (r: Result<(), VerifyFailure>)
        ensures
            r == (match self.objection() {
                Some(why) => Err(why),
                None => Ok(()),
            }),
    {
        if !self.invariants_ok {
            return Err(VerifyFailure::InvariantsNotGreen);
        }
        if self.inv1_max_drift.gt(&Real { bits: DRIFT_LIMIT_BITS }) {
            return Err(VerifyFailure::Drift(self.inv1_max_drift));
        }
        if self.graph.measured_beta.is_finite() && self.graph.measured_beta.gt(
            &Real { bits: GROWTH_LIMIT_BITS },
        ) {
            return Err(VerifyFailure::Growth(self.graph.measured_beta));
        }
        Ok(())
    }
}

/// Why a verified run is not accepted.
#[derive(Clone, Copy, PartialEq, Eq, Debug, Structural)]
pub enum VerifyFailure {
    InvariantsNotGreen,
    Drift(Real),
    Growth(Real),
}

/// A run is accepted only with green invariants at the end and not one violation of
/// Inv2, Inv3 or Inv4 on the way.
pub proof fn acceptance_is_sound(
    receipt: VerifyReceipt,
    run: VerifyRun,
    e: Evidence,
    audit: crate::audit::AuditConfig,
    checkpoints: Seq<u64>,
    h: Seq<crate::verify::StepFact>,
    last: crate::state::State,
    report: crate::error::InvariantReport,
)
    requires
        run.summarises(audit, checkpoints, h, last, report, run.gates@),
        receipt.attests(run, e),
        receipt.objection() is None,
    ensures
        report.green(),
        forall|i: int|
            0 <= i < h.len() ==> (#[trigger] h[i]).report.inv2_ok && h[i].report.inv3_ok
                && h[i].report.inv4_ok,
        receipt.inv1_max_drift.nan() || receipt.inv1_max_drift.at_most(
            Real { bits: DRIFT_LIMIT_BITS },
        ),
{
    let n = h.len() as int;
    assert forall|i: int| 0 <= i < n implies (#[trigger] h[i]).report.inv2_ok
        && h[i].report.inv3_ok && h[i].report.inv4_ok by {
        crate::audit::tally_misses(|i: int| !h[i].report.inv2_ok, n, i);
        crate::audit::tally_misses(|i: int| !h[i].report.inv3_ok, n, i);
        crate::audit::tally_misses(|i: int| !h[i].report.inv4_ok, n, i);
    }
}

} // verus!
