//! Receipts of verified runs.

use aria::audit::TraceAudit;
use aria::condition::Condition;
use aria::error::InvariantReport;
use aria::gates::GateReport;
use aria::graph::Graph;
use aria::growth::{growth_verdict, GrowthFailure, GrowthFit};
use aria::receipt::{
    beta_note, config_hash, git_rev, Evidence, SpectralReport, VerifyFailure,
    VerifyReceipt, RECEIPT_FORMAT,
};
use aria::scalar::Real;
use aria::state::State;
use aria::verify::VerifyRun;

fn num(x: f64) -> Real {
    Real { bits: x.to_bits() }
}

fn fit(beta: f64) -> Option<GrowthFit> {
    Some(GrowthFit { beta: num(beta), r_squared: num(0.5) })
}

fn run(drift: f64, invariants_ok: bool) -> VerifyRun {
    VerifyRun {
        state: State {
            psi: vec![],
            z: vec![],
            g: Graph::empty(),
            t: 3,
            prev_res: num(0.0),
            energy_0: num(0.0),
        },
        steps: 12,
        inv1_max_drift: num(drift),
        inv2_violations: 1,
        inv3_violations: 2,
        inv4_violations: 3,
        trace_audit: TraceAudit { x1: 0, x2: 0, x3: 0, x4: 0, x5: 0, family: "W1".to_string() },
        samples: vec![],
        final_nodes: 17,
        final_edges: 4,
        gates: GateReport { enabled: vec!["Inv5".to_string()], breaches: vec![] },
        invariants_ok,
    }
}

fn evidence(fit: Option<GrowthFit>, audit: Option<SpectralReport>) -> Evidence {
    Evidence {
        git_output: Some("  0123abc\n".to_string()),
        config: "foobar".to_string(),
        schedule: "opmd".to_string(),
        condition: Condition::WorldModel,
        sigma_max_audit: audit,
        fit,
        wall_clock_s: num(2.0),
        steps_per_s: num(6.0),
    }
}

#[test]
fn hashes_are_fnv1a() {
    assert_eq!(config_hash(""), "cbf29ce484222325");
    assert_eq!(config_hash("a"), "af63dc4c8601ec8c");
    assert_eq!(config_hash("foobar"), "85944171f73967e8");
    // The hash is over the bytes of the text.
    let mut hash = 0xcbf2_9ce4_8422_2325_u64;
    for b in "β".as_bytes() {
        hash ^= u64::from(*b);
        hash = hash.wrapping_mul(0x0100_0000_01b3);
    }
    assert_eq!(config_hash("β"), format!("{hash:016x}"));
}

#[test]
fn a_revision_is_trimmed_or_unknown() {
    assert_eq!(git_rev(&Some(" abc\n".to_string())), "abc");
    assert_eq!(git_rev(&Some(" \n".to_string())), "unknown");
    assert_eq!(git_rev(&Some(String::new())), "unknown");
    assert_eq!(git_rev(&None), "unknown");
}

#[test]
fn a_receipt_attests_a_run() {
    let sigma = SpectralReport {
        token: num(0.9),
        diffusion: num(0.8),
        world_model: num(0.7),
        embed: num(0.6),
    };
    let r = VerifyReceipt::new(run(1e-9, true), evidence(fit(0.25), Some(sigma)));
    assert_eq!(r.format, "aria-verify-receipt-v1");
    assert_eq!(r.format, RECEIPT_FORMAT);
    assert_eq!(r.git_rev, "0123abc");
    assert_eq!(r.config_hash, "85944171f73967e8");
    assert_eq!(r.config, "foobar");
    assert_eq!(r.steps, 12);
    assert_eq!(r.schedule, "opmd");
    assert_eq!(r.condition, "worldmodel");
    assert_eq!(r.inv1_max_drift, num(1e-9));
    assert_eq!((r.inv2_violations, r.inv3_violations, r.inv4_violations), (1, 2, 3));
    assert_eq!(r.sigma_max_audit, Some(sigma));
    assert_eq!((r.graph.final_nodes, r.graph.final_edges), (17, 4));
    assert_eq!((r.graph.measured_beta, r.graph.beta_r2), (num(0.25), num(0.5)));
    assert_eq!(r.trace_audit.family, "W1");
    assert_eq!(r.gates.enabled, vec!["Inv5"]);
    assert_eq!((r.wall_clock_s, r.steps_per_s), (num(2.0), num(6.0)));
    assert!(r.invariants_ok);
    assert_eq!(r.predictor, "trained");
    assert_eq!(r.beta_note, None);
    assert_eq!(r.verdict(), Ok(()));
}

#[test]
fn a_receipt_without_a_fit_says_so() {
    let r = VerifyReceipt::new(run(0.0, true), evidence(None, None));
    assert!(f64::from_bits(r.graph.measured_beta.bits).is_nan());
    assert!(f64::from_bits(r.graph.beta_r2.bits).is_nan());
    assert_eq!(r.beta_note.as_deref(), Some("not enough checkpoints to fit β"));
    assert_eq!(r.predictor, "sim");
    assert_eq!(r.verdict(), Ok(()));
}

#[test]
fn saturated_growth_is_noted() {
    let said = "β ≈ 0: |V| saturated under sim + merge (final |V| = 17). Inside 𝕃3 (β ≤ 1). Not evidence of a non-collapsing online latent (Q-2026-08-13-7).";
    assert_eq!(beta_note(&fit(0.0), "sim", 17).as_deref(), Some(said));
    assert_eq!(beta_note(&fit(-9e-10), "sim", 17).as_deref(), Some(said));
    assert_eq!(beta_note(&fit(1e-9), "sim", 17), None);
    assert_eq!(beta_note(&fit(f64::NAN), "sim", 17), None);
}

#[test]
fn a_run_is_accepted_or_says_why_not() {
    let verdict =
        |drift, ok, beta| VerifyReceipt::new(run(drift, ok), evidence(fit(beta), None)).verdict();
    assert_eq!(verdict(1.0, false, 2.0), Err(VerifyFailure::InvariantsNotGreen));
    assert_eq!(verdict(2e-7, true, 2.0), Err(VerifyFailure::Drift(num(2e-7))));
    assert_eq!(verdict(1e-7, true, 1.5), Err(VerifyFailure::Growth(num(1.5))));
    assert_eq!(verdict(1e-7, true, 1.0), Ok(()));
    assert_eq!(verdict(0.0, true, f64::INFINITY), Ok(()));
}

#[test]
fn growth_above_linear_is_refused() {
    let green = InvariantReport { inv1_ok: true, inv2_ok: true, inv3_ok: true, inv4_ok: true };
    let red = InvariantReport { inv4_ok: false, ..green };
    assert_eq!(growth_verdict(&green, &None), Err(GrowthFailure::NoFit));
    assert_eq!(growth_verdict(&green, &fit(1.25)), Err(GrowthFailure::SuperLinear(num(1.25))));
    assert_eq!(growth_verdict(&green, &fit(1.0)), Ok(fit(1.0).unwrap()));
    assert_eq!(growth_verdict(&red, &fit(1.0)), Err(GrowthFailure::Broken(red)));
}
