//! Flags, lists, names and the other small rules of the command line.

use aria::action::{actions, parse_action, Action};
use aria::cli::{
    adopt_dims, bench_config, check_plan, check_predictor_dims, corpus_summary,
    dataset_plan, find_time, parse_sizes, percentile_index, read_size, run_config, run_verdict,
    scaling_pair, step_plan, synthetic_summary, verify_audit, verify_config, DatasetPlan, Lcg,
    RunArgs, StepArgs, VerifyArgs, ALL_HOLD, DEFAULT_RECEIPT, NOT_ALL_HOLD,
};
use aria::condition::{condition_from_name, condition_label, condition_name, Condition};
use aria::config::{AriaConfig, Gate, GateConfig};
use aria::gates::{Breach, GateReport};
use aria::policy::{parse_match_policy, policy_name, MatchPolicy};
use aria::scalar::Real;
use aria::text::{decimal, lines, pieces};

fn num(x: f64) -> Real {
    Real { bits: x.to_bits() }
}

fn config() -> AriaConfig {
    AriaConfig {
        n_modes: 256,
        latent_dim: 64,
        eps: num(1.0),
        eps_energy: num(1e-9),
        stutter_k: 2,
        schedule: "opmd".to_string(),
        condition: Condition::Token,
        match_policy: MatchPolicy::OneEdit,
        diff_policy: "graph_conditioned".to_string(),
        max_graph_size: 5000,
        merge_tau: num(0.5),
        allow_sub_spec_dims: false,
        seed: None,
        strict: false,
        gates: GateConfig { enabled: vec![], stutter_k: 9 },
        optical: None,
        vocab_size: 256,
    }
}

fn no_run_flags() -> RunArgs {
    RunArgs {
        schedule: None,
        eps: None,
        optical: None,
        condition: None,
        n_modes: None,
        latent_dim: None,
        stutter_k: None,
        seed: None,
        gates: None,
        no_strict: false,
        match_policy: None,
        merge_tau: None,
    }
}

fn no_verify_flags() -> VerifyArgs {
    VerifyArgs {
        schedule: None,
        condition: None,
        n_modes: None,
        latent_dim: None,
        seed: None,
        gates: None,
        match_policy: None,
        merge_tau: None,
    }
}

#[test]
fn a_run_without_flags_keeps_its_configuration() {
    let c = run_config(config(), no_run_flags()).unwrap();
    assert!(!c.strict);
    assert_eq!(c.schedule, "opmd");
    assert_eq!(c.n_modes, 256);
    assert_eq!(c.gates.stutter_k, 9);
    assert_eq!(c.match_policy, MatchPolicy::OneEdit);
    let strict = || AriaConfig { strict: true, ..config() };
    assert!(run_config(strict(), no_run_flags()).unwrap().strict);
    let c = run_config(strict(), RunArgs { no_strict: true, ..no_run_flags() }).unwrap();
    assert!(!c.strict);
}

#[test]
fn run_flags_override_the_configuration() {
    let c = run_config(
        config(),
        RunArgs {
            schedule: Some("opdms".to_string()),
            eps: Some(num(0.5)),
            optical: Some("fft".to_string()),
            condition: Some(Ok(Condition::Diffusion)),
            n_modes: Some(8),
            latent_dim: Some(16),
            stutter_k: Some(5),
            seed: Some(7),
            gates: Some(Ok(vec![Gate::Inv5, Gate::Inv9])),
            no_strict: false,
            match_policy: Some(parse_match_policy("Merge")),
            merge_tau: Some(num(0.125)),
        },
    )
    .unwrap();
    assert_eq!(c.schedule, "opdms");
    assert_eq!(c.eps, num(0.5));
    assert_eq!(c.optical.as_deref(), Some("fft"));
    assert_eq!(c.condition, Condition::Diffusion);
    assert_eq!((c.n_modes, c.latent_dim), (8, 16));
    assert_eq!(c.stutter_k, 5);
    assert_eq!(c.seed, Some(7));
    assert_eq!(c.gates.enabled, vec![Gate::Inv5, Gate::Inv9]);
    // The gates watch for the budget that the run has.
    assert_eq!(c.gates.stutter_k, 5);
    assert_eq!(c.match_policy, MatchPolicy::Merge);
    assert_eq!(c.merge_tau, num(0.125));
    assert_eq!(c.max_graph_size, 5000);
}

#[test]
fn the_first_complaint_is_reported() {
    let bad = |c: bool, g: bool, m: bool| {
        let why = |on: bool, name: &str| if on { Some(name.to_string()) } else { None };
        run_config(
            config(),
            RunArgs {
                condition: why(c, "condition").map(Err),
                gates: why(g, "gates").map(Err),
                match_policy: why(m, "policy").map(Err),
                ..no_run_flags()
            },
        )
        .err()
    };
    assert_eq!(bad(true, true, true), Some("condition".to_string()));
    assert_eq!(bad(false, true, true), Some("gates".to_string()));
    assert_eq!(bad(false, false, true), Some("policy".to_string()));
    assert_eq!(bad(false, false, false), None);
}

#[test]
fn a_verification_merges_and_has_room() {
    let c = verify_config(config(), no_verify_flags()).unwrap();
    assert_eq!(c.match_policy, MatchPolicy::Merge);
    assert_eq!(c.max_graph_size, 100_000);
    assert!(!c.strict);
    let roomy = AriaConfig { max_graph_size: 200_000, ..config() };
    let c = verify_config(
        roomy,
        VerifyArgs {
            match_policy: Some(Ok(MatchPolicy::Identity)),
            gates: Some(Ok(vec![Gate::Inv6])),
            seed: Some(1),
            ..no_verify_flags()
        },
    )
    .unwrap();
    assert_eq!(c.match_policy, MatchPolicy::Identity);
    assert_eq!(c.max_graph_size, 200_000);
    assert_eq!(c.gates.stutter_k, 2);
    assert_eq!(c.seed, Some(1));
    let refused = verify_config(
        config(),
        VerifyArgs { match_policy: Some(parse_match_policy("best")), ..no_verify_flags() },
    );
    assert_eq!(
        refused.err(),
        Some(
            "unknown match policy 'best' (expected identity|one_edit|merge|rebuild_gstar)"
                .to_string()
        )
    );
    let audit = verify_audit(&c, 32, 4);
    assert_eq!((audit.k, audit.w, audit.d_cap, audit.eps), (2, 32, 4, num(1.0)));
    assert_eq!(DEFAULT_RECEIPT, "docs/evidence/v0.2.0_longrun_receipt.json");
}

#[test]
fn pinned_dimensions_must_be_those_of_the_checkpoint() {
    assert_eq!(check_predictor_dims(None, None, 8, 16, "p.json"), Ok(()));
    assert_eq!(check_predictor_dims(Some(8), Some(16), 8, 16, "p.json"), Ok(()));
    assert_eq!(
        check_predictor_dims(Some(9), Some(17), 8, 16, "p.json"),
        Err("--n-modes 9 conflicts with predictor p.json: the checkpoint was trained at N=8. Omit --n-modes to use the checkpoint's dimensions, or pass the matching value.".to_string())
    );
    assert_eq!(
        check_predictor_dims(Some(8), Some(17), 8, 16, "p.json"),
        Err("--latent-dim 17 conflicts with predictor p.json: the checkpoint was trained at dim(Z)=16. Omit --latent-dim to use the checkpoint's dimensions, or pass the matching value.".to_string())
    );
    let c = adopt_dims(config(), 8, 16);
    assert_eq!((c.n_modes, c.latent_dim), (8, 16));
    assert_eq!(c.vocab_size, 256);
}

#[test]
fn a_step_is_planned() {
    let (c, condition, action) = step_plan(
        config(),
        StepArgs {
            action: parse_action("OpticalStep"),
            condition: None,
            n_modes: Some(8),
            latent_dim: None,
            eps: Some(num(2.0)),
        },
    )
    .unwrap();
    assert_eq!((c.n_modes, c.latent_dim, c.eps), (8, 64, num(2.0)));
    assert_eq!(condition, Condition::Token);
    assert_eq!(action, Action::OpticalStep);
    let refused = step_plan(
        config(),
        StepArgs {
            action: parse_action("jump"),
            condition: Some(Err("no such condition".to_string())),
            n_modes: None,
            latent_dim: None,
            eps: None,
        },
    );
    assert_eq!(refused.err(), Some("no such condition".to_string()));
    let refused = step_plan(
        config(),
        StepArgs {
            action: parse_action("jump"),
            condition: Some(Ok(Condition::WorldModel)),
            n_modes: None,
            latent_dim: None,
            eps: None,
        },
    );
    assert_eq!(
        refused.err(),
        Some(
            "unknown action 'jump' (expected OpticalStep|Predict|Match|Diffuse|Stutter)".to_string()
        )
    );
}

#[test]
fn a_check_is_planned() {
    let (c, condition) =
        check_plan(config(), Some(16), Some(Ok(Condition::WorldModel))).unwrap();
    assert_eq!(c.latent_dim, 16);
    assert_eq!(condition, Condition::WorldModel);
    assert_eq!(check_plan(config(), None, None).unwrap().1, Condition::Token);
    assert_eq!(
        check_plan(config(), None, Some(Err("no".to_string()))).err(),
        Some("no".to_string())
    );
    assert_eq!(ALL_HOLD, "All invariants hold: Inv1 ✓ Inv2 ✓ Inv3 ✓ Inv4 ✓");
    assert_eq!(NOT_ALL_HOLD, "invariant violations");
}

#[test]
fn a_run_is_judged() {
    let gates = |enabled: bool, breached: bool| GateReport {
        enabled: if enabled { vec!["Inv5".to_string()] } else { vec![] },
        breaches: if breached {
            vec![Breach { gate: "Inv5".to_string(), step: 3, detail: String::new() }]
        } else {
            vec![]
        },
    };
    assert_eq!(run_verdict(true, &gates(true, false), true), Ok(()));
    assert_eq!(run_verdict(true, &gates(false, true), true), Ok(()));
    assert_eq!(run_verdict(true, &gates(true, true), false), Ok(()));
    assert_eq!(
        run_verdict(true, &gates(true, true), true),
        Err("operating gate breached (--strict-gates)")
    );
    assert_eq!(
        run_verdict(false, &gates(true, true), true),
        Err("invariant check failed on final state")
    );
    assert!(gates(true, false).all_ok() && !gates(true, true).all_ok());
}

#[test]
fn lists_of_sizes_are_read() {
    assert_eq!(parse_sizes("--n-modes", "16,64,256"), Ok(vec![16, 64, 256]));
    assert_eq!(parse_sizes("--graph", " 1000 ,+7"), Ok(vec![1000, 7]));
    assert_eq!(parse_sizes("--graph", "\u{3000}007\u{85}"), Ok(vec![7]));
    for refused in ["8x", "-1", "+", "1_000", "\u{200b}1"] {
        assert!(parse_sizes("--graph", refused).is_err(), "{refused}");
    }
    assert_eq!(
        parse_sizes("--n-modes", "16, x1 ,y"),
        Err("bad --n-modes value 'x1': invalid digit found in string".to_string())
    );
    assert_eq!(
        parse_sizes("--graph", ""),
        Err("bad --graph value '': cannot parse integer from empty string".to_string())
    );
    assert_eq!(
        parse_sizes("--graph", "1,,2"),
        Err("bad --graph value '': cannot parse integer from empty string".to_string())
    );
    assert_eq!(
        parse_sizes("--graph", "99999999999999999999"),
        Err(
            "bad --graph value '99999999999999999999': number too large to fit in target type"
                .to_string()
        )
    );
    assert_eq!(read_size("--graph", "12", Ok(12)), Ok(12));
    assert_eq!(
        read_size("--graph", "twelve", Err("no number".to_string())),
        Err("bad --graph value 'twelve': no number".to_string())
    );
}

#[test]
fn bench_configurations_fit_the_modes() {
    let mut c = config();
    bench_config(&mut c, 16, 64, false);
    assert_eq!((c.n_modes, c.latent_dim), (16, 32));
    assert!(c.gates.enabled.is_empty());
    bench_config(&mut c, 256, 64, true);
    assert_eq!((c.n_modes, c.latent_dim), (256, 64));
    assert_eq!(c.gates.enabled.len(), 7);
    assert_eq!(c.gates.enabled[0], Gate::Inv5);
    assert_eq!(c.gates.enabled[6], Gate::Inv11);
    assert_eq!(c.gates.stutter_k, 9);
}

#[test]
fn scaling_needs_both_sizes() {
    let runs = vec![(16, num(1.0)), (256, num(2.0)), (256, num(3.0))];
    assert_eq!(find_time(&runs, 256), Some(num(2.0)));
    assert_eq!(find_time(&runs, 64), None);
    assert_eq!(scaling_pair(&runs), None);
    let runs = vec![(1024, num(9.0)), (256, num(2.0))];
    assert_eq!(scaling_pair(&runs), Some((num(2.0), num(9.0))));
}

#[test]
fn bench_points_come_from_a_fixed_sequence() {
    let mut lcg = Lcg::new();
    let mut state = 0x2545_F491_4F6C_DD1Du64;
    let mut step = || {
        state = state.wrapping_mul(6_364_136_223_846_793_005).wrapping_add(1_442_695_040_888_963_407);
        state >> 11
    };
    assert_eq!(lcg.next_bits(), step());
    assert_eq!(lcg.point(3), vec![step(), step(), step()]);
    assert_eq!(lcg.point(0), Vec::<u64>::new());
    assert_eq!(Lcg { state: 0 }.next_bits(), 704_440_937_934_064);
}

#[test]
fn percentiles_stay_in_the_list() {
    assert_eq!(percentile_index(1000, 50), 500);
    assert_eq!(percentile_index(1000, 99), 990);
    assert_eq!(percentile_index(1000, 100), 999);
    assert_eq!(percentile_index(1, 50), 0);
    assert_eq!(percentile_index(10, 0), 0);
}

#[test]
fn datasets_are_planned() {
    let base = AriaConfig { seed: Some(5), ..config() };
    assert_eq!(
        dataset_plan(&base, true, None, None, None),
        DatasetPlan::Corpus { n_modes: 256, stride: 256 }
    );
    assert_eq!(
        dataset_plan(&base, true, Some(3), Some(8), None),
        DatasetPlan::Corpus { n_modes: 8, stride: 3 }
    );
    assert_eq!(
        dataset_plan(&base, false, Some(3), Some(8), Some(1)),
        DatasetPlan::Synthetic { n_modes: 8, seed: 1 }
    );
    assert_eq!(
        dataset_plan(&base, false, None, None, None),
        DatasetPlan::Synthetic { n_modes: 256, seed: 5 }
    );
    assert_eq!(
        dataset_plan(&config(), false, None, None, None),
        DatasetPlan::Synthetic { n_modes: 256, seed: 42 }
    );
    assert_eq!(
        corpus_summary(10, 2560, "corpus.txt", 256, 255),
        "10 frames from 2560 bytes of corpus.txt (spectral-dft, N=256, stride=255)"
    );
    assert_eq!(
        synthetic_summary(64, 16, 256, 42),
        "64 synthetic trajectories × 16 snapshots (N=256, seed=42)"
    );
}

#[test]
fn actions_are_read_by_any_of_their_names() {
    for (names, action) in [
        (["OpticalStep", "optical_step", "O"], Action::OpticalStep),
        (["PREDICT", "predict", "p"], Action::Predict),
        (["Match", "match", "M"], Action::Match),
        (["diffuse", "Diffuse", "d"], Action::Diffuse),
        (["Stutter", "sTUTTER", "S"], Action::Stutter),
    ] {
        for name in names {
            assert_eq!(parse_action(name), Ok(action));
        }
        assert_eq!(parse_action(action.symbol()), Ok(action));
        assert_eq!(parse_action(action.name()), Ok(action));
    }
    // What is not ASCII is made small too, before it is quoted.
    assert_eq!(
        parse_action("ÄKTION"),
        Err("unknown action 'äktion' (expected OpticalStep|Predict|Match|Diffuse|Stutter)".to_string())
    );
    assert_eq!(actions(), vec!["OpticalStep", "Predict", "Match", "Diffuse", "Stutter"]);
}

#[test]
fn policies_are_read_by_any_of_their_names() {
    for (name, policy) in [
        ("identity", MatchPolicy::Identity),
        ("one_edit", MatchPolicy::OneEdit),
        ("One-Edit", MatchPolicy::OneEdit),
        ("MERGE", MatchPolicy::Merge),
        ("rebuild_gstar", MatchPolicy::RebuildGStar),
        ("rebuild-gstar", MatchPolicy::RebuildGStar),
        ("rebuild", MatchPolicy::RebuildGStar),
    ] {
        assert_eq!(parse_match_policy(name), Ok(policy));
        assert_eq!(parse_match_policy(policy_name(policy)), Ok(policy));
    }
    assert_eq!(
        parse_match_policy("Best"),
        Err("unknown match policy 'best' (expected identity|one_edit|merge|rebuild_gstar)".to_string())
    );
}

#[test]
fn conditions_have_a_name_and_a_label() {
    for (c, name, label) in [
        (Condition::Token, "token", "token"),
        (Condition::Diffusion, "diffusion", "diffusion"),
        (Condition::WorldModel, "world_model", "worldmodel"),
    ] {
        assert_eq!(condition_name(c), name);
        assert_eq!(condition_label(c), label);
        assert_eq!(condition_from_name(name), Some(c));
    }
    assert_eq!(condition_from_name("worldmodel"), None);
}

#[test]
fn texts_are_cut_and_written() {
    assert_eq!(decimal(0), "0");
    assert_eq!(decimal(u64::MAX), "18446744073709551615");
    for text in ["", "a", "a\n", "a\r\nb", "\n\n", "a\r", "x\r\r\ny\n"] {
        let expected: Vec<&str> = text.lines().collect();
        assert_eq!(lines(text), expected);
    }
    for text in ["", ",", "a,b", "a,,b,", " a "] {
        let expected: Vec<&str> = text.split(',').collect();
        assert_eq!(pieces(text), expected);
    }
}

#[test]
fn numbers_are_ordered_as_floats_are() {
    let xs = [
        f64::NEG_INFINITY,
        -1.5,
        -5e-324,
        -0.0,
        0.0,
        5e-324,
        1.0,
        f64::MAX,
        f64::INFINITY,
        f64::NAN,
        -f64::NAN,
    ];
    for a in xs {
        assert_eq!(num(a).is_nan(), a.is_nan());
        assert_eq!(num(a).is_finite(), a.is_finite());
        for b in xs {
            assert_eq!(num(a).gt(&num(b)), a > b, "{a} > {b}");
            assert_eq!(num(a).le(&num(b)), a <= b, "{a} <= {b}");
            if !b.is_sign_negative() {
                assert_eq!(num(a).within(&num(b)), a.abs() < b, "|{a}| < {b}");
            }
        }
    }
    assert_eq!(Real::zero(), num(0.0));
}
