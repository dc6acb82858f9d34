//! Audits of action streams.

use aria::action::Action;
use aria::audit::{audit_stream, AuditConfig, StreamingAuditor, TraceAudit};
use aria::scalar::Real;

fn num(x: f64) -> Real {
    Real { bits: x.to_bits() }
}

fn reals(xs: &[f64]) -> Vec<Real> {
    xs.iter().map(|x| num(*x)).collect()
}

fn cfg() -> AuditConfig {
    AuditConfig { k: 2, w: 8, d_cap: 3, eps: num(1.0) }
}

fn opmd_n(n: usize) -> (Vec<Action>, Vec<Real>) {
    let mut actions = Vec::new();
    let mut res = Vec::new();
    for _ in 0..n {
        actions.extend([Action::OpticalStep, Action::Predict, Action::Match, Action::Diffuse]);
        res.extend(reals(&[0.0, 0.0, 0.0, 0.0]));
    }
    (actions, res)
}

#[test]
fn default_opmd_is_w1_and_x_clean() {
    let (actions, res) = opmd_n(20);
    let audit = audit_stream(&actions, &res, cfg());
    assert!(audit.all_zero(), "{audit:?}");
    assert_eq!(audit.family, "W1");
}

#[test]
fn two_stutters_between_cycles_is_w2() {
    let mut actions = vec![
        Action::OpticalStep,
        Action::Predict,
        Action::Match,
        Action::Diffuse,
        Action::Stutter,
        Action::Stutter,
        Action::OpticalStep,
        Action::Predict,
        Action::Match,
        Action::Diffuse,
    ];
    let res = reals(&vec![0.0; actions.len()]);
    // pad so the window fills without starving O
    actions.extend([Action::OpticalStep, Action::Predict, Action::Match, Action::Diffuse]);
    let mut res = res;
    res.extend(reals(&[0.0; 4]));
    let audit = audit_stream(&actions, &res, cfg());
    assert_eq!(audit.x1, 0);
    assert_eq!(audit.x5, 0);
    assert_eq!(audit.family, "W2");
}

#[test]
fn three_stutters_trips_x1_and_x5() {
    let actions = vec![Action::Stutter, Action::Stutter, Action::Stutter];
    let res = reals(&[0.0; 3]);
    let audit = audit_stream(&actions, &res, cfg());
    assert!(audit.x1 >= 1);
    assert!(audit.x5 >= 1);
}

#[test]
fn a_window_without_optical_trips_x2() {
    let actions = vec![Action::Predict; 8];
    let res = reals(&[0.0; 8]);
    let audit = audit_stream(&actions, &res, cfg());
    assert!(audit.x2 >= 1);
}

#[test]
fn four_diffuses_trips_x3_when_cap_is_three() {
    let actions = vec![Action::Diffuse; 4];
    let res = reals(&[0.0; 4]);
    let audit = audit_stream(&actions, &res, cfg());
    assert!(audit.x3 >= 1);
}

#[test]
fn hot_match_without_predict_trips_x4() {
    let actions = vec![Action::OpticalStep, Action::Match];
    let res = reals(&[2.0, 2.0]);
    let audit = audit_stream(&actions, &res, cfg());
    assert_eq!(audit.x4, 1);
}

#[test]
fn predict_before_hot_match_is_clean() {
    let actions = vec![Action::OpticalStep, Action::Predict, Action::Match];
    let res = reals(&[2.0, 2.0, 2.0]);
    let audit = audit_stream(&actions, &res, cfg());
    assert_eq!(audit.x4, 0);
}

#[test]
fn counters_count_every_breach() {
    let audit = audit_stream(&[Action::Stutter; 5], &reals(&[0.0; 5]), cfg());
    assert_eq!((audit.x1, audit.x5), (3, 3));
    assert_eq!(audit.family, "other");

    let audit = audit_stream(&[Action::Predict; 10], &reals(&[0.0; 10]), cfg());
    assert_eq!(audit.x2, 3);

    let audit = audit_stream(&[Action::Diffuse; 6], &reals(&[0.0; 6]), cfg());
    assert_eq!(audit.x3, 3);
}

#[test]
fn a_cold_residual_asks_for_a_new_prediction() {
    let actions =
        [Action::Predict, Action::OpticalStep, Action::Match, Action::Predict, Action::Match];
    // Cold at the second step: the match that follows has no prediction to rest on.
    let audit = audit_stream(&actions, &reals(&[2.0, 0.5, 2.0, 2.0, 2.0]), cfg());
    assert_eq!(audit.x4, 1);
    // The threshold itself is cold, and a NaN is neither cold nor hot.
    let audit = audit_stream(&actions, &reals(&[2.0, 1.0, 2.0, 2.0, 2.0]), cfg());
    assert_eq!(audit.x4, 1);
    let audit = audit_stream(&actions, &reals(&[2.0, f64::NAN, 2.0, 2.0, 2.0]), cfg());
    assert_eq!(audit.x4, 0);
    let audit = audit_stream(&[Action::Match], &reals(&[f64::NAN]), cfg());
    assert_eq!(audit.x4, 0);
}

#[test]
fn a_prediction_in_the_cold_counts() {
    let audit =
        audit_stream(&[Action::Predict, Action::Match], &reals(&[0.0, 2.0]), cfg());
    assert_eq!(audit.x4, 0);
}

#[test]
fn the_window_slides() {
    let mut actions = vec![Action::OpticalStep];
    actions.extend(vec![Action::Predict; 7]);
    let audit = audit_stream(&actions, &reals(&[0.0; 8]), cfg());
    assert_eq!(audit.x2, 0);
    actions.push(Action::Predict);
    let audit = audit_stream(&actions, &reals(&[0.0; 9]), cfg());
    assert_eq!(audit.x2, 1);
}

#[test]
fn a_window_of_zero_is_never_starved() {
    let cfg = AuditConfig { k: 2, w: 0, d_cap: 3, eps: num(1.0) };
    let audit = audit_stream(&[Action::Predict; 20], &reals(&[0.0; 20]), cfg);
    assert_eq!(audit.x2, 0);
}

#[test]
fn the_shorter_list_ends_the_stream() {
    let audit = audit_stream(&[Action::Stutter; 9], &reals(&[0.0; 3]), cfg());
    assert_eq!(audit.x1, 1);
    let audit = audit_stream(&[], &reals(&[0.0; 3]), cfg());
    assert!(audit.all_zero());
    assert_eq!(audit.family, "W1");
}

#[test]
fn stutters_within_a_cycle_leave_the_family() {
    let actions = [Action::OpticalStep, Action::Stutter, Action::Predict];
    let audit = audit_stream(&actions, &reals(&[0.0; 3]), cfg());
    assert_eq!(audit.family, "other");
    let audit = audit_stream(&[Action::Stutter], &reals(&[0.0]), cfg());
    assert_eq!(audit.family, "other");
}

#[test]
fn streaming_equals_auditing_at_once() {
    let (actions, res) = opmd_n(3);
    let mut auditor = StreamingAuditor::new(cfg());
    for (a, r) in actions.iter().zip(&res) {
        auditor.observe(*a, *r);
    }
    let streamed = auditor.finish();
    let whole = audit_stream(&actions, &res, cfg());
    assert_eq!(streamed.family, whole.family);
    assert_eq!(streamed.x2, whole.x2);
    assert!(streamed.all_zero() && whole.all_zero());
}

#[test]
fn verdicts_only_grow() {
    let actions = [Action::Stutter; 8];
    let mut last = 0;
    for n in 0..8 {
        let audit = audit_stream(&actions[..n], &reals(&vec![0.0; n]), cfg());
        assert!(audit.x1 >= last && audit.x1 <= last + 1);
        last = audit.x1;
    }
    assert_eq!(last, 5);
}

#[test]
fn all_zero_looks_at_every_counter() {
    let clean = || TraceAudit { x1: 0, x2: 0, x3: 0, x4: 0, x5: 0, family: "W1".to_string() };
    assert!(clean().all_zero());
    assert!(!TraceAudit { x1: 1, ..clean() }.all_zero());
    assert!(!TraceAudit { x2: 1, ..clean() }.all_zero());
    assert!(!TraceAudit { x3: 1, ..clean() }.all_zero());
    assert!(!TraceAudit { x4: 1, ..clean() }.all_zero());
    assert!(!TraceAudit { x5: 1, ..clean() }.all_zero());
}
