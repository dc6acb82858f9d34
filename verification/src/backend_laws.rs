//! What the operators that come with the library do, and what copies keep.

use vstd::prelude::*;

use crate::action::Action;
use crate::audit::{StreamingAuditor, TraceAudit};
use crate::backend::{Foretold, Invariants, Monitor, PhiCycle, Schedule, Unwatched};
use crate::config::{AriaConfig, GateConfig};
use crate::engine::settle;
use crate::error::{AriaError, InvariantReport, Violation};
use crate::gates::GateReport;
use crate::graph::Graph;
use crate::scalar::{Complex, Real};
use crate::state::State;

verus! {

/// Checks that were foretold answer every question with what they hold, whatever they are
/// asked about.
pub proof fn foretold_checks_answer_what_they_hold(
    f: Foretold,
    config: AriaConfig,
    bounds: Result<(), AriaError>,
    c: Complex,
    amplitude: String,
    st: State,
    residual: Real,
    eps: Real,
    eps_energy: Real,
    n_modes: usize,
    latent_dim: usize,
    report: InvariantReport,
    energy: Real,
    energy_0: Real,
    drift: Real,
)
    requires
        call_ensures(Foretold::validate, (&f, &config), bounds),
        call_ensures(Foretold::show_amplitude, (&f, c), amplitude),
        call_ensures(
            Foretold::check_all,
            (&f, &st, residual, eps, eps_energy, n_modes, latent_dim),
            report,
        ),
        call_ensures(Foretold::drift, (&f, energy, energy_0), drift),
    ensures
        bounds is Ok <==> f.bounds is Ok,
        bounds matches Err(why) ==> f.bounds is Err && why@ == f.bounds->Err_0@,
        amplitude@ == f.amplitude@,
        report == f.report,
        drift == f.drift,
{
}

/// The words of checks that were foretold are those that they hold.
pub proof fn foretold_checks_have_their_words(
    f: Foretold,
    report: InvariantReport,
    action: Action,
    energy: Real,
    energy_0: Real,
    residual: Real,
    prev_res: Real,
    eps: Real,
    words: Violation,
)
    requires
        call_ensures(
            Foretold::violation_from_report,
            (&f, &report, action, energy, energy_0, residual, prev_res, eps),
            words,
        ),
    ensures
        words.text@ == f.violation.text@,
{
}

/// Whoever watches nothing finds nothing: no gate enabled and none breached, however many
/// steps were seen.
pub proof fn the_unwatched_find_nothing(
    gates: GateConfig,
    opened: Unwatched,
    action: Action,
    st: State,
    residual: Real,
    eps: Real,
    seen: Unwatched,
    report: GateReport,
    all_ok: bool,
)
    requires
        call_ensures(Unwatched::new, (&gates,), opened),
        call_ensures(Unwatched::observe, (opened, action, &st, residual, eps), seen),
        call_ensures(Unwatched::finish, (seen,), report),
        call_ensures(GateReport::all_ok, (&report,), all_ok),
    ensures
        report.enabled@.len() == 0,
        report.breaches@.len() == 0,
        all_ok,
{
    assert(report@.enabled.len() == 0);
    assert(report@.breaches.len() == 0);
}

/// The gates are in order exactly where nothing was breached, whatever is enabled.
pub proof fn gates_are_in_order_without_breaches(report: GateReport, all_ok: bool)
    requires
        call_ensures(GateReport::all_ok, (&report,), all_ok),
    ensures
        all_ok <==> report.breaches@.len() == 0,
{
}

/// The preferred schedule hands out the action it stands at, moves on by one place of the
/// cycle, and is back where it was after four.
pub proof fn the_preferred_schedule_goes_round(
    a: &mut PhiCycle,
    b: &mut PhiCycle,
    c: &mut PhiCycle,
    d: &mut PhiCycle,
    ra: Action,
    rb: Action,
    rc: Action,
    rd: Action,
)
    requires
        old(a).next == Action::OpticalStep,
        call_ensures(PhiCycle::next_action, (a,), ra),
        *old(b) == *final(a),
        call_ensures(PhiCycle::next_action, (b,), rb),
        *old(c) == *final(b),
        call_ensures(PhiCycle::next_action, (c,), rc),
        *old(d) == *final(c),
        call_ensures(PhiCycle::next_action, (d,), rd),
    ensures
        ra == Action::OpticalStep,
        rb == Action::Predict,
        rc == Action::Match,
        rd == Action::Diffuse,
        *final(d) == *old(a),
{
}

/// A step is settled on the state it led to, unless strict checking found that state broken;
/// then the words for it are the answer.
pub proof fn strict_checking_settles_the_step(
    strict: bool,
    next: State,
    report: InvariantReport,
    violation: Option<Violation>,
    r: Result<State, AriaError>,
)
    requires
        call_ensures(settle, (strict, next, &report, violation), r),
        strict && !(report.inv1_ok && report.inv2_ok && report.inv3_ok && report.inv4_ok)
            ==> violation is Some,
    ensures
        !strict ==> r == Ok::<State, AriaError>(next),
        report.inv1_ok && report.inv2_ok && report.inv3_ok && report.inv4_ok ==> r == Ok::<
            State,
            AriaError,
        >(next),
        strict && !(report.inv1_ok && report.inv2_ok && report.inv3_ok && report.inv4_ok) ==> r
            == Err::<State, AriaError>(AriaError::InvariantViolation(violation->Some_0)),
{
}

/// A copy of a state is that state in every part.
pub proof fn copies_keep_every_part(st: State, r: State)
    requires
        call_ensures(State::copied, (&st,), r),
    ensures
        r.psi@ == st.psi@,
        r.z@ == st.z@,
        r.g@ == st.g@,
        r.t == st.t,
        r.prev_res == st.prev_res,
        r.energy_0 == st.energy_0,
{
    assert(r@.psi == st@.psi && r@.z == st@.z && r@.g == st@.g);
    assert(r@.t == st@.t && r@.prev_res == st@.prev_res && r@.energy_0 == st@.energy_0);
}

/// A copy of a graph has the same nodes with the same embeddings, the same edges and the
/// same first free id.
pub proof fn copies_of_graphs_are_alike(g: Graph, r: Graph, next: u64)
    requires
        call_ensures(Graph::copied, (&g,), r),
        call_ensures(Graph::next_id, (&r,), next),
    ensures
        r@.nodes == g@.nodes,
        r@.edges == g@.edges,
        next == g@.next,
{
}

/// A copy of an error is of the same kind and says the same.
pub proof fn copies_of_errors_say_the_same(e: AriaError, r: AriaError)
    requires
        call_ensures(AriaError::copied, (&e,), r),
    ensures
        e matches AriaError::Config(why) ==> r is Config && r->Config_0@ == why@,
        e matches AriaError::Backend(why) ==> r is Backend && r->Backend_0@ == why@,
        e matches AriaError::Schedule(why) ==> r is Schedule && r->Schedule_0@ == why@,
        e matches AriaError::InvariantViolation(v) ==> r is InvariantViolation
            && r->InvariantViolation_0.text@ == v.text@,
{
    assert(r@ == e@);
}

/// An auditor that is shown one step more has seen that step behind all it had seen, and
/// audits by the same bounds; what it says in the end is said of all it was shown.
pub proof fn auditors_see_what_they_are_shown(
    auditor: &mut StreamingAuditor,
    action: Action,
    residual: Real,
    audit: TraceAudit,
)
    requires
        old(auditor).wf(),
        call_ensures(StreamingAuditor::observe, (auditor, action, residual), ()),
        call_ensures(StreamingAuditor::finish, (*final(auditor),), audit),
    ensures
        audit.describes(old(auditor).bounds(), old(auditor)@.push((action, residual))),
{
}

} // verus!
