//! What the operating gates of a run found.

use vstd::prelude::*;

verus! {

/// A breach of an operating gate.
#[derive(Clone, Debug)]
pub struct Breach {
    pub gate: String,
    pub step: u64,
    pub detail: String,
}

/// What the operating gates found.
#[derive(Clone, Debug)]
pub struct GateReport {
    pub enabled: Vec<String>,
    pub breaches: Vec<Breach>,
}

/// A breach as a mathematical value.
#[verifier::ext_equal]
pub struct BreachView {
    pub gate: Seq<char>,
    pub step: u64,
    pub detail: Seq<char>,
}

/// A report of the gates as a mathematical value.
#[verifier::ext_equal]
pub struct GateReportView {
    pub enabled: Seq<Seq<char>>,
    pub breaches: Seq<BreachView>,
}

impl View for Breach {
    type V = BreachView;

    open spec fn view(&self) -> BreachView {
        BreachView { gate: self.gate@, step: self.step, detail: self.detail@ }
    }
}

impl View for GateReport {
    type V = GateReportView;

    open spec fn view(&self) -> GateReportView {
        GateReportView {
            enabled: self.enabled@.map_values(|s: String| s@),
            breaches: self.breaches@.map_values(|b: Breach| b@),
        }
    }
}

impl GateReport {
    /// Whether no gate was breached.
    pub fn all_ok(&self) -> (r: bool)
        ensures
            r == (self.breaches@.len() == 0),
    {
        self.breaches.len() == 0
    }
}

} // verus!
