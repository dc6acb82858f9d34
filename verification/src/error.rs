//! What can go wrong in a run.

use vstd::prelude::*;

verus! {

/// A broken invariant, in words.
#[derive(Clone, Debug, PartialEq, Eq)]
pub struct Violation {
    pub text: String,
}

/// Which of the invariants Inv1 to Inv4 hold of a state.
#[derive(Clone, Copy, PartialEq, Eq, Debug, Structural)]
pub struct InvariantReport {
    pub inv1_ok: bool,
    pub inv2_ok: bool,
    pub inv3_ok: bool,
    pub inv4_ok: bool,
}

impl InvariantReport {
    /// Whether all four hold.
    pub open spec fn green(self) -> bool {
        self.inv1_ok && self.inv2_ok && self.inv3_ok && self.inv4_ok
    }

    /// Whether all four hold.
    pub fn all_ok(&self) -> (r: bool)
        ensures
            r == self.green(),
    {
        self.inv1_ok && self.inv2_ok && self.inv3_ok && self.inv4_ok
    }
}

/// The errors of the runtime.
#[derive(Clone, Debug, PartialEq, Eq)]
pub enum AriaError {
    /// The configuration or an input of the wrong shape.
    Config(String),
    /// A backend that failed or refused.
    Backend(String),
    /// A schedule or a size bound that cannot be met.
    Schedule(String),
    /// An invariant broken under strict checking.
    InvariantViolation(Violation),
}

/// An error as a mathematical value.
#[verifier::ext_equal]
pub enum ErrorView {
    Config(Seq<char>),
    Backend(Seq<char>),
    Schedule(Seq<char>),
    InvariantViolation(Seq<char>),
}

impl View for AriaError {
    type V = ErrorView;

    open spec fn view(&self) -> ErrorView {
        match *self {
            AriaError::Config(why) => ErrorView::Config(why@),
            AriaError::Backend(why) => ErrorView::Backend(why@),
            AriaError::Schedule(why) => ErrorView::Schedule(why@),
            AriaError::InvariantViolation(v) => ErrorView::InvariantViolation(v.text@),
        }
    }
}

impl AriaError {
    /// A copy of the error.
    pub fn copied(&self) -> (r: AriaError)
        ensures
            r@ == self@,
    {
        match self {
            AriaError::Config(why) => AriaError::Config(why.as_str().to_string()),
            AriaError::Backend(why) => AriaError::Backend(why.as_str().to_string()),
            AriaError::Schedule(why) => AriaError::Schedule(why.as_str().to_string()),
            AriaError::InvariantViolation(v) => AriaError::InvariantViolation(
                Violation { text: v.text.as_str().to_string() },
            ),
        }
    }
}

/// An answer with its error as a mathematical value.
pub open spec fn told<T>(r: Result<T, AriaError>) -> Result<T, ErrorView> {
    match r {
        Ok(x) => Ok(x),
        Err(e) => Err(e@),
    }
}

} // verus!
