//! The state that the engine carries from step to step.

use vstd::prelude::*;

use crate::graph::{copied, Graph, GraphView};
use crate::scalar::{Complex, Real};

verus! {

/// The state: field, latent, graph and clock, with the residual before the last
/// step and the energy at the start.
#[derive(Clone, Debug)]
pub struct State {
    pub psi: Vec<Complex>,
    pub z: Vec<Real>,
    pub g: Graph,
    pub t: u64,
    pub prev_res: Real,
    pub energy_0: Real,
}

/// A state as a mathematical value.
#[verifier::ext_equal]
pub struct StateView {
    pub psi: Seq<Complex>,
    pub z: Seq<Real>,
    pub g: GraphView,
    pub t: u64,
    pub prev_res: Real,
    pub energy_0: Real,
}

impl View for State {
    type V = StateView;

    open spec fn view(&self) -> StateView {
        StateView {
            psi: self.psi@,
            z: self.z@,
            g: self.g@,
            t: self.t,
            prev_res: self.prev_res,
            energy_0: self.energy_0,
        }
    }
}

impl State {
    /// A copy of the state.
    pub fn copied(&self) -> (r: State)
        ensures
            r@ == self@,
    {
        State {
            psi: copied(&self.psi),
            z: copied(&self.z),
            g: self.g.copied(),
            t: self.t,
            prev_res: self.prev_res,
            energy_0: self.energy_0,
        }
    }
}

} // verus!
