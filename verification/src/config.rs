//! Runtime configuration.

use vstd::prelude::*;

use crate::condition::Condition;
use crate::policy::MatchPolicy;
use crate::scalar::Real;

verus! {

/// The optional operating gates: monitors that a run can be watched by.
#[derive(Clone, Copy, PartialEq, Eq, Debug, Structural)]
pub enum Gate {
    Inv5,
    Inv6,
    Inv7,
    Inv8,
    Inv9,
    Inv10,
    Inv11,
}

/// Which gates watch a run, and the stutter budget they watch for.
#[derive(Clone, Debug)]
pub struct GateConfig {
    pub enabled: Vec<Gate>,
    pub stutter_k: u64,
}

/// The configuration of a run.
#[derive(Clone, Debug)]
pub struct AriaConfig {
    /// Number of optical modes N.
    pub n_modes: usize,
    /// Latent dimension dim(Z).
    pub latent_dim: usize,
    /// Residual tolerance.
    pub eps: Real,
    /// Energy tolerance.
    pub eps_energy: Real,
    /// Stutter budget K.
    pub stutter_k: u64,
    /// Schedule: a sequence of action letters.
    pub schedule: String,
    pub condition: Condition,
    pub match_policy: MatchPolicy,
    /// Name of the diffusion policy, handed to the diffuser as it is.
    pub diff_policy: String,
    /// Largest |V| + |E| that a match may leave behind.
    pub max_graph_size: usize,
    /// Distance below which a merge joins a latent to a node.
    pub merge_tau: Real,
    /// Whether dimensions below the documented bounds are let through.
    pub allow_sub_spec_dims: bool,
    pub seed: Option<u64>,
    /// Whether a broken invariant fails the step that broke it.
    pub strict: bool,
    pub gates: GateConfig,
    /// Name of the optical backend, when one is asked for.
    pub optical: Option<String>,
    /// Size of the discrete vocabulary.
    pub vocab_size: usize,
}

} // verus!
