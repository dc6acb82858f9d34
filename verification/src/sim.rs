//! A full suite of operators that fit each other.
//!
//! What the operators do is up to their implementations; this module sees to it that
//! all four are built for the same dimensions.

use vstd::prelude::*;

use crate::backend::{Diffuser, GraphBackend, OpticalBackend, Predictor};

verus! {

/// An operator that is built for a number of modes.
pub trait OverModes: Sized {
    fn new(n_modes: usize) -> Self;
}

/// An operator that is built for a number of modes and a latent dimension.
pub trait OverModesAndLatents: Sized {
    fn new(n_modes: usize, latent_dim: usize) -> Self;
}

/// An operator that is built for a latent dimension.
pub trait OverLatents: Sized {
    fn new(latent_dim: usize) -> Self;
}

/// Builds the four operators of an engine.
pub fn sim_backends<O, P, G, D>(n_modes: usize, latent_dim: usize) -> (r: (O, P, G, D)) where
    O: OpticalBackend + OverModes,
    P: Predictor + OverModesAndLatents,
    G: GraphBackend + OverLatents,
    D: Diffuser + OverLatents,

    ensures
        call_ensures(O::new, (n_modes,), r.0),
        call_ensures(P::new, (n_modes, latent_dim), r.1),
        call_ensures(G::new, (latent_dim,), r.2),
        call_ensures(D::new, (latent_dim,), r.3),
{
    (O::new(n_modes), P::new(n_modes, latent_dim), G::new(latent_dim), D::new(latent_dim))
}

} // verus!
