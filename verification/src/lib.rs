//! A succinct interactive-proof engine for a custom-gate arithmetic circuit
//! with wire-permutation (copy) constraints, in the HyperPlonk style.
//!
//! The crate is organised leaf to root: exact modular arithmetic in a 64-bit
//! prime field and its quadratic extension, multilinear-extension polynomials
//! over the Boolean hypercube, a Fiat-Shamir transcript, the generic sumcheck
//! reduction, grand-product arguments built on it, and the top-level prover
//! and verifier that compose them.
#![verifier::loop_isolation(false)]

pub mod dynamic_field;
pub mod ext_field;
pub mod poly;
pub mod circuit;
pub mod poly_commit;
pub mod prod_check;
pub mod prod_eq_check;
pub mod prover;
pub mod sumcheck;
pub mod verify;
pub mod fiat_shamir;
pub mod field;

use vstd::prelude::*;

verus! {

} // verus!
