//! Polynomial-identity check between a prover and a verifier, over a
//! fixed-point encoding of real coefficients.
use vstd::prelude::*;

pub mod fixed;
pub mod polynomials;
pub mod coefs;
pub mod roles;
pub mod protocol;

verus! {

/// Number of coefficient slots in every polynomial.
pub const POLY_SIZE: usize = 12;

/// Raw value stored in the slots that a coefficient list leaves empty.
pub const FILL_VALUE: i32 = 0;

} // verus!
