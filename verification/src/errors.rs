//! The failure taxonomy of the crate.
//!
//! Every failure is structural — a malformed input to a single setup,
//! evaluation or proof attempt — and is surfaced immediately; none is
//! transient and none is retried.

use vstd::prelude::*;

verus! {

/// Why a setup, evaluation or proof attempt was rejected.
#[derive(Clone, Copy, Debug, PartialEq, Eq, Structural)]
pub enum VdfError {
    /// The modulus is not an odd integer greater than 1, or the
    /// generator is zero.
    InvalidGroupParameters,
    /// The requested modulus size is too small to generate safe prime
    /// factors for.
    PrimeGenerationError,
    /// The proof challenge is 0 or 1, for which the residue is trivial.
    ChallengeTooSmall,
    /// A proof instance was asked to run without its witness inputs.
    MissingWitness,
    /// The base shares a factor with the modulus, which breaks the
    /// Euler reduction behind the trapdoor evaluation.
    NonCoprimeBase,
    /// The claimed result fails the proof-of-exponentiation identity.
    ProofUnsatisfied,
}

} // verus!
