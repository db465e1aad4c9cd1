//! Parameter and soundness estimation for proximity-testing IOPs (FRI, STIR,
//! WHIR) and the Basefold polynomial commitment scheme built atop them.
//!
//! Given a field descriptor and low-degree-test parameters, the crate derives
//! every round's concrete parameters (folding factors, domain sizes, query
//! counts, out-of-domain samples, proof-of-work bits) so that the assembled
//! protocol meets a requested bit-security level under a chosen proximity-gap
//! assumption, and assembles an abstract transcript from which proof size and
//! round-by-round soundness are read off.
//!
//! All soundness quantities are signed fractional bits on a log2 scale,
//! represented in fixed point (see [`fixed`]).

use vstd::prelude::*;

pub mod basefold;
pub mod errors;
pub mod field;
pub mod fixed;
pub mod fri;
pub mod proof_size;
pub mod protocol;
pub mod prox_gaps;
pub mod stir;
pub mod utils;
pub mod whir;

use field::Field;

verus! {

/// Selects a default maximum number of PoW bits such that any value greater
/// than it results in an error.
pub fn default_max_pow(num_variables: usize, log_inv_rate: usize) -> (r: usize)
    requires
        num_variables + log_inv_rate >= 3,
        num_variables + log_inv_rate <= usize::MAX,
    ensures
        r == num_variables + log_inv_rate - 3,
{
    num_variables + log_inv_rate - 3
}

/// The parameters for a (batched) low-degree test.
#[derive(Debug, Clone, Copy)]
pub struct LowDegreeParameters {
    /// The field the low degree test is over.
    pub field: Field,
    /// The log2 of the degree to be tested; positive.
    pub log_degree: usize,
    /// How many functions are tested (NOTE: not in log form); at least 1.
    pub batch_size: usize,
    /// The degree of constraints being proven on the committed words
    /// (0 for plain proximity testing).
    pub constraint_degree: usize,
}

/// A configuration-invariant violation or search exhaustion.
///
/// Every operation of the crate either fully succeeds or reports one of
/// these; no partially built configuration or transcript escapes.
#[derive(Debug, Clone, Copy, PartialEq, Eq, Structural)]
pub enum ParameterError {
    /// A folding factor was zero.
    ZeroFoldingFactor,
    /// The total folding requested exceeds the degree to be tested.
    FoldingExceedsDegree,
    /// The per-round folding factor and rate lists have different lengths.
    MismatchedRoundCounts,
    /// The instantiator does not support the requested constraint degree.
    UnsupportedConstraintDegree,
    /// A prover message's digest size differs from the protocol's.
    DigestSizeMismatch,
    /// A message was added, or a round ended, while no round was open.
    NoOpenRound,
    /// A round was started while another round was still open.
    RoundAlreadyOpen,
    /// A round was ended without any message in it.
    EmptyRound,
    /// The transcript was finalized while a round was still open.
    UnfinishedRound,
    /// No out-of-domain sample count up to 64 meets the security target.
    OodSamplesExhausted,
}

} // verus!
