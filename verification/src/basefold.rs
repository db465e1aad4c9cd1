//! The Basefold polynomial commitment scheme: like FRI it folds at a constant
//! rate and reopens every committed tree, but every fold is a sequence of
//! single-variable sumcheck folds, each charging a proximity-gaps error and a
//! constraint-folding error and carrying its own PoW value.

use vstd::prelude::*;
use vstd::arithmetic::power2::pow2;
use vstd::math::min;

use crate::LowDegreeParameters;
use crate::ParameterError;
use crate::errors::SecurityAssumption;
use crate::errors::spec_constraint_folding_error;
use crate::errors::spec_prox_gaps_error;
use crate::errors::spec_queries;
use crate::errors::spec_queries_error;
use crate::fri::spec_field_bits;
use crate::fri::spec_protocol_security_level;
use crate::protocol::Protocol;
use crate::protocol::ProverMessage;
use crate::protocol::RbRError;
use crate::protocol::VerifierMessage;
use crate::protocol::builder::ProtocolBuilder;
use crate::protocol::lemma_rounds_vms_fit_push;
use crate::protocol::lemma_vm_fits_one;
use crate::protocol::lemma_vm_fits_two;
use crate::protocol::spec_message_vm_fits;
use crate::protocol::spec_protocol_vms_fit;
use crate::protocol::spec_rounds_vms_fit;
use crate::protocol::proof_size::FieldElements;
use crate::protocol::proof_size::MerkleQueries;
use crate::protocol::proof_size::MerkleTree;
use crate::protocol::proof_size::ProofElement;
use crate::utils::lemma_sum_prefix_mono;
use crate::utils::min_fp;
use crate::utils::pow2_usize;
use crate::utils::pow_util;
use crate::utils::spec_pow_util;
use crate::utils::spec_sum_prefix;

verus! {

/// Parameters parametrizing an instance of Basefold. This does not include
/// the entire configuration, which is populated according to the required
/// security level.
#[derive(Clone)]
pub struct BasefoldParameters {
    /// The starting rate used in the protocol.
    pub starting_log_inv_rate: usize,
    /// The folding factor in the first round, in log form.
    pub starting_folding_factor: usize,
    /// The folding factors in the remaining rounds, in log form.
    pub folding_factors: Vec<usize>,
    /// The security assumption under which to configure Basefold.
    pub security_assumption: SecurityAssumption,
    /// The security level desired.
    pub security_level: usize,
    /// The number of PoW bits used to reduce the query error (grinding).
    pub pow_bits: usize,
    /// The size of the digest for the Merkle tree.
    pub digest_size_bits: usize,
}

/// The configuration and structure of the Basefold protocol.
#[derive(Debug, Clone)]
pub struct BasefoldProtocol {
    /// The flat numeric summary of the derivation.
    pub config: BasefoldConfig,
    /// The assembled transcript.
    pub protocol: Protocol,
}

/// A fully expanded Basefold configuration.
#[derive(Debug, Clone)]
pub struct BasefoldConfig {
    /// The configuration of the low-degree test desired.
    pub ldt_parameters: LowDegreeParameters,
    /// The security assumption under which Basefold was configured.
    pub security_assumption: SecurityAssumption,
    /// The desired security level.
    pub security_level: usize,
    /// The maximum number of PoW bits allowed.
    pub max_pow_bits: usize,
    /// The rate of the Reed-Solomon codes used during the protocol.
    pub log_inv_rate: usize,
    /// The PoW bits used in the batching phase (fixed-point).
    pub batching_pow_bits: i64,
    /// The initial folding factor.
    pub starting_folding_factor: usize,
    /// The initial domain size, in log form.
    pub starting_domain_log_size: usize,
    /// The PoW bits of each single-variable fold of the first round
    /// (fixed-point).
    pub starting_folding_pow_bits: Vec<i64>,
    /// The round-specific parameters.
    pub round_parameters: Vec<RoundConfig>,
    /// Degree of the final polynomial sent over, in log form.
    pub final_poly_log_degree: usize,
    /// Number of Basefold queries.
    pub queries: usize,
    /// Number of PoW bits for the queries (fixed-point).
    pub pow_bits: i64,
}

/// Round-specific configuration.
#[derive(Debug, Clone)]
pub struct RoundConfig {
    /// Folding factor for this round, in log form.
    pub folding_factor: usize,
    /// Size of the evaluation domain, in log form.
    pub evaluation_domain_log_size: usize,
    /// PoW bits of each single-variable fold of this round (fixed-point).
    pub folding_pow_bits: Vec<i64>,
}

/// The machine bounds under which a Basefold derivation is computable.
pub open spec fn spec_bf_inputs_ok(ldt: LowDegreeParameters, p: BasefoldParameters) -> bool {
    &&& 1 <= ldt.log_degree <= 60
    &&& 1 <= ldt.batch_size <= 0x10_0000
    &&& ldt.constraint_degree <= 0x10_0000
    &&& 1 <= ldt.field.field_size_bits
    &&& 1 <= ldt.field.extension_degree
    &&& spec_field_bits(ldt) <= 0x10_0000
    &&& pow2(ldt.log_degree as nat) * ldt.batch_size <= usize::MAX
    &&& ldt.constraint_degree + 1 <= usize::MAX
    &&& 1 <= p.starting_log_inv_rate <= 60
    &&& p.security_level <= 0x10_0000
    &&& p.pow_bits <= 0x10_0000
}

/// All folding factors are positive.
pub open spec fn spec_bf_factors_positive(p: BasefoldParameters) -> bool {
    &&& p.starting_folding_factor > 0
    &&& forall|i: int| 0 <= i < p.folding_factors@.len() ==> #[trigger] p.folding_factors@[i] > 0
}

/// The total degree reduction requested over all rounds.
pub open spec fn spec_bf_total_reduction(p: BasefoldParameters) -> int {
    p.starting_folding_factor + spec_sum_prefix(
        p.folding_factors@,
        p.folding_factors@.len() as int,
    )
}

/// The log degree of the polynomial before round i (after the initial folds
/// and the first i configured rounds).
pub open spec fn spec_bf_degree_before_round(
    ldt: LowDegreeParameters,
    p: BasefoldParameters,
    i: int,
) -> int {
    ldt.log_degree - p.starting_folding_factor - spec_sum_prefix(p.folding_factors@, i)
}

/// The PoW of one single-variable fold at current degree `cur`: the
/// two-function proximity-gaps error after the fold, combined by minimum
/// with the constraint-folding error at the current degree.
pub open spec fn spec_bf_step_pow(
    ldt: LowDegreeParameters,
    p: BasefoldParameters,
    cur: int,
) -> int {
    spec_pow_util(
        p.security_level as int,
        min(
            spec_prox_gaps_error(
                p.security_assumption,
                cur - 1,
                p.starting_log_inv_rate as int,
                spec_field_bits(ldt),
                2,
            ),
            spec_constraint_folding_error(
                p.security_assumption,
                cur,
                p.starting_log_inv_rate as int,
                spec_field_bits(ldt),
                ldt.constraint_degree as int,
            ),
        ),
    )
}

/// The error and PoW of batching the input functions, when more than one
/// function is tested.
pub open spec fn spec_bf_batching_pow(ldt: LowDegreeParameters, p: BasefoldParameters) -> int {
    if ldt.batch_size > 1 {
        spec_pow_util(
            p.security_level as int,
            spec_prox_gaps_error(
                p.security_assumption,
                ldt.log_degree as int,
                p.starting_log_inv_rate as int,
                spec_field_bits(ldt),
                ldt.batch_size as int,
            ),
        )
    } else {
        0
    }
}

impl BasefoldParameters {
    /// Instantiate a Basefold configuration where each round does a fixed
    /// amount of folding.
    pub fn fixed_folding(
        log_inv_rate: usize,
        folding_factor: usize,
        num_rounds: usize,
        security_assumption: SecurityAssumption,
        security_level: usize,
        pow_bits: usize,
        digest_size_bits: usize,
    ) -> (r: BasefoldParameters)
        ensures
            r.starting_log_inv_rate == log_inv_rate,
            r.starting_folding_factor == folding_factor,
            r.folding_factors@.len() == num_rounds,
            forall|i: int|
                0 <= i < num_rounds ==> #[trigger] r.folding_factors@[i] == folding_factor,
            r.security_assumption == security_assumption,
            r.security_level == security_level,
            r.pow_bits == pow_bits,
            r.digest_size_bits == digest_size_bits,
    {
        let mut folding_factors: Vec<usize> = Vec::new();
        let mut i: usize = 0;
        while i < num_rounds
            invariant
                i <= num_rounds,
                folding_factors@.len() == i,
                forall|k: int| 0 <= k < i ==> #[trigger] folding_factors@[k] == folding_factor,
            decreases num_rounds - i,
        {
            folding_factors.push(folding_factor);
            i = i + 1;
        }
        BasefoldParameters {
            starting_log_inv_rate: log_inv_rate,
            starting_folding_factor: folding_factor,
            folding_factors,
            security_assumption,
            security_level,
            pow_bits,
            digest_size_bits,
        }
    }
}

impl BasefoldProtocol {
    /// Given low-degree-test parameters and Basefold parameters, derive the
    /// full configuration and assemble the transcript.
    ///
    /// The derivation fails exactly when a folding factor is zero, when the
    /// requested folding exceeds the degree, when more than one function is
    /// batched with constraints of degree above two (which cannot be batched
    /// linearly), or when the digest size is not the 256 bits every Merkle
    /// commitment uses.
    #[verifier::loop_isolation(false)]
    #[verifier::rlimit(100)]
    pub fn new(
        ldt_parameters: LowDegreeParameters,
        basefold_parameters: BasefoldParameters,
    ) -> (res: Result<BasefoldProtocol, ParameterError>)
        requires
            spec_bf_inputs_ok(ldt_parameters, basefold_parameters),
        ensures
            !spec_bf_factors_positive(basefold_parameters) ==> res == Err::<
                BasefoldProtocol,
                ParameterError,
            >(ParameterError::ZeroFoldingFactor),
            spec_bf_factors_positive(basefold_parameters) && spec_bf_total_reduction(
                basefold_parameters,
            ) > ldt_parameters.log_degree ==> res == Err::<BasefoldProtocol, ParameterError>(
                ParameterError::FoldingExceedsDegree,
            ),
            spec_bf_factors_positive(basefold_parameters) && spec_bf_total_reduction(
                basefold_parameters,
            ) <= ldt_parameters.log_degree && ldt_parameters.batch_size > 1
                && ldt_parameters.constraint_degree > 2 ==> res == Err::<
                BasefoldProtocol,
                ParameterError,
            >(ParameterError::UnsupportedConstraintDegree),
            spec_bf_factors_positive(basefold_parameters) && spec_bf_total_reduction(
                basefold_parameters,
            ) <= ldt_parameters.log_degree && (ldt_parameters.batch_size <= 1
                || ldt_parameters.constraint_degree <= 2) && basefold_parameters.digest_size_bits
                != 256 ==> res == Err::<BasefoldProtocol, ParameterError>(
                ParameterError::DigestSizeMismatch,
            ),
            spec_bf_factors_positive(basefold_parameters) && spec_bf_total_reduction(
                basefold_parameters,
            ) <= ldt_parameters.log_degree && (ldt_parameters.batch_size <= 1
                || ldt_parameters.constraint_degree <= 2) && basefold_parameters.digest_size_bits
                == 256 ==> (res matches Ok(bp) && {
                let c = bp.config;
                let p = basefold_parameters;
                let num_rounds = p.folding_factors@.len() as int;
                let psl = spec_protocol_security_level(
                    p.security_level as int,
                    p.pow_bits as int,
                );
                &&& c.ldt_parameters == ldt_parameters
                &&& c.security_assumption == p.security_assumption
                &&& c.security_level == p.security_level
                &&& c.max_pow_bits == p.pow_bits
                &&& c.log_inv_rate == p.starting_log_inv_rate
                &&& c.batching_pow_bits == spec_bf_batching_pow(ldt_parameters, p)
                &&& c.starting_folding_factor == p.starting_folding_factor
                &&& c.starting_domain_log_size == ldt_parameters.log_degree
                    + p.starting_log_inv_rate
                &&& c.starting_folding_pow_bits@.len() == p.starting_folding_factor
                &&& forall|j: int|
                    0 <= j < p.starting_folding_factor
                        ==> #[trigger] c.starting_folding_pow_bits@[j] == spec_bf_step_pow(
                        ldt_parameters,
                        p,
                        ldt_parameters.log_degree - j,
                    )
                &&& c.round_parameters@.len() == num_rounds
                &&& forall|i: int|
                    0 <= i < num_rounds ==> {
                        let rc = #[trigger] c.round_parameters@[i];
                        &&& rc.folding_factor == p.folding_factors@[i]
                        &&& rc.evaluation_domain_log_size == spec_bf_degree_before_round(
                            ldt_parameters,
                            p,
                            i,
                        ) + p.starting_log_inv_rate
                        &&& rc.folding_pow_bits@.len() == p.folding_factors@[i]
                        &&& forall|j: int|
                            0 <= j < p.folding_factors@[i]
                                ==> #[trigger] rc.folding_pow_bits@[j] == spec_bf_step_pow(
                                ldt_parameters,
                                p,
                                spec_bf_degree_before_round(ldt_parameters, p, i) - j,
                            )
                    }
                &&& c.final_poly_log_degree == ldt_parameters.log_degree - spec_bf_total_reduction(
                    p,
                )
                &&& c.queries == spec_queries(
                    p.security_assumption,
                    psl,
                    p.starting_log_inv_rate as int,
                )
                &&& c.pow_bits == spec_pow_util(
                    p.security_level as int,
                    spec_queries_error(
                        p.security_assumption,
                        p.starting_log_inv_rate as int,
                        spec_queries(p.security_assumption, psl, p.starting_log_inv_rate as int),
                    ),
                )
                &&& bp.protocol.digest_size_bits == p.digest_size_bits
                &&& spec_protocol_vms_fit(bp.protocol)
                &&& bp.protocol.protocol_name@ == "Basefold protocol"@
                &&& bp.protocol.rounds@.len() == (if ldt_parameters.batch_size > 1 {
                    1int
                } else {
                    0int
                }) + 1 + num_rounds + 1
            }),
    {
        let ghost ldt = ldt_parameters;
        let ghost p = basefold_parameters;
        let ghost ffs = basefold_parameters.folding_factors@;
        let num_rounds = basefold_parameters.folding_factors.len();
        let assumption = basefold_parameters.security_assumption;

        // We need to fold at least some time.
        if basefold_parameters.starting_folding_factor == 0 {
            return Err(ParameterError::ZeroFoldingFactor);
        }
        let mut i: usize = 0;
        while i < num_rounds
            invariant
                i <= num_rounds,
                forall|k: int| 0 <= k < i ==> #[trigger] ffs[k] > 0,
            decreases num_rounds - i,
        {
            if basefold_parameters.folding_factors[i] == 0 {
                return Err(ParameterError::ZeroFoldingFactor);
            }
            i = i + 1;
        }

        // We cannot fold more than the available degree.
        if basefold_parameters.starting_folding_factor > ldt_parameters.log_degree {
            proof {
                lemma_sum_prefix_mono(ffs, 0, ffs.len() as int);
            }
            return Err(ParameterError::FoldingExceedsDegree);
        }
        let mut total_reduction = basefold_parameters.starting_folding_factor;
        let mut i: usize = 0;
        while i < num_rounds
            invariant
                i <= num_rounds,
                total_reduction == basefold_parameters.starting_folding_factor as int
                    + spec_sum_prefix(ffs, i as int),
                total_reduction <= ldt_parameters.log_degree,
            decreases num_rounds - i,
        {
            let ff = basefold_parameters.folding_factors[i];
            if ff > ldt_parameters.log_degree - total_reduction {
                proof {
                    lemma_sum_prefix_mono(ffs, i + 1, ffs.len() as int);
                }
                return Err(ParameterError::FoldingExceedsDegree);
            }
            total_reduction = total_reduction + ff;
            i = i + 1;
        }

        // Nonlinear constraints cannot be batched.
        if ldt_parameters.batch_size > 1 && ldt_parameters.constraint_degree > 2 {
            return Err(ParameterError::UnsupportedConstraintDegree);
        }

        // Every Merkle commitment below uses a 256-bit digest: any other
        // protocol digest size cannot match it.
        if basefold_parameters.digest_size_bits != 256 {
            return Err(ParameterError::DigestSizeMismatch);
        }

        // Compute the number of rounds and the leftover degree.
        let final_log_degree = ldt_parameters.log_degree - total_reduction;

        // Compute the security level that the queries must reach.
        let security_level = basefold_parameters.security_level;
        let protocol_security_level = if security_level >= basefold_parameters.pow_bits {
            security_level - basefold_parameters.pow_bits
        } else {
            0
        };

        // Initial domain size (the trace domain).
        let starting_folding_factor = basefold_parameters.starting_folding_factor;
        let starting_domain_log_size = ldt_parameters.log_degree
            + basefold_parameters.starting_log_inv_rate;
        let field_size_bits = ldt_parameters.field.extension_bit_size();

        let mut protocol_builder = ProtocolBuilder::new(
            "Basefold protocol",
            basefold_parameters.digest_size_bits,
        );

        // PoW bits for the batching step.
        let mut batching_pow_bits: i64 = 0;
        if ldt_parameters.batch_size > 1 {
            let prox_gaps_error_batching = assumption.prox_gaps_error(
                ldt_parameters.log_degree,
                basefold_parameters.starting_log_inv_rate,
                field_size_bits,
                ldt_parameters.batch_size,
            );
            batching_pow_bits = pow_util(security_level, prox_gaps_error_batching);

            // Add the round for the batching.
            let pb = match protocol_builder.start_round("batching_round") {
                Ok(b) => b,
                Err(e) => {
                    return Err(e);
                },
            };
            let mut errs: Vec<RbRError> = Vec::new();
            errs.push(RbRError::new("batching_error", prox_gaps_error_batching));
            let vmsg = VerifierMessage::new(errs, batching_pow_bits);
            proof {
                lemma_vm_fits_one(vmsg);
            }
            let ghost old_rounds = pb.rounds@;
            let pb = match pb.verifier_message(vmsg) {
                Ok(b) => b,
                Err(e) => {
                    return Err(e);
                },
            };
            protocol_builder = match pb.end_round() {
                Ok(b) => b,
                Err(e) => {
                    return Err(e);
                },
            };
            proof {
                lemma_rounds_vms_fit_push(
                    old_rounds,
                    protocol_builder.rounds@[old_rounds.len() as int],
                );
            }
        }
        proof {
            assert(spec_rounds_vms_fit(protocol_builder.rounds@));
        }
        let ghost base_rounds: int = if ldt.batch_size > 1 {
            1
        } else {
            0
        };

        proof {
            vstd::arithmetic::power2::lemma_pow2_pos(starting_folding_factor as nat);
            assert(pow2(starting_folding_factor as nat) <= pow2(ldt.log_degree as nat)) by {
                if starting_folding_factor < ldt.log_degree {
                    vstd::arithmetic::power2::lemma_pow2_strictly_increases(
                        starting_folding_factor as nat,
                        ldt.log_degree as nat,
                    );
                }
                lemma_sum_prefix_mono(ffs, 0, ffs.len() as int);
            }
            assert(pow2(ldt.log_degree as nat) * 1 <= pow2(ldt.log_degree as nat)
                * ldt.batch_size) by {
                vstd::arithmetic::mul::lemma_mul_inequality(
                    1,
                    ldt.batch_size as int,
                    pow2(ldt.log_degree as nat) as int,
                );
                vstd::arithmetic::mul::lemma_mul_is_commutative(
                    pow2(ldt.log_degree as nat) as int,
                    ldt.batch_size as int,
                );
            }
        }

        // Merkle tree committed to.
        let folds = pow2_usize(starting_folding_factor);
        proof {
            assert(folds * ldt.batch_size <= pow2(ldt.log_degree as nat) * ldt.batch_size) by {
                vstd::arithmetic::mul::lemma_mul_inequality(
                    folds as int,
                    pow2(ldt.log_degree as nat) as int,
                    ldt.batch_size as int,
                );
            }
        }
        let starting_merkle_tree = MerkleTree::new(
            starting_domain_log_size - starting_folding_factor,
            ldt_parameters.field,
            folds * ldt_parameters.batch_size,
            false,  // First tree is over the base field.
        );
        let mut commitments: Vec<MerkleTree> = Vec::new();
        commitments.push(starting_merkle_tree);

        // Degree of the next polynomial to send.
        let mut current_log_degree = ldt_parameters.log_degree;

        // The initial single-variable folds, one PoW value each.
        let mut starting_folding_pow_bits_vec: Vec<i64> = Vec::new();
        let mut pb = match protocol_builder.start_round("initial_iteration") {
            Ok(b) => b,
            Err(e) => {
                return Err(e);
            },
        };
        let mut j: usize = 0;
        while j < starting_folding_factor
            invariant
                j <= starting_folding_factor,
                current_log_degree == ldt.log_degree - j,
                starting_folding_pow_bits_vec@.len() == j,
                forall|k: int|
                    0 <= k < j ==> #[trigger] starting_folding_pow_bits_vec@[k]
                        == spec_bf_step_pow(ldt, p, ldt.log_degree - k),
                pb.protocol_name@ == "Basefold protocol"@,
                pb.digest_size_bits == p.digest_size_bits,
                pb.rounds@.len() == base_rounds,
                spec_rounds_vms_fit(pb.rounds@),
                pb.current_round matches Some(rb) && rb.messages@.len() == 2 * j && (forall|m: int|
                    0 <= m < rb.messages@.len() ==> spec_message_vm_fits(
                        #[trigger] rb.messages@[m],
                    )),
            decreases starting_folding_factor - j,
        {
            let prox_gaps_error = assumption.prox_gaps_error(
                current_log_degree - 1,
                basefold_parameters.starting_log_inv_rate,
                field_size_bits,
                2,
            );
            let sumcheck_error = assumption.constraint_folding_error(
                current_log_degree,
                basefold_parameters.starting_log_inv_rate,
                field_size_bits,
                ldt_parameters.constraint_degree,
            );
            let starting_folding_pow_bits = pow_util(
                security_level,
                min_fp(prox_gaps_error, sumcheck_error),
            );

            pb = match pb.prover_message(
                ProverMessage::new(
                    ProofElement::FieldElements(
                        FieldElements {
                            field: ldt_parameters.field,
                            num_elements: ldt_parameters.constraint_degree + 1,
                            is_extension: true,
                        },
                    ),
                ),
            ) {
                Ok(b) => b,
                Err(e) => {
                    return Err(e);
                },
            };
            let mut errs: Vec<RbRError> = Vec::new();
            errs.push(RbRError::new("folding_error", prox_gaps_error));
            errs.push(RbRError::new("sumcheck_error", sumcheck_error));
            let vmsg = VerifierMessage::new(errs, starting_folding_pow_bits);
            proof {
                lemma_vm_fits_two(vmsg);
            }
            pb = match pb.verifier_message(vmsg) {
                Ok(b) => b,
                Err(e) => {
                    return Err(e);
                },
            };

            starting_folding_pow_bits_vec.push(starting_folding_pow_bits);
            current_log_degree = current_log_degree - 1;
            j = j + 1;
        }
        let ghost rounds_before_initial = pb.rounds@;
        protocol_builder = match pb.end_round() {
            Ok(b) => b,
            Err(e) => {
                return Err(e);
            },
        };
        proof {
            lemma_rounds_vms_fit_push(
                rounds_before_initial,
                protocol_builder.rounds@[rounds_before_initial.len() as int],
            );
        }

        proof {
            lemma_sum_prefix_mono(ffs, 0, ffs.len() as int);
        }
        let mut round_parameters: Vec<RoundConfig> = Vec::new();
        let mut i: usize = 0;
        while i < num_rounds
            invariant
                i <= num_rounds,
                current_log_degree == spec_bf_degree_before_round(ldt, p, i as int),
                current_log_degree >= ldt.log_degree - spec_bf_total_reduction(p),
                round_parameters@.len() == i,
                forall|k: int|
                    0 <= k < i ==> {
                        let rc = #[trigger] round_parameters@[k];
                        &&& rc.folding_factor == ffs[k]
                        &&& rc.evaluation_domain_log_size == spec_bf_degree_before_round(
                            ldt,
                            p,
                            k,
                        ) + p.starting_log_inv_rate
                        &&& rc.folding_pow_bits@.len() == ffs[k]
                        &&& forall|m: int|
                            0 <= m < ffs[k] ==> #[trigger] rc.folding_pow_bits@[m]
                                == spec_bf_step_pow(
                                ldt,
                                p,
                                spec_bf_degree_before_round(ldt, p, k) - m,
                            )
                    },
                commitments@.len() == i + 1,
                forall|k: int|
                    0 <= k < commitments@.len() ==> (#[trigger] commitments@[k]).digest_size
                        == 256,
                protocol_builder.protocol_name@ == "Basefold protocol"@,
                protocol_builder.digest_size_bits == p.digest_size_bits,
                protocol_builder.current_round is None,
                protocol_builder.rounds@.len() == base_rounds + 1 + i,
                spec_rounds_vms_fit(protocol_builder.rounds@),
            decreases num_rounds - i,
        {
            proof {
                lemma_sum_prefix_mono(ffs, 0, i as int);
                lemma_sum_prefix_mono(ffs, i as int, i + 1);
                lemma_sum_prefix_mono(ffs, i + 1, ffs.len() as int);
            }
            let folding_factor = basefold_parameters.folding_factors[i];
            let new_evaluation_domain_size = current_log_degree
                + basefold_parameters.starting_log_inv_rate;

            proof {
                assert(folding_factor <= ldt.log_degree);
                assert(pow2(folding_factor as nat) <= pow2(ldt.log_degree as nat)) by {
                    if folding_factor < ldt.log_degree {
                        vstd::arithmetic::power2::lemma_pow2_strictly_increases(
                            folding_factor as nat,
                            ldt.log_degree as nat,
                        );
                    }
                }
                vstd::arithmetic::power2::lemma_pow2_pos(folding_factor as nat);
            }
            // Send the new oracle.
            let leaf = pow2_usize(folding_factor);
            let current_merkle_tree = MerkleTree::new(
                new_evaluation_domain_size - folding_factor,
                ldt_parameters.field,
                leaf,
                true,
            );
            let mut pb = match protocol_builder.start_round("basefold_iteration") {
                Ok(b) => b,
                Err(e) => {
                    return Err(e);
                },
            };
            pb = match pb.prover_message(
                ProverMessage::new(ProofElement::MerkleRoot(current_merkle_tree)),
            ) {
                Ok(b) => b,
                Err(e) => {
                    return Err(e);
                },
            };
            commitments.push(current_merkle_tree);

            // The single-variable folds of this round, one PoW value each.
            let ghost degree_at_round = current_log_degree as int;
            let mut pow_bits_vec: Vec<i64> = Vec::new();
            let mut j: usize = 0;
            while j < folding_factor
                invariant
                    j <= folding_factor,
                    current_log_degree == degree_at_round - j,
                    degree_at_round - folding_factor >= 0,
                    pow_bits_vec@.len() == j,
                    forall|m: int|
                        0 <= m < j ==> #[trigger] pow_bits_vec@[m] == spec_bf_step_pow(
                            ldt,
                            p,
                            degree_at_round - m,
                        ),
                    pb.protocol_name@ == "Basefold protocol"@,
                    pb.digest_size_bits == p.digest_size_bits,
                    pb.rounds@.len() == base_rounds + 1 + i,
                    spec_rounds_vms_fit(pb.rounds@),
                    pb.current_round matches Some(rb) && rb.messages@.len() == 1 + 2 * j && (
                    forall|m: int|
                        0 <= m < rb.messages@.len() ==> spec_message_vm_fits(
                            #[trigger] rb.messages@[m],
                        )),
                decreases folding_factor - j,
            {
                let prox_gaps_error = assumption.prox_gaps_error(
                    current_log_degree - 1,
                    basefold_parameters.starting_log_inv_rate,
                    field_size_bits,
                    2,
                );
                let sumcheck_error = assumption.constraint_folding_error(
                    current_log_degree,
                    basefold_parameters.starting_log_inv_rate,
                    field_size_bits,
                    ldt_parameters.constraint_degree,
                );
                let step_pow_bits = pow_util(
                    security_level,
                    min_fp(prox_gaps_error, sumcheck_error),
                );

                pb = match pb.prover_message(
                    ProverMessage::new(
                        ProofElement::FieldElements(
                            FieldElements {
                                field: ldt_parameters.field,
                                num_elements: ldt_parameters.constraint_degree + 1,
                                is_extension: true,
                            },
                        ),
                    ),
                ) {
                    Ok(b) => b,
                    Err(e) => {
                        return Err(e);
                    },
                };
                let mut errs: Vec<RbRError> = Vec::new();
                errs.push(RbRError::new("folding_error", prox_gaps_error));
                errs.push(RbRError::new("sumcheck_error", sumcheck_error));
                let vmsg = VerifierMessage::new(errs, step_pow_bits);
                proof {
                    lemma_vm_fits_two(vmsg);
                }
                pb = match pb.verifier_message(vmsg) {
                    Ok(b) => b,
                    Err(e) => {
                        return Err(e);
                    },
                };

                pow_bits_vec.push(step_pow_bits);
                current_log_degree = current_log_degree - 1;
                j = j + 1;
            }
            let ghost rounds_before = pb.rounds@;
            protocol_builder = match pb.end_round() {
                Ok(b) => b,
                Err(e) => {
                    return Err(e);
                },
            };
            proof {
                lemma_rounds_vms_fit_push(
                    rounds_before,
                    protocol_builder.rounds@[rounds_before.len() as int],
                );
            }

            let round_config = RoundConfig {
                evaluation_domain_log_size: new_evaluation_domain_size,
                folding_factor,
                folding_pow_bits: pow_bits_vec,
            };
            round_parameters.push(round_config);

            i = i + 1;
        }

        // Compute the number of queries required.
        let final_queries = assumption.queries(
            protocol_security_level,
            basefold_parameters.starting_log_inv_rate,
        );

        // We need to compute the error, to compute the according PoW.
        let query_error = assumption.queries_error(
            basefold_parameters.starting_log_inv_rate,
            final_queries,
        );

        // Now compute the PoW.
        let final_pow_bits = pow_util(security_level, query_error);

        let pb = match protocol_builder.start_round("query_round") {
            Ok(b) => b,
            Err(e) => {
                return Err(e);
            },
        };
        let mut errs: Vec<RbRError> = Vec::new();
        errs.push(RbRError::new("query_error", query_error));
        let vmsg = VerifierMessage::new(errs, final_pow_bits);
        proof {
            lemma_vm_fits_one(vmsg);
        }
        let ghost rounds_before_final = protocol_builder.rounds@;
        let pb = match pb.verifier_message(vmsg) {
            Ok(b) => b,
            Err(e) => {
                return Err(e);
            },
        };
        proof {
            assert(pow2(final_log_degree as nat) <= pow2(ldt.log_degree as nat)) by {
                if final_log_degree < ldt.log_degree {
                    vstd::arithmetic::power2::lemma_pow2_strictly_increases(
                        final_log_degree as nat,
                        ldt.log_degree as nat,
                    );
                }
            }
        }
        let final_elements = pow2_usize(final_log_degree);
        let mut pb = match pb.prover_message(
            ProverMessage::new(
                ProofElement::FieldElements(
                    FieldElements {
                        field: ldt_parameters.field,
                        num_elements: final_elements,
                        is_extension: true,
                    },
                ),
            ),
        ) {
            Ok(b) => b,
            Err(e) => {
                return Err(e);
            },
        };

        let mut k: usize = 0;
        let ghost pb_before = pb;
        while k < commitments.len()
            invariant
                k <= commitments@.len(),
                pb.protocol_name@ == "Basefold protocol"@,
                pb.digest_size_bits == p.digest_size_bits,
                pb.rounds@.len() == pb_before.rounds@.len(),
                pb.rounds@ == rounds_before_final,
                pb.current_round matches Some(rb) && rb.messages@.len() >= 2 && (forall|m: int|
                    0 <= m < rb.messages@.len() ==> spec_message_vm_fits(
                        #[trigger] rb.messages@[m],
                    )),
            decreases commitments@.len() - k,
        {
            // The queries against each committed tree.
            let tree = commitments[k];
            pb = match pb.prover_message(
                ProverMessage::new(
                    ProofElement::MerkleQueries(
                        MerkleQueries { merkle_tree: tree, num_openings: final_queries },
                    ),
                ),
            ) {
                Ok(b) => b,
                Err(e) => {
                    return Err(e);
                },
            };
            k = k + 1;
        }

        let pb = match pb.end_round() {
            Ok(b) => b,
            Err(e) => {
                return Err(e);
            },
        };
        proof {
            lemma_rounds_vms_fit_push(
                rounds_before_final,
                pb.rounds@[rounds_before_final.len() as int],
            );
        }
        let protocol = match pb.build() {
            Ok(pr) => pr,
            Err(e) => {
                return Err(e);
            },
        };

        Ok(
            BasefoldProtocol {
                config: BasefoldConfig {
                    ldt_parameters,
                    security_assumption: basefold_parameters.security_assumption,
                    security_level,
                    max_pow_bits: basefold_parameters.pow_bits,
                    batching_pow_bits,
                    starting_folding_factor,
                    starting_domain_log_size,
                    log_inv_rate: basefold_parameters.starting_log_inv_rate,
                    starting_folding_pow_bits: starting_folding_pow_bits_vec,
                    round_parameters,
                    queries: final_queries,
                    pow_bits: final_pow_bits,
                    final_poly_log_degree: final_log_degree,
                },
                protocol,
            },
        )
    }
}

} // verus!
