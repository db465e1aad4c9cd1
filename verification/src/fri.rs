//! The FRI low-degree test: per round it folds the polynomial by a configured
//! factor at a constant rate, charging one proximity-gaps error per round; a
//! final query phase opens every committed tree.

use vstd::prelude::*;
use vstd::arithmetic::power2::pow2;

use crate::LowDegreeParameters;
use crate::ParameterError;
use crate::errors::SecurityAssumption;
use crate::errors::spec_prox_gaps_error;
use crate::errors::spec_queries;
use crate::errors::spec_queries_error;
use crate::protocol::Protocol;
use crate::protocol::ProverMessage;
use crate::protocol::RbRError;
use crate::protocol::VerifierMessage;
use crate::protocol::builder::ProtocolBuilder;
use crate::protocol::lemma_rounds_vms_fit_push;
use crate::protocol::lemma_vm_fits_one;
use crate::protocol::spec_message_vm_fits;
use crate::protocol::spec_protocol_vms_fit;
use crate::protocol::spec_rounds_vms_fit;
use crate::protocol::proof_size::FieldElements;
use crate::protocol::proof_size::MerkleQueries;
use crate::protocol::proof_size::MerkleTree;
use crate::protocol::proof_size::ProofElement;
use crate::utils::lemma_sum_prefix_mono;
use crate::utils::pow2_usize;
use crate::utils::pow_util;
use crate::utils::spec_pow_util;
use crate::utils::spec_sum_prefix;

verus! {

/// Parameters parametrizing an instance of FRI. This does not include the
/// entire configuration, which is populated according to the required
/// security level.
#[derive(Clone)]
pub struct FriParameters {
    /// The starting rate used in the protocol.
    pub starting_log_inv_rate: usize,
    /// The folding factor in the first round, in log form: a starting
    /// folding factor of 2 reduces the degree by a factor of 4.
    pub starting_folding_factor: usize,
    /// The folding factors in the remaining rounds, in log form.
    pub folding_factors: Vec<usize>,
    /// The security assumption under which to configure FRI.
    pub security_assumption: SecurityAssumption,
    /// The security level desired.
    pub security_level: usize,
    /// The number of PoW bits used to reduce the query error (also called
    /// grinding). This does not affect the PoW bits reducing the
    /// proximity-gaps errors.
    pub pow_bits: usize,
    /// The size of the digest for the Merkle tree.
    pub digest_size_bits: usize,
}

/// The configuration and structure of the FRI protocol.
#[derive(Debug, Clone)]
pub struct FriProtocol {
    /// The flat numeric summary of the derivation.
    pub config: FriConfig,
    /// The assembled transcript.
    pub protocol: Protocol,
}

/// A fully expanded FRI configuration.
#[derive(Debug, Clone)]
pub struct FriConfig {
    /// The configuration of the low-degree test desired.
    pub ldt_parameters: LowDegreeParameters,
    /// The security assumption under which FRI was configured.
    pub security_assumption: SecurityAssumption,
    /// The desired security level.
    pub security_level: usize,
    /// The maximum number of PoW bits allowed.
    pub max_pow_bits: usize,
    /// The rate of the Reed-Solomon codes used during the protocol.
    pub log_inv_rate: usize,
    /// The PoW bits used in the batching phase (fixed-point).
    pub batching_pow_bits: i64,
    /// The initial folding factor.
    pub starting_folding_factor: usize,
    /// The initial domain size, in log form.
    pub starting_domain_log_size: usize,
    /// The PoW bits used in the first fold (fixed-point).
    pub starting_folding_pow_bits: i64,
    /// The round-specific parameters.
    pub round_parameters: Vec<RoundConfig>,
    /// Degree of the final polynomial sent over, in log form.
    pub final_poly_log_degree: usize,
    /// Number of FRI queries.
    pub queries: usize,
    /// Number of PoW bits for the queries (fixed-point).
    pub pow_bits: i64,
}

/// Round-specific configuration.
#[derive(Debug, Clone)]
pub struct RoundConfig {
    /// Folding factor for this round, in log form.
    pub folding_factor: usize,
    /// Size of the evaluation domain, in log form.
    pub evaluation_domain_log_size: usize,
    /// PoW bits for the folding of this round (fixed-point).
    pub folding_pow_bits: i64,
}

/// The bit size of the extension field of a low-degree test.
pub open spec fn spec_field_bits(ldt: LowDegreeParameters) -> int {
    ldt.field.extension_degree * ldt.field.field_size_bits
}

/// The security level the query count must reach after grinding:
/// max(0, security_level - pow_bits).
pub open spec fn spec_protocol_security_level(level: int, pow_bits: int) -> int {
    if level >= pow_bits {
        level - pow_bits
    } else {
        0
    }
}

/// The machine bounds under which a FRI derivation is computable.
pub open spec fn spec_fri_inputs_ok(ldt: LowDegreeParameters, p: FriParameters) -> bool {
    &&& 1 <= ldt.log_degree <= 60
    &&& 1 <= ldt.batch_size <= 0x10_0000
    &&& 1 <= ldt.field.field_size_bits
    &&& 1 <= ldt.field.extension_degree
    &&& spec_field_bits(ldt) <= 0x10_0000
    &&& pow2(ldt.log_degree as nat) * ldt.batch_size <= usize::MAX
    &&& 1 <= p.starting_log_inv_rate <= 60
    &&& p.security_level <= 0x10_0000
    &&& p.pow_bits <= 0x10_0000
}

/// All folding factors are positive: folding by a factor of 1 is no folding.
pub open spec fn spec_fri_factors_positive(p: FriParameters) -> bool {
    &&& p.starting_folding_factor > 0
    &&& forall|i: int| 0 <= i < p.folding_factors@.len() ==> #[trigger] p.folding_factors@[i] > 0
}

/// The total degree reduction requested over all rounds.
pub open spec fn spec_fri_total_reduction(p: FriParameters) -> int {
    p.starting_folding_factor + spec_sum_prefix(
        p.folding_factors@,
        p.folding_factors@.len() as int,
    )
}

/// The log degree of the polynomial before round i (after the initial fold
/// and the first i configured folds).
pub open spec fn spec_fri_degree_before_round(
    ldt: LowDegreeParameters,
    p: FriParameters,
    i: int,
) -> int {
    ldt.log_degree - p.starting_folding_factor - spec_sum_prefix(p.folding_factors@, i)
}

/// The proximity-gaps error charged in round i, at the degree after that
/// round's fold and the constant rate.
pub open spec fn spec_fri_round_error(ldt: LowDegreeParameters, p: FriParameters, i: int) -> int {
    spec_prox_gaps_error(
        p.security_assumption,
        spec_fri_degree_before_round(ldt, p, i) - p.folding_factors@[i],
        p.starting_log_inv_rate as int,
        spec_field_bits(ldt),
        pow2(p.folding_factors@[i] as nat) as int,
    )
}

/// The PoW bits charged in round i.
pub open spec fn spec_fri_round_pow(ldt: LowDegreeParameters, p: FriParameters, i: int) -> int {
    spec_pow_util(p.security_level as int, spec_fri_round_error(ldt, p, i))
}

/// The error and PoW of batching the input functions, when more than one
/// function is tested.
pub open spec fn spec_fri_batching_pow(ldt: LowDegreeParameters, p: FriParameters) -> int {
    if ldt.batch_size > 1 {
        spec_pow_util(
            p.security_level as int,
            spec_prox_gaps_error(
                p.security_assumption,
                ldt.log_degree as int,
                p.starting_log_inv_rate as int,
                spec_field_bits(ldt),
                ldt.batch_size as int,
            ),
        )
    } else {
        0
    }
}

/// The error and PoW of the initial fold.
pub open spec fn spec_fri_starting_fold_pow(ldt: LowDegreeParameters, p: FriParameters) -> int {
    spec_pow_util(
        p.security_level as int,
        spec_prox_gaps_error(
            p.security_assumption,
            ldt.log_degree - p.starting_folding_factor,
            p.starting_log_inv_rate as int,
            spec_field_bits(ldt),
            pow2(p.starting_folding_factor as nat) as int,
        ),
    )
}

impl FriParameters {
    /// Instantiate a FRI configuration where each round does a fixed amount
    /// of folding.
    pub fn fixed_folding(
        log_inv_rate: usize,
        folding_factor: usize,
        num_rounds: usize,
        security_assumption: SecurityAssumption,
        security_level: usize,
        pow_bits: usize,
        digest_size_bits: usize,
    ) -> (r: FriParameters)
        ensures
            r.starting_log_inv_rate == log_inv_rate,
            r.starting_folding_factor == folding_factor,
            r.folding_factors@.len() == num_rounds,
            forall|i: int|
                0 <= i < num_rounds ==> #[trigger] r.folding_factors@[i] == folding_factor,
            r.security_assumption == security_assumption,
            r.security_level == security_level,
            r.pow_bits == pow_bits,
            r.digest_size_bits == digest_size_bits,
    {
        let mut folding_factors: Vec<usize> = Vec::new();
        let mut i: usize = 0;
        while i < num_rounds
            invariant
                i <= num_rounds,
                folding_factors@.len() == i,
                forall|k: int| 0 <= k < i ==> #[trigger] folding_factors@[k] == folding_factor,
            decreases num_rounds - i,
        {
            folding_factors.push(folding_factor);
            i = i + 1;
        }
        FriParameters {
            starting_log_inv_rate: log_inv_rate,
            starting_folding_factor: folding_factor,
            folding_factors,
            security_assumption,
            security_level,
            pow_bits,
            digest_size_bits,
        }
    }
}

impl FriProtocol {
    /// Given low-degree-test parameters and FRI parameters, derive the full
    /// configuration and assemble the transcript.
    ///
    /// The derivation fails exactly when a folding factor is zero, when the
    /// requested folding exceeds the degree, or when the digest size is not
    /// the 256 bits every Merkle commitment uses.
    #[verifier::loop_isolation(false)]
    #[verifier::rlimit(60)]
    pub fn new(ldt_parameters: LowDegreeParameters, fri_parameters: FriParameters) -> (res: Result<
        FriProtocol,
        ParameterError,
    >)
        requires
            spec_fri_inputs_ok(ldt_parameters, fri_parameters),
        ensures
            !spec_fri_factors_positive(fri_parameters) ==> res == Err::<
                FriProtocol,
                ParameterError,
            >(ParameterError::ZeroFoldingFactor),
            spec_fri_factors_positive(fri_parameters) && spec_fri_total_reduction(fri_parameters)
                > ldt_parameters.log_degree ==> res == Err::<FriProtocol, ParameterError>(
                ParameterError::FoldingExceedsDegree,
            ),
            spec_fri_factors_positive(fri_parameters) && spec_fri_total_reduction(fri_parameters)
                <= ldt_parameters.log_degree && fri_parameters.digest_size_bits != 256 ==> res
                == Err::<FriProtocol, ParameterError>(ParameterError::DigestSizeMismatch),
            spec_fri_factors_positive(fri_parameters) && spec_fri_total_reduction(fri_parameters)
                <= ldt_parameters.log_degree && fri_parameters.digest_size_bits == 256 ==> (res
                matches Ok(fp) && {
                let c = fp.config;
                let p = fri_parameters;
                let num_rounds = p.folding_factors@.len() as int;
                let psl = spec_protocol_security_level(
                    p.security_level as int,
                    p.pow_bits as int,
                );
                &&& c.ldt_parameters == ldt_parameters
                &&& c.security_assumption == p.security_assumption
                &&& c.security_level == p.security_level
                &&& c.max_pow_bits == p.pow_bits
                &&& c.log_inv_rate == p.starting_log_inv_rate
                &&& c.batching_pow_bits == spec_fri_batching_pow(ldt_parameters, p)
                &&& c.starting_folding_factor == p.starting_folding_factor
                &&& c.starting_domain_log_size == ldt_parameters.log_degree
                    + p.starting_log_inv_rate
                &&& c.starting_folding_pow_bits == spec_fri_starting_fold_pow(ldt_parameters, p)
                &&& c.round_parameters@.len() == num_rounds
                &&& forall|i: int|
                    0 <= i < num_rounds ==> {
                        let rc = #[trigger] c.round_parameters@[i];
                        &&& rc.folding_factor == p.folding_factors@[i]
                        &&& rc.evaluation_domain_log_size == spec_fri_degree_before_round(
                            ldt_parameters,
                            p,
                            i,
                        ) + p.starting_log_inv_rate
                        &&& rc.folding_pow_bits == spec_fri_round_pow(ldt_parameters, p, i)
                    }
                &&& c.final_poly_log_degree == ldt_parameters.log_degree
                    - spec_fri_total_reduction(p)
                &&& c.queries == spec_queries(
                    p.security_assumption,
                    psl,
                    p.starting_log_inv_rate as int,
                )
                &&& c.pow_bits == spec_pow_util(
                    p.security_level as int,
                    spec_queries_error(
                        p.security_assumption,
                        p.starting_log_inv_rate as int,
                        spec_queries(p.security_assumption, psl, p.starting_log_inv_rate as int),
                    ),
                )
                &&& fp.protocol.digest_size_bits == p.digest_size_bits
                &&& spec_protocol_vms_fit(fp.protocol)
                &&& fp.protocol.protocol_name@ == "FRI protocol"@
                &&& fp.protocol.rounds@.len() == (if ldt_parameters.batch_size > 1 {
                    1int
                } else {
                    0int
                }) + 1 + num_rounds + 1
            }),
    {
        let ghost ldt = ldt_parameters;
        let ghost p = fri_parameters;
        let ghost ffs = fri_parameters.folding_factors@;
        let num_rounds = fri_parameters.folding_factors.len();
        let assumption = fri_parameters.security_assumption;

        // We need to fold at least some time.
        if fri_parameters.starting_folding_factor == 0 {
            return Err(ParameterError::ZeroFoldingFactor);
        }
        let mut i: usize = 0;
        while i < num_rounds
            invariant
                i <= num_rounds,
                forall|k: int| 0 <= k < i ==> #[trigger] ffs[k] > 0,
            decreases num_rounds - i,
        {
            if fri_parameters.folding_factors[i] == 0 {
                return Err(ParameterError::ZeroFoldingFactor);
            }
            i = i + 1;
        }

        // We cannot fold more than the available degree.
        if fri_parameters.starting_folding_factor > ldt_parameters.log_degree {
            proof {
                lemma_sum_prefix_mono(ffs, 0, ffs.len() as int);
            }
            return Err(ParameterError::FoldingExceedsDegree);
        }
        let mut total_reduction = fri_parameters.starting_folding_factor;
        let mut i: usize = 0;
        while i < num_rounds
            invariant
                i <= num_rounds,
                total_reduction == fri_parameters.starting_folding_factor as int
                    + spec_sum_prefix(ffs, i as int),
                total_reduction <= ldt_parameters.log_degree,
            decreases num_rounds - i,
        {
            let ff = fri_parameters.folding_factors[i];
            if ff > ldt_parameters.log_degree - total_reduction {
                proof {
                    lemma_sum_prefix_mono(ffs, i + 1, ffs.len() as int);
                }
                return Err(ParameterError::FoldingExceedsDegree);
            }
            total_reduction = total_reduction + ff;
            i = i + 1;
        }

        // Every Merkle commitment below uses a 256-bit digest: any other
        // protocol digest size cannot match it.
        if fri_parameters.digest_size_bits != 256 {
            return Err(ParameterError::DigestSizeMismatch);
        }

        // Compute the number of rounds and the leftover degree.
        let final_log_degree = ldt_parameters.log_degree - total_reduction;

        // Compute the security level that the queries must reach.
        let security_level = fri_parameters.security_level;
        let protocol_security_level = if security_level >= fri_parameters.pow_bits {
            security_level - fri_parameters.pow_bits
        } else {
            0
        };

        // Initial domain size (the trace domain).
        let starting_folding_factor = fri_parameters.starting_folding_factor;
        let starting_domain_log_size = ldt_parameters.log_degree
            + fri_parameters.starting_log_inv_rate;
        let field_size_bits = ldt_parameters.field.extension_bit_size();

        let mut protocol_builder = ProtocolBuilder::new(
            "FRI protocol",
            fri_parameters.digest_size_bits,
        );

        // PoW bits for the batching step.
        let mut batching_pow_bits: i64 = 0;
        if ldt_parameters.batch_size > 1 {
            let prox_gaps_error_batching = assumption.prox_gaps_error(
                ldt_parameters.log_degree,
                fri_parameters.starting_log_inv_rate,
                field_size_bits,
                ldt_parameters.batch_size,
            );
            batching_pow_bits = pow_util(security_level, prox_gaps_error_batching);

            // Add the round for the batching.
            let pb = match protocol_builder.start_round("batching_round") {
                Ok(b) => b,
                Err(e) => {
                    return Err(e);
                },
            };
            let mut errs: Vec<RbRError> = Vec::new();
            errs.push(RbRError::new("batching_error", prox_gaps_error_batching));
            let vmsg = VerifierMessage::new(errs, batching_pow_bits);
            proof {
                lemma_vm_fits_one(vmsg);
            }
            let ghost old_rounds = pb.rounds@;
            let pb = match pb.verifier_message(vmsg) {
                Ok(b) => b,
                Err(e) => {
                    return Err(e);
                },
            };
            protocol_builder = match pb.end_round() {
                Ok(b) => b,
                Err(e) => {
                    return Err(e);
                },
            };
            proof {
                assert(spec_rounds_vms_fit(old_rounds));
                lemma_rounds_vms_fit_push(
                    old_rounds,
                    protocol_builder.rounds@[old_rounds.len() as int],
                );
            }
        }
        proof {
            assert(spec_rounds_vms_fit(protocol_builder.rounds@));
        }
        let ghost base_rounds: int = if ldt.batch_size > 1 {
            1
        } else {
            0
        };

        proof {
            assert(pow2(starting_folding_factor as nat) <= pow2(ldt.log_degree as nat)) by {
                if starting_folding_factor < ldt.log_degree {
                    vstd::arithmetic::power2::lemma_pow2_strictly_increases(
                        starting_folding_factor as nat,
                        ldt.log_degree as nat,
                    );
                }
                lemma_sum_prefix_mono(ffs, 0, ffs.len() as int);
            }
            assert(pow2(ldt.log_degree as nat) * 1 <= pow2(ldt.log_degree as nat)
                * ldt.batch_size) by {
                vstd::arithmetic::mul::lemma_mul_inequality(
                    1,
                    ldt.batch_size as int,
                    pow2(ldt.log_degree as nat) as int,
                );
                vstd::arithmetic::mul::lemma_mul_is_commutative(
                    pow2(ldt.log_degree as nat) as int,
                    ldt.batch_size as int,
                );
            }
        }

        // Merkle tree committed to.
        proof {
            vstd::arithmetic::power2::lemma_pow2_pos(starting_folding_factor as nat);
        }
        let folds = pow2_usize(starting_folding_factor);
        proof {
            assert(folds * ldt.batch_size <= pow2(ldt.log_degree as nat) * ldt.batch_size) by {
                vstd::arithmetic::mul::lemma_mul_inequality(
                    folds as int,
                    pow2(ldt.log_degree as nat) as int,
                    ldt.batch_size as int,
                );
            }
        }
        let starting_merkle_tree = MerkleTree::new(
            starting_domain_log_size - starting_folding_factor,
            ldt_parameters.field,
            folds * ldt_parameters.batch_size,
            false,  // First tree is over the base field.
        );
        let mut commitments: Vec<MerkleTree> = Vec::new();
        commitments.push(starting_merkle_tree);

        // Degree of the next polynomial to send.
        let mut current_log_degree = ldt_parameters.log_degree - starting_folding_factor;

        // The initial folding PoW bits.
        let starting_folding_prox_gaps_error = assumption.prox_gaps_error(
            current_log_degree,
            fri_parameters.starting_log_inv_rate,
            field_size_bits,
            folds,
        );
        let starting_folding_pow_bits = pow_util(
            security_level,
            starting_folding_prox_gaps_error,
        );
        let pb = match protocol_builder.start_round("initial_iteration") {
            Ok(b) => b,
            Err(e) => {
                return Err(e);
            },
        };
        let mut errs: Vec<RbRError> = Vec::new();
        errs.push(RbRError::new("folding_error", starting_folding_prox_gaps_error));
        let vmsg = VerifierMessage::new(errs, starting_folding_pow_bits);
        proof {
            lemma_vm_fits_one(vmsg);
        }
        let ghost rounds_before_initial = pb.rounds@;
        let pb = match pb.verifier_message(vmsg) {
            Ok(b) => b,
            Err(e) => {
                return Err(e);
            },
        };
        protocol_builder = match pb.end_round() {
            Ok(b) => b,
            Err(e) => {
                return Err(e);
            },
        };

        proof {
            lemma_rounds_vms_fit_push(
                rounds_before_initial,
                protocol_builder.rounds@[rounds_before_initial.len() as int],
            );
            lemma_sum_prefix_mono(ffs, 0, ffs.len() as int);
        }
        let mut round_parameters: Vec<RoundConfig> = Vec::new();
        let mut i: usize = 0;
        while i < num_rounds
            invariant
                i <= num_rounds,
                current_log_degree == spec_fri_degree_before_round(ldt, p, i as int),
                current_log_degree >= ldt.log_degree - spec_fri_total_reduction(p),
                round_parameters@.len() == i,
                forall|k: int|
                    0 <= k < i ==> {
                        let rc = #[trigger] round_parameters@[k];
                        &&& rc.folding_factor == ffs[k]
                        &&& rc.evaluation_domain_log_size == spec_fri_degree_before_round(
                            ldt,
                            p,
                            k,
                        ) + p.starting_log_inv_rate
                        &&& rc.folding_pow_bits == spec_fri_round_pow(ldt, p, k)
                    },
                commitments@.len() == i + 1,
                forall|k: int|
                    0 <= k < commitments@.len() ==> (#[trigger] commitments@[k]).digest_size
                        == 256,
                protocol_builder.protocol_name@ == "FRI protocol"@,
                protocol_builder.digest_size_bits == p.digest_size_bits,
                protocol_builder.current_round is None,
                protocol_builder.rounds@.len() == base_rounds + 1 + i,
                spec_rounds_vms_fit(protocol_builder.rounds@),
            decreases num_rounds - i,
        {
            proof {
                lemma_sum_prefix_mono(ffs, 0, i as int);
                lemma_sum_prefix_mono(ffs, i as int, i + 1);
                lemma_sum_prefix_mono(ffs, i + 1, ffs.len() as int);
            }
            let folding_factor = fri_parameters.folding_factors[i];
            let new_evaluation_domain_size = current_log_degree
                + fri_parameters.starting_log_inv_rate;

            proof {
                assert(folding_factor <= ldt.log_degree);
                assert(pow2(folding_factor as nat) <= pow2(ldt.log_degree as nat)) by {
                    if folding_factor < ldt.log_degree {
                        vstd::arithmetic::power2::lemma_pow2_strictly_increases(
                            folding_factor as nat,
                            ldt.log_degree as nat,
                        );
                    }
                }
                vstd::arithmetic::power2::lemma_pow2_pos(folding_factor as nat);
            }
            // Send the new oracle.
            let leaf = pow2_usize(folding_factor);
            let current_merkle_tree = MerkleTree::new(
                new_evaluation_domain_size - folding_factor,
                ldt_parameters.field,
                leaf,
                true,
            );
            let pb = match protocol_builder.start_round("fri_iteration") {
                Ok(b) => b,
                Err(e) => {
                    return Err(e);
                },
            };
            let pb = match pb.prover_message(
                ProverMessage::new(ProofElement::MerkleRoot(current_merkle_tree)),
            ) {
                Ok(b) => b,
                Err(e) => {
                    return Err(e);
                },
            };
            commitments.push(current_merkle_tree);

            let prox_gaps_error = assumption.prox_gaps_error(
                current_log_degree - folding_factor,
                fri_parameters.starting_log_inv_rate,
                field_size_bits,
                leaf,
            );

            // Now compute the PoW.
            let pow_bits = pow_util(security_level, prox_gaps_error);

            let mut errs: Vec<RbRError> = Vec::new();
            errs.push(RbRError::new("folding_error", prox_gaps_error));
            let vmsg = VerifierMessage::new(errs, pow_bits);
            proof {
                lemma_vm_fits_one(vmsg);
            }
            let ghost rounds_before = protocol_builder.rounds@;
            let pb = match pb.verifier_message(vmsg) {
                Ok(b) => b,
                Err(e) => {
                    return Err(e);
                },
            };
            protocol_builder = match pb.end_round() {
                Ok(b) => b,
                Err(e) => {
                    return Err(e);
                },
            };
            proof {
                lemma_rounds_vms_fit_push(
                    rounds_before,
                    protocol_builder.rounds@[rounds_before.len() as int],
                );
            }

            let round_config = RoundConfig {
                evaluation_domain_log_size: new_evaluation_domain_size,
                folding_factor,
                folding_pow_bits: pow_bits,
            };
            round_parameters.push(round_config);

            current_log_degree = current_log_degree - folding_factor;
            i = i + 1;
        }

        // Compute the number of queries required.
        let final_queries = assumption.queries(
            protocol_security_level,
            fri_parameters.starting_log_inv_rate,
        );

        // We need to compute the error, to compute the according PoW.
        let query_error = assumption.queries_error(
            fri_parameters.starting_log_inv_rate,
            final_queries,
        );

        // Now compute the PoW.
        let final_pow_bits = pow_util(security_level, query_error);

        let pb = match protocol_builder.start_round("query_round") {
            Ok(b) => b,
            Err(e) => {
                return Err(e);
            },
        };
        let mut errs: Vec<RbRError> = Vec::new();
        errs.push(RbRError::new("query_error", query_error));
        let vmsg = VerifierMessage::new(errs, final_pow_bits);
        proof {
            lemma_vm_fits_one(vmsg);
        }
        let ghost rounds_before_final = protocol_builder.rounds@;
        let pb = match pb.verifier_message(vmsg) {
            Ok(b) => b,
            Err(e) => {
                return Err(e);
            },
        };
        proof {
            assert(pow2(final_log_degree as nat) <= pow2(ldt.log_degree as nat)) by {
                if final_log_degree < ldt.log_degree {
                    vstd::arithmetic::power2::lemma_pow2_strictly_increases(
                        final_log_degree as nat,
                        ldt.log_degree as nat,
                    );
                }
            }
        }
        let final_elements = pow2_usize(final_log_degree);
        let mut pb = match pb.prover_message(
            ProverMessage::new(
                ProofElement::FieldElements(
                    FieldElements {
                        field: ldt_parameters.field,
                        num_elements: final_elements,
                        is_extension: true,
                    },
                ),
            ),
        ) {
            Ok(b) => b,
            Err(e) => {
                return Err(e);
            },
        };

        let mut k: usize = 0;
        let ghost pb_before = pb;
        while k < commitments.len()
            invariant
                k <= commitments@.len(),
                pb.protocol_name@ == "FRI protocol"@,
                pb.digest_size_bits == p.digest_size_bits,
                pb.rounds@.len() == pb_before.rounds@.len(),
                pb.rounds@ == rounds_before_final,
                pb.current_round matches Some(rb) && rb.messages@.len() >= 2 && (forall|j: int|
                    0 <= j < rb.messages@.len() ==> spec_message_vm_fits(
                        #[trigger] rb.messages@[j],
                    )),
            decreases commitments@.len() - k,
        {
            // The queries against each committed tree.
            let tree = commitments[k];
            pb = match pb.prover_message(
                ProverMessage::new(
                    ProofElement::MerkleQueries(
                        MerkleQueries { merkle_tree: tree, num_openings: final_queries },
                    ),
                ),
            ) {
                Ok(b) => b,
                Err(e) => {
                    return Err(e);
                },
            };
            k = k + 1;
        }

        let pb = match pb.end_round() {
            Ok(b) => b,
            Err(e) => {
                return Err(e);
            },
        };
        proof {
            lemma_rounds_vms_fit_push(
                rounds_before_final,
                pb.rounds@[rounds_before_final.len() as int],
            );
        }
        let protocol = match pb.build() {
            Ok(pr) => pr,
            Err(e) => {
                return Err(e);
            },
        };

        Ok(
            FriProtocol {
                config: FriConfig {
                    ldt_parameters,
                    security_assumption: fri_parameters.security_assumption,
                    security_level,
                    max_pow_bits: fri_parameters.pow_bits,
                    batching_pow_bits,
                    starting_folding_factor,
                    starting_domain_log_size,
                    log_inv_rate: fri_parameters.starting_log_inv_rate,
                    starting_folding_pow_bits,
                    round_parameters,
                    queries: final_queries,
                    pow_bits: final_pow_bits,
                    final_poly_log_degree: final_log_degree,
                },
                protocol,
            },
        )
    }
}

} // verus!
