//! The WHIR low-degree test: like STIR it moves to fresh domains and samples
//! out-of-domain points, but every fold is a sequence of single-variable
//! sumcheck folds interleaving a constraint-folding error, so each round
//! carries a vector of PoW values and the transcript's round boundaries sit
//! between the query phase and the next fold phase.

use vstd::prelude::*;
use vstd::arithmetic::power2::pow2;
use vstd::math::min;

use crate::LowDegreeParameters;
use crate::ParameterError;
use crate::errors::SecurityAssumption;
use crate::errors::spec_constraint_folding_error;
use crate::errors::spec_ood_samples;
use crate::errors::spec_prox_gaps_error;
use crate::errors::spec_queries;
use crate::errors::spec_queries_error;
use crate::fri::spec_field_bits;
use crate::fri::spec_protocol_security_level;
use crate::protocol::Protocol;
use crate::protocol::ProverMessage;
use crate::protocol::RbRError;
use crate::protocol::VerifierMessage;
use crate::protocol::builder::ProtocolBuilder;
use crate::protocol::lemma_rounds_vms_fit_push;
use crate::protocol::lemma_vm_fits_one;
use crate::protocol::lemma_vm_fits_two;
use crate::protocol::spec_message_vm_fits;
use crate::protocol::spec_protocol_vms_fit;
use crate::protocol::spec_rounds_vms_fit;
use crate::protocol::proof_size::FieldElements;
use crate::protocol::proof_size::MerkleQueries;
use crate::protocol::proof_size::MerkleTree;
use crate::protocol::proof_size::ProofElement;
use crate::utils::lemma_sum_prefix_mono;
use crate::utils::min_fp;
use crate::utils::pow2_usize;
use crate::utils::pow_util;
use crate::utils::spec_pow_util;
use crate::utils::spec_sum_prefix;

verus! {

/// Parameters parametrizing an instance of WHIR. This does not include the
/// entire configuration, which is populated according to the required
/// security level.
#[derive(Clone)]
pub struct WhirParameters {
    /// The starting rate used in the protocol.
    pub starting_log_inv_rate: usize,
    /// The folding factor in the first round, in log form.
    pub starting_folding_factor: usize,
    /// The folding factors in the remaining rounds, in log form.
    pub folding_factors: Vec<usize>,
    /// The rates used in the internal rounds of WHIR.
    pub log_inv_rates: Vec<usize>,
    /// The security assumption under which to configure WHIR.
    pub security_assumption: SecurityAssumption,
    /// The security level desired.
    pub security_level: usize,
    /// The number of PoW bits used to reduce the query error (grinding).
    pub pow_bits: usize,
    /// The size of the digest for the Merkle tree.
    pub digest_size_bits: usize,
}

/// The configuration and structure of the WHIR protocol.
#[derive(Debug, Clone)]
pub struct WhirProtocol {
    /// The flat numeric summary of the derivation.
    pub config: WhirConfig,
    /// The assembled transcript.
    pub protocol: Protocol,
}

/// A fully expanded WHIR configuration.
#[derive(Debug, Clone)]
pub struct WhirConfig {
    /// The configuration of the low-degree test desired.
    pub ldt_parameters: LowDegreeParameters,
    /// The security assumption under which WHIR was configured.
    pub security_assumption: SecurityAssumption,
    /// The desired security level.
    pub security_level: usize,
    /// The maximum number of PoW bits allowed.
    pub max_pow_bits: usize,
    /// The rate of the initial Reed-Solomon code used during the protocol.
    pub starting_log_inv_rate: usize,
    /// The PoW bits used in the batching phase (fixed-point).
    pub batching_pow_bits: i64,
    /// The initial folding factor.
    pub starting_folding_factor: usize,
    /// The initial domain size, in log form.
    pub starting_domain_log_size: usize,
    /// The PoW bits of each single-variable fold of the first round
    /// (fixed-point).
    pub starting_folding_pow_bits: Vec<i64>,
    /// The round-specific parameters.
    pub round_parameters: Vec<RoundConfig>,
    /// Degree of the final polynomial sent over, in log form.
    pub final_poly_log_degree: usize,
    /// Number of queries in the last round.
    pub final_queries: usize,
    /// Number of final PoW bits for the queries (fixed-point).
    pub final_pow_bits: i64,
    /// Rate of the final Reed-Solomon codeword.
    pub final_log_inv_rate: usize,
}

/// Round-specific configuration.
#[derive(Debug, Clone)]
pub struct RoundConfig {
    /// Folding factor for this round, in log form.
    pub folding_factor: usize,
    /// Size of the evaluation domain of the oracle sent in this round, in
    /// log form.
    pub evaluation_domain_log_size: usize,
    /// PoW bits of each single-variable fold of this round (fixed-point).
    pub pow_bits: Vec<i64>,
    /// Number of queries in this round.
    pub num_queries: usize,
    /// Number of out-of-domain samples in this round.
    pub ood_samples: usize,
    /// Rate of the Reed-Solomon codeword queried in this round.
    pub log_inv_rate: usize,
}

/// The machine bounds under which a WHIR derivation is computable.
pub open spec fn spec_whir_inputs_ok(ldt: LowDegreeParameters, p: WhirParameters) -> bool {
    &&& 1 <= ldt.log_degree <= 60
    &&& 1 <= ldt.batch_size <= 0x10_0000
    &&& ldt.constraint_degree <= 0x10_0000
    &&& 1 <= ldt.field.field_size_bits
    &&& 1 <= ldt.field.extension_degree
    &&& spec_field_bits(ldt) <= 0x10_0000
    &&& pow2(ldt.log_degree as nat) * ldt.batch_size <= usize::MAX
    &&& ldt.constraint_degree + 1 <= usize::MAX
    &&& 1 <= p.starting_log_inv_rate <= 60
    &&& forall|i: int|
        0 <= i < p.log_inv_rates@.len() ==> 1 <= #[trigger] p.log_inv_rates@[i] <= 60
    &&& p.security_level <= 0x10_0000
    &&& p.pow_bits <= 0x10_0000
}

/// All folding factors are positive.
pub open spec fn spec_whir_factors_positive(p: WhirParameters) -> bool {
    &&& p.starting_folding_factor > 0
    &&& forall|i: int| 0 <= i < p.folding_factors@.len() ==> #[trigger] p.folding_factors@[i] > 0
}

/// The total degree reduction requested over all rounds.
pub open spec fn spec_whir_total_reduction(p: WhirParameters) -> int {
    p.starting_folding_factor + spec_sum_prefix(
        p.folding_factors@,
        p.folding_factors@.len() as int,
    )
}

/// The log degree of the polynomial before round i.
pub open spec fn spec_whir_degree_before_round(
    ldt: LowDegreeParameters,
    p: WhirParameters,
    i: int,
) -> int {
    ldt.log_degree - p.starting_folding_factor - spec_sum_prefix(p.folding_factors@, i)
}

/// The rate of the codeword queried in round i: the starting rate for the
/// first round, else the rate the previous round moved to. Index
/// `p.log_inv_rates@.len()` gives the final rate.
pub open spec fn spec_whir_rate_before(p: WhirParameters, i: int) -> int {
    if i == 0 {
        p.starting_log_inv_rate as int
    } else {
        p.log_inv_rates@[i - 1] as int
    }
}

/// The PoW of the j-th single-variable fold of the first round: the
/// proximity-gaps error of the initial folding combined by minimum with the
/// constraint-folding error at the current degree.
pub open spec fn spec_whir_initial_step_pow(
    ldt: LowDegreeParameters,
    p: WhirParameters,
    j: int,
) -> int {
    spec_pow_util(
        p.security_level as int,
        min(
            spec_prox_gaps_error(
                p.security_assumption,
                ldt.log_degree - j - 1,
                p.starting_log_inv_rate as int,
                spec_field_bits(ldt),
                pow2(p.starting_folding_factor as nat) as int,
            ),
            spec_constraint_folding_error(
                p.security_assumption,
                ldt.log_degree - j,
                p.starting_log_inv_rate as int,
                spec_field_bits(ldt),
                ldt.constraint_degree as int,
            ),
        ),
    )
}

/// The PoW of the j-th single-variable fold of round i: a two-function
/// proximity-gaps error and a constraint-folding error at multiplicity at
/// least two, both at the round's new rate.
pub open spec fn spec_whir_step_pow(
    ldt: LowDegreeParameters,
    p: WhirParameters,
    i: int,
    j: int,
) -> int {
    let cur = spec_whir_degree_before_round(ldt, p, i) - j;
    spec_pow_util(
        p.security_level as int,
        min(
            spec_prox_gaps_error(
                p.security_assumption,
                cur - 1,
                p.log_inv_rates@[i] as int,
                spec_field_bits(ldt),
                2,
            ),
            spec_constraint_folding_error(
                p.security_assumption,
                cur,
                p.log_inv_rates@[i] as int,
                spec_field_bits(ldt),
                if ldt.constraint_degree >= 2 {
                    ldt.constraint_degree as int
                } else {
                    2
                },
            ),
        ),
    )
}

/// The out-of-domain sample count of round i (64 when the search fails).
pub open spec fn spec_whir_round_ood(ldt: LowDegreeParameters, p: WhirParameters, i: int) -> int {
    spec_ood_samples(
        p.security_assumption,
        p.security_level as int,
        spec_whir_degree_before_round(ldt, p, i),
        p.log_inv_rates@[i] as int,
        spec_field_bits(ldt),
    )
}

/// The query count of round i: queries at the previous rate.
pub open spec fn spec_whir_round_queries(ldt: LowDegreeParameters, p: WhirParameters, i: int) -> int {
    spec_queries(
        p.security_assumption,
        spec_protocol_security_level(p.security_level as int, p.pow_bits as int),
        spec_whir_rate_before(p, i),
    )
}

/// The error driving round i's query PoW: the minimum of the query error and
/// the constraint-folding (batching) error across queries and out-of-domain
/// samples, both at the previous rate.
pub open spec fn spec_whir_round_error(ldt: LowDegreeParameters, p: WhirParameters, i: int) -> int {
    let a = p.security_assumption;
    let query_error = spec_queries_error(
        a,
        spec_whir_rate_before(p, i),
        spec_whir_round_queries(ldt, p, i),
    );
    let batching_error = spec_constraint_folding_error(
        a,
        spec_whir_degree_before_round(ldt, p, i),
        spec_whir_rate_before(p, i),
        spec_field_bits(ldt),
        spec_whir_round_queries(ldt, p, i) + spec_whir_round_ood(ldt, p, i),
    );
    min(query_error, batching_error)
}

/// Every round's out-of-domain search succeeds.
pub open spec fn spec_whir_ood_ok(ldt: LowDegreeParameters, p: WhirParameters) -> bool {
    forall|i: int|
        0 <= i < p.folding_factors@.len() ==> #[trigger] spec_whir_round_ood(ldt, p, i) < 64
}

/// The error and PoW of batching the input functions.
pub open spec fn spec_whir_batching_pow(ldt: LowDegreeParameters, p: WhirParameters) -> int {
    if ldt.batch_size > 1 {
        spec_pow_util(
            p.security_level as int,
            spec_prox_gaps_error(
                p.security_assumption,
                ldt.log_degree as int,
                p.starting_log_inv_rate as int,
                spec_field_bits(ldt),
                ldt.batch_size as int,
            ),
        )
    } else {
        0
    }
}

impl WhirParameters {
    /// Instantiates a WHIR configuration in which the rate is constant: a
    /// worse version of FRI.
    pub fn fixed_rate_folding(
        log_inv_rate: usize,
        folding_factor: usize,
        num_rounds: usize,
        security_assumption: SecurityAssumption,
        security_level: usize,
        pow_bits: usize,
        digest_size_bits: usize,
    ) -> (r: WhirParameters)
        ensures
            r.starting_log_inv_rate == log_inv_rate,
            r.starting_folding_factor == folding_factor,
            r.folding_factors@.len() == num_rounds,
            forall|i: int|
                0 <= i < num_rounds ==> #[trigger] r.folding_factors@[i] == folding_factor,
            r.log_inv_rates@.len() == num_rounds,
            forall|i: int| 0 <= i < num_rounds ==> #[trigger] r.log_inv_rates@[i] == log_inv_rate,
            r.security_assumption == security_assumption,
            r.security_level == security_level,
            r.pow_bits == pow_bits,
            r.digest_size_bits == digest_size_bits,
    {
        let mut folding_factors: Vec<usize> = Vec::new();
        let mut log_inv_rates: Vec<usize> = Vec::new();
        let mut i: usize = 0;
        while i < num_rounds
            invariant
                i <= num_rounds,
                folding_factors@.len() == i,
                forall|k: int| 0 <= k < i ==> #[trigger] folding_factors@[k] == folding_factor,
                log_inv_rates@.len() == i,
                forall|k: int| 0 <= k < i ==> #[trigger] log_inv_rates@[k] == log_inv_rate,
            decreases num_rounds - i,
        {
            folding_factors.push(folding_factor);
            log_inv_rates.push(log_inv_rate);
            i = i + 1;
        }
        WhirParameters {
            starting_log_inv_rate: log_inv_rate,
            starting_folding_factor: folding_factor,
            folding_factors,
            log_inv_rates,
            security_assumption,
            security_level,
            pow_bits,
            digest_size_bits,
        }
    }

    /// A WHIR configuration in which the domain shrinks by half each
    /// iteration while the degree shrinks by the folding factor: the version
    /// presented in the WHIR paper.
    pub fn fixed_domain_shift(
        log_inv_rate: usize,
        folding_factor: usize,
        num_rounds: usize,
        security_assumption: SecurityAssumption,
        security_level: usize,
        pow_bits: usize,
        digest_size_bits: usize,
    ) -> (r: WhirParameters)
        requires
            folding_factor >= 1,
            log_inv_rate + num_rounds * folding_factor <= usize::MAX,
        ensures
            r.starting_log_inv_rate == log_inv_rate,
            r.starting_folding_factor == folding_factor,
            r.folding_factors@.len() == num_rounds,
            forall|i: int|
                0 <= i < num_rounds ==> #[trigger] r.folding_factors@[i] == folding_factor,
            r.log_inv_rates@.len() == num_rounds,
            forall|i: int|
                0 <= i < num_rounds ==> #[trigger] r.log_inv_rates@[i] == log_inv_rate + (i + 1) * (
                folding_factor - 1),
            r.security_assumption == security_assumption,
            r.security_level == security_level,
            r.pow_bits == pow_bits,
            r.digest_size_bits == digest_size_bits,
    {
        let mut folding_factors: Vec<usize> = Vec::new();
        let mut log_inv_rates: Vec<usize> = Vec::new();
        let mut i: usize = 0;
        while i < num_rounds
            invariant
                i <= num_rounds,
                folding_factor >= 1,
                log_inv_rate + num_rounds * folding_factor <= usize::MAX,
                folding_factors@.len() == i,
                forall|k: int| 0 <= k < i ==> #[trigger] folding_factors@[k] == folding_factor,
                log_inv_rates@.len() == i,
                forall|k: int|
                    0 <= k < i ==> #[trigger] log_inv_rates@[k] == log_inv_rate + (k + 1) * (
                    folding_factor - 1),
            decreases num_rounds - i,
        {
            proof {
                assert((i + 1) * (folding_factor - 1) <= num_rounds * folding_factor)
                    by (nonlinear_arith)
                    requires
                        0 <= i < num_rounds,
                        folding_factor >= 1,
                ;
            }
            folding_factors.push(folding_factor);
            log_inv_rates.push(log_inv_rate + (i + 1) * (folding_factor - 1));
            i = i + 1;
        }
        WhirParameters {
            starting_log_inv_rate: log_inv_rate,
            starting_folding_factor: folding_factor,
            folding_factors,
            log_inv_rates,
            security_assumption,
            security_level,
            pow_bits,
            digest_size_bits,
        }
    }
}

impl WhirProtocol {
    /// Given low-degree-test parameters and WHIR parameters, derive the full
    /// configuration and assemble the transcript.
    ///
    /// The derivation fails exactly when a folding factor is zero, when the
    /// folding factor and rate lists differ in length, when the requested
    /// folding exceeds the degree, when the digest size is not the 256 bits
    /// every Merkle commitment uses, or when some round's out-of-domain
    /// search is exhausted.
    #[verifier::loop_isolation(false)]
    #[verifier::rlimit(100)]
    pub fn new(ldt_parameters: LowDegreeParameters, whir_parameters: WhirParameters) -> (res:
        Result<WhirProtocol, ParameterError>)
        requires
            spec_whir_inputs_ok(ldt_parameters, whir_parameters),
        ensures
            !spec_whir_factors_positive(whir_parameters) ==> res == Err::<
                WhirProtocol,
                ParameterError,
            >(ParameterError::ZeroFoldingFactor),
            spec_whir_factors_positive(whir_parameters) && whir_parameters.folding_factors@.len()
                != whir_parameters.log_inv_rates@.len() ==> res == Err::<
                WhirProtocol,
                ParameterError,
            >(ParameterError::MismatchedRoundCounts),
            spec_whir_factors_positive(whir_parameters) && whir_parameters.folding_factors@.len()
                == whir_parameters.log_inv_rates@.len() && spec_whir_total_reduction(
                whir_parameters,
            ) > ldt_parameters.log_degree ==> res == Err::<WhirProtocol, ParameterError>(
                ParameterError::FoldingExceedsDegree,
            ),
            spec_whir_factors_positive(whir_parameters) && whir_parameters.folding_factors@.len()
                == whir_parameters.log_inv_rates@.len() && spec_whir_total_reduction(
                whir_parameters,
            ) <= ldt_parameters.log_degree && whir_parameters.digest_size_bits != 256 ==> res
                == Err::<WhirProtocol, ParameterError>(ParameterError::DigestSizeMismatch),
            spec_whir_factors_positive(whir_parameters) && whir_parameters.folding_factors@.len()
                == whir_parameters.log_inv_rates@.len() && spec_whir_total_reduction(
                whir_parameters,
            ) <= ldt_parameters.log_degree && whir_parameters.digest_size_bits == 256
                && !spec_whir_ood_ok(ldt_parameters, whir_parameters) ==> res == Err::<
                WhirProtocol,
                ParameterError,
            >(ParameterError::OodSamplesExhausted),
            spec_whir_factors_positive(whir_parameters) && whir_parameters.folding_factors@.len()
                == whir_parameters.log_inv_rates@.len() && spec_whir_total_reduction(
                whir_parameters,
            ) <= ldt_parameters.log_degree && whir_parameters.digest_size_bits == 256
                && spec_whir_ood_ok(ldt_parameters, whir_parameters) ==> (res matches Ok(wp) && {
                let c = wp.config;
                let p = whir_parameters;
                let num_rounds = p.folding_factors@.len() as int;
                let psl = spec_protocol_security_level(
                    p.security_level as int,
                    p.pow_bits as int,
                );
                let final_rate = spec_whir_rate_before(p, num_rounds);
                &&& c.ldt_parameters == ldt_parameters
                &&& c.security_assumption == p.security_assumption
                &&& c.security_level == p.security_level
                &&& c.max_pow_bits == p.pow_bits
                &&& c.starting_log_inv_rate == p.starting_log_inv_rate
                &&& c.batching_pow_bits == spec_whir_batching_pow(ldt_parameters, p)
                &&& c.starting_folding_factor == p.starting_folding_factor
                &&& c.starting_domain_log_size == ldt_parameters.log_degree
                    + p.starting_log_inv_rate
                &&& c.starting_folding_pow_bits@.len() == p.starting_folding_factor
                &&& forall|j: int|
                    0 <= j < p.starting_folding_factor
                        ==> #[trigger] c.starting_folding_pow_bits@[j]
                        == spec_whir_initial_step_pow(ldt_parameters, p, j)
                &&& c.round_parameters@.len() == num_rounds
                &&& forall|i: int|
                    0 <= i < num_rounds ==> {
                        let rc = #[trigger] c.round_parameters@[i];
                        &&& rc.folding_factor == p.folding_factors@[i]
                        &&& rc.evaluation_domain_log_size == spec_whir_degree_before_round(
                            ldt_parameters,
                            p,
                            i,
                        ) + p.log_inv_rates@[i]
                        &&& rc.num_queries == spec_whir_round_queries(ldt_parameters, p, i)
                        &&& rc.pow_bits@.len() == p.folding_factors@[i]
                        &&& forall|j: int|
                            0 <= j < p.folding_factors@[i] ==> #[trigger] rc.pow_bits@[j]
                                == spec_whir_step_pow(ldt_parameters, p, i, j)
                        &&& rc.ood_samples == spec_whir_round_ood(ldt_parameters, p, i)
                        &&& rc.log_inv_rate == spec_whir_rate_before(p, i)
                    }
                &&& c.final_poly_log_degree == ldt_parameters.log_degree
                    - spec_whir_total_reduction(p)
                &&& c.final_queries == spec_queries(p.security_assumption, psl, final_rate)
                &&& c.final_pow_bits == spec_pow_util(
                    p.security_level as int,
                    spec_queries_error(
                        p.security_assumption,
                        final_rate,
                        spec_queries(p.security_assumption, psl, final_rate),
                    ),
                )
                &&& c.final_log_inv_rate == final_rate
                &&& wp.protocol.digest_size_bits == p.digest_size_bits
                &&& spec_protocol_vms_fit(wp.protocol)
                &&& wp.protocol.protocol_name@ == "WHIR protocol"@
                &&& wp.protocol.rounds@.len() == (if ldt_parameters.batch_size > 1 {
                    1int
                } else {
                    0int
                }) + 1 + num_rounds + 1
            }),
    {
        let ghost ldt = ldt_parameters;
        let ghost p = whir_parameters;
        let ghost ffs = whir_parameters.folding_factors@;
        let num_rounds = whir_parameters.folding_factors.len();
        let assumption = whir_parameters.security_assumption;

        // We need to fold at least some time.
        if whir_parameters.starting_folding_factor == 0 {
            return Err(ParameterError::ZeroFoldingFactor);
        }
        let mut i: usize = 0;
        while i < num_rounds
            invariant
                i <= num_rounds,
                forall|k: int| 0 <= k < i ==> #[trigger] ffs[k] > 0,
            decreases num_rounds - i,
        {
            if whir_parameters.folding_factors[i] == 0 {
                return Err(ParameterError::ZeroFoldingFactor);
            }
            i = i + 1;
        }

        // Every round needs both a folding factor and a rate.
        if whir_parameters.log_inv_rates.len() != num_rounds {
            return Err(ParameterError::MismatchedRoundCounts);
        }

        // We cannot fold more than the available degree.
        if whir_parameters.starting_folding_factor > ldt_parameters.log_degree {
            proof {
                lemma_sum_prefix_mono(ffs, 0, ffs.len() as int);
            }
            return Err(ParameterError::FoldingExceedsDegree);
        }
        let mut total_reduction = whir_parameters.starting_folding_factor;
        let mut i: usize = 0;
        while i < num_rounds
            invariant
                i <= num_rounds,
                total_reduction == whir_parameters.starting_folding_factor as int
                    + spec_sum_prefix(ffs, i as int),
                total_reduction <= ldt_parameters.log_degree,
            decreases num_rounds - i,
        {
            let ff = whir_parameters.folding_factors[i];
            if ff > ldt_parameters.log_degree - total_reduction {
                proof {
                    lemma_sum_prefix_mono(ffs, i + 1, ffs.len() as int);
                }
                return Err(ParameterError::FoldingExceedsDegree);
            }
            total_reduction = total_reduction + ff;
            i = i + 1;
        }

        // Every Merkle commitment below uses a 256-bit digest: any other
        // protocol digest size cannot match it.
        if whir_parameters.digest_size_bits != 256 {
            return Err(ParameterError::DigestSizeMismatch);
        }

        // Compute the number of rounds and the leftover degree.
        let final_log_degree = ldt_parameters.log_degree - total_reduction;

        // Compute the security level that the queries must reach.
        let security_level = whir_parameters.security_level;
        let protocol_security_level = if security_level >= whir_parameters.pow_bits {
            security_level - whir_parameters.pow_bits
        } else {
            0
        };

        // Initial domain size (the trace domain).
        let starting_folding_factor = whir_parameters.starting_folding_factor;
        let starting_domain_log_size = ldt_parameters.log_degree
            + whir_parameters.starting_log_inv_rate;
        let field_size_bits = ldt_parameters.field.extension_bit_size();

        let mut protocol_builder = ProtocolBuilder::new(
            "WHIR protocol",
            whir_parameters.digest_size_bits,
        );

        // PoW bits for the batching step.
        let mut batching_pow_bits: i64 = 0;
        if ldt_parameters.batch_size > 1 {
            let prox_gaps_error_batching = assumption.prox_gaps_error(
                ldt_parameters.log_degree,
                whir_parameters.starting_log_inv_rate,
                field_size_bits,
                ldt_parameters.batch_size,
            );
            batching_pow_bits = pow_util(security_level, prox_gaps_error_batching);

            // Add the round for the batching.
            let pb = match protocol_builder.start_round("batching_round") {
                Ok(b) => b,
                Err(e) => {
                    return Err(e);
                },
            };
            let mut errs: Vec<RbRError> = Vec::new();
            errs.push(RbRError::new("batching_error", prox_gaps_error_batching));
            let vmsg = VerifierMessage::new(errs, batching_pow_bits);
            proof {
                lemma_vm_fits_one(vmsg);
            }
            let ghost old_rounds = pb.rounds@;
            let pb = match pb.verifier_message(vmsg) {
                Ok(b) => b,
                Err(e) => {
                    return Err(e);
                },
            };
            protocol_builder = match pb.end_round() {
                Ok(b) => b,
                Err(e) => {
                    return Err(e);
                },
            };
            proof {
                lemma_rounds_vms_fit_push(
                    old_rounds,
                    protocol_builder.rounds@[old_rounds.len() as int],
                );
            }
        }
        proof {
            assert(spec_rounds_vms_fit(protocol_builder.rounds@));
        }
        let ghost base_rounds: int = if ldt.batch_size > 1 {
            1
        } else {
            0
        };

        proof {
            vstd::arithmetic::power2::lemma_pow2_pos(starting_folding_factor as nat);
            assert(pow2(starting_folding_factor as nat) <= pow2(ldt.log_degree as nat)) by {
                if starting_folding_factor < ldt.log_degree {
                    vstd::arithmetic::power2::lemma_pow2_strictly_increases(
                        starting_folding_factor as nat,
                        ldt.log_degree as nat,
                    );
                }
                lemma_sum_prefix_mono(ffs, 0, ffs.len() as int);
            }
            assert(pow2(ldt.log_degree as nat) * 1 <= pow2(ldt.log_degree as nat)
                * ldt.batch_size) by {
                vstd::arithmetic::mul::lemma_mul_inequality(
                    1,
                    ldt.batch_size as int,
                    pow2(ldt.log_degree as nat) as int,
                );
                vstd::arithmetic::mul::lemma_mul_is_commutative(
                    pow2(ldt.log_degree as nat) as int,
                    ldt.batch_size as int,
                );
            }
        }

        // Merkle tree committed to.
        let folds = pow2_usize(starting_folding_factor);
        proof {
            assert(folds * ldt.batch_size <= pow2(ldt.log_degree as nat) * ldt.batch_size) by {
                vstd::arithmetic::mul::lemma_mul_inequality(
                    folds as int,
                    pow2(ldt.log_degree as nat) as int,
                    ldt.batch_size as int,
                );
            }
        }
        let mut current_merkle_tree = MerkleTree::new(
            starting_domain_log_size - starting_folding_factor,
            ldt_parameters.field,
            folds * ldt_parameters.batch_size,
            false,  // First tree is over the base field.
        );

        // Degree of the next polynomial to send, and the current rate.
        let mut current_log_degree = ldt_parameters.log_degree;
        let mut log_inv_rate = whir_parameters.starting_log_inv_rate;

        // The initial single-variable folds, one PoW value each; the round
        // stays open: it is closed after the first query phase.
        let mut starting_folding_pow_bits_vec: Vec<i64> = Vec::new();
        let mut pb = match protocol_builder.start_round("whir_iteration") {
            Ok(b) => b,
            Err(e) => {
                return Err(e);
            },
        };
        let mut j: usize = 0;
        while j < starting_folding_factor
            invariant
                j <= starting_folding_factor,
                current_log_degree == ldt.log_degree - j,
                starting_folding_pow_bits_vec@.len() == j,
                forall|k: int|
                    0 <= k < j ==> #[trigger] starting_folding_pow_bits_vec@[k]
                        == spec_whir_initial_step_pow(ldt, p, k),
                pb.protocol_name@ == "WHIR protocol"@,
                pb.digest_size_bits == p.digest_size_bits,
                pb.rounds@.len() == base_rounds,
                spec_rounds_vms_fit(pb.rounds@),
                pb.current_round matches Some(rb) && rb.messages@.len() == 2 * j && (forall|m: int|
                    0 <= m < rb.messages@.len() ==> spec_message_vm_fits(
                        #[trigger] rb.messages@[m],
                    )),
            decreases starting_folding_factor - j,
        {
            let prox_gaps_error = assumption.prox_gaps_error(
                current_log_degree - 1,
                log_inv_rate,
                field_size_bits,
                folds,
            );
            let sumcheck_error = assumption.constraint_folding_error(
                current_log_degree,
                log_inv_rate,
                field_size_bits,
                ldt_parameters.constraint_degree,
            );
            let starting_folding_pow_bits = pow_util(
                security_level,
                min_fp(prox_gaps_error, sumcheck_error),
            );

            pb = match pb.prover_message(
                ProverMessage::new(
                    ProofElement::FieldElements(
                        FieldElements {
                            field: ldt_parameters.field,
                            num_elements: ldt_parameters.constraint_degree + 1,
                            is_extension: true,
                        },
                    ),
                ),
            ) {
                Ok(b) => b,
                Err(e) => {
                    return Err(e);
                },
            };
            let mut errs: Vec<RbRError> = Vec::new();
            errs.push(RbRError::new("folding_error", prox_gaps_error));
            errs.push(RbRError::new("sumcheck_error", sumcheck_error));
            let vmsg = VerifierMessage::new(errs, starting_folding_pow_bits);
            proof {
                lemma_vm_fits_two(vmsg);
            }
            pb = match pb.verifier_message(vmsg) {
                Ok(b) => b,
                Err(e) => {
                    return Err(e);
                },
            };

            starting_folding_pow_bits_vec.push(starting_folding_pow_bits);
            current_log_degree = current_log_degree - 1;
            j = j + 1;
        }

        proof {
            lemma_sum_prefix_mono(ffs, 0, ffs.len() as int);
        }
        let mut round_parameters: Vec<RoundConfig> = Vec::new();
        let mut i: usize = 0;
        while i < num_rounds
            invariant
                i <= num_rounds,
                current_log_degree == spec_whir_degree_before_round(ldt, p, i as int),
                current_log_degree >= ldt.log_degree - spec_whir_total_reduction(p),
                log_inv_rate == spec_whir_rate_before(p, i as int),
                1 <= log_inv_rate <= 60,
                current_merkle_tree.digest_size == 256,
                round_parameters@.len() == i,
                forall|k: int| 0 <= k < i ==> #[trigger] spec_whir_round_ood(ldt, p, k) < 64,
                forall|k: int|
                    0 <= k < i ==> {
                        let rc = #[trigger] round_parameters@[k];
                        &&& rc.folding_factor == ffs[k]
                        &&& rc.evaluation_domain_log_size == spec_whir_degree_before_round(
                            ldt,
                            p,
                            k,
                        ) + p.log_inv_rates@[k]
                        &&& rc.num_queries == spec_whir_round_queries(ldt, p, k)
                        &&& rc.pow_bits@.len() == ffs[k]
                        &&& forall|m: int|
                            0 <= m < ffs[k] ==> #[trigger] rc.pow_bits@[m] == spec_whir_step_pow(
                                ldt,
                                p,
                                k,
                                m,
                            )
                        &&& rc.ood_samples == spec_whir_round_ood(ldt, p, k)
                        &&& rc.log_inv_rate == spec_whir_rate_before(p, k)
                    },
                pb.protocol_name@ == "WHIR protocol"@,
                pb.digest_size_bits == p.digest_size_bits,
                pb.rounds@.len() == base_rounds + i,
                spec_rounds_vms_fit(pb.rounds@),
                pb.current_round matches Some(rb) && rb.messages@.len() >= 2 && (forall|m: int|
                    0 <= m < rb.messages@.len() ==> spec_message_vm_fits(
                        #[trigger] rb.messages@[m],
                    )),
            decreases num_rounds - i,
        {
            proof {
                lemma_sum_prefix_mono(ffs, 0, i as int);
                lemma_sum_prefix_mono(ffs, i as int, i + 1);
                lemma_sum_prefix_mono(ffs, i + 1, ffs.len() as int);
            }
            let folding_factor = whir_parameters.folding_factors[i];
            let next_rate = whir_parameters.log_inv_rates[i];

            // This is the size of the new evaluation domain.
            let new_evaluation_domain_size = current_log_degree + next_rate;

            proof {
                assert(folding_factor <= ldt.log_degree);
                assert(pow2(folding_factor as nat) <= pow2(ldt.log_degree as nat)) by {
                    if folding_factor < ldt.log_degree {
                        vstd::arithmetic::power2::lemma_pow2_strictly_increases(
                            folding_factor as nat,
                            ldt.log_degree as nat,
                        );
                    }
                }
                vstd::arithmetic::power2::lemma_pow2_pos(folding_factor as nat);
            }
            // Send the new oracle.
            let leaf = pow2_usize(folding_factor);
            let next_merkle_tree = MerkleTree::new(
                new_evaluation_domain_size - folding_factor,
                ldt_parameters.field,
                leaf,
                true,
            );
            pb = match pb.prover_message(
                ProverMessage::new(ProofElement::MerkleRoot(next_merkle_tree)),
            ) {
                Ok(b) => b,
                Err(e) => {
                    return Err(e);
                },
            };

            // Compute the out-of-domain samples required.
            let ood_samples = match assumption.determine_ood_samples(
                security_level,
                current_log_degree,
                next_rate,
                field_size_bits,
            ) {
                Ok(n) => n,
                Err(e) => {
                    proof {
                        assert(spec_whir_round_ood(ldt, p, i as int) >= 64);
                        assert(!spec_whir_ood_ok(ldt, p));
                    }
                    return Err(e);
                },
            };
            proof {
                assert(ood_samples == spec_whir_round_ood(ldt, p, i as int));
                assert(ood_samples <= 64);
            }

            // Add the out-of-domain round to the protocol.
            if ood_samples > 0 {
                let ood_error = assumption.ood_error(
                    current_log_degree,
                    next_rate,
                    field_size_bits,
                    ood_samples,
                );
                let mut errs: Vec<RbRError> = Vec::new();
                errs.push(RbRError::new("ood_error", ood_error));
                let ood_vmsg = VerifierMessage::new(errs, 0);
                proof {
                    lemma_vm_fits_one(ood_vmsg);
                }
                pb = match pb.verifier_message(ood_vmsg) {
                    Ok(b) => b,
                    Err(e) => {
                        return Err(e);
                    },
                };
                pb = match pb.prover_message(
                    ProverMessage::new(
                        ProofElement::FieldElements(
                            FieldElements {
                                field: ldt_parameters.field,
                                num_elements: ood_samples,
                                is_extension: true,
                            },
                        ),
                    ),
                ) {
                    Ok(b) => b,
                    Err(e) => {
                        return Err(e);
                    },
                };
            }
            // Compute the number of queries required, at the previous rate.
            let num_queries = assumption.queries(protocol_security_level, log_inv_rate);

            // We need to compute the error, to compute the according PoW.
            let query_error = assumption.queries_error(log_inv_rate, num_queries);

            let num_terms = num_queries + ood_samples;
            let batching_error = assumption.constraint_folding_error(
                current_log_degree,
                log_inv_rate,
                field_size_bits,
                num_terms,
            );

            // Now compute the PoW.
            let pow_bits = pow_util(security_level, min_fp(query_error, batching_error));

            let mut errs: Vec<RbRError> = Vec::new();
            errs.push(RbRError::new("query_error", query_error));
            errs.push(RbRError::new("batching_error", batching_error));
            let vmsg = VerifierMessage::new(errs, pow_bits);
            proof {
                lemma_vm_fits_two(vmsg);
            }
            pb = match pb.verifier_message(vmsg) {
                Ok(b) => b,
                Err(e) => {
                    return Err(e);
                },
            };
            pb = match pb.prover_message(
                ProverMessage::new(
                    ProofElement::MerkleQueries(
                        MerkleQueries {
                            merkle_tree: current_merkle_tree,
                            num_openings: num_queries,
                        },
                    ),
                ),
            ) {
                Ok(b) => b,
                Err(e) => {
                    return Err(e);
                },
            };
            let ghost rounds_before = pb.rounds@;
            let closed = match pb.end_round() {
                Ok(b) => b,
                Err(e) => {
                    return Err(e);
                },
            };
            proof {
                lemma_rounds_vms_fit_push(
                    rounds_before,
                    closed.rounds@[rounds_before.len() as int],
                );
            }

            // The next fold phase opens its own round.
            pb = match closed.start_round(
                if i != num_rounds - 1 {
                    "whir_iteration"
                } else {
                    "final_sumcheck"
                },
            ) {
                Ok(b) => b,
                Err(e) => {
                    return Err(e);
                },
            };

            // The single-variable folds of this round, one PoW value each.
            let ghost degree_at_round = current_log_degree as int;
            let mut pow_bits_vec: Vec<i64> = Vec::new();
            let mut j: usize = 0;
            while j < folding_factor
                invariant
                    j <= folding_factor,
                    current_log_degree == degree_at_round - j,
                    degree_at_round - folding_factor >= 0,
                    degree_at_round == spec_whir_degree_before_round(ldt, p, i as int),
                    1 <= next_rate <= 60,
                    next_rate == p.log_inv_rates@[i as int],
                    pow_bits_vec@.len() == j,
                    forall|m: int|
                        0 <= m < j ==> #[trigger] pow_bits_vec@[m] == spec_whir_step_pow(
                            ldt,
                            p,
                            i as int,
                            m,
                        ),
                    pb.protocol_name@ == "WHIR protocol"@,
                    pb.digest_size_bits == p.digest_size_bits,
                    pb.rounds@.len() == base_rounds + i + 1,
                    spec_rounds_vms_fit(pb.rounds@),
                    pb.current_round matches Some(rb) && rb.messages@.len() == 2 * j && (forall|
                        m: int,
                    |
                        0 <= m < rb.messages@.len() ==> spec_message_vm_fits(
                            #[trigger] rb.messages@[m],
                        )),
                decreases folding_factor - j,
            {
                let prox_gaps_error = assumption.prox_gaps_error(
                    current_log_degree - 1,
                    next_rate,
                    field_size_bits,
                    2,
                );
                let constraint_multiplicity = if ldt_parameters.constraint_degree >= 2 {
                    ldt_parameters.constraint_degree
                } else {
                    2
                };
                let sumcheck_error = assumption.constraint_folding_error(
                    current_log_degree,
                    next_rate,
                    field_size_bits,
                    constraint_multiplicity,
                );
                let step_pow_bits = pow_util(
                    security_level,
                    min_fp(prox_gaps_error, sumcheck_error),
                );

                pb = match pb.prover_message(
                    ProverMessage::new(
                        ProofElement::FieldElements(
                            FieldElements {
                                field: ldt_parameters.field,
                                num_elements: ldt_parameters.constraint_degree + 1,
                                is_extension: true,
                            },
                        ),
                    ),
                ) {
                    Ok(b) => b,
                    Err(e) => {
                        return Err(e);
                    },
                };
                let mut errs: Vec<RbRError> = Vec::new();
                errs.push(RbRError::new("folding_error", prox_gaps_error));
                errs.push(RbRError::new("sumcheck_error", sumcheck_error));
                let vmsg = VerifierMessage::new(errs, step_pow_bits);
                proof {
                    lemma_vm_fits_two(vmsg);
                }
                pb = match pb.verifier_message(vmsg) {
                    Ok(b) => b,
                    Err(e) => {
                        return Err(e);
                    },
                };

                pow_bits_vec.push(step_pow_bits);
                current_log_degree = current_log_degree - 1;
                j = j + 1;
            }

            let round_config = RoundConfig {
                evaluation_domain_log_size: new_evaluation_domain_size,
                folding_factor,
                num_queries,
                pow_bits: pow_bits_vec,
                ood_samples,
                log_inv_rate,
            };
            round_parameters.push(round_config);

            current_merkle_tree = next_merkle_tree;
            log_inv_rate = next_rate;
            i = i + 1;
        }
        let ghost rounds_after_loop = pb.rounds@;
        protocol_builder = match pb.end_round() {
            Ok(b) => b,
            Err(e) => {
                return Err(e);
            },
        };
        proof {
            lemma_rounds_vms_fit_push(
                rounds_after_loop,
                protocol_builder.rounds@[rounds_after_loop.len() as int],
            );
        }

        // Compute the number of queries required in the final round.
        let final_queries = assumption.queries(protocol_security_level, log_inv_rate);

        // We need to compute the error, to compute the according PoW.
        let query_error = assumption.queries_error(log_inv_rate, final_queries);

        // Now compute the PoW.
        let final_pow_bits = pow_util(security_level, query_error);

        // Add the final round message.
        let pb = match protocol_builder.start_round("final_round") {
            Ok(b) => b,
            Err(e) => {
                return Err(e);
            },
        };
        let mut errs: Vec<RbRError> = Vec::new();
        errs.push(RbRError::new("query_error", query_error));
        let vmsg = VerifierMessage::new(errs, final_pow_bits);
        proof {
            lemma_vm_fits_one(vmsg);
        }
        let ghost rounds_before_final = protocol_builder.rounds@;
        let pb = match pb.verifier_message(vmsg) {
            Ok(b) => b,
            Err(e) => {
                return Err(e);
            },
        };
        proof {
            assert(pow2(final_log_degree as nat) <= pow2(ldt.log_degree as nat)) by {
                if final_log_degree < ldt.log_degree {
                    vstd::arithmetic::power2::lemma_pow2_strictly_increases(
                        final_log_degree as nat,
                        ldt.log_degree as nat,
                    );
                }
            }
        }
        let final_elements = pow2_usize(final_log_degree);
        let pb = match pb.prover_message(
            ProverMessage::new(
                ProofElement::FieldElements(
                    FieldElements {
                        field: ldt_parameters.field,
                        num_elements: final_elements,
                        is_extension: true,
                    },
                ),
            ),
        ) {
            Ok(b) => b,
            Err(e) => {
                return Err(e);
            },
        };
        let pb = match pb.prover_message(
            ProverMessage::new(
                ProofElement::MerkleQueries(
                    MerkleQueries { merkle_tree: current_merkle_tree, num_openings: final_queries },
                ),
            ),
        ) {
            Ok(b) => b,
            Err(e) => {
                return Err(e);
            },
        };
        let pb = match pb.end_round() {
            Ok(b) => b,
            Err(e) => {
                return Err(e);
            },
        };
        proof {
            lemma_rounds_vms_fit_push(
                rounds_before_final,
                pb.rounds@[rounds_before_final.len() as int],
            );
        }
        let protocol = match pb.build() {
            Ok(pr) => pr,
            Err(e) => {
                return Err(e);
            },
        };

        Ok(
            WhirProtocol {
                config: WhirConfig {
                    ldt_parameters,
                    security_assumption: whir_parameters.security_assumption,
                    security_level,
                    max_pow_bits: whir_parameters.pow_bits,
                    batching_pow_bits,
                    starting_folding_factor,
                    starting_domain_log_size,
                    starting_log_inv_rate: whir_parameters.starting_log_inv_rate,
                    starting_folding_pow_bits: starting_folding_pow_bits_vec,
                    round_parameters,
                    final_queries,
                    final_pow_bits,
                    final_poly_log_degree: final_log_degree,
                    final_log_inv_rate: log_inv_rate,
                },
                protocol,
            },
        )
    }
}

} // verus!
