//! The STIR low-degree test: per round it folds the polynomial and moves to a
//! fresh (usually slowly shrinking) evaluation domain, adds out-of-domain
//! samples, and charges the minimum of the query error and two
//! proximity-gaps errors; only the immediately preceding tree is reopened.

use vstd::prelude::*;
use vstd::arithmetic::power2::pow2;
use vstd::math::min;

use crate::LowDegreeParameters;
use crate::ParameterError;
use crate::errors::SecurityAssumption;
use crate::errors::spec_ood_samples;
use crate::errors::spec_prox_gaps_error;
use crate::errors::spec_queries;
use crate::errors::spec_queries_error;
use crate::fri::spec_field_bits;
use crate::fri::spec_protocol_security_level;
use crate::protocol::Protocol;
use crate::protocol::ProverMessage;
use crate::protocol::RbRError;
use crate::protocol::VerifierMessage;
use crate::protocol::builder::ProtocolBuilder;
use crate::protocol::lemma_rounds_vms_fit_push;
use crate::protocol::lemma_vm_fits_one;
use crate::protocol::lemma_vm_fits_three;
use crate::protocol::spec_protocol_vms_fit;
use crate::protocol::spec_rounds_vms_fit;
use crate::protocol::proof_size::FieldElements;
use crate::protocol::proof_size::MerkleQueries;
use crate::protocol::proof_size::MerkleTree;
use crate::protocol::proof_size::ProofElement;
use crate::utils::lemma_sum_prefix_mono;
use crate::utils::min_fp;
use crate::utils::pow2_usize;
use crate::utils::pow_util;
use crate::utils::spec_pow_util;
use crate::utils::spec_sum_prefix;

verus! {

/// Parameters parametrizing an instance of STIR. This does not include the
/// entire configuration, which is populated according to the required
/// security level.
#[derive(Clone)]
pub struct StirParameters {
    /// The starting rate used in the protocol.
    pub starting_log_inv_rate: usize,
    /// The folding factor in the first round, in log form.
    pub starting_folding_factor: usize,
    /// The folding factors in the remaining rounds, in log form.
    pub folding_factors: Vec<usize>,
    /// The rates used in the internal rounds of STIR.
    pub log_inv_rates: Vec<usize>,
    /// The security assumption under which to configure STIR.
    pub security_assumption: SecurityAssumption,
    /// The security level desired.
    pub security_level: usize,
    /// The number of PoW bits used to reduce the query error (grinding).
    pub pow_bits: usize,
    /// The size of the digest for the Merkle tree.
    pub digest_size_bits: usize,
}

/// The configuration and structure of the STIR protocol.
#[derive(Debug, Clone)]
pub struct StirProtocol {
    /// The flat numeric summary of the derivation.
    pub config: StirConfig,
    /// The assembled transcript.
    pub protocol: Protocol,
}

/// A fully expanded STIR configuration.
#[derive(Debug, Clone)]
pub struct StirConfig {
    /// The configuration of the low-degree test desired.
    pub ldt_parameters: LowDegreeParameters,
    /// The security assumption under which STIR was configured.
    pub security_assumption: SecurityAssumption,
    /// The desired security level.
    pub security_level: usize,
    /// The maximum number of PoW bits allowed.
    pub max_pow_bits: usize,
    /// The rate of the initial Reed-Solomon code used during the protocol.
    pub starting_log_inv_rate: usize,
    /// The PoW bits used in the batching phase (fixed-point).
    pub batching_pow_bits: i64,
    /// The initial folding factor.
    pub starting_folding_factor: usize,
    /// The initial domain size, in log form.
    pub starting_domain_log_size: usize,
    /// The PoW bits used in the first fold (fixed-point).
    pub starting_folding_pow_bits: i64,
    /// The round-specific parameters.
    pub round_parameters: Vec<RoundConfig>,
    /// Degree of the final polynomial sent over, in log form.
    pub final_poly_log_degree: usize,
    /// Number of queries in the last round.
    pub final_queries: usize,
    /// Number of final PoW bits for the queries (fixed-point).
    pub final_pow_bits: i64,
    /// Rate of the final Reed-Solomon codeword.
    pub final_log_inv_rate: usize,
}

/// Round-specific configuration.
#[derive(Debug, Clone)]
pub struct RoundConfig {
    /// Folding factor for this round, in log form.
    pub folding_factor: usize,
    /// Size of the evaluation domain of the oracle sent in this round, in
    /// log form.
    pub evaluation_domain_log_size: usize,
    /// PoW bits for this round (fixed-point).
    pub pow_bits: i64,
    /// Number of queries in this round.
    pub num_queries: usize,
    /// Number of out-of-domain samples in this round.
    pub ood_samples: usize,
    /// Rate of the Reed-Solomon codeword queried in this round.
    pub log_inv_rate: usize,
}

/// The machine bounds under which a STIR derivation is computable.
pub open spec fn spec_stir_inputs_ok(ldt: LowDegreeParameters, p: StirParameters) -> bool {
    &&& 1 <= ldt.log_degree <= 60
    &&& 1 <= ldt.batch_size <= 0x10_0000
    &&& 1 <= ldt.field.field_size_bits
    &&& 1 <= ldt.field.extension_degree
    &&& spec_field_bits(ldt) <= 0x10_0000
    &&& pow2(ldt.log_degree as nat) * ldt.batch_size <= usize::MAX
    &&& 1 <= p.starting_log_inv_rate <= 60
    &&& forall|i: int|
        0 <= i < p.log_inv_rates@.len() ==> 1 <= #[trigger] p.log_inv_rates@[i] <= 60
    &&& p.security_level <= 0x10_0000
    &&& p.pow_bits <= 0x10_0000
}

/// All folding factors are positive.
pub open spec fn spec_stir_factors_positive(p: StirParameters) -> bool {
    &&& p.starting_folding_factor > 0
    &&& forall|i: int| 0 <= i < p.folding_factors@.len() ==> #[trigger] p.folding_factors@[i] > 0
}

/// The total degree reduction requested over all rounds.
pub open spec fn spec_stir_total_reduction(p: StirParameters) -> int {
    p.starting_folding_factor + spec_sum_prefix(
        p.folding_factors@,
        p.folding_factors@.len() as int,
    )
}

/// The log degree of the polynomial before round i.
pub open spec fn spec_stir_degree_before_round(
    ldt: LowDegreeParameters,
    p: StirParameters,
    i: int,
) -> int {
    ldt.log_degree - p.starting_folding_factor - spec_sum_prefix(p.folding_factors@, i)
}

/// The rate of the codeword queried in round i: the starting rate for the
/// first round, else the rate the previous round moved to. Index
/// `p.log_inv_rates@.len()` gives the final rate.
pub open spec fn spec_stir_rate_before(p: StirParameters, i: int) -> int {
    if i == 0 {
        p.starting_log_inv_rate as int
    } else {
        p.log_inv_rates@[i - 1] as int
    }
}

/// The out-of-domain sample count of round i (64 when the search fails).
pub open spec fn spec_stir_round_ood(ldt: LowDegreeParameters, p: StirParameters, i: int) -> int {
    spec_ood_samples(
        p.security_assumption,
        p.security_level as int,
        spec_stir_degree_before_round(ldt, p, i),
        p.log_inv_rates@[i] as int,
        spec_field_bits(ldt),
    )
}

/// The query count of round i: queries at the previous rate.
pub open spec fn spec_stir_round_queries(ldt: LowDegreeParameters, p: StirParameters, i: int) -> int {
    spec_queries(
        p.security_assumption,
        spec_protocol_security_level(p.security_level as int, p.pow_bits as int),
        spec_stir_rate_before(p, i),
    )
}

/// The round-by-round error driving round i's PoW: the minimum of the query
/// error at the previous rate and two proximity-gaps errors at the new rate
/// (the general combination across queries and out-of-domain samples, and
/// the fold consistency at the reduced degree).
pub open spec fn spec_stir_round_error(ldt: LowDegreeParameters, p: StirParameters, i: int) -> int {
    let a = p.security_assumption;
    let f = spec_field_bits(ldt);
    let cur = spec_stir_degree_before_round(ldt, p, i);
    let next_rate = p.log_inv_rates@[i] as int;
    let query_error = spec_queries_error(
        a,
        spec_stir_rate_before(p, i),
        spec_stir_round_queries(ldt, p, i),
    );
    let prox_gaps_error_1 = spec_prox_gaps_error(
        a,
        cur,
        next_rate,
        f,
        spec_stir_round_queries(ldt, p, i) + spec_stir_round_ood(ldt, p, i),
    );
    let prox_gaps_error_2 = spec_prox_gaps_error(
        a,
        cur - p.folding_factors@[i],
        next_rate,
        f,
        pow2(p.folding_factors@[i] as nat) as int,
    );
    min(min(query_error, prox_gaps_error_1), prox_gaps_error_2)
}

/// The PoW bits of round i.
pub open spec fn spec_stir_round_pow(ldt: LowDegreeParameters, p: StirParameters, i: int) -> int {
    spec_pow_util(p.security_level as int, spec_stir_round_error(ldt, p, i))
}

/// Every round's out-of-domain search succeeds.
pub open spec fn spec_stir_ood_ok(ldt: LowDegreeParameters, p: StirParameters) -> bool {
    forall|i: int|
        0 <= i < p.folding_factors@.len() ==> #[trigger] spec_stir_round_ood(ldt, p, i) < 64
}

/// The error and PoW of batching the input functions.
pub open spec fn spec_stir_batching_pow(ldt: LowDegreeParameters, p: StirParameters) -> int {
    if ldt.batch_size > 1 {
        spec_pow_util(
            p.security_level as int,
            spec_prox_gaps_error(
                p.security_assumption,
                ldt.log_degree as int,
                p.starting_log_inv_rate as int,
                spec_field_bits(ldt),
                ldt.batch_size as int,
            ),
        )
    } else {
        0
    }
}

/// The error and PoW of the initial fold.
pub open spec fn spec_stir_starting_fold_pow(ldt: LowDegreeParameters, p: StirParameters) -> int {
    spec_pow_util(
        p.security_level as int,
        spec_prox_gaps_error(
            p.security_assumption,
            ldt.log_degree - p.starting_folding_factor,
            p.starting_log_inv_rate as int,
            spec_field_bits(ldt),
            pow2(p.starting_folding_factor as nat) as int,
        ),
    )
}

impl StirParameters {
    /// Instantiates a STIR configuration in which the rate is constant: a
    /// worse version of FRI.
    pub fn fixed_rate_folding(
        log_inv_rate: usize,
        folding_factor: usize,
        num_rounds: usize,
        security_assumption: SecurityAssumption,
        security_level: usize,
        pow_bits: usize,
        digest_size_bits: usize,
    ) -> (r: StirParameters)
        ensures
            r.starting_log_inv_rate == log_inv_rate,
            r.starting_folding_factor == folding_factor,
            r.folding_factors@.len() == num_rounds,
            forall|i: int|
                0 <= i < num_rounds ==> #[trigger] r.folding_factors@[i] == folding_factor,
            r.log_inv_rates@.len() == num_rounds,
            forall|i: int| 0 <= i < num_rounds ==> #[trigger] r.log_inv_rates@[i] == log_inv_rate,
            r.security_assumption == security_assumption,
            r.security_level == security_level,
            r.pow_bits == pow_bits,
            r.digest_size_bits == digest_size_bits,
    {
        let mut folding_factors: Vec<usize> = Vec::new();
        let mut log_inv_rates: Vec<usize> = Vec::new();
        let mut i: usize = 0;
        while i < num_rounds
            invariant
                i <= num_rounds,
                folding_factors@.len() == i,
                forall|k: int| 0 <= k < i ==> #[trigger] folding_factors@[k] == folding_factor,
                log_inv_rates@.len() == i,
                forall|k: int| 0 <= k < i ==> #[trigger] log_inv_rates@[k] == log_inv_rate,
            decreases num_rounds - i,
        {
            folding_factors.push(folding_factor);
            log_inv_rates.push(log_inv_rate);
            i = i + 1;
        }
        StirParameters {
            starting_log_inv_rate: log_inv_rate,
            starting_folding_factor: folding_factor,
            folding_factors,
            log_inv_rates,
            security_assumption,
            security_level,
            pow_bits,
            digest_size_bits,
        }
    }

    /// A STIR configuration in which the domain shrinks by half each
    /// iteration while the degree shrinks by the folding factor: the version
    /// presented in the STIR paper.
    pub fn fixed_domain_shift(
        log_inv_rate: usize,
        folding_factor: usize,
        num_rounds: usize,
        security_assumption: SecurityAssumption,
        security_level: usize,
        pow_bits: usize,
        digest_size_bits: usize,
    ) -> (r: StirParameters)
        requires
            folding_factor >= 1,
            log_inv_rate + num_rounds * folding_factor <= usize::MAX,
        ensures
            r.starting_log_inv_rate == log_inv_rate,
            r.starting_folding_factor == folding_factor,
            r.folding_factors@.len() == num_rounds,
            forall|i: int|
                0 <= i < num_rounds ==> #[trigger] r.folding_factors@[i] == folding_factor,
            r.log_inv_rates@.len() == num_rounds,
            forall|i: int|
                0 <= i < num_rounds ==> #[trigger] r.log_inv_rates@[i] == log_inv_rate + (i + 1) * (
                folding_factor - 1),
            r.security_assumption == security_assumption,
            r.security_level == security_level,
            r.pow_bits == pow_bits,
            r.digest_size_bits == digest_size_bits,
    {
        let mut folding_factors: Vec<usize> = Vec::new();
        let mut log_inv_rates: Vec<usize> = Vec::new();
        let mut i: usize = 0;
        while i < num_rounds
            invariant
                i <= num_rounds,
                folding_factor >= 1,
                log_inv_rate + num_rounds * folding_factor <= usize::MAX,
                folding_factors@.len() == i,
                forall|k: int| 0 <= k < i ==> #[trigger] folding_factors@[k] == folding_factor,
                log_inv_rates@.len() == i,
                forall|k: int|
                    0 <= k < i ==> #[trigger] log_inv_rates@[k] == log_inv_rate + (k + 1) * (
                    folding_factor - 1),
            decreases num_rounds - i,
        {
            proof {
                assert((i + 1) * (folding_factor - 1) <= num_rounds * folding_factor)
                    by (nonlinear_arith)
                    requires
                        0 <= i < num_rounds,
                        folding_factor >= 1,
                ;
            }
            folding_factors.push(folding_factor);
            log_inv_rates.push(log_inv_rate + (i + 1) * (folding_factor - 1));
            i = i + 1;
        }
        StirParameters {
            starting_log_inv_rate: log_inv_rate,
            starting_folding_factor: folding_factor,
            folding_factors,
            log_inv_rates,
            security_assumption,
            security_level,
            pow_bits,
            digest_size_bits,
        }
    }
}

impl StirProtocol {
    /// Given low-degree-test parameters and STIR parameters, derive the full
    /// configuration and assemble the transcript.
    ///
    /// The derivation fails exactly when constraints are requested (STIR
    /// only supports plain proximity testing), when a folding factor is
    /// zero, when the folding factor and rate lists differ in length, when
    /// the requested folding exceeds the degree, when the digest size is not
    /// the 256 bits every Merkle commitment uses, or when some round's
    /// out-of-domain search is exhausted.
    #[verifier::loop_isolation(false)]
    #[verifier::rlimit(100)]
    pub fn new(ldt_parameters: LowDegreeParameters, stir_parameters: StirParameters) -> (res:
        Result<StirProtocol, ParameterError>)
        requires
            spec_stir_inputs_ok(ldt_parameters, stir_parameters),
        ensures
            ldt_parameters.constraint_degree != 0 ==> res == Err::<StirProtocol, ParameterError>(
                ParameterError::UnsupportedConstraintDegree,
            ),
            ldt_parameters.constraint_degree == 0 && !spec_stir_factors_positive(stir_parameters)
                ==> res == Err::<StirProtocol, ParameterError>(ParameterError::ZeroFoldingFactor),
            ldt_parameters.constraint_degree == 0 && spec_stir_factors_positive(stir_parameters)
                && stir_parameters.folding_factors@.len() != stir_parameters.log_inv_rates@.len()
                ==> res == Err::<StirProtocol, ParameterError>(
                ParameterError::MismatchedRoundCounts,
            ),
            ldt_parameters.constraint_degree == 0 && spec_stir_factors_positive(stir_parameters)
                && stir_parameters.folding_factors@.len() == stir_parameters.log_inv_rates@.len()
                && spec_stir_total_reduction(stir_parameters) > ldt_parameters.log_degree ==> res
                == Err::<StirProtocol, ParameterError>(ParameterError::FoldingExceedsDegree),
            ldt_parameters.constraint_degree == 0 && spec_stir_factors_positive(stir_parameters)
                && stir_parameters.folding_factors@.len() == stir_parameters.log_inv_rates@.len()
                && spec_stir_total_reduction(stir_parameters) <= ldt_parameters.log_degree
                && stir_parameters.digest_size_bits != 256 ==> res == Err::<
                StirProtocol,
                ParameterError,
            >(ParameterError::DigestSizeMismatch),
            ldt_parameters.constraint_degree == 0 && spec_stir_factors_positive(stir_parameters)
                && stir_parameters.folding_factors@.len() == stir_parameters.log_inv_rates@.len()
                && spec_stir_total_reduction(stir_parameters) <= ldt_parameters.log_degree
                && stir_parameters.digest_size_bits == 256 && !spec_stir_ood_ok(
                ldt_parameters,
                stir_parameters,
            ) ==> res == Err::<StirProtocol, ParameterError>(ParameterError::OodSamplesExhausted),
            ldt_parameters.constraint_degree == 0 && spec_stir_factors_positive(stir_parameters)
                && stir_parameters.folding_factors@.len() == stir_parameters.log_inv_rates@.len()
                && spec_stir_total_reduction(stir_parameters) <= ldt_parameters.log_degree
                && stir_parameters.digest_size_bits == 256 && spec_stir_ood_ok(
                ldt_parameters,
                stir_parameters,
            ) ==> (res matches Ok(sp) && {
                let c = sp.config;
                let p = stir_parameters;
                let num_rounds = p.folding_factors@.len() as int;
                let psl = spec_protocol_security_level(
                    p.security_level as int,
                    p.pow_bits as int,
                );
                let final_rate = spec_stir_rate_before(p, num_rounds);
                &&& c.ldt_parameters == ldt_parameters
                &&& c.security_assumption == p.security_assumption
                &&& c.security_level == p.security_level
                &&& c.max_pow_bits == p.pow_bits
                &&& c.starting_log_inv_rate == p.starting_log_inv_rate
                &&& c.batching_pow_bits == spec_stir_batching_pow(ldt_parameters, p)
                &&& c.starting_folding_factor == p.starting_folding_factor
                &&& c.starting_domain_log_size == ldt_parameters.log_degree
                    + p.starting_log_inv_rate
                &&& c.starting_folding_pow_bits == spec_stir_starting_fold_pow(ldt_parameters, p)
                &&& c.round_parameters@.len() == num_rounds
                &&& forall|i: int|
                    0 <= i < num_rounds ==> {
                        let rc = #[trigger] c.round_parameters@[i];
                        &&& rc.folding_factor == p.folding_factors@[i]
                        &&& rc.evaluation_domain_log_size == spec_stir_degree_before_round(
                            ldt_parameters,
                            p,
                            i,
                        ) + p.log_inv_rates@[i]
                        &&& rc.num_queries == spec_stir_round_queries(ldt_parameters, p, i)
                        &&& rc.pow_bits == spec_stir_round_pow(ldt_parameters, p, i)
                        &&& rc.ood_samples == spec_stir_round_ood(ldt_parameters, p, i)
                        &&& rc.log_inv_rate == spec_stir_rate_before(p, i)
                    }
                &&& c.final_poly_log_degree == ldt_parameters.log_degree
                    - spec_stir_total_reduction(p)
                &&& c.final_queries == spec_queries(p.security_assumption, psl, final_rate)
                &&& c.final_pow_bits == spec_pow_util(
                    p.security_level as int,
                    spec_queries_error(
                        p.security_assumption,
                        final_rate,
                        spec_queries(p.security_assumption, psl, final_rate),
                    ),
                )
                &&& c.final_log_inv_rate == final_rate
                &&& sp.protocol.digest_size_bits == p.digest_size_bits
                &&& spec_protocol_vms_fit(sp.protocol)
                &&& sp.protocol.protocol_name@ == "STIR protocol"@
                &&& sp.protocol.rounds@.len() == (if ldt_parameters.batch_size > 1 {
                    1int
                } else {
                    0int
                }) + 1 + num_rounds + 1
            }),
    {
        let ghost ldt = ldt_parameters;
        let ghost p = stir_parameters;
        let ghost ffs = stir_parameters.folding_factors@;
        let num_rounds = stir_parameters.folding_factors.len();
        let assumption = stir_parameters.security_assumption;

        // STIR only supports proximity testing.
        if ldt_parameters.constraint_degree != 0 {
            return Err(ParameterError::UnsupportedConstraintDegree);
        }

        // We need to fold at least some time.
        if stir_parameters.starting_folding_factor == 0 {
            return Err(ParameterError::ZeroFoldingFactor);
        }
        let mut i: usize = 0;
        while i < num_rounds
            invariant
                i <= num_rounds,
                forall|k: int| 0 <= k < i ==> #[trigger] ffs[k] > 0,
            decreases num_rounds - i,
        {
            if stir_parameters.folding_factors[i] == 0 {
                return Err(ParameterError::ZeroFoldingFactor);
            }
            i = i + 1;
        }

        // Every round needs both a folding factor and a rate.
        if stir_parameters.log_inv_rates.len() != num_rounds {
            return Err(ParameterError::MismatchedRoundCounts);
        }

        // We cannot fold more than the available degree.
        if stir_parameters.starting_folding_factor > ldt_parameters.log_degree {
            proof {
                lemma_sum_prefix_mono(ffs, 0, ffs.len() as int);
            }
            return Err(ParameterError::FoldingExceedsDegree);
        }
        let mut total_reduction = stir_parameters.starting_folding_factor;
        let mut i: usize = 0;
        while i < num_rounds
            invariant
                i <= num_rounds,
                total_reduction == stir_parameters.starting_folding_factor as int
                    + spec_sum_prefix(ffs, i as int),
                total_reduction <= ldt_parameters.log_degree,
            decreases num_rounds - i,
        {
            let ff = stir_parameters.folding_factors[i];
            if ff > ldt_parameters.log_degree - total_reduction {
                proof {
                    lemma_sum_prefix_mono(ffs, i + 1, ffs.len() as int);
                }
                return Err(ParameterError::FoldingExceedsDegree);
            }
            total_reduction = total_reduction + ff;
            i = i + 1;
        }

        // Every Merkle commitment below uses a 256-bit digest: any other
        // protocol digest size cannot match it.
        if stir_parameters.digest_size_bits != 256 {
            return Err(ParameterError::DigestSizeMismatch);
        }

        // Compute the number of rounds and the leftover degree.
        let final_log_degree = ldt_parameters.log_degree - total_reduction;

        // Compute the security level that the queries must reach.
        let security_level = stir_parameters.security_level;
        let protocol_security_level = if security_level >= stir_parameters.pow_bits {
            security_level - stir_parameters.pow_bits
        } else {
            0
        };

        // Initial domain size (the trace domain).
        let starting_folding_factor = stir_parameters.starting_folding_factor;
        let starting_domain_log_size = ldt_parameters.log_degree
            + stir_parameters.starting_log_inv_rate;
        let field_size_bits = ldt_parameters.field.extension_bit_size();

        let mut protocol_builder = ProtocolBuilder::new(
            "STIR protocol",
            stir_parameters.digest_size_bits,
        );

        // PoW bits for the batching step.
        let mut batching_pow_bits: i64 = 0;
        if ldt_parameters.batch_size > 1 {
            let prox_gaps_error_batching = assumption.prox_gaps_error(
                ldt_parameters.log_degree,
                stir_parameters.starting_log_inv_rate,
                field_size_bits,
                ldt_parameters.batch_size,
            );
            batching_pow_bits = pow_util(security_level, prox_gaps_error_batching);

            // Add the round for the batching.
            let pb = match protocol_builder.start_round("batching_round") {
                Ok(b) => b,
                Err(e) => {
                    return Err(e);
                },
            };
            let mut errs: Vec<RbRError> = Vec::new();
            errs.push(RbRError::new("batching_error", prox_gaps_error_batching));
            let vmsg = VerifierMessage::new(errs, batching_pow_bits);
            proof {
                lemma_vm_fits_one(vmsg);
            }
            let ghost old_rounds = pb.rounds@;
            let pb = match pb.verifier_message(vmsg) {
                Ok(b) => b,
                Err(e) => {
                    return Err(e);
                },
            };
            protocol_builder = match pb.end_round() {
                Ok(b) => b,
                Err(e) => {
                    return Err(e);
                },
            };
            proof {
                lemma_rounds_vms_fit_push(
                    old_rounds,
                    protocol_builder.rounds@[old_rounds.len() as int],
                );
            }
        }
        proof {
            assert(spec_rounds_vms_fit(protocol_builder.rounds@));
        }
        let ghost base_rounds: int = if ldt.batch_size > 1 {
            1
        } else {
            0
        };

        proof {
            vstd::arithmetic::power2::lemma_pow2_pos(starting_folding_factor as nat);
            assert(pow2(starting_folding_factor as nat) <= pow2(ldt.log_degree as nat)) by {
                if starting_folding_factor < ldt.log_degree {
                    vstd::arithmetic::power2::lemma_pow2_strictly_increases(
                        starting_folding_factor as nat,
                        ldt.log_degree as nat,
                    );
                }
                lemma_sum_prefix_mono(ffs, 0, ffs.len() as int);
            }
            assert(pow2(ldt.log_degree as nat) * 1 <= pow2(ldt.log_degree as nat)
                * ldt.batch_size) by {
                vstd::arithmetic::mul::lemma_mul_inequality(
                    1,
                    ldt.batch_size as int,
                    pow2(ldt.log_degree as nat) as int,
                );
                vstd::arithmetic::mul::lemma_mul_is_commutative(
                    pow2(ldt.log_degree as nat) as int,
                    ldt.batch_size as int,
                );
            }
        }

        // Merkle tree committed to.
        let folds = pow2_usize(starting_folding_factor);
        proof {
            assert(folds * ldt.batch_size <= pow2(ldt.log_degree as nat) * ldt.batch_size) by {
                vstd::arithmetic::mul::lemma_mul_inequality(
                    folds as int,
                    pow2(ldt.log_degree as nat) as int,
                    ldt.batch_size as int,
                );
            }
        }
        let mut current_merkle_tree = MerkleTree::new(
            starting_domain_log_size - starting_folding_factor,
            ldt_parameters.field,
            folds * ldt_parameters.batch_size,
            false,  // First tree is over the base field.
        );

        // Degree of the next polynomial to send, and the current rate.
        let mut current_log_degree = ldt_parameters.log_degree - starting_folding_factor;
        let mut log_inv_rate = stir_parameters.starting_log_inv_rate;

        // The initial folding PoW bits.
        let starting_folding_prox_gaps_error = assumption.prox_gaps_error(
            current_log_degree,
            log_inv_rate,
            field_size_bits,
            folds,
        );
        let starting_folding_pow_bits = pow_util(
            security_level,
            starting_folding_prox_gaps_error,
        );
        let pb = match protocol_builder.start_round("initial_iteration") {
            Ok(b) => b,
            Err(e) => {
                return Err(e);
            },
        };
        let mut errs: Vec<RbRError> = Vec::new();
        errs.push(RbRError::new("folding_error", starting_folding_prox_gaps_error));
        let vmsg = VerifierMessage::new(errs, starting_folding_pow_bits);
        proof {
            lemma_vm_fits_one(vmsg);
        }
        let ghost rounds_before_initial = pb.rounds@;
        let pb = match pb.verifier_message(vmsg) {
            Ok(b) => b,
            Err(e) => {
                return Err(e);
            },
        };
        protocol_builder = match pb.end_round() {
            Ok(b) => b,
            Err(e) => {
                return Err(e);
            },
        };

        proof {
            lemma_rounds_vms_fit_push(
                rounds_before_initial,
                protocol_builder.rounds@[rounds_before_initial.len() as int],
            );
            lemma_sum_prefix_mono(ffs, 0, ffs.len() as int);
        }
        let mut round_parameters: Vec<RoundConfig> = Vec::new();
        let mut i: usize = 0;
        while i < num_rounds
            invariant
                i <= num_rounds,
                current_log_degree == spec_stir_degree_before_round(ldt, p, i as int),
                current_log_degree >= ldt.log_degree - spec_stir_total_reduction(p),
                log_inv_rate == spec_stir_rate_before(p, i as int),
                1 <= log_inv_rate <= 60,
                current_merkle_tree.digest_size == 256,
                round_parameters@.len() == i,
                forall|k: int| 0 <= k < i ==> #[trigger] spec_stir_round_ood(ldt, p, k) < 64,
                forall|k: int|
                    0 <= k < i ==> {
                        let rc = #[trigger] round_parameters@[k];
                        &&& rc.folding_factor == ffs[k]
                        &&& rc.evaluation_domain_log_size == spec_stir_degree_before_round(
                            ldt,
                            p,
                            k,
                        ) + p.log_inv_rates@[k]
                        &&& rc.num_queries == spec_stir_round_queries(ldt, p, k)
                        &&& rc.pow_bits == spec_stir_round_pow(ldt, p, k)
                        &&& rc.ood_samples == spec_stir_round_ood(ldt, p, k)
                        &&& rc.log_inv_rate == spec_stir_rate_before(p, k)
                    },
                protocol_builder.protocol_name@ == "STIR protocol"@,
                protocol_builder.digest_size_bits == p.digest_size_bits,
                protocol_builder.current_round is None,
                protocol_builder.rounds@.len() == base_rounds + 1 + i,
                spec_rounds_vms_fit(protocol_builder.rounds@),
            decreases num_rounds - i,
        {
            proof {
                lemma_sum_prefix_mono(ffs, 0, i as int);
                lemma_sum_prefix_mono(ffs, i as int, i + 1);
                lemma_sum_prefix_mono(ffs, i + 1, ffs.len() as int);
            }
            let folding_factor = stir_parameters.folding_factors[i];
            let next_rate = stir_parameters.log_inv_rates[i];

            // This is the size of the new evaluation domain.
            let new_evaluation_domain_size = current_log_degree + next_rate;

            proof {
                assert(folding_factor <= ldt.log_degree);
                assert(pow2(folding_factor as nat) <= pow2(ldt.log_degree as nat)) by {
                    if folding_factor < ldt.log_degree {
                        vstd::arithmetic::power2::lemma_pow2_strictly_increases(
                            folding_factor as nat,
                            ldt.log_degree as nat,
                        );
                    }
                }
                vstd::arithmetic::power2::lemma_pow2_pos(folding_factor as nat);
            }
            // Send the new oracle.
            let leaf = pow2_usize(folding_factor);
            let next_merkle_tree = MerkleTree::new(
                new_evaluation_domain_size - folding_factor,
                ldt_parameters.field,
                leaf,
                true,
            );
            let mut pb = match protocol_builder.start_round("stir_iteration") {
                Ok(b) => b,
                Err(e) => {
                    return Err(e);
                },
            };
            pb = match pb.prover_message(
                ProverMessage::new(ProofElement::MerkleRoot(next_merkle_tree)),
            ) {
                Ok(b) => b,
                Err(e) => {
                    return Err(e);
                },
            };

            // Compute the out-of-domain samples required.
            let ood_samples = match assumption.determine_ood_samples(
                security_level,
                current_log_degree,
                next_rate,
                field_size_bits,
            ) {
                Ok(n) => n,
                Err(e) => {
                    proof {
                        assert(spec_stir_round_ood(ldt, p, i as int) >= 64);
                        assert(!spec_stir_ood_ok(ldt, p));
                    }
                    return Err(e);
                },
            };
            proof {
                assert(ood_samples == spec_stir_round_ood(ldt, p, i as int));
                assert(ood_samples <= 64);
            }

            // Add the out-of-domain round to the protocol.
            if ood_samples > 0 {
                let ood_error = assumption.ood_error(
                    current_log_degree,
                    next_rate,
                    field_size_bits,
                    ood_samples,
                );
                let mut errs: Vec<RbRError> = Vec::new();
                errs.push(RbRError::new("ood_error", ood_error));
                let ood_vmsg = VerifierMessage::new(errs, 0);
                proof {
                    lemma_vm_fits_one(ood_vmsg);
                }
                pb = match pb.verifier_message(ood_vmsg) {
                    Ok(b) => b,
                    Err(e) => {
                        return Err(e);
                    },
                };
                pb = match pb.prover_message(
                    ProverMessage::new(
                        ProofElement::FieldElements(
                            FieldElements {
                                field: ldt_parameters.field,
                                num_elements: ood_samples,
                                is_extension: true,
                            },
                        ),
                    ),
                ) {
                    Ok(b) => b,
                    Err(e) => {
                        return Err(e);
                    },
                };
            }
            // Compute the number of queries required, at the previous rate.
            let num_queries = assumption.queries(protocol_security_level, log_inv_rate);

            // We need to compute the error, to compute the according PoW.
            let query_error = assumption.queries_error(log_inv_rate, num_queries);

            let num_terms = num_queries + ood_samples;
            let prox_gaps_error_1 = assumption.prox_gaps_error(
                current_log_degree,
                next_rate,
                field_size_bits,
                num_terms,
            );
            let prox_gaps_error_2 = assumption.prox_gaps_error(
                current_log_degree - folding_factor,
                next_rate,
                field_size_bits,
                leaf,
            );

            // Now compute the PoW.
            let pow_bits = pow_util(
                security_level,
                min_fp(min_fp(query_error, prox_gaps_error_1), prox_gaps_error_2),
            );

            let mut errs: Vec<RbRError> = Vec::new();
            errs.push(RbRError::new("query_error", query_error));
            errs.push(RbRError::new("prox_gaps_error_1", prox_gaps_error_1));
            errs.push(RbRError::new("prox_gaps_error_2", prox_gaps_error_2));
            let vmsg = VerifierMessage::new(errs, pow_bits);
            proof {
                lemma_vm_fits_three(vmsg);
            }
            pb = match pb.verifier_message(vmsg) {
                Ok(b) => b,
                Err(e) => {
                    return Err(e);
                },
            };
            pb = match pb.prover_message(
                ProverMessage::new(
                    ProofElement::MerkleQueries(
                        MerkleQueries {
                            merkle_tree: current_merkle_tree,
                            num_openings: num_queries,
                        },
                    ),
                ),
            ) {
                Ok(b) => b,
                Err(e) => {
                    return Err(e);
                },
            };
            let ghost rounds_before = pb.rounds@;
            protocol_builder = match pb.end_round() {
                Ok(b) => b,
                Err(e) => {
                    return Err(e);
                },
            };
            proof {
                lemma_rounds_vms_fit_push(
                    rounds_before,
                    protocol_builder.rounds@[rounds_before.len() as int],
                );
            }

            let round_config = RoundConfig {
                evaluation_domain_log_size: new_evaluation_domain_size,
                folding_factor,
                num_queries,
                pow_bits,
                ood_samples,
                log_inv_rate,
            };
            round_parameters.push(round_config);

            current_merkle_tree = next_merkle_tree;
            log_inv_rate = next_rate;
            current_log_degree = current_log_degree - folding_factor;
            i = i + 1;
        }

        // Compute the number of queries required in the final round.
        let final_queries = assumption.queries(protocol_security_level, log_inv_rate);

        // We need to compute the error, to compute the according PoW.
        let query_error = assumption.queries_error(log_inv_rate, final_queries);

        // Now compute the PoW.
        let final_pow_bits = pow_util(security_level, query_error);

        // Add the final round message.
        let pb = match protocol_builder.start_round("final_round") {
            Ok(b) => b,
            Err(e) => {
                return Err(e);
            },
        };
        let mut errs: Vec<RbRError> = Vec::new();
        errs.push(RbRError::new("query_error", query_error));
        let vmsg = VerifierMessage::new(errs, final_pow_bits);
        proof {
            lemma_vm_fits_one(vmsg);
        }
        let ghost rounds_before_final = protocol_builder.rounds@;
        let pb = match pb.verifier_message(vmsg) {
            Ok(b) => b,
            Err(e) => {
                return Err(e);
            },
        };
        proof {
            assert(pow2(final_log_degree as nat) <= pow2(ldt.log_degree as nat)) by {
                if final_log_degree < ldt.log_degree {
                    vstd::arithmetic::power2::lemma_pow2_strictly_increases(
                        final_log_degree as nat,
                        ldt.log_degree as nat,
                    );
                }
            }
        }
        let final_elements = pow2_usize(final_log_degree);
        let pb = match pb.prover_message(
            ProverMessage::new(
                ProofElement::FieldElements(
                    FieldElements {
                        field: ldt_parameters.field,
                        num_elements: final_elements,
                        is_extension: true,
                    },
                ),
            ),
        ) {
            Ok(b) => b,
            Err(e) => {
                return Err(e);
            },
        };
        let pb = match pb.prover_message(
            ProverMessage::new(
                ProofElement::MerkleQueries(
                    MerkleQueries { merkle_tree: current_merkle_tree, num_openings: final_queries },
                ),
            ),
        ) {
            Ok(b) => b,
            Err(e) => {
                return Err(e);
            },
        };
        let pb = match pb.end_round() {
            Ok(b) => b,
            Err(e) => {
                return Err(e);
            },
        };
        proof {
            lemma_rounds_vms_fit_push(
                rounds_before_final,
                pb.rounds@[rounds_before_final.len() as int],
            );
        }
        let protocol = match pb.build() {
            Ok(pr) => pr,
            Err(e) => {
                return Err(e);
            },
        };

        Ok(
            StirProtocol {
                config: StirConfig {
                    ldt_parameters,
                    security_assumption: stir_parameters.security_assumption,
                    security_level,
                    max_pow_bits: stir_parameters.pow_bits,
                    batching_pow_bits,
                    starting_folding_factor,
                    starting_domain_log_size,
                    starting_log_inv_rate: stir_parameters.starting_log_inv_rate,
                    starting_folding_pow_bits,
                    round_parameters,
                    final_queries,
                    final_pow_bits,
                    final_poly_log_degree: final_log_degree,
                    final_log_inv_rate: log_inv_rate,
                },
                protocol,
            },
        )
    }
}

} // verus!
