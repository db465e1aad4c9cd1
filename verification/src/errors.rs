//! The security-assumption error model: per-assumption formulas for the bits
//! of adversarial advantage of each sub-argument of a proximity test.
//!
//! All quantities are signed fractional bits on a log2 scale in fixed point
//! (scaled by `FP_ONE` = 2^16, see `fixed`; `fp(x)` is x whole bits). The
//! formulas are linear over the inputs, the constants log2(10) and
//! log2(21/20), and the fixed-point log2 of an integer. Derivations for the
//! query exponent log2(1 - delta):
//!
//! - unique decoding: delta = (1 - rho) / 2, so
//!   1 - delta = (1 + rho) / 2 = (2^r + 1) / 2^(r+1) for rho = 2^-r;
//! - Johnson bound: delta = 1 - sqrt(rho) - eta with eta = sqrt(rho) / 20
//!   (from `log_eta`), so 1 - delta = (21/20) * sqrt(rho);
//! - capacity bound: delta = 1 - rho - eta with eta = rho / 20, so
//!   1 - delta = (21/20) * rho.

use vstd::prelude::*;
use vstd::arithmetic::power2::pow2;
use vstd::math::min;

use crate::ParameterError;
use crate::fixed::FP_ONE;
use crate::fixed::LOG2_10_FP;
use crate::fixed::LOG2_21_OVER_20_FP;
use crate::fixed::UNBOUNDED_ERROR_FP;
use crate::fixed::fp;
use crate::fixed::lemma_log2_fp_pow2_plus_one;
use crate::fixed::log2_fp;
use crate::fixed::log2_fp_spec;
use crate::utils::min_fp;
use crate::utils::pow2_u64;

verus! {

/// Security assumptions determine which proximity parameters and conjectures
/// are assumed by the error computation.
#[derive(Debug, Clone, Copy)]
pub enum SecurityAssumption {
    /// Unique decoding assumes that the distance of each oracle is within the
    /// unique-decoding radius of the code. This requires no conjectures.
    UniqueDecoding,
    /// Johnson bound assumes that the distance of each oracle is within the
    /// Johnson bound 1 - sqrt(rho).
    JohnsonBound,
    /// Capacity bound assumes that the distance of each oracle is within the
    /// capacity bound 1 - rho: it conjectures that Reed-Solomon codes are
    /// decodable up to capacity and have correlated agreement up to capacity.
    CapacityBound,
}

/// log2 of the slack eta between the chosen proximity parameter and the
/// assumption's distance bound: 0 in unique decoding (eta is unused there),
/// sqrt(rho)/20 under the Johnson bound and rho/20 under the capacity bound.
pub open spec fn spec_log_eta(a: SecurityAssumption, log_inv_rate: int) -> int {
    match a {
        SecurityAssumption::UniqueDecoding => 0,
        SecurityAssumption::JohnsonBound => -(fp(log_inv_rate) / 2 + LOG2_10_FP + FP_ONE),
        SecurityAssumption::CapacityBound => -(fp(log_inv_rate) + LOG2_10_FP + FP_ONE),
    }
}

/// log2 of the list-decoding bound of a Reed-Solomon code with the given log
/// degree and log inverse rate, at distance eta below the assumption's bound.
pub open spec fn spec_list_size_bits(
    a: SecurityAssumption,
    log_degree: int,
    log_inv_rate: int,
) -> int {
    match a {
        // In unique decoding the list size is 1.
        SecurityAssumption::UniqueDecoding => 0,
        // By the Johnson bound the code is (1 - sqrt(rho) - eta, 1/(2 eta sqrt(rho)))-list
        // decodable.
        SecurityAssumption::JohnsonBound => fp(log_inv_rate) / 2 - (FP_ONE + spec_log_eta(
            a,
            log_inv_rate,
        )),
        // Under the capacity bound the code is conjectured (1 - rho - eta, d/(rho eta))-list
        // decodable.
        SecurityAssumption::CapacityBound => fp(log_degree + log_inv_rate) - spec_log_eta(
            a,
            log_inv_rate,
        ),
    }
}

/// The assumption-specific part of the proximity-gaps error for combining
/// functions at distance eta below the bound, without the field size and
/// without the count of functions combined.
pub open spec fn spec_prox_gaps_base(
    a: SecurityAssumption,
    log_degree: int,
    log_inv_rate: int,
) -> int {
    match a {
        // In unique decoding the error is |L|/|F| = d/(rho |F|).
        SecurityAssumption::UniqueDecoding => fp(log_degree + log_inv_rate),
        // Under the Johnson bound the error is
        // d^2/|F| * (2 * min(1 - sqrt(rho) - delta, sqrt(rho)/20))^-7, and
        // 1 - sqrt(rho) - delta = eta.
        SecurityAssumption::JohnsonBound => {
            let sqrt_rho_20 = FP_ONE + LOG2_10_FP + fp(log_inv_rate) / 2;
            fp(2 * log_degree) + 7 * (min(sqrt_rho_20, -spec_log_eta(a, log_inv_rate)) - FP_ONE)
        },
        // Under the capacity bound the error is conjectured d/(eta rho^2 |F|).
        SecurityAssumption::CapacityBound => fp(log_degree + 2 * log_inv_rate) - spec_log_eta(
            a,
            log_inv_rate,
        ),
    }
}

/// The proximity-gaps error, in bits, of combining `num_functions` functions:
/// field bits minus the assumption-specific term and log2(num_functions - 1).
/// Combining a single function incurs no error at all.
pub open spec fn spec_prox_gaps_error(
    a: SecurityAssumption,
    log_degree: int,
    log_inv_rate: int,
    field_size_bits: int,
    num_functions: int,
) -> int {
    if num_functions <= 1 {
        UNBOUNDED_ERROR_FP as int
    } else {
        fp(field_size_bits) - (spec_prox_gaps_base(a, log_degree, log_inv_rate) + log2_fp_spec(
            (num_functions - 1) as nat,
        ))
    }
}

/// The constraint-folding (sumcheck) error of folding with multiplicity
/// `multiplicity`: field bits minus the assumption-specific term and
/// log2(multiplicity). Multiplicity 0 incurs no error at all.
pub open spec fn spec_constraint_folding_error(
    a: SecurityAssumption,
    log_degree: int,
    log_inv_rate: int,
    field_size_bits: int,
    multiplicity: int,
) -> int {
    if multiplicity <= 0 {
        UNBOUNDED_ERROR_FP as int
    } else {
        fp(field_size_bits) - (spec_prox_gaps_base(a, log_degree, log_inv_rate) + log2_fp_spec(
            multiplicity as nat,
        ))
    }
}

/// log2(1 - delta), the per-query escape exponent, where delta is the
/// proximity parameter the assumption affords (see the module header).
pub open spec fn spec_log_1_delta(a: SecurityAssumption, log_inv_rate: int) -> int {
    match a {
        SecurityAssumption::UniqueDecoding => log2_fp_spec((pow2(log_inv_rate as nat) + 1) as nat)
            - fp(log_inv_rate + 1),
        SecurityAssumption::JohnsonBound => LOG2_21_OVER_20_FP - fp(log_inv_rate) / 2,
        SecurityAssumption::CapacityBound => LOG2_21_OVER_20_FP - fp(log_inv_rate),
    }
}

/// The number of queries needed to drive (1 - delta)^t below 2^-level:
/// ceil(level / -log2(1 - delta)).
pub open spec fn spec_queries(a: SecurityAssumption, level: int, log_inv_rate: int) -> int {
    let neg = -spec_log_1_delta(a, log_inv_rate);
    (fp(level) + neg - 1) / neg
}

/// The error, in bits, achieved by `num_queries` queries:
/// -num_queries * log2(1 - delta).
pub open spec fn spec_queries_error(
    a: SecurityAssumption,
    log_inv_rate: int,
    num_queries: int,
) -> int {
    num_queries * -spec_log_1_delta(a, log_inv_rate)
}

/// The error, in bits, of `ood_samples` out-of-domain samples:
/// ood_samples * field bits + 1 - (2 * list size + ood_samples * log degree).
/// Unique decoding needs no out-of-domain sampling and incurs no error.
pub open spec fn spec_ood_error(
    a: SecurityAssumption,
    log_degree: int,
    log_inv_rate: int,
    field_size_bits: int,
    ood_samples: int,
) -> int {
    if a is UniqueDecoding {
        0
    } else {
        fp(ood_samples * field_size_bits) + FP_ONE - (2 * spec_list_size_bits(
            a,
            log_degree,
            log_inv_rate,
        ) + fp(log_degree * ood_samples))
    }
}

/// The first sample count in j..64 whose out-of-domain error meets the
/// security level, or 64 when none does.
pub open spec fn spec_ood_search(
    a: SecurityAssumption,
    level: int,
    log_degree: int,
    log_inv_rate: int,
    field_size_bits: int,
    j: nat,
) -> int
    decreases 64 - j,
{
    if j >= 64 {
        64
    } else if spec_ood_error(a, log_degree, log_inv_rate, field_size_bits, j as int) >= fp(
        level,
    ) {
        j as int
    } else {
        spec_ood_search(a, level, log_degree, log_inv_rate, field_size_bits, j + 1)
    }
}

/// The number of out-of-domain samples an instantiator uses: 0 in unique
/// decoding, else the least count in 1..64 meeting the level (64 when the
/// search is exhausted).
pub open spec fn spec_ood_samples(
    a: SecurityAssumption,
    level: int,
    log_degree: int,
    log_inv_rate: int,
    field_size_bits: int,
) -> int {
    if a is UniqueDecoding {
        0
    } else {
        spec_ood_search(a, level, log_degree, log_inv_rate, field_size_bits, 1)
    }
}

impl SecurityAssumption {
    /// log2 of the slack eta below the assumption's distance bound
    /// (0 for unique decoding, which does not use eta).
    pub fn log_eta(&self, log_inv_rate: usize) -> (r: i64)
        requires
            log_inv_rate <= 0x10_0000,
        ensures
            r == spec_log_eta(*self, log_inv_rate as int),
    {
        match self {
            SecurityAssumption::UniqueDecoding => 0,
            SecurityAssumption::JohnsonBound => -(
            (log_inv_rate as i64) * 32768 + LOG2_10_FP + FP_ONE),
            SecurityAssumption::CapacityBound => -(
            (log_inv_rate as i64) * 65536 + LOG2_10_FP + FP_ONE),
        }
    }

    /// Given a Reed-Solomon code (specified by the log of the degree and the
    /// log of the inverse rate), the log2 of the list size at the
    /// assumption's distance.
    pub fn list_size_bits(&self, log_degree: usize, log_inv_rate: usize) -> (r: i64)
        requires
            log_degree <= 0x10_0000,
            log_inv_rate <= 0x10_0000,
        ensures
            r == spec_list_size_bits(*self, log_degree as int, log_inv_rate as int),
            self is UniqueDecoding ==> r == 0,
    {
        let log_eta = self.log_eta(log_inv_rate);
        match self {
            SecurityAssumption::UniqueDecoding => 0,
            SecurityAssumption::JohnsonBound => {
                let log_inv_sqrt_rate: i64 = (log_inv_rate as i64) * 32768;
                log_inv_sqrt_rate - (FP_ONE + log_eta)
            },
            SecurityAssumption::CapacityBound => (log_degree as i64 + log_inv_rate as i64) * 65536
                - log_eta,
        }
    }

    /// Given a Reed-Solomon code, a field size and the number of functions
    /// combined, the proximity-gaps error (in bits) at the assumption's
    /// distance: the two-function combination error of the respective
    /// soundness theorem, scaled by log2(num_functions - 1).
    pub fn prox_gaps_error(
        &self,
        log_degree: usize,
        log_inv_rate: usize,
        field_size_bits: usize,
        num_functions: usize,
    ) -> (r: i64)
        requires
            log_degree <= 0x10_0000,
            log_inv_rate <= 0x10_0000,
            field_size_bits <= 0x10_0000,
        ensures
            r == spec_prox_gaps_error(
                *self,
                log_degree as int,
                log_inv_rate as int,
                field_size_bits as int,
                num_functions as int,
            ),
            -0x100_0000_0000 <= r <= UNBOUNDED_ERROR_FP,
    {
        if num_functions <= 1 {
            return UNBOUNDED_ERROR_FP;
        }
        let error = self.prox_gaps_base(log_degree, log_inv_rate);
        let num_functions_1_log = log2_fp((num_functions - 1) as u64);
        (field_size_bits as i64) * 65536 - (error + num_functions_1_log)
    }

    /// The constraint-folding (sumcheck) error of folding constraints with
    /// the given multiplicity: as the proximity-gaps error, but scaled by
    /// log2(multiplicity).
    pub fn constraint_folding_error(
        &self,
        log_degree: usize,
        log_inv_rate: usize,
        field_size_bits: usize,
        multiplicity: usize,
    ) -> (r: i64)
        requires
            log_degree <= 0x10_0000,
            log_inv_rate <= 0x10_0000,
            field_size_bits <= 0x10_0000,
        ensures
            r == spec_constraint_folding_error(
                *self,
                log_degree as int,
                log_inv_rate as int,
                field_size_bits as int,
                multiplicity as int,
            ),
            -0x100_0000_0000 <= r <= UNBOUNDED_ERROR_FP,
    {
        if multiplicity == 0 {
            return UNBOUNDED_ERROR_FP;
        }
        let error = self.prox_gaps_base(log_degree, log_inv_rate);
        let multiplicity_log = log2_fp(multiplicity as u64);
        (field_size_bits as i64) * 65536 - (error + multiplicity_log)
    }

    /// The assumption-specific error term shared by `prox_gaps_error` and
    /// `constraint_folding_error`, without field size and multiplicity.
    fn prox_gaps_base(&self, log_degree: usize, log_inv_rate: usize) -> (r: i64)
        requires
            log_degree <= 0x10_0000,
            log_inv_rate <= 0x10_0000,
        ensures
            r == spec_prox_gaps_base(*self, log_degree as int, log_inv_rate as int),
            0 <= r <= 0x80_0000_0000,
    {
        let log_eta = self.log_eta(log_inv_rate);
        match self {
            SecurityAssumption::UniqueDecoding => (log_degree as i64 + log_inv_rate as i64)
                * 65536,
            SecurityAssumption::JohnsonBound => {
                let numerator: i64 = 2 * (log_degree as i64) * 65536;
                let sqrt_rho_20: i64 = FP_ONE + LOG2_10_FP + (log_inv_rate as i64) * 32768;
                numerator + 7 * (min_fp(sqrt_rho_20, -log_eta) - FP_ONE)
            },
            SecurityAssumption::CapacityBound => (log_degree as i64 + 2 * (log_inv_rate as i64))
                * 65536 - log_eta,
        }
    }

    /// The query error is (1 - delta)^t where t is the number of queries;
    /// this computes log2(1 - delta), which is negative.
    pub fn log_1_delta(&self, log_inv_rate: usize) -> (r: i64)
        requires
            1 <= log_inv_rate <= 60,
        ensures
            r == spec_log_1_delta(*self, log_inv_rate as int),
    {
        match self {
            SecurityAssumption::UniqueDecoding => {
                let p = pow2_u64(log_inv_rate as u64);
                proof {
                    vstd::arithmetic::power2::lemma2_to64_rest();
                    assert(pow2(log_inv_rate as nat) <= pow2(60)) by {
                        if (log_inv_rate as nat) < 60 {
                            vstd::arithmetic::power2::lemma_pow2_strictly_increases(
                                log_inv_rate as nat,
                                60,
                            );
                        }
                    }
                }
                log2_fp(p + 1) - (log_inv_rate as i64 + 1) * 65536
            },
            SecurityAssumption::JohnsonBound => LOG2_21_OVER_20_FP - (log_inv_rate as i64) * 32768,
            SecurityAssumption::CapacityBound => LOG2_21_OVER_20_FP - (log_inv_rate as i64)
                * 65536,
        }
    }

    /// Compute the number of queries to match the security level: the least t
    /// with (1 - delta)^t <= 2^-level, where delta is set as in
    /// `log_1_delta`.
    pub fn queries(&self, protocol_security_level: usize, log_inv_rate: usize) -> (t: usize)
        requires
            protocol_security_level <= 0x10_0000,
            1 <= log_inv_rate <= 60,
        ensures
            t == spec_queries(*self, protocol_security_level as int, log_inv_rate as int),
            t <= 4 * protocol_security_level + 1,
    {
        proof {
            lemma_log_1_delta_range(*self, log_inv_rate as int);
        }
        let ld = self.log_1_delta(log_inv_rate);
        let neg: u64 = (-ld) as u64;
        let num: u64 = (protocol_security_level as u64) * 65536 + neg - 1;
        let t64: u64 = num / neg;
        proof {
            let l = protocol_security_level as int;
            assert(t64 <= 4 * l + 1) by {
                assert(num < neg * (4 * l + 2)) by {
                    assert(neg * (4 * l + 2) == neg * (4 * l) + neg * 2) by {
                        vstd::arithmetic::mul::lemma_mul_is_distributive_add(neg as int, 4 * l, 2);
                    }
                    assert(16384 * (4 * l) <= neg * (4 * l)) by {
                        vstd::arithmetic::mul::lemma_mul_inequality(16384, neg as int, 4 * l);
                    }
                }
                vstd::arithmetic::div_mod::lemma_multiply_divide_lt(
                    num as int,
                    neg as int,
                    4 * l + 2,
                );
            }
        }
        t64 as usize
    }

    /// Compute the error for the given number of queries: the bits achieved
    /// by num_queries queries, each escaping with probability 1 - delta.
    pub fn queries_error(&self, log_inv_rate: usize, num_queries: usize) -> (r: i64)
        requires
            1 <= log_inv_rate <= 60,
            num_queries <= 0x800_0000,
        ensures
            r == spec_queries_error(*self, log_inv_rate as int, num_queries as int),
            0 <= r <= UNBOUNDED_ERROR_FP,
    {
        proof {
            lemma_log_1_delta_range(*self, log_inv_rate as int);
        }
        let ld = self.log_1_delta(log_inv_rate);
        proof {
            assert(0 <= (num_queries as i64) * (-ld) <= 0x800_0000 * 0x40_0000)
                by (nonlinear_arith)
                requires
                    num_queries <= 0x800_0000,
                    0 < -ld <= 0x40_0000,
            ;
        }
        (num_queries as i64) * (-ld)
    }

    /// Compute the error for the out-of-domain samples of the protocol: the
    /// error is list_size^2 * (degree / field_size)^samples, discounting the
    /// domain size as negligible against the field size.
    pub fn ood_error(
        &self,
        log_degree: usize,
        log_inv_rate: usize,
        field_size_bits: usize,
        ood_samples: usize,
    ) -> (r: i64)
        requires
            log_degree <= 0x10_0000,
            log_inv_rate <= 0x10_0000,
            field_size_bits <= 0x10_0000,
            ood_samples <= 64,
        ensures
            r == spec_ood_error(
                *self,
                log_degree as int,
                log_inv_rate as int,
                field_size_bits as int,
                ood_samples as int,
            ),
            self is UniqueDecoding ==> r == 0,
            -0x1_0000_0000_0000 <= r <= 0x1_0000_0000_0000,
    {
        if matches!(self, SecurityAssumption::UniqueDecoding) {
            return 0;
        }
        let list_size_bits = self.list_size_bits(log_degree, log_inv_rate);
        proof {
            assert(0 <= (log_degree as i64) * (ood_samples as i64) <= 0x400_0000)
                by (nonlinear_arith)
                requires
                    log_degree <= 0x10_0000,
                    ood_samples <= 64,
            ;
            assert(0 <= (ood_samples as i64) * (field_size_bits as i64) <= 0x400_0000)
                by (nonlinear_arith)
                requires
                    field_size_bits <= 0x10_0000,
                    ood_samples <= 64,
            ;
        }
        let degree_samples: i64 = (log_degree as i64) * (ood_samples as i64);
        let field_samples: i64 = (ood_samples as i64) * (field_size_bits as i64);
        let error: i64 = 2 * list_size_bits + degree_samples * 65536;
        field_samples * 65536 + FP_ONE - error
    }

    /// Computes the least number of out-of-domain samples in 1..64 achieving
    /// `security_level` bits of security, sampling one element from the
    /// extension field each; fails when none does. Unique decoding needs
    /// none.
    #[verifier::loop_isolation(false)]
    pub fn determine_ood_samples(
        &self,
        security_level: usize,
        log_degree: usize,
        log_inv_rate: usize,
        field_size_bits: usize,
    ) -> (res: Result<usize, ParameterError>)
        requires
            security_level <= 0x10_0000,
            log_degree <= 0x10_0000,
            log_inv_rate <= 0x10_0000,
            field_size_bits <= 0x10_0000,
        ensures
            ({
                let found = spec_ood_samples(
                    *self,
                    security_level as int,
                    log_degree as int,
                    log_inv_rate as int,
                    field_size_bits as int,
                );
                &&& 0 <= found <= 64
                &&& res == if found < 64 {
                    Ok::<usize, ParameterError>(found as usize)
                } else {
                    Err::<usize, ParameterError>(ParameterError::OodSamplesExhausted)
                }
            }),
            self is UniqueDecoding ==> res == Ok::<usize, ParameterError>(0usize),
    {
        proof {
            if !(self is UniqueDecoding) {
                lemma_ood_search_range(
                    *self,
                    security_level as int,
                    log_degree as int,
                    log_inv_rate as int,
                    field_size_bits as int,
                    1,
                );
            }
        }
        if matches!(self, SecurityAssumption::UniqueDecoding) {
            return Ok(0);
        }
        let ghost a = *self;
        let ghost l = security_level as int;
        let ghost d = log_degree as int;
        let ghost rt = log_inv_rate as int;
        let ghost f = field_size_bits as int;
        let mut ood_samples: usize = 1;
        while ood_samples < 64
            invariant
                1 <= ood_samples <= 64,
                a == *self,
                !(a is UniqueDecoding),
                security_level <= 0x10_0000,
                log_degree <= 0x10_0000,
                log_inv_rate <= 0x10_0000,
                field_size_bits <= 0x10_0000,
                spec_ood_search(a, l, d, rt, f, 1) == spec_ood_search(
                    a,
                    l,
                    d,
                    rt,
                    f,
                    ood_samples as nat,
                ),
            decreases 64 - ood_samples,
        {
            let err = self.ood_error(log_degree, log_inv_rate, field_size_bits, ood_samples);
            if err >= (security_level as i64) * 65536 {
                proof {
                    assert(err >= fp(l));
                    assert(spec_ood_search(a, l, d, rt, f, ood_samples as nat)
                        == ood_samples as int);
                }
                return Ok(ood_samples);
            }
            proof {
                assert(!(spec_ood_error(a, d, rt, f, ood_samples as int) >= fp(l)));
                assert(spec_ood_search(a, l, d, rt, f, ood_samples as nat) == spec_ood_search(
                    a,
                    l,
                    d,
                    rt,
                    f,
                    (ood_samples + 1) as nat,
                ));
            }
            ood_samples = ood_samples + 1;
        }
        proof {
            assert(spec_ood_search(a, l, d, rt, f, 64) == 64);
        }
        Err(ParameterError::OodSamplesExhausted)
    }
}

/// The out-of-domain search result lies between its starting point and 64.
pub proof fn lemma_ood_search_range(
    a: SecurityAssumption,
    level: int,
    log_degree: int,
    log_inv_rate: int,
    field_size_bits: int,
    j: nat,
)
    requires
        j <= 64,
    ensures
        j <= spec_ood_search(a, level, log_degree, log_inv_rate, field_size_bits, j) <= 64,
    decreases 64 - j,
{
    if j < 64 {
        if !(spec_ood_error(a, log_degree, log_inv_rate, field_size_bits, j as int) >= fp(level)) {
            lemma_ood_search_range(a, level, log_degree, log_inv_rate, field_size_bits, j + 1);
        }
    }
}

/// log2(1 - delta) is at most -1/4 bit and at least -(r + 1) bits, for every
/// assumption and every log inverse rate r in 1..=63.
pub proof fn lemma_log_1_delta_range(a: SecurityAssumption, log_inv_rate: int)
    requires
        1 <= log_inv_rate <= 63,
    ensures
        -fp(log_inv_rate + 1) <= spec_log_1_delta(a, log_inv_rate) <= -16384,
{
    match a {
        SecurityAssumption::UniqueDecoding => {
            lemma_log2_fp_pow2_plus_one(log_inv_rate as nat);
            let v = log2_fp_spec((pow2(log_inv_rate as nat) + 1) as nat);
            assert(65536 * (log_inv_rate as nat) <= v <= 65536 * (log_inv_rate as nat) + 49152);
            assert(spec_log_1_delta(a, log_inv_rate) == v - fp(log_inv_rate + 1));
        },
        SecurityAssumption::JohnsonBound => {
            assert(spec_log_1_delta(a, log_inv_rate) == 4613 - 65536 * log_inv_rate / 2);
        },
        SecurityAssumption::CapacityBound => {
            assert(spec_log_1_delta(a, log_inv_rate) == 4613 - 65536 * log_inv_rate);
        },
    }
}

/// The queries chosen for a security level achieve at least that level:
/// queries_error(a, r, queries(a, level, r)) >= level, for every assumption,
/// level and rate.
pub proof fn lemma_queries_meet_security_level(
    a: SecurityAssumption,
    level: int,
    log_inv_rate: int,
)
    requires
        0 <= level,
        1 <= log_inv_rate <= 63,
    ensures
        spec_queries_error(a, log_inv_rate, spec_queries(a, level, log_inv_rate)) >= fp(level),
{
    lemma_log_1_delta_range(a, log_inv_rate);
    let neg = -spec_log_1_delta(a, log_inv_rate);
    let num = fp(level) + neg - 1;
    let t = num / neg;
    vstd::arithmetic::div_mod::lemma_fundamental_div_mod(num, neg);
    vstd::arithmetic::div_mod::lemma_mod_bound(num, neg);
    assert(t * neg == neg * t);
}

/// Under the Johnson or capacity bound, increasing the log inverse rate
/// (at a fixed degree and assumption) never increases the query count.
pub proof fn lemma_queries_monotone_in_rate(
    a: SecurityAssumption,
    level: int,
    r1: int,
    r2: int,
)
    requires
        a is JohnsonBound || a is CapacityBound,
        0 <= level,
        1 <= r1 <= r2 <= 63,
    ensures
        spec_queries(a, level, r2) <= spec_queries(a, level, r1),
{
    lemma_log_1_delta_range(a, r1);
    lemma_log_1_delta_range(a, r2);
    let neg1 = -spec_log_1_delta(a, r1);
    let neg2 = -spec_log_1_delta(a, r2);
    assert(neg1 <= neg2);
    let aa = fp(level);
    let t1 = spec_queries(a, level, r1);
    // t1 achieves the target against neg1, hence also against neg2.
    assert(t1 * neg1 >= aa) by {
        vstd::arithmetic::div_mod::lemma_fundamental_div_mod(aa + neg1 - 1, neg1);
        vstd::arithmetic::div_mod::lemma_mod_bound(aa + neg1 - 1, neg1);
    }
    assert(t1 >= 0) by {
        vstd::arithmetic::div_mod::lemma_div_pos_is_pos(aa + neg1 - 1, neg1);
    }
    assert(t1 * neg2 >= t1 * neg1) by {
        vstd::arithmetic::mul::lemma_mul_inequality(neg1, neg2, t1);
        vstd::arithmetic::mul::lemma_mul_is_commutative(t1, neg1);
        vstd::arithmetic::mul::lemma_mul_is_commutative(t1, neg2);
    }
    // The least count achieving the target against neg2 is then at most t1.
    assert(spec_queries(a, level, r2) <= t1) by {
        assert(aa + neg2 - 1 < neg2 * (t1 + 1)) by {
            vstd::arithmetic::mul::lemma_mul_is_distributive_add(neg2, t1, 1);
            vstd::arithmetic::mul::lemma_mul_is_commutative(t1, neg2);
        }
        vstd::arithmetic::div_mod::lemma_multiply_divide_lt(aa + neg2 - 1, neg2, t1 + 1);
    }
}

} // verus!
