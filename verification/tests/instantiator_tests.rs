use stir_whir_estimation::LowDegreeParameters;
use stir_whir_estimation::ParameterError;
use stir_whir_estimation::basefold::BasefoldParameters;
use stir_whir_estimation::basefold::BasefoldProtocol;
use stir_whir_estimation::errors::SecurityAssumption;
use stir_whir_estimation::field::Field;
use stir_whir_estimation::fri::FriParameters;
use stir_whir_estimation::fri::FriProtocol;
use stir_whir_estimation::stir::StirParameters;
use stir_whir_estimation::stir::StirProtocol;
use stir_whir_estimation::whir::WhirParameters;
use stir_whir_estimation::whir::WhirProtocol;

fn goldilocks_2() -> Field {
    Field { name: "Goldilocks", field_size_bits: 64, extension_degree: 2 }
}

fn ldt_parameters() -> LowDegreeParameters {
    LowDegreeParameters {
        field: goldilocks_2(),
        log_degree: 26,
        batch_size: 1,
        constraint_degree: 0,
    }
}

fn fri_parameters() -> FriParameters {
    FriParameters::fixed_folding(
        1,                                 // log_inv_rate
        4,                                 // folding_factor
        4,                                 // num_rounds
        SecurityAssumption::CapacityBound, // security_assumption
        100,                               // security_level
        20,                                // pow_bits
        256,                               // digest_size_bits
    )
}

#[test]
fn test_fri_construction() {
    // 26 >= 4 + 4 * 4: the construction succeeds.
    let fri = FriProtocol::new(ldt_parameters(), fri_parameters()).unwrap();
    assert_eq!(fri.config.final_poly_log_degree, 6);
    assert_eq!(fri.config.round_parameters.len(), 4);
    assert_eq!(fri.config.starting_domain_log_size, 27);
    assert!(fri.config.queries > 0);
    // One verifier round per fold plus the initial fold and the query phase.
    assert_eq!(fri.protocol.rounds.len(), 6);
    assert_eq!(fri.protocol.rbr_errors().len(), 6);
    assert!(fri.protocol.proof_size_bits() > 0);
    // Domain sizes shrink by the folding factor each round.
    for (i, rc) in fri.config.round_parameters.iter().enumerate() {
        assert_eq!(rc.folding_factor, 4);
        assert_eq!(rc.evaluation_domain_log_size, 23 - 4 * i);
    }
}

#[test]
fn test_fri_rejects_zero_folding_factor() {
    let mut params = fri_parameters();
    params.folding_factors[2] = 0;
    assert_eq!(
        FriProtocol::new(ldt_parameters(), params).err(),
        Some(ParameterError::ZeroFoldingFactor)
    );
}

#[test]
fn test_fri_rejects_excessive_folding() {
    let mut ldt = ldt_parameters();
    ldt.log_degree = 19;  // 4 + 4 * 4 = 20 > 19
    assert_eq!(
        FriProtocol::new(ldt, fri_parameters()).err(),
        Some(ParameterError::FoldingExceedsDegree)
    );
}

#[test]
fn test_fri_rejects_foreign_digest() {
    let mut params = fri_parameters();
    params.digest_size_bits = 128;
    assert_eq!(
        FriProtocol::new(ldt_parameters(), params).err(),
        Some(ParameterError::DigestSizeMismatch)
    );
}

#[test]
fn test_stir_construction() {
    let params = StirParameters::fixed_domain_shift(
        1,
        4,
        4,
        SecurityAssumption::CapacityBound,
        100,
        20,
        256,
    );
    let stir = StirProtocol::new(ldt_parameters(), params).unwrap();
    assert_eq!(stir.config.final_poly_log_degree, 6);
    assert_eq!(stir.config.round_parameters.len(), 4);
    // The rate grows by folding_factor - 1 per round.
    assert_eq!(stir.config.final_log_inv_rate, 1 + 4 * 3);
    for (i, rc) in stir.config.round_parameters.iter().enumerate() {
        assert_eq!(rc.folding_factor, 4);
        assert_eq!(rc.log_inv_rate, 1 + 3 * i);
        assert!(rc.num_queries > 0);
        assert!(rc.ood_samples > 0);
    }
    assert_eq!(stir.protocol.rounds.len(), 6);
}

#[test]
fn test_stir_rejects_constraints() {
    let params = StirParameters::fixed_rate_folding(
        1,
        4,
        4,
        SecurityAssumption::CapacityBound,
        100,
        20,
        256,
    );
    let mut ldt = ldt_parameters();
    ldt.constraint_degree = 1;
    assert_eq!(
        StirProtocol::new(ldt, params).err(),
        Some(ParameterError::UnsupportedConstraintDegree)
    );
}

#[test]
fn test_stir_rejects_mismatched_lists() {
    let mut params = StirParameters::fixed_rate_folding(
        1,
        4,
        4,
        SecurityAssumption::CapacityBound,
        100,
        20,
        256,
    );
    params.log_inv_rates.pop();
    assert_eq!(
        StirProtocol::new(ldt_parameters(), params).err(),
        Some(ParameterError::MismatchedRoundCounts)
    );
}

#[test]
fn test_whir_construction() {
    let params = WhirParameters::fixed_rate_folding(
        2,
        4,
        4,
        SecurityAssumption::JohnsonBound,
        100,
        20,
        256,
    );
    let mut ldt = ldt_parameters();
    ldt.constraint_degree = 2;
    let whir = WhirProtocol::new(ldt, params).unwrap();
    assert_eq!(whir.config.final_poly_log_degree, 6);
    assert_eq!(whir.config.round_parameters.len(), 4);
    assert_eq!(whir.config.starting_folding_pow_bits.len(), 4);
    for rc in whir.config.round_parameters.iter() {
        assert_eq!(rc.folding_factor, 4);
        // One PoW value per single-variable fold.
        assert_eq!(rc.pow_bits.len(), 4);
        assert!(rc.ood_samples > 0);
    }
    assert_eq!(whir.protocol.rounds.len(), 6);
}

#[test]
fn test_basefold_construction() {
    let pcs_parameters = LowDegreeParameters {
        field: goldilocks_2(),
        log_degree: 26,
        batch_size: 1,
        constraint_degree: 2,
    };
    let params = BasefoldParameters::fixed_folding(
        1,
        4,
        4,
        SecurityAssumption::CapacityBound,
        100,
        20,
        256,
    );
    let basefold = BasefoldProtocol::new(pcs_parameters, params).unwrap();
    assert_eq!(basefold.config.final_poly_log_degree, 6);
    assert_eq!(basefold.config.round_parameters.len(), 4);
    assert_eq!(basefold.config.starting_folding_pow_bits.len(), 4);
    for rc in basefold.config.round_parameters.iter() {
        assert_eq!(rc.folding_factor, 4);
        assert_eq!(rc.folding_pow_bits.len(), 4);
    }
    assert_eq!(basefold.protocol.rounds.len(), 6);
    assert!(basefold.protocol.proof_size_bits() > 0);
}

#[test]
fn test_basefold_rejects_batched_nonlinear_constraints() {
    let pcs_parameters = LowDegreeParameters {
        field: goldilocks_2(),
        log_degree: 26,
        batch_size: 2,
        constraint_degree: 3,
    };
    let params = BasefoldParameters::fixed_folding(
        1,
        4,
        4,
        SecurityAssumption::CapacityBound,
        100,
        20,
        256,
    );
    assert_eq!(
        BasefoldProtocol::new(pcs_parameters, params).err(),
        Some(ParameterError::UnsupportedConstraintDegree)
    );
}

#[test]
fn test_batching_round_present_when_batched() {
    let mut ldt = ldt_parameters();
    ldt.batch_size = 4;
    let fri = FriProtocol::new(ldt, fri_parameters()).unwrap();
    // The batching round precedes the initial fold, per-round and query
    // rounds.
    assert_eq!(fri.protocol.rounds.len(), 7);
    assert!(fri.config.batching_pow_bits >= 0);
}
