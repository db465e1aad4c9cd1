use stir_whir_estimation::ParameterError;
use stir_whir_estimation::errors::SecurityAssumption;
use stir_whir_estimation::fixed::FP_ONE;

fn to_bits(fixed_point: i64) -> f64 {
    fixed_point as f64 / FP_ONE as f64
}

#[test]
fn test_ud_errors() {
    let assumption = SecurityAssumption::UniqueDecoding;

    // Setting
    let log_degree = 20;
    let degree = (1u64 << log_degree) as f64;
    let log_inv_rate = 2;
    let rate = 1. / (1u64 << log_inv_rate) as f64;

    let field_size_bits = 128;

    // List size
    assert_eq!(assumption.list_size_bits(log_degree, log_inv_rate), 0);

    // Prox gaps
    let computed_error = to_bits(assumption.prox_gaps_error(
        log_degree,
        log_inv_rate,
        field_size_bits,
        2,
    ));
    let real_error_non_log = degree / rate;
    let real_error = field_size_bits as f64 - real_error_non_log.log2();

    assert!((computed_error - real_error).abs() < 0.01);
}

#[test]
fn test_jb_errors() {
    let assumption = SecurityAssumption::JohnsonBound;

    // Setting
    let log_degree = 20;
    let degree = (1u64 << log_degree) as f64;
    let log_inv_rate = 2;
    let rate = 1. / (1u64 << log_inv_rate) as f64;

    let eta = rate.sqrt() / 20.;
    let delta = 1. - rate.sqrt() - eta;

    let field_size_bits = 128;

    // List size
    let real_list_size = 1. / (2. * eta * rate.sqrt());
    let computed_list_size = to_bits(assumption.list_size_bits(log_degree, log_inv_rate));
    assert!((real_list_size.log2() - computed_list_size).abs() < 0.01);

    // Prox gaps
    let computed_error = to_bits(assumption.prox_gaps_error(
        log_degree,
        log_inv_rate,
        field_size_bits,
        2,
    ));
    let real_error_non_log =
        degree.powi(2) / (2. * (rate.sqrt() / 20.).min(1. - rate.sqrt() - delta)).powi(7);
    let real_error = field_size_bits as f64 - real_error_non_log.log2();

    assert!((computed_error - real_error).abs() < 0.01);
}

#[test]
fn test_cb_errors() {
    let assumption = SecurityAssumption::CapacityBound;

    // Setting
    let log_degree = 20;
    let degree = (1u64 << log_degree) as f64;
    let log_inv_rate = 2;
    let rate = 1. / (1u64 << log_inv_rate) as f64;

    let eta = rate / 20.;

    let field_size_bits = 128;

    // List size
    let real_list_size = degree / (rate * eta);
    let computed_list_size = to_bits(assumption.list_size_bits(log_degree, log_inv_rate));
    assert!((real_list_size.log2() - computed_list_size).abs() < 0.01);

    // Prox gaps
    let computed_error = to_bits(assumption.prox_gaps_error(
        log_degree,
        log_inv_rate,
        field_size_bits,
        2,
    ));
    let real_error_non_log = degree / (eta * rate.powi(2));
    let real_error = field_size_bits as f64 - real_error_non_log.log2();

    assert!((computed_error - real_error).abs() < 0.01);
}

#[test]
fn test_unique_decoding_costs_nothing() {
    let a = SecurityAssumption::UniqueDecoding;
    assert_eq!(a.list_size_bits(20, 2), 0);
    assert_eq!(a.ood_error(20, 2, 128, 7), 0);
    assert_eq!(a.determine_ood_samples(100, 20, 2, 128), Ok(0));
}

#[test]
fn test_queries_meet_security_level() {
    // The chosen query count always achieves the requested level.
    let assumptions = [
        SecurityAssumption::UniqueDecoding,
        SecurityAssumption::JohnsonBound,
        SecurityAssumption::CapacityBound,
    ];
    for a in assumptions {
        for level in [1usize, 17, 100, 321] {
            for rate in [1usize, 2, 5, 30] {
                let t = a.queries(level, rate);
                assert!(a.queries_error(rate, t) >= (level as i64) * FP_ONE);
            }
        }
    }
}

#[test]
fn test_queries_monotone_in_rate() {
    // Under the Johnson and capacity bounds a lower-rate (higher log inverse
    // rate) code never needs more queries.
    let assumptions = [SecurityAssumption::JohnsonBound, SecurityAssumption::CapacityBound];
    for a in assumptions {
        for level in [13usize, 100] {
            let mut prev = a.queries(level, 1);
            for rate in 2usize..30 {
                let next = a.queries(level, rate);
                assert!(next <= prev);
                prev = next;
            }
        }
    }
}

#[test]
fn test_ood_samples_found_is_least() {
    let a = SecurityAssumption::CapacityBound;
    let samples = a.determine_ood_samples(100, 26, 1, 128).unwrap();
    assert!(samples >= 1 && samples < 64);
    assert!(a.ood_error(26, 1, 128, samples) >= 100 * FP_ONE);
    for fewer in 1..samples {
        assert!(a.ood_error(26, 1, 128, fewer) < 100 * FP_ONE);
    }
}

#[test]
fn test_ood_samples_exhausted() {
    // A tiny field cannot reach a high target with at most 63 samples.
    let a = SecurityAssumption::CapacityBound;
    assert_eq!(
        a.determine_ood_samples(1_000_000, 30, 1, 10),
        Err(ParameterError::OodSamplesExhausted)
    );
}
