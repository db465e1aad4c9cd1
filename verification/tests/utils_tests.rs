use stir_whir_estimation::fixed::FP_ONE;
use stir_whir_estimation::fixed::log2_fp;
use stir_whir_estimation::utils::display_size;
use stir_whir_estimation::utils::pow_util;
use stir_whir_estimation::utils::u64_to_decimal;

#[test]
fn test_display_size_zero() {
    assert_eq!(display_size(0), "0B");
}

#[test]
fn test_display_size_one_kb() {
    assert_eq!(display_size(8 * 1024), "1 KB");
}

#[test]
fn test_display_size_small() {
    assert_eq!(display_size(1), "0 B");
    assert_eq!(display_size(4), "1 B");
    assert_eq!(display_size(8), "1 B");
    assert_eq!(display_size(256), "32 B");
}

#[test]
fn test_display_size_units() {
    assert_eq!(display_size(8 * 1024 * 1024), "1 MB");
    assert_eq!(display_size(8 * 1024 * 1024 * 1024), "1 GB");
    // Half-way values round away from zero.
    assert_eq!(display_size(8 * 1024 + 4 * 1024), "2 KB");
}

#[test]
fn test_u64_to_decimal() {
    assert_eq!(u64_to_decimal(0), "0");
    assert_eq!(u64_to_decimal(7), "7");
    assert_eq!(u64_to_decimal(120450), "120450");
    assert_eq!(u64_to_decimal(u64::MAX), "18446744073709551615");
}

#[test]
fn test_pow_util_deficit() {
    // 100 bits wanted, 60.0 bits achieved: 40 bits of grinding.
    assert_eq!(pow_util(100, 60 * FP_ONE), 40 * FP_ONE);
}

#[test]
fn test_pow_util_surplus_clamps_to_zero() {
    // The error already exceeds the level: no grinding, never negative.
    assert_eq!(pow_util(10, 20 * FP_ONE), 0);
}

#[test]
fn test_pow_util_negative_error() {
    // Over-spent budgets (negative bits) demand the full difference.
    assert_eq!(pow_util(10, -5 * FP_ONE), 15 * FP_ONE);
}

#[test]
fn test_log2_fp_values() {
    // Exact on powers of two.
    assert_eq!(log2_fp(1), 0);
    assert_eq!(log2_fp(2), FP_ONE);
    assert_eq!(log2_fp(1024), 10 * FP_ONE);
    // Within resolution of the real logarithm elsewhere.
    let v = log2_fp(10) as f64 / FP_ONE as f64;
    assert!((v - 10f64.log2()).abs() < 0.001);
    let v3 = log2_fp(3) as f64 / FP_ONE as f64;
    assert!((v3 - 3f64.log2()).abs() < 0.001);
}
