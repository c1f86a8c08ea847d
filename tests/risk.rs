use trading_bot::risk::{
    calculate_average_return, calculate_calmar_ratio, calculate_max_drawdown, calculate_path_drawdown,
    calculate_sharpe_ratio, calculate_sortino_ratio, calculate_volatility, isqrt,
};

fn micros(x: f64) -> i64 {
    (x * 1_000_000.0).round() as i64
}

fn series(xs: &[f64]) -> Vec<i32> {
    xs.iter().map(|&x| micros(x) as i32).collect()
}

fn prices(xs: &[f64]) -> Vec<u64> {
    xs.iter().map(|&x| micros(x) as u64).collect()
}

#[test]
fn test_calculate_volatility() {
    let returns = series(&[0.01, -0.02, 0.03, -0.01, 0.02]);
    let volatility = calculate_volatility(&returns);
    assert!(volatility > 0);
}

#[test]
fn test_calculate_sharpe_ratio() {
    let returns = series(&[0.01, -0.02, 0.03, -0.01, 0.02]);
    let sharpe = calculate_sharpe_ratio(&returns, micros(0.05));
    assert!(sharpe.abs() < 1_000_000_000);
}

#[test]
fn test_calculate_max_drawdown() {
    let prices = prices(&[100.0, 110.0, 105.0, 120.0, 115.0, 130.0]);
    let max_dd = calculate_max_drawdown(&prices);
    assert!(max_dd >= 0);
}

#[test]
fn volatility_is_the_sample_deviation() {
    // variance = 0.00043, deviation = 0.020737 (rounded up)
    let returns = series(&[0.01, -0.02, 0.03, -0.01, 0.02]);
    assert_eq!(calculate_volatility(&returns), 20_737);
}

#[test]
fn volatility_needs_two_samples() {
    assert_eq!(calculate_volatility(&[]), 0);
    assert_eq!(calculate_volatility(&[25_000]), 0);
    assert_eq!(calculate_volatility(&[25_000, 25_000, 25_000]), 0);
    assert_eq!(calculate_volatility(&[i32::MIN, i32::MAX]), 3_037_000_500);
}

#[test]
fn sharpe_is_exact() {
    // (0.006 - 0.05 / 252) / 0.020737 = 0.279769...
    let returns = series(&[0.01, -0.02, 0.03, -0.01, 0.02]);
    assert_eq!(calculate_sharpe_ratio(&returns, micros(0.05)), 279_769);
}

#[test]
fn sharpe_of_flat_or_empty_series_is_zero() {
    assert_eq!(calculate_sharpe_ratio(&[], micros(0.05)), 0);
    assert_eq!(calculate_sharpe_ratio(&[10_000], micros(0.05)), 0);
    assert_eq!(calculate_sharpe_ratio(&[10_000, 10_000], micros(0.05)), 0);
}

#[test]
fn sortino_is_exact() {
    let returns = series(&[0.01, -0.02, 0.03, -0.01, 0.02]);
    assert_eq!(calculate_sortino_ratio(&returns, 0, 0), 600_000);
    assert_eq!(calculate_sortino_ratio(&returns, 0, 194), 573_885);
}

#[test]
fn sortino_without_downside_is_zero() {
    assert_eq!(calculate_sortino_ratio(&[], 0, 0), 0);
    assert_eq!(calculate_sortino_ratio(&[10_000, 20_000], 0, 0), 0);
}

#[test]
fn max_drawdown_tracks_the_peak() {
    // falls of 5/110 and 5/120 below the running peak; the first is larger
    let prices = prices(&[100.0, 110.0, 105.0, 120.0, 115.0, 130.0]);
    assert_eq!(calculate_max_drawdown(&prices), 45_455);
}

#[test]
fn max_drawdown_edge_cases() {
    assert_eq!(calculate_max_drawdown(&[]), 0);
    assert_eq!(calculate_max_drawdown(&[50]), 0);
    assert_eq!(calculate_max_drawdown(&[10, 20, 30]), 0);
    assert_eq!(calculate_max_drawdown(&[0, 0, 0]), 0);
    assert_eq!(calculate_max_drawdown(&[100, 0, 50]), 1_000_000);
}

#[test]
fn calmar_divides_by_drawdown_magnitude() {
    assert_eq!(calculate_calmar_ratio(micros(0.25), micros(0.1)), 2_500_000);
    assert_eq!(calculate_calmar_ratio(micros(0.25), -micros(0.1)), 2_500_000);
    assert_eq!(calculate_calmar_ratio(micros(0.25), 0), 0);
    assert_eq!(calculate_calmar_ratio(-micros(0.1), micros(0.3)), -333_334);
}

#[test]
fn average_return_rounds_down() {
    assert_eq!(calculate_average_return(&[]), 0);
    assert_eq!(calculate_average_return(&[10_000, -20_000, 30_000, -10_000, 20_000]), 6_000);
    assert_eq!(calculate_average_return(&[-1, -2]), -2);
}

#[test]
fn integer_square_root() {
    assert_eq!(isqrt(0), 0);
    assert_eq!(isqrt(15), 3);
    assert_eq!(isqrt(16), 4);
    assert_eq!(isqrt(u128::MAX), u64::MAX);
}

#[test]
fn path_drawdown_compounds_returns() {
    assert_eq!(calculate_path_drawdown(&[10_000, -20_000, 30_000, -10_000, 20_000]), 20_000);
    assert_eq!(calculate_path_drawdown(&[100_000, -500_000, 200_000]), 500_000);
    assert_eq!(calculate_path_drawdown(&[100_000, -1_500_000, 500_000]), 1_000_000);
    assert_eq!(calculate_path_drawdown(&[-500_000]), 0);
    assert_eq!(calculate_path_drawdown(&[]), 0);
    assert_eq!(calculate_path_drawdown(&[50_000, 50_000]), 0);
}

#[test]
fn tiny_spread_still_has_volatility() {
    assert_eq!(calculate_volatility(&[0, 1]), 1);
    assert_eq!(calculate_sharpe_ratio(&[10_000, 10_001], 0), 10_000_500_000);
    assert_eq!(calculate_sortino_ratio(&[1, -1], 0, 0), 0);
    assert_eq!(calculate_sortino_ratio(&[2, -1], 0, 0), 500_000);
}

#[test]
fn tiny_fall_still_counts_as_drawdown() {
    assert_eq!(calculate_max_drawdown(&[2_000_000_000_000, 1_999_999_999_999]), 1);
    assert_eq!(calculate_max_drawdown(&[100_000_000, 99_999_990]), 1);
    assert_eq!(calculate_path_drawdown(&[0, -1]), 1);
}
