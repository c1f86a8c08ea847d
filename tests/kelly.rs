use trading_bot::config::TradingConfig;
use trading_bot::error::TradingBotError;
use trading_bot::kelly::{calculate_unified_score, KellyAnalyzer};
use trading_bot::models::{KellyAnalysis, StockData};

fn micros(x: f64) -> i64 {
    (x * 1_000_000.0).round() as i64
}

fn config() -> TradingConfig {
    TradingConfig {
        default_portfolio_value: micros(1000.0),
        default_scaling_factor: micros(0.5),
        max_positions: 10,
        min_allocation: micros(10.0),
        max_allocation_per_position: micros(0.2),
        risk_free_rate: micros(0.05),
        lookback_days: 252,
    }
}

#[test]
fn test_kelly_calculations() {
    let analyzer = KellyAnalyzer::new(config());

    let kelly = analyzer.calculate_kelly_fraction(micros(0.6), micros(0.1), micros(0.05)).unwrap();
    assert!(kelly > 0);

    let scaled = analyzer.calculate_scaled_kelly(kelly, micros(0.5));
    assert_eq!(scaled, kelly as i128 * 500_000 / 1_000_000);
}

#[test]
fn kelly_worked_example_is_exact() {
    let analyzer = KellyAnalyzer::new(config());
    let kelly = analyzer.calculate_kelly_fraction(micros(0.6), micros(0.1), micros(0.05));
    assert_eq!(kelly, Ok(400_000));
}

#[test]
fn kelly_without_loss_is_zero() {
    let analyzer = KellyAnalyzer::new(config());
    assert_eq!(analyzer.calculate_kelly_fraction(micros(0.6), micros(0.1), 0), Ok(0));
    assert_eq!(analyzer.calculate_kelly_fraction(micros(1.0), 0, 0), Ok(0));
    assert_eq!(analyzer.calculate_kelly_fraction(0, micros(3.0), 0), Ok(0));
}

#[test]
fn kelly_never_negative() {
    let analyzer = KellyAnalyzer::new(config());
    assert_eq!(analyzer.calculate_kelly_fraction(micros(0.3), micros(0.05), micros(0.1)), Ok(0));
    assert_eq!(analyzer.calculate_kelly_fraction(0, micros(0.05), micros(0.1)), Ok(0));
    assert_eq!(analyzer.calculate_kelly_fraction(micros(0.5), 0, micros(0.1)), Ok(0));
}

#[test]
fn kelly_rejects_out_of_range_inputs() {
    let analyzer = KellyAnalyzer::new(config());
    for (p, g, l) in [(micros(1.2), 1, 1), (-1, 1, 1), (micros(0.5), -1, 1), (micros(0.5), 1, -1)] {
        let r = analyzer.calculate_kelly_fraction(p, g, l);
        assert!(matches!(r, Err(TradingBotError::InvalidParameter(_))));
        let v = analyzer.validate_kelly_parameters(p, g, l);
        assert!(matches!(v, Err(TradingBotError::InvalidParameter(_))));
    }
    assert_eq!(analyzer.validate_kelly_parameters(micros(1.0), 0, 0), Ok(()));
}

#[test]
fn scaled_kelly_is_not_clamped() {
    let analyzer = KellyAnalyzer::new(config());
    assert_eq!(analyzer.calculate_scaled_kelly(400_000, micros(3.0)), 1_200_000);
    assert_eq!(analyzer.calculate_scaled_kelly(400_000, micros(-0.5)), -200_000);
    assert_eq!(analyzer.calculate_scaled_kelly(3, 500_000), 1);
    assert_eq!(analyzer.calculate_scaled_kelly(-3, 500_000), -2);
}

#[test]
fn unified_score_weights_and_clamps() {
    assert_eq!(calculate_unified_score(500_000, 200_000, 100_000), 290_000);
    assert_eq!(calculate_unified_score(micros(10.0), micros(5.0), 0), 1_000_000);
    assert_eq!(calculate_unified_score(-micros(10.0), 0, 0), 0);
    assert_eq!(calculate_unified_score(i64::MAX, i64::MAX, i128::MAX), 1_000_000);
    assert_eq!(calculate_unified_score(i64::MAX, i64::MAX, i128::MIN), 0);
    assert_eq!(calculate_unified_score(i64::MIN, i64::MIN, 0), 0);
}

fn stock(returns: Vec<i32>) -> StockData {
    StockData {
        ticker: "ACB".to_string(),
        current_price: micros(4.2),
        market_cap: None,
        volume: Some(micros(1500.0)),
        pe_ratio: None,
        peg_ratio: None,
        price_to_sales: None,
        beta: None,
        volatility: micros(0.3),
        returns,
        timestamp: 0,
    }
}

fn kelly_analysis() -> KellyAnalysis {
    KellyAnalysis {
        ticker: "ACB".to_string(),
        win_probability: micros(0.55),
        avg_gain: micros(0.04),
        avg_loss: micros(0.03),
        kelly_fraction: micros(0.2125),
        confidence_weighted_kelly: micros(0.5),
        volatility: micros(0.3),
        sharpe_ratio: micros(1.1),
        max_drawdown: micros(0.12),
        sample_size: 5,
        confidence_factor: micros(0.8),
    }
}

#[test]
fn unified_metric_combines_ratios() {
    let analyzer = KellyAnalyzer::new(config());
    let returns = vec![10_000, -20_000, 30_000, -10_000, 20_000];
    let m = analyzer.calculate_unified_metric(
        &stock(returns),
        &kelly_analysis(),
        0,
        micros(0.25),
    );
    assert_eq!(m.ticker, "ACB");
    assert_eq!(m.sortino_ratio, 600_000);
    // the cumulative path falls 2% below its peak at most: 0.25 / 0.02
    assert_eq!(m.calmar_ratio, 12_500_000);
    // 0.4 * 0.5 + 0.3 * 0.6 + 0.3 * 12.5 > 1, clamped to 1
    assert_eq!(m.unified_score, 1_000_000);
    assert_eq!(m.risk_adjusted_kelly, 500_000);
    assert_eq!(m.avg_return, 6_000);
    assert_eq!(m.sample_size, 5);
    assert_eq!(m.kelly_score, micros(0.5));
    assert_eq!(m.sharpe_ratio, micros(1.1));
    assert_eq!(m.confidence_factor, micros(0.8));
}

#[test]
fn unified_metric_of_empty_series() {
    let analyzer = KellyAnalyzer::new(config());
    let m = analyzer.calculate_unified_metric(
        &stock(vec![]),
        &kelly_analysis(),
        194,
        micros(0.25),
    );
    assert_eq!(m.sortino_ratio, 0);
    assert_eq!(m.calmar_ratio, 0);
    assert_eq!(m.unified_score, 200_000);
    assert_eq!(m.risk_adjusted_kelly, 100_000);
    assert_eq!(m.avg_return, 0);
    assert_eq!(m.sample_size, 0);
}

#[test]
fn unified_metrics_follow_stock_order_and_first_match() {
    let analyzer = KellyAnalyzer::new(config());
    let mut other = stock(vec![10_000, 20_000]);
    other.ticker = "OGI".to_string();
    let mut lone = stock(vec![]);
    lone.ticker = "VFF".to_string();
    let stocks = vec![other, lone, stock(vec![])];
    let mut first = kelly_analysis();
    first.confidence_weighted_kelly = micros(0.25);
    let mut second = kelly_analysis();
    second.confidence_weighted_kelly = micros(0.9);
    let mut ogi = kelly_analysis();
    ogi.ticker = "OGI".to_string();
    let kellys = vec![first, ogi, second];
    let metrics = analyzer.calculate_unified_metrics(&stocks, &kellys, 0, &vec![0, 0, 0]);
    assert_eq!(metrics.len(), 2);
    assert_eq!(metrics[0].ticker, "OGI");
    assert_eq!(metrics[0].sample_size, 2);
    assert_eq!(metrics[1].ticker, "ACB");
    assert_eq!(metrics[1].kelly_score, micros(0.25));
    assert_eq!(metrics[1].unified_score, 100_000);
}
