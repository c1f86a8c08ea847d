use trading_bot::config::Config;
use trading_bot::error::TradingBotError;
use trading_bot::models::PortfolioAllocation;
use trading_bot::portfolio::{summarize_portfolio, PortfolioManager};

fn micros(x: f64) -> i64 {
    (x * 1_000_000.0).round() as i64
}

fn position(ticker: &str, dollars: f64, p: f64, g: f64, vol: f64, sharpe: f64) -> PortfolioAllocation {
    PortfolioAllocation {
        ticker: ticker.to_string(),
        current_price: micros(2.5),
        kelly_fraction: micros(0.1),
        scaled_kelly: micros(0.05),
        dollar_allocation: micros(dollars) as u64,
        shares_to_buy: 10,
        win_probability: micros(p),
        avg_gain: micros(g),
        avg_loss: micros(0.05),
        volatility: micros(vol),
        sharpe_ratio: micros(sharpe),
        doubling_score: micros(50.0),
        reasons: vec!["Analysis complete".to_string()],
    }
}

#[test]
fn portfolio_figures_are_weighted_sums() {
    let positions = vec![
        position("ACB", 600.0, 0.6, 0.1, 0.3, 1.2),
        position("OGI", 400.0, 0.5, 0.2, 0.5, 0.8),
    ];
    let s = summarize_portfolio(positions, micros(1000.0), 0, micros(100.0)).unwrap();
    assert_eq!(s.expected_return, 76_000);
    assert_eq!(s.portfolio_volatility, 380_000);
    assert_eq!(s.portfolio_sharpe, 1_040_000);
    assert_eq!(s.max_drawdown_estimate, 760_000);
    assert_eq!(s.concentration_risk, 600_000);
    assert_eq!(s.number_of_positions, 2);
    assert_eq!(s.allocations[1].ticker, "OGI");
}

#[test]
fn portfolio_needs_a_positive_total() {
    let positions = vec![position("ACB", 600.0, 0.6, 0.1, 0.3, 1.2)];
    let r = summarize_portfolio(positions, 0, 0, 0);
    assert!(matches!(r, Err(TradingBotError::InvalidParameter(_))));
}

#[test]
fn empty_positions_without_total() {
    let positions = vec![position("ACB", 0.0, 0.6, 0.1, 0.3, 1.2)];
    let s = summarize_portfolio(positions, 0, micros(1000.0), 0).unwrap();
    assert_eq!(s.expected_return, 0);
    assert_eq!(s.concentration_risk, 0);
    assert_eq!(s.number_of_positions, 1);
    let s = summarize_portfolio(vec![], micros(1000.0), 0, 0).unwrap();
    assert_eq!(s.number_of_positions, 0);
    assert_eq!(s.portfolio_volatility, 0);
}

#[test]
fn manager_hands_summary_on() {
    let manager = PortfolioManager::new(Config::default().trading);
    let positions = vec![position("ACB", 250.0, 0.6, 0.1, 0.3, 1.2)];
    let s = summarize_portfolio(positions, micros(1000.0), micros(750.0), micros(25.0)).unwrap();
    let e = manager.enhance_portfolio_summary(s).unwrap();
    assert_eq!(e.concentration_risk, 250_000);
    assert_eq!(e.cash_remaining, micros(750.0));
    assert_eq!(e.allocation_percentage, micros(25.0));
}

#[test]
fn allocations_may_exceed_the_total() {
    let positions = vec![
        position("ACB", 600.0, 0.6, 0.1, 0.3, 1.2),
        position("OGI", 600.0, 0.5, 0.2, 0.5, 0.8),
    ];
    let s = summarize_portfolio(positions, micros(1000.0), 0, 0).unwrap();
    assert_eq!(s.expected_return, 36_000 + 60_000);
    assert_eq!(s.portfolio_volatility, 180_000 + 300_000);
    assert_eq!(s.concentration_risk, 600_000);
}

#[test]
fn figures_beyond_128_bits_are_a_calculation_error() {
    let mut big = position("ACB", 0.0, 1.0, 0.0, 0.0, 0.0);
    big.avg_gain = i64::MAX;
    big.dollar_allocation = u64::MAX;
    let one = summarize_portfolio(vec![big.clone()], 1, 0, 0).unwrap();
    assert_eq!(one.expected_return, i64::MAX as i128 * u64::MAX as i128);
    let r = summarize_portfolio(vec![big.clone(), big], 1, 0, 0);
    assert!(matches!(r, Err(TradingBotError::Calculation(_))));
}
