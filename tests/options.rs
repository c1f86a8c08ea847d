use trading_bot::config::Config;
use trading_bot::error::TradingBotError;
use trading_bot::models::{OptionGreeks, OptionsAnalysis, StockData};
use trading_bot::options::{options_eligible, OptionsAnalyzer};

fn micros(x: f64) -> i64 {
    (x * 1_000_000.0).round() as i64
}

fn quote(strike: f64, spot: f64, days: u32, ask: f64, bid: f64, greeks: Option<OptionGreeks>) -> OptionsAnalysis {
    OptionsAnalysis {
        ticker: "SNDL".to_string(),
        strike: micros(strike),
        ask: micros(ask),
        bid: micros(bid),
        expiry: "2026-12-18".to_string(),
        current_price: micros(spot),
        days_to_expiry: days,
        return_25: micros(0.4),
        return_50: micros(0.9),
        return_100: micros(2.1),
        score: micros(71.0),
        reasons: vec!["cheap".to_string()],
        greeks,
    }
}

fn greeks() -> OptionGreeks {
    OptionGreeks { delta: micros(0.5), gamma: micros(0.02), theta: micros(-0.01), vega: micros(0.15) }
}

fn analyzer() -> OptionsAnalyzer {
    OptionsAnalyzer::new(Config::default().trading)
}

#[test]
fn option_risk_score_heuristic() {
    // (0.5 + 10 * 0.02 + 100 * 0.01 + 0.1 * 0.15) / 4 = 0.42875
    let o = quote(2.5, 2.0, 30, 0.1, 0.05, Some(greeks()));
    assert_eq!(analyzer().calculate_option_risk_metrics(&o), 428_750);
    let o = quote(2.5, 2.0, 30, 0.1, 0.05, None);
    assert_eq!(analyzer().calculate_option_risk_metrics(&o), 500_000);
}

#[test]
fn option_validation_errors() {
    let a = analyzer();
    let bad = [
        quote(0.0, 2.0, 30, 0.1, 0.05, None),
        quote(2.5, -1.0, 30, 0.1, 0.05, None),
        quote(2.5, 2.0, 0, 0.1, 0.05, None),
        quote(2.5, 2.0, 30, -0.1, 0.05, None),
        quote(2.5, 2.0, 30, 0.1, -0.05, None),
    ];
    for o in bad.iter() {
        assert!(matches!(a.validate_option_parameters(o), Err(TradingBotError::InvalidParameter(_))));
    }
    assert_eq!(a.validate_option_parameters(&quote(2.5, 2.0, 1, 0.0, 0.0, None)), Ok(()));
}

#[test]
fn missing_greeks_are_filled_in() {
    let a = analyzer();
    let computed = OptionGreeks { delta: 1, gamma: 2, theta: 3, vega: 4 };
    let filled = a.enhance_single_option(quote(2.5, 2.0, 30, 0.1, 0.05, None), computed).unwrap();
    assert_eq!(filled.greeks, Some(computed));
    let kept = a.enhance_single_option(quote(2.5, 2.0, 30, 0.1, 0.05, Some(greeks())), computed).unwrap();
    assert_eq!(kept.greeks, Some(greeks()));
    assert_eq!(kept.expiry, "2026-12-18");
}

#[test]
fn options_list_fails_on_first_invalid() {
    let a = analyzer();
    let computed = OptionGreeks { delta: 1, gamma: 2, theta: 3, vega: 4 };
    let ok = a
        .enhance_options_analysis(
            vec![quote(2.5, 2.0, 30, 0.1, 0.05, None), quote(3.0, 2.0, 60, 0.2, 0.1, Some(greeks()))],
            vec![computed, computed],
        )
        .unwrap();
    assert_eq!(ok.len(), 2);
    assert_eq!(ok[0].greeks, Some(computed));
    assert_eq!(ok[1].greeks, Some(greeks()));
    let err = a.enhance_options_analysis(
        vec![quote(2.5, 2.0, 30, 0.1, 0.05, None), quote(3.0, 2.0, 0, 0.2, 0.1, None)],
        vec![computed, computed],
    );
    assert!(matches!(err, Err(TradingBotError::InvalidParameter(_))));
}

#[test]
fn greeks_inputs_must_be_positive() {
    let a = analyzer();
    assert_eq!(a.validate_greeks_parameters(micros(2.0), micros(2.5), 30, micros(0.3)), Ok(()));
    for (s, k, d, v) in [(0, 1, 1, 1), (1, -1, 1, 1), (1, 1, 0, 1), (1, 1, 1, 0)] {
        let r = a.validate_greeks_parameters(s, k, d, v);
        assert!(matches!(r, Err(TradingBotError::InvalidParameter(_))));
    }
}

#[test]
fn options_only_for_stocks_under_five_dollars() {
    let mut stock = StockData {
        ticker: "SNDL".to_string(),
        current_price: micros(4.99),
        market_cap: None,
        volume: None,
        pe_ratio: None,
        peg_ratio: None,
        price_to_sales: None,
        beta: None,
        volatility: 0,
        returns: vec![],
        timestamp: 0,
    };
    assert!(options_eligible(&stock));
    stock.current_price = micros(5.0);
    assert!(!options_eligible(&stock));
}
