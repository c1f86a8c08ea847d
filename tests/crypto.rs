use trading_bot::crypto::{calculate_market_sentiment, is_bitcoin, parse_market_data, top_movers};
use trading_bot::models::{CryptoAnalysis, CryptoData, MarketOverview, MarketSentiment};

fn micros(x: f64) -> i64 {
    (x * 1_000_000.0).round() as i64
}

fn coin(symbol: &str, cap: u64, change: f64) -> CryptoData {
    CryptoData {
        symbol: symbol.to_string(),
        name: symbol.to_lowercase(),
        current_price: micros(1.0),
        market_cap: cap,
        volume_24h: cap / 10,
        price_change_24h: micros(change),
        price_change_7d: 0,
        price_change_30d: 0,
        timestamp: 0,
    }
}

fn empty_analysis() -> CryptoAnalysis {
    CryptoAnalysis {
        top_gainers: vec![],
        top_losers: vec![],
        market_overview: MarketOverview {
            total_market_cap: 0,
            total_volume_24h: 0,
            bitcoin_dominance: 0,
            market_sentiment: MarketSentiment::Neutral,
        },
        analysis_summary: "summary".to_string(),
    }
}

fn market() -> Vec<CryptoData> {
    vec![
        coin("A", 50, 3.0),
        coin("B", 50, 12.0),
        coin("H", 50, -4.0),
        coin("C", 50, 7.0),
        coin("I", 50, 0.0),
        coin("D", 50, 1.0),
        coin("BITCOIN", 500, 5.0),
        coin("J", 50, -15.0),
        coin("F", 50, 9.0),
        coin("K", 50, -1.0),
        coin("G", 50, 2.0),
        coin("L", 50, -8.0),
        coin("M", 50, -2.0),
    ]
}

fn symbols(list: &[CryptoData]) -> Vec<&str> {
    list.iter().map(|c| c.symbol.as_str()).collect()
}

#[test]
fn top_gainers_and_losers_are_ranked_and_cut() {
    let r = parse_market_data(&market(), empty_analysis());
    assert_eq!(symbols(&r.top_gainers), vec!["B", "F", "C", "BITCOIN", "A"]);
    assert_eq!(symbols(&r.top_losers), vec!["J", "L", "H", "M", "K"]);
    for w in r.top_gainers.windows(2) {
        assert!(w[0].price_change_24h > w[1].price_change_24h);
    }
    for w in r.top_losers.windows(2) {
        assert!(w[0].price_change_24h < w[1].price_change_24h);
    }
    assert_eq!(r.analysis_summary, "summary");
}

#[test]
fn market_totals_and_dominance() {
    let r = parse_market_data(&market(), empty_analysis());
    assert_eq!(r.market_overview.total_market_cap, 1100);
    assert_eq!(r.market_overview.total_volume_24h, 50 + 12 * 5);
    // 500 / 1100 = 45.4545...%
    assert_eq!(r.market_overview.bitcoin_dominance, 45_454_545);
}

#[test]
fn market_sentiment_of_top_movers() {
    // average gain 7.2%, average loss -6%: score 6.6
    let r = parse_market_data(&market(), empty_analysis());
    assert_eq!(r.market_overview.market_sentiment, MarketSentiment::Bullish);
    assert_eq!(r.market_overview.market_sentiment.label(), "Bullish");
}

#[test]
fn dominance_is_zero_without_market_cap() {
    let r = parse_market_data(&vec![coin("bitcoin", 0, 1.0), coin("ETH", 0, -1.0)], empty_analysis());
    assert_eq!(r.market_overview.total_market_cap, 0);
    assert_eq!(r.market_overview.bitcoin_dominance, 0);
}

#[test]
fn empty_market() {
    let r = parse_market_data(&vec![], empty_analysis());
    assert!(r.top_gainers.is_empty());
    assert!(r.top_losers.is_empty());
    assert_eq!(r.market_overview.total_market_cap, 0);
    assert_eq!(r.market_overview.market_sentiment, MarketSentiment::Neutral);
}

#[test]
fn dominance_uses_the_last_bitcoin_entry() {
    let coins = vec![coin("bitcoin", 300, 1.0), coin("BitCoin", 100, 1.0), coin("ETH", 600, 1.0)];
    let r = parse_market_data(&coins, empty_analysis());
    assert_eq!(r.market_overview.bitcoin_dominance, 10_000_000);
}

#[test]
fn bitcoin_symbol_ignores_case_only() {
    assert!(is_bitcoin(&"bitcoin".to_string()));
    assert!(is_bitcoin(&"BITCOIN".to_string()));
    assert!(is_bitcoin(&"bItCoIn".to_string()));
    assert!(!is_bitcoin(&"BTC".to_string()));
    assert!(!is_bitcoin(&"bitcoins".to_string()));
    assert!(!is_bitcoin(&"bitcoın".to_string()));
}

#[test]
fn ties_keep_input_order() {
    assert_eq!(top_movers(&vec![5, 7, 5, 7, -1], true, 3), vec![1, 3, 0]);
    assert_eq!(top_movers(&vec![0, -3, 0, -3, 2], false, 5), vec![1, 3, 0, 2]);
    assert_eq!(top_movers(&vec![1, 2], true, 0), Vec::<usize>::new());
}

#[test]
fn sentiment_thresholds() {
    let cases = [
        (25.0, 0.0, MarketSentiment::VeryBullish),
        (20.0, 0.0, MarketSentiment::Bullish),
        (10.0, 0.0, MarketSentiment::SlightlyBullish),
        (12.0, 0.0, MarketSentiment::Bullish),
        (4.0, -2.0, MarketSentiment::SlightlyBullish),
        (4.0, 0.0, MarketSentiment::Neutral),
        (0.0, 0.0, MarketSentiment::Neutral),
    ];
    for (gain, loss, expected) in cases {
        let gainers = vec![coin("G", 1, gain)];
        let losers = vec![coin("L", 1, loss)];
        assert_eq!(calculate_market_sentiment(&gainers, &losers), expected);
    }
    assert_eq!(calculate_market_sentiment(&vec![], &vec![]), MarketSentiment::Neutral);
}

#[test]
fn sentiment_labels() {
    assert_eq!(MarketSentiment::VeryBullish.label(), "Very Bullish");
    assert_eq!(MarketSentiment::SlightlyBullish.label(), "Slightly Bullish");
    assert_eq!(MarketSentiment::ExtremelyBearish.label(), "Extremely Bearish");
}
