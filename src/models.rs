use vstd::prelude::*;

verus! {

// Money, prices, probabilities, rates and ratios below are fixed-point
// integers in millionths; percentages (price changes, dominance) are
// millionths of a percent; times are Unix seconds.

/// A stock as supplied by the external estimator, with its period returns.
#[derive(Debug, Clone)]
pub struct StockData {
    pub ticker: String,
    pub current_price: i64,
    pub market_cap: Option<i64>,
    pub volume: Option<i64>,
    pub pe_ratio: Option<i64>,
    pub peg_ratio: Option<i64>,
    pub price_to_sales: Option<i64>,
    pub beta: Option<i64>,
    pub volatility: i64,
    pub returns: Vec<i32>,
    pub timestamp: i64,
}

/// Win/loss statistics and Kelly sizing for one ticker.
#[derive(Debug, Clone)]
pub struct KellyAnalysis {
    pub ticker: String,
    pub win_probability: i64,
    pub avg_gain: i64,
    pub avg_loss: i64,
    pub kelly_fraction: i64,
    pub confidence_weighted_kelly: i64,
    pub volatility: i64,
    pub sharpe_ratio: i64,
    pub max_drawdown: i64,
    pub sample_size: usize,
    pub confidence_factor: i64,
}

/// An option quote and its analysis.
#[derive(Debug, Clone)]
pub struct OptionsAnalysis {
    pub ticker: String,
    pub strike: i64,
    pub ask: i64,
    pub bid: i64,
    pub expiry: String,
    pub current_price: i64,
    pub days_to_expiry: u32,
    pub return_25: i64,
    pub return_50: i64,
    pub return_100: i64,
    pub score: i64,
    pub reasons: Vec<String>,
    pub greeks: Option<OptionGreeks>,
}

/// Sensitivities of a call option's price.
#[derive(Debug, Clone, Copy, PartialEq, Eq)]
pub struct OptionGreeks {
    pub delta: i64,
    pub gamma: i64,
    pub theta: i64,
    pub vega: i64,
}

/// One position of a portfolio.
#[derive(Debug, Clone)]
pub struct PortfolioAllocation {
    pub ticker: String,
    pub current_price: i64,
    pub kelly_fraction: i64,
    pub scaled_kelly: i64,
    pub dollar_allocation: u64,
    pub shares_to_buy: u32,
    pub win_probability: i64,
    pub avg_gain: i64,
    pub avg_loss: i64,
    pub volatility: i64,
    pub sharpe_ratio: i64,
    pub doubling_score: i64,
    pub reasons: Vec<String>,
}

/// Portfolio-level figures over all positions.
#[derive(Debug, Clone)]
pub struct PortfolioSummary {
    pub allocations: Vec<PortfolioAllocation>,
    pub total_allocated: i64,
    pub cash_remaining: i64,
    pub allocation_percentage: i64,
    pub expected_return: i128,
    pub portfolio_volatility: i128,
    pub portfolio_sharpe: i128,
    pub max_drawdown_estimate: i128,
    pub number_of_positions: usize,
    pub concentration_risk: i128,
}

/// A market snapshot of one crypto asset.
#[derive(Debug, Clone)]
pub struct CryptoData {
    pub symbol: String,
    pub name: String,
    pub current_price: i64,
    pub market_cap: u64,
    pub volume_24h: u64,
    pub price_change_24h: i64,
    pub price_change_7d: i64,
    pub price_change_30d: i64,
    pub timestamp: i64,
}

impl CryptoData {
    /// A field-by-field copy.
    pub fn copy(&self) -> (r: CryptoData)
        ensures
            r == *self,
    {
        CryptoData {
            symbol: self.symbol.clone(),
            name: self.name.clone(),
            current_price: self.current_price,
            market_cap: self.market_cap,
            volume_24h: self.volume_24h,
            price_change_24h: self.price_change_24h,
            price_change_7d: self.price_change_7d,
            price_change_30d: self.price_change_30d,
            timestamp: self.timestamp,
        }
    }
}

/// The crypto market: biggest movers and aggregate figures.
#[derive(Debug, Clone)]
pub struct CryptoAnalysis {
    pub top_gainers: Vec<CryptoData>,
    pub top_losers: Vec<CryptoData>,
    pub market_overview: MarketOverview,
    pub analysis_summary: String,
}

/// The mood of the market, from the average moves of the top movers.
#[derive(Debug, Clone, Copy, PartialEq, Eq, Structural)]
pub enum MarketSentiment {
    VeryBullish,
    Bullish,
    SlightlyBullish,
    Neutral,
    Bearish,
    VeryBearish,
    ExtremelyBearish,
}

impl MarketSentiment {
    /// The label shown for this sentiment.
    pub fn label(&self) -> (r: &'static str)
        ensures
            *self == MarketSentiment::VeryBullish ==> r@ == "Very Bullish"@,
            *self == MarketSentiment::Bullish ==> r@ == "Bullish"@,
            *self == MarketSentiment::SlightlyBullish ==> r@ == "Slightly Bullish"@,
            *self == MarketSentiment::Neutral ==> r@ == "Neutral"@,
            *self == MarketSentiment::Bearish ==> r@ == "Bearish"@,
            *self == MarketSentiment::VeryBearish ==> r@ == "Very Bearish"@,
            *self == MarketSentiment::ExtremelyBearish ==> r@ == "Extremely Bearish"@,
    {
        match self {
            MarketSentiment::VeryBullish => "Very Bullish",
            MarketSentiment::Bullish => "Bullish",
            MarketSentiment::SlightlyBullish => "Slightly Bullish",
            MarketSentiment::Neutral => "Neutral",
            MarketSentiment::Bearish => "Bearish",
            MarketSentiment::VeryBearish => "Very Bearish",
            MarketSentiment::ExtremelyBearish => "Extremely Bearish",
        }
    }
}

/// Aggregate crypto market figures.
#[derive(Debug, Clone)]
pub struct MarketOverview {
    pub total_market_cap: u128,
    pub total_volume_24h: u128,
    /// Bitcoin's share of the total market cap, in millionths of a percent.
    pub bitcoin_dominance: i64,
    pub market_sentiment: MarketSentiment,
}

/// One ticker's Kelly, Sortino and Calmar figures merged into one score.
#[derive(Debug, Clone)]
pub struct UnifiedRiskRewardMetric {
    pub ticker: String,
    pub unified_score: i64,
    pub kelly_score: i64,
    pub sortino_score: i64,
    pub calmar_score: i128,
    pub kelly_ratio: i64,
    pub sortino_ratio: i64,
    pub calmar_ratio: i128,
    pub sharpe_ratio: i64,
    pub risk_adjusted_kelly: i64,
    pub volatility: i64,
    pub avg_return: i64,
    pub max_drawdown: i64,
    pub win_probability: i64,
    pub confidence_factor: i64,
    pub sample_size: usize,
}

/// Everything one analysis run produces.
#[derive(Debug, Clone)]
pub struct AnalysisResult {
    pub timestamp: i64,
    pub stock_analysis: Vec<StockData>,
    pub kelly_analysis: Vec<KellyAnalysis>,
    pub options_analysis: Vec<OptionsAnalysis>,
    pub crypto_analysis: Option<CryptoAnalysis>,
    pub portfolio_summary: Option<PortfolioSummary>,
    pub unified_metrics: Vec<UnifiedRiskRewardMetric>,
}

} // verus!
