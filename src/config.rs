use vstd::prelude::*;

verus! {

/// Settings for the whole analysis run.
#[derive(Debug, Clone)]
pub struct Config {
    pub python: PythonConfig,
    pub api: ApiConfig,
    pub trading: TradingConfig,
}

/// Where the external probability estimator lives.
#[derive(Debug, Clone)]
pub struct PythonConfig {
    pub script_path: String,
    pub python_executable: String,
    pub modules: Vec<String>,
}

/// Timeouts (in seconds) and identity used by the market data fetchers.
#[derive(Debug, Clone)]
pub struct ApiConfig {
    pub yahoo_finance_timeout: u64,
    pub finviz_timeout: u64,
    pub coingecko_timeout: u64,
    pub user_agent: String,
}

/// Sizing and rate settings; money, fractions and rates are in millionths.
#[derive(Debug, Clone, Copy)]
pub struct TradingConfig {
    pub default_portfolio_value: i64,
    pub default_scaling_factor: i64,
    pub max_positions: usize,
    pub min_allocation: i64,
    pub max_allocation_per_position: i64,
    /// Annual risk-free rate.
    pub risk_free_rate: i64,
    pub lookback_days: u32,
}

impl Config {
    /// The built-in settings: a $1000 portfolio sized at half Kelly, at most
    /// ten positions, a 5% risk-free rate and a one-year (252 day) lookback.
    pub fn default() -> (c: Config)
        ensures
            c.python.script_path@ == "./python_scripts"@,
            c.python.python_executable@ == "python3"@,
            c.python.modules@.len() == 2,
            c.python.modules@[0]@ == "main"@,
            c.python.modules@[1]@ == "crypto"@,
            c.api.yahoo_finance_timeout == 30,
            c.api.finviz_timeout == 30,
            c.api.coingecko_timeout == 30,
            c.api.user_agent@ == "TradingBot/1.0"@,
            c.trading.default_portfolio_value == 1_000_000_000,
            c.trading.default_scaling_factor == 500_000,
            c.trading.max_positions == 10,
            c.trading.min_allocation == 10_000_000,
            c.trading.max_allocation_per_position == 200_000,
            c.trading.risk_free_rate == 50_000,
            c.trading.lookback_days == 252,
    {
        let modules = vec![String::from_str("main"), String::from_str("crypto")];
        Config {
            python: PythonConfig {
                script_path: String::from_str("./python_scripts"),
                python_executable: String::from_str("python3"),
                modules,
            },
            api: ApiConfig {
                yahoo_finance_timeout: 30,
                finviz_timeout: 30,
                coingecko_timeout: 30,
                user_agent: String::from_str("TradingBot/1.0"),
            },
            trading: TradingConfig {
                default_portfolio_value: 1_000_000_000,
                default_scaling_factor: 500_000,
                max_positions: 10,
                min_allocation: 10_000_000,
                max_allocation_per_position: 200_000,
                risk_free_rate: 50_000,
                lookback_days: 252,
            },
        }
    }
}

} // verus!
