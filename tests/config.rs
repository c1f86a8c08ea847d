use trading_bot::config::Config;

#[test]
fn test_config_loading() {
    let config = Config::default();
    assert_eq!(config.trading.default_portfolio_value, 1_000_000_000);
    assert_eq!(config.trading.default_scaling_factor, 500_000);
}

#[test]
fn default_settings() {
    let config = Config::default();
    assert_eq!(config.python.script_path, "./python_scripts");
    assert_eq!(config.python.modules, vec!["main".to_string(), "crypto".to_string()]);
    assert_eq!(config.api.coingecko_timeout, 30);
    assert_eq!(config.api.user_agent, "TradingBot/1.0");
    assert_eq!(config.trading.max_positions, 10);
    assert_eq!(config.trading.risk_free_rate, 50_000);
    assert_eq!(config.trading.lookback_days, 252);
}
