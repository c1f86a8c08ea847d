use vstd::prelude::*;
use crate::config::TradingConfig;
use crate::error::TradingBotError;
use crate::fixed::{SCALE, floor_div};
use crate::models::{OptionGreeks, OptionsAnalysis, StockData};

verus! {

/// Weights of the option risk heuristic, in millionths. They are ad hoc
/// choices kept for reproducible scores, not a statistically derived measure.
pub const DELTA_RISK_WEIGHT: i64 = 1_000_000;
pub const GAMMA_RISK_WEIGHT: i64 = 10_000_000;
pub const THETA_RISK_WEIGHT: i64 = 100_000_000;
pub const VEGA_RISK_WEIGHT: i64 = 100_000;
/// The weighted sum is averaged over the four Greeks.
pub const RISK_FACTORS: i64 = 4;
/// The risk score of an option without Greeks: 0.5.
pub const DEFAULT_OPTION_RISK: i64 = 500_000;

/// Options are looked at only for stocks priced under $5.
pub const OPTIONS_PRICE_LIMIT: i64 = 5_000_000;

/// Whether a stock is cheap enough for its options to be analyzed.
pub fn options_eligible(stock: &StockData) -> (r: bool)
    ensures
        r == (stock.current_price < OPTIONS_PRICE_LIMIT),
{
    stock.current_price < OPTIONS_PRICE_LIMIT
}

pub open spec fn abs(x: int) -> int {
    if x < 0 {
        -x
    } else {
        x
    }
}

/// `(|delta| + 10 |gamma| + 100 |theta| + 0.1 |vega|) / 4`, rounded down;
/// 0.5 without Greeks.
pub open spec fn option_risk_of(greeks: Option<OptionGreeks>) -> int {
    match greeks {
        None => DEFAULT_OPTION_RISK as int,
        Some(g) => (DELTA_RISK_WEIGHT * abs(g.delta as int) + GAMMA_RISK_WEIGHT * abs(
            g.gamma as int,
        ) + THETA_RISK_WEIGHT * abs(g.theta as int) + VEGA_RISK_WEIGHT * abs(g.vega as int)) / (
        RISK_FACTORS * SCALE),
    }
}

/// Strike and spot price positive, some days left, bid and ask not negative.
pub open spec fn option_params_valid(o: OptionsAnalysis) -> bool {
    &&& o.strike > 0
    &&& o.current_price > 0
    &&& o.days_to_expiry != 0
    &&& o.ask >= 0
    &&& o.bid >= 0
}

/// `o` with its Greeks, or `fallback` where it had none.
pub open spec fn with_greeks(o: OptionsAnalysis, fallback: OptionGreeks) -> OptionsAnalysis {
    match o.greeks {
        Some(_) => o,
        None => OptionsAnalysis { greeks: Some(fallback), ..o },
    }
}

/// Option analysis under a set of trading settings.
pub struct OptionsAnalyzer {
    config: TradingConfig,
}

impl OptionsAnalyzer {
    pub fn new(config: TradingConfig) -> (r: Self)
        ensures
            r.config() == config,
    {
        OptionsAnalyzer { config }
    }

    pub closed spec fn config(&self) -> TradingConfig {
        self.config
    }

    /// The settings this analyzer was made with.
    pub fn trading_config(&self) -> (r: TradingConfig)
        ensures
            r == self.config(),
    {
        self.config
    }

    /// A heuristic risk score of an option from its Greeks.
    pub fn calculate_option_risk_metrics(&self, option: &OptionsAnalysis) -> (r: i128)
        ensures
            r == option_risk_of(option.greeks),
            r >= 0,
    {
        match option.greeks {
            None => DEFAULT_OPTION_RISK as i128,
            Some(g) => {
                let d: i128 = if g.delta < 0 { -(g.delta as i128) } else { g.delta as i128 };
                let m: i128 = if g.gamma < 0 { -(g.gamma as i128) } else { g.gamma as i128 };
                let t: i128 = if g.theta < 0 { -(g.theta as i128) } else { g.theta as i128 };
                let v: i128 = if g.vega < 0 { -(g.vega as i128) } else { g.vega as i128 };
                proof {
                    assert(0 <= DELTA_RISK_WEIGHT * d <= 0x1_0000_0000_0000_0000_0000_0000)
                        by (nonlinear_arith)
                        requires
                            DELTA_RISK_WEIGHT == 1_000_000,
                            0 <= d <= 0x8000_0000_0000_0000,
                    ;
                    assert(0 <= GAMMA_RISK_WEIGHT * m <= 0x1_0000_0000_0000_0000_0000_0000)
                        by (nonlinear_arith)
                        requires
                            GAMMA_RISK_WEIGHT == 10_000_000,
                            0 <= m <= 0x8000_0000_0000_0000,
                    ;
                    assert(0 <= THETA_RISK_WEIGHT * t <= 0x1_0000_0000_0000_0000_0000_0000)
                        by (nonlinear_arith)
                        requires
                            THETA_RISK_WEIGHT == 100_000_000,
                            0 <= t <= 0x8000_0000_0000_0000,
                    ;
                    assert(0 <= VEGA_RISK_WEIGHT * v <= 0x1_0000_0000_0000_0000_0000_0000)
                        by (nonlinear_arith)
                        requires
                            VEGA_RISK_WEIGHT == 100_000,
                            0 <= v <= 0x8000_0000_0000_0000,
                    ;
                }
                let sum: i128 = (DELTA_RISK_WEIGHT as i128) * d + (GAMMA_RISK_WEIGHT as i128) * m
                    + (THETA_RISK_WEIGHT as i128) * t + (VEGA_RISK_WEIGHT as i128) * v;
                floor_div(sum, (RISK_FACTORS as i128) * (SCALE as i128))
            },
        }
    }

    /// Checks an option quote: strike and spot positive, some days left,
    /// ask and bid not negative.
    pub fn validate_option_parameters(&self, option: &OptionsAnalysis) -> (r: Result<
        (),
        TradingBotError,
    >)
        ensures
            r is Ok <==> option_params_valid(*option),
            r matches Err(e) ==> e.is_invalid_parameter(),
    {
        if option.strike <= 0 {
            return Err(TradingBotError::invalid("Strike price must be positive"));
        }
        if option.current_price <= 0 {
            return Err(TradingBotError::invalid("Current price must be positive"));
        }
        if option.days_to_expiry == 0 {
            return Err(TradingBotError::invalid("Days to expiry must be greater than 0"));
        }
        if option.ask < 0 {
            return Err(TradingBotError::invalid("Ask price cannot be negative"));
        }
        if option.bid < 0 {
            return Err(TradingBotError::invalid("Bid price cannot be negative"));
        }
        Ok(())
    }

    /// Checks the inputs of the Black-Scholes Greeks: spot price, strike,
    /// time to expiry and volatility must all be positive.
    pub fn validate_greeks_parameters(
        &self,
        spot: i64,
        strike: i64,
        days_to_expiry: u32,
        volatility: i64,
    ) -> (r: Result<(), TradingBotError>)
        ensures
            r is Ok <==> spot > 0 && strike > 0 && days_to_expiry > 0 && volatility > 0,
            r matches Err(e) ==> e.is_invalid_parameter(),
    {
        if spot <= 0 || strike <= 0 || days_to_expiry == 0 || volatility <= 0 {
            return Err(TradingBotError::invalid("Invalid option parameters"));
        }
        Ok(())
    }

    /// Gives an option without Greeks the `computed` ones, then checks it.
    pub fn enhance_single_option(&self, option: OptionsAnalysis, computed: OptionGreeks) -> (r:
        Result<OptionsAnalysis, TradingBotError>)
        ensures
            r is Ok <==> option_params_valid(option),
            r matches Ok(o) ==> o == with_greeks(option, computed),
            r matches Err(e) ==> e.is_invalid_parameter(),
    {
        let mut option = option;
        if option.greeks.is_none() {
            option.greeks = Some(computed);
        }
        match self.validate_option_parameters(&option) {
            Ok(()) => Ok(option),
            Err(e) => Err(e),
        }
    }

    /// Enhances each option in turn (see `enhance_single_option`), `computed[i]`
    /// standing in for the Greeks of `options_data[i]`; the first invalid
    /// option fails the whole list.
    pub fn enhance_options_analysis(
        &self,
        options_data: Vec<OptionsAnalysis>,
        computed: Vec<OptionGreeks>,
    ) -> (r: Result<Vec<OptionsAnalysis>, TradingBotError>)
        requires
            computed@.len() == options_data@.len(),
        ensures
            r is Ok <==> forall|i: int|
                0 <= i < options_data@.len() ==> option_params_valid(#[trigger] options_data@[i]),
            r matches Ok(v) ==> v@.len() == options_data@.len() && forall|i: int|
                0 <= i < v@.len() ==> #[trigger] v@[i] == with_greeks(
                    options_data@[i],
                    computed@[i],
                ),
            r matches Err(e) ==> e.is_invalid_parameter(),
    {
        let ghost input = options_data@;
        let mut rest = options_data;
        let mut enhanced: Vec<OptionsAnalysis> = Vec::new();
        let mut i: usize = 0;
        while i < computed.len()
            invariant
                computed@.len() == input.len(),
                input == options_data@,
                i <= input.len(),
                rest@ == input.subrange(i as int, input.len() as int),
                enhanced@.len() == i,
                forall|t: int| 0 <= t < i ==> option_params_valid(#[trigger] input[t]),
                forall|t: int|
                    0 <= t < i ==> #[trigger] enhanced@[t] == with_greeks(input[t], computed@[t]),
            decreases input.len() - i,
        {
            let option = rest.remove(0);
            assert(option == input[i as int]);
            match self.enhance_single_option(option, computed[i]) {
                Ok(o) => {
                    enhanced.push(o);
                },
                Err(e) => {
                    assert(!option_params_valid(input[i as int]));
                    return Err(e);
                },
            }
            assert(rest@ =~= input.subrange(i as int + 1, input.len() as int));
            i = i + 1;
        }
        Ok(enhanced)
    }
}

} // verus!
