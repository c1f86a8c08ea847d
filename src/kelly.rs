use vstd::prelude::*;
use crate::config::TradingConfig;
use crate::error::TradingBotError;
use crate::fixed::{SCALE, floor_div, mul_wide};
use crate::models::{KellyAnalysis, StockData, UnifiedRiskRewardMetric};
use crate::risk::{
    MAX_SAMPLES,
    calculate_average_return,
    calculate_calmar_ratio,
    calculate_path_drawdown,
    calculate_sortino_ratio,
    calmar_of,
    mean_of,
    path_drawdown_of,
    sortino_of,
};

verus! {

/// Win probability within [0, 1], gain and loss not negative.
pub open spec fn kelly_params_valid(p: int, g: int, l: int) -> bool {
    0 <= p <= SCALE && g >= 0 && l >= 0
}

/// The Kelly fraction, in millionths, for win probability `p`, average gain
/// `g` and average loss `l`.
///
/// With payoff ratio `b = g / l` and `q = 1 - p`, the real-valued fraction is
/// `(b p - q) / b = (p g - q l) / g`; it is rounded down and never negative.
/// A bet with no loss (`l == 0`) is not sized by this formula and gets 0; so
/// does one with no gain (`g == 0`), where `b` is 0 and the ratio has no
/// positive value.
pub open spec fn kelly_fraction_of(p: int, g: int, l: int) -> int {
    if l == 0 || g == 0 {
        0
    } else {
        let f = (p * g - (SCALE - p) * l) / g;
        if f > 0 { f } else { 0 }
    }
}

/// Weights of the unified score, in millionths. They are heuristics kept for
/// reproducible scores, not derived quantities.
pub const KELLY_WEIGHT: i64 = 400_000;
pub const SORTINO_WEIGHT: i64 = 300_000;
pub const CALMAR_WEIGHT: i64 = 300_000;

/// `x` clamped to [0, 1].
pub open spec fn clamp_unit(x: int) -> int {
    if x < 0 {
        0
    } else if x > SCALE {
        SCALE as int
    } else {
        x
    }
}

/// `0.4 kelly + 0.3 sortino + 0.3 calmar`, rounded down and clamped to [0, 1].
pub open spec fn unified_score_of(kelly: int, sortino: int, calmar: int) -> int {
    clamp_unit((KELLY_WEIGHT * kelly + SORTINO_WEIGHT * sortino + CALMAR_WEIGHT * calmar) / (SCALE as int))
}

/// The composite score of a confidence-weighted Kelly fraction and Sortino
/// and Calmar ratios: their weighted sum clamped to [0, 1]. The clamp drops
/// how far outside [0, 1] the sum fell.
pub fn calculate_unified_score(kelly: i64, sortino: i64, calmar: i128) -> (r: i64)
    ensures
        r == unified_score_of(kelly as int, sortino as int, calmar as int),
        0 <= r <= SCALE,
{
    let bound: i128 = 0x1_0000_0000_0000_0000_0000;
    if calmar > bound {
        return SCALE;
    }
    if calmar < -bound {
        return 0;
    }
    proof {
        assert(-0x1_0000_0000_0000_0000_0000_0000 <= KELLY_WEIGHT * kelly
            <= 0x1_0000_0000_0000_0000_0000_0000) by (nonlinear_arith)
            requires
                KELLY_WEIGHT == 400_000,
                -0x8000_0000_0000_0000 <= kelly <= 0x8000_0000_0000_0000,
        ;
        assert(-0x1_0000_0000_0000_0000_0000_0000 <= SORTINO_WEIGHT * sortino
            <= 0x1_0000_0000_0000_0000_0000_0000) by (nonlinear_arith)
            requires
                SORTINO_WEIGHT == 300_000,
                -0x8000_0000_0000_0000 <= sortino <= 0x8000_0000_0000_0000,
        ;
        assert(-0x1_0000_0000_0000_0000_0000_0000_0000 <= CALMAR_WEIGHT * calmar
            <= 0x1_0000_0000_0000_0000_0000_0000_0000) by (nonlinear_arith)
            requires
                CALMAR_WEIGHT == 300_000,
                -0x1_0000_0000_0000_0000_0000 <= calmar <= 0x1_0000_0000_0000_0000_0000,
        ;
    }
    let w: i128 = (KELLY_WEIGHT as i128) * (kelly as i128) + (SORTINO_WEIGHT as i128) * (
    sortino as i128) + (CALMAR_WEIGHT as i128) * calmar;
    let q = floor_div(w, SCALE as i128);
    if q < 0 {
        0
    } else if q > SCALE as i128 {
        SCALE
    } else {
        q as i64
    }
}

/// `m` is the unified metric of `stock` with its Kelly figures `kelly` (see
/// `KellyAnalyzer::calculate_unified_metric`).
pub open spec fn is_unified_metric(
    m: UnifiedRiskRewardMetric,
    stock: StockData,
    kelly: KellyAnalysis,
    daily_rf: int,
    annualized_return: int,
) -> bool {
    let cw = kelly.confidence_weighted_kelly as int;
    &&& m.ticker == stock.ticker
    &&& m.sortino_ratio == sortino_of(stock.returns@, daily_rf, 0)
    &&& m.calmar_ratio == (if stock.returns@.len() == 0 {
        0
    } else {
        calmar_of(annualized_return, path_drawdown_of(stock.returns@))
    })
    &&& m.unified_score == unified_score_of(cw, m.sortino_ratio as int, m.calmar_ratio as int)
    &&& m.risk_adjusted_kelly == (cw * m.unified_score) / (SCALE as int)
    &&& m.kelly_score == cw
    &&& m.kelly_ratio == cw
    &&& m.sortino_score == m.sortino_ratio
    &&& m.calmar_score == m.calmar_ratio
    &&& m.sharpe_ratio == kelly.sharpe_ratio
    &&& m.volatility == stock.volatility
    &&& m.avg_return == mean_of(stock.returns@)
    &&& m.max_drawdown == kelly.max_drawdown
    &&& m.win_probability == kelly.win_probability
    &&& m.confidence_factor == kelly.confidence_factor
    &&& m.sample_size == stock.returns@.len()
}

/// Some Kelly analysis is for `ticker`.
pub open spec fn has_kelly(ks: Seq<KellyAnalysis>, ticker: Seq<char>) -> bool {
    exists|k: int| 0 <= k < ks.len() && (#[trigger] ks[k]).ticker@ == ticker
}

/// `k` is the first Kelly analysis for `ticker`.
pub open spec fn first_kelly_for(ks: Seq<KellyAnalysis>, ticker: Seq<char>, k: int) -> bool {
    &&& 0 <= k < ks.len()
    &&& ks[k].ticker@ == ticker
    &&& forall|j: int| 0 <= j < k ==> (#[trigger] ks[j]).ticker@ != ticker
}

/// `m` is the unified metric of `stocks[i]` with its first Kelly analysis.
pub open spec fn is_metric_of_stock(
    m: UnifiedRiskRewardMetric,
    stocks: Seq<StockData>,
    ks: Seq<KellyAnalysis>,
    i: int,
    daily_rf: int,
    annualized_returns: Seq<i64>,
) -> bool {
    exists|k: int|
        first_kelly_for(ks, stocks[i].ticker@, k) && #[trigger] is_unified_metric(
            m,
            stocks[i],
            ks[k],
            daily_rf,
            annualized_returns[i] as int,
        )
}

/// Positions, in order, of the stocks that have a Kelly analysis.
pub open spec fn matched_stocks(stocks: Seq<StockData>, ks: Seq<KellyAnalysis>) -> Seq<int>
    decreases stocks.len(),
{
    if stocks.len() == 0 {
        Seq::empty()
    } else {
        let before = matched_stocks(stocks.drop_last(), ks);
        if has_kelly(ks, stocks.last().ticker@) {
            before.push(stocks.len() - 1)
        } else {
            before
        }
    }
}

/// Kelly sizing under a set of trading settings.
pub struct KellyAnalyzer {
    config: TradingConfig,
}

impl KellyAnalyzer {
    pub fn new(config: TradingConfig) -> (r: Self)
        ensures
            r.config() == config,
    {
        KellyAnalyzer { config }
    }

    pub closed spec fn config(&self) -> TradingConfig {
        self.config
    }

    /// The settings this analyzer was made with.
    pub fn trading_config(&self) -> (r: TradingConfig)
        ensures
            r == self.config(),
    {
        self.config
    }

    /// Hands on Kelly figures from the estimator; they need no adjustment.
    pub fn enhance_kelly_analysis(&self, kelly_data: KellyAnalysis) -> (r: Result<
        KellyAnalysis,
        TradingBotError,
    >)
        ensures
            r matches Ok(k) && k == kelly_data,
    {
        Ok(kelly_data)
    }

    /// The position of the first Kelly analysis for `ticker`, if any.
    fn find_kelly(kelly_analysis: &Vec<KellyAnalysis>, ticker: &String) -> (r: Option<usize>)
        ensures
            r matches Some(k) ==> first_kelly_for(kelly_analysis@, ticker@, k as int),
            r is None ==> !has_kelly(kelly_analysis@, ticker@),
    {
        let mut k: usize = 0;
        while k < kelly_analysis.len()
            invariant
                k <= kelly_analysis@.len(),
                forall|j: int| 0 <= j < k ==> (#[trigger] kelly_analysis@[j]).ticker@ != ticker@,
            decreases kelly_analysis@.len() - k,
        {
            if kelly_analysis[k].ticker == *ticker {
                return Some(k);
            }
            k = k + 1;
        }
        None
    }

    /// The unified metric of each stock that has a Kelly analysis (the first
    /// one with its ticker), in stock order. `annualized_returns[i]` is the
    /// annualized return of `stock_analysis[i]`.
    pub fn calculate_unified_metrics(
        &self,
        stock_analysis: &Vec<StockData>,
        kelly_analysis: &Vec<KellyAnalysis>,
        daily_rf: i32,
        annualized_returns: &Vec<i64>,
    ) -> (r: Vec<UnifiedRiskRewardMetric>)
        requires
            annualized_returns@.len() == stock_analysis@.len(),
            forall|i: int|
                0 <= i < stock_analysis@.len() ==> (#[trigger] stock_analysis@[i]).returns@.len()
                    <= MAX_SAMPLES,
        ensures
            r@.len() == matched_stocks(stock_analysis@, kelly_analysis@).len(),
            forall|a: int|
                0 <= a < r@.len() ==> is_metric_of_stock(
                    #[trigger] r@[a],
                    stock_analysis@,
                    kelly_analysis@,
                    matched_stocks(stock_analysis@, kelly_analysis@)[a],
                    daily_rf as int,
                    annualized_returns@,
                ),
    {
        let ghost s = stock_analysis@;
        let ghost ks = kelly_analysis@;
        let mut metrics: Vec<UnifiedRiskRewardMetric> = Vec::new();
        let mut i: usize = 0;
        while i < stock_analysis.len()
            invariant
                s == stock_analysis@,
                ks == kelly_analysis@,
                annualized_returns@.len() == s.len(),
                forall|t: int| 0 <= t < s.len() ==> (#[trigger] s[t]).returns@.len() <= MAX_SAMPLES,
                i <= s.len(),
                metrics@.len() == matched_stocks(s.take(i as int), ks).len(),
                forall|t: int| 0 <= t < matched_stocks(s.take(i as int), ks).len() ==> 0
                    <= #[trigger] matched_stocks(s.take(i as int), ks)[t] < i,
                forall|a: int|
                    0 <= a < metrics@.len() ==> is_metric_of_stock(
                        #[trigger] metrics@[a],
                        s,
                        ks,
                        matched_stocks(s.take(i as int), ks)[a],
                        daily_rf as int,
                        annualized_returns@,
                    ),
            decreases s.len() - i,
        {
            let ghost prev = matched_stocks(s.take(i as int), ks);
            let ghost t = s.take(i as int + 1);
            assert(t.drop_last() =~= s.take(i as int));
            assert(t.last() == s[i as int]);
            let stock = &stock_analysis[i];
            match Self::find_kelly(kelly_analysis, &stock.ticker) {
                Some(k) => {
                    let m = self.calculate_unified_metric(
                        stock,
                        &kelly_analysis[k],
                        daily_rf,
                        annualized_returns[i],
                    );
                    proof {
                        assert(has_kelly(ks, s[i as int].ticker@)) by {
                            assert(ks[k as int].ticker@ == s[i as int].ticker@);
                        }
                        assert(matched_stocks(t, ks) == prev.push(i as int));
                    }
                    let ghost old_metrics = metrics@;
                    metrics.push(m);
                    proof {
                        assert(is_metric_of_stock(
                            m,
                            s,
                            ks,
                            i as int,
                            daily_rf as int,
                            annualized_returns@,
                        )) by {
                            assert(is_unified_metric(
                                m,
                                s[i as int],
                                ks[k as int],
                                daily_rf as int,
                                annualized_returns@[i as int] as int,
                            ));
                        }
                        assert forall|a: int| 0 <= a < metrics@.len() implies is_metric_of_stock(
                            #[trigger] metrics@[a],
                            s,
                            ks,
                            matched_stocks(t, ks)[a],
                            daily_rf as int,
                            annualized_returns@,
                        ) by {
                            if a < metrics@.len() - 1 {
                                assert(metrics@[a] == old_metrics[a]);
                            }
                        }
                    }
                },
                None => {
                    assert(matched_stocks(t, ks) == prev);
                },
            }
            i = i + 1;
        }
        assert(s.take(s.len() as int) =~= s);
        metrics
    }

    /// Checks the Kelly inputs: `p` within [0, 1], `g` and `l` not negative.
    pub fn validate_kelly_parameters(&self, p: i64, g: i64, l: i64) -> (r: Result<
        (),
        TradingBotError,
    >)
        ensures
            r is Ok <==> kelly_params_valid(p as int, g as int, l as int),
            r matches Err(e) ==> e.is_invalid_parameter(),
    {
        if p < 0 || p > SCALE {
            return Err(TradingBotError::invalid("Win probability must be between 0 and 1"));
        }
        if g < 0 {
            return Err(TradingBotError::invalid("Average gain must not be negative"));
        }
        if l < 0 {
            return Err(TradingBotError::invalid("Average loss must not be negative"));
        }
        Ok(())
    }

    /// The Kelly fraction for valid inputs; `InvalidParameter` otherwise.
    pub fn calculate_kelly_fraction(&self, p: i64, g: i64, l: i64) -> (r: Result<
        i64,
        TradingBotError,
    >)
        ensures
            r is Ok <==> kelly_params_valid(p as int, g as int, l as int),
            r matches Ok(f) ==> f == kelly_fraction_of(p as int, g as int, l as int),
            r matches Ok(f) ==> f >= 0,
            l == 0 ==> (r matches Ok(f) ==> f == 0),
            r matches Err(e) ==> e.is_invalid_parameter(),
    {
        match self.validate_kelly_parameters(p, g, l) {
            Err(e) => {
                return Err(e);
            },
            Ok(()) => {},
        }
        if l == 0 || g == 0 {
            return Ok(0);
        }
        let pg: i128 = mul_wide(p, g);
        let ql: i128 = mul_wide(SCALE - p, l);
        proof {
            assert(0 <= pg <= SCALE * g) by (nonlinear_arith)
                requires
                    pg == p * g,
                    0 <= p <= SCALE,
                    g >= 0,
            ;
            assert(0 <= ql <= SCALE * l) by (nonlinear_arith)
                requires
                    ql == (SCALE - p) * l,
                    0 <= p <= SCALE,
                    l >= 0,
            ;
        }
        let num: i128 = pg - ql;
        if num <= 0 {
            proof {
                assert(num as int / g as int <= 0) by (nonlinear_arith)
                    requires
                        num <= 0,
                        g > 0,
                ;
            }
            return Ok(0);
        }
        let f: i128 = floor_div(num, g as i128);
        proof {
            assert(f <= p) by (nonlinear_arith)
                requires
                    f == num as int / g as int,
                    num <= pg,
                    pg == p * g,
                    g > 0,
            ;
        }
        Ok(f as i64)
    }

    /// A Kelly fraction scaled by `scaling_factor` (both in millionths),
    /// rounded down and not clamped.
    pub fn calculate_scaled_kelly(&self, kelly_fraction: i64, scaling_factor: i64) -> (r: i128)
        ensures
            r == (kelly_fraction * scaling_factor) / (SCALE as int),
    {
        floor_div(mul_wide(kelly_fraction, scaling_factor), SCALE as i128)
    }

    /// Merges a ticker's Kelly figures with Sortino and Calmar ratios of its
    /// return series into one bounded score.
    ///
    /// The Sortino ratio uses a target of 0 and `daily_rf`, the daily share of
    /// the annual risk-free rate compounded over 252 days. The Calmar ratio is
    /// `annualized_return` over the maximum drawdown of the cumulative return
    /// path; both are 0 for an empty series. The risk-adjusted Kelly fraction
    /// is the confidence-weighted one times the score.
    pub fn calculate_unified_metric(
        &self,
        stock: &StockData,
        kelly: &KellyAnalysis,
        daily_rf: i32,
        annualized_return: i64,
    ) -> (r: UnifiedRiskRewardMetric)
        requires
            stock.returns@.len() <= MAX_SAMPLES,
        ensures
            is_unified_metric(r, *stock, *kelly, daily_rf as int, annualized_return as int),
            0 <= r.unified_score <= SCALE,
    {
        let sortino = calculate_sortino_ratio(stock.returns.as_slice(), 0, daily_rf);
        let calmar: i128 = if stock.returns.len() == 0 {
            0
        } else {
            calculate_calmar_ratio(
                annualized_return,
                calculate_path_drawdown(stock.returns.as_slice()),
            )
        };
        let cw = kelly.confidence_weighted_kelly;
        let score = calculate_unified_score(cw, sortino, calmar);
        let adjusted = floor_div(mul_wide(cw, score), SCALE as i128);
        proof {
            assert(-0x8000_0000_0000_0000 <= adjusted <= 0x7fff_ffff_ffff_ffff) by (nonlinear_arith)
                requires
                    adjusted == (cw * score) / 1_000_000,
                    0 <= score <= 1_000_000,
                    -0x8000_0000_0000_0000 <= cw <= 0x7fff_ffff_ffff_ffff,
            ;
        }
        let avg_return = calculate_average_return(stock.returns.as_slice());
        UnifiedRiskRewardMetric {
            ticker: stock.ticker.clone(),
            unified_score: score,
            kelly_score: cw,
            sortino_score: sortino,
            calmar_score: calmar,
            kelly_ratio: cw,
            sortino_ratio: sortino,
            calmar_ratio: calmar,
            sharpe_ratio: kelly.sharpe_ratio,
            risk_adjusted_kelly: adjusted as i64,
            volatility: stock.volatility,
            avg_return,
            max_drawdown: kelly.max_drawdown,
            win_probability: kelly.win_probability,
            confidence_factor: kelly.confidence_factor,
            sample_size: stock.returns.len(),
        }
    }
}

} // verus!
