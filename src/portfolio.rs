use vstd::prelude::*;
use crate::config::TradingConfig;
use crate::error::TradingBotError;
use crate::fixed::{SCALE, floor_div};
use crate::models::{PortfolioAllocation, PortfolioSummary};

verus! {

/// Positions are valid: each win probability lies within [0, 1].
pub open spec fn allocations_valid(s: Seq<PortfolioAllocation>) -> bool {
    forall|i: int| 0 <= i < s.len() ==> 0 <= #[trigger] s[i].win_probability <= SCALE
}

/// A position's share of the total, in millionths, rounded down.
pub open spec fn weight_of(a: PortfolioAllocation, total: int) -> int {
    (a.dollar_allocation * SCALE) / total
}

/// A position's part of the expected return: `p * g` (rounded down) times
/// its share `dollar_allocation / total`, rounded down.
pub open spec fn expected_term(a: PortfolioAllocation, total: int) -> int {
    (((a.win_probability * a.avg_gain) / (SCALE as int)) * a.dollar_allocation) / total
}

/// A position's part of the volatility: its volatility times its share.
pub open spec fn volatility_term(a: PortfolioAllocation, total: int) -> int {
    (a.volatility * a.dollar_allocation) / total
}

/// A position's part of the Sharpe ratio: its Sharpe ratio times its share.
pub open spec fn sharpe_term(a: PortfolioAllocation, total: int) -> int {
    (a.sharpe_ratio * a.dollar_allocation) / total
}

pub open spec fn expected_sum(s: Seq<PortfolioAllocation>, total: int) -> int
    decreases s.len(),
{
    if s.len() == 0 {
        0
    } else {
        expected_sum(s.drop_last(), total) + expected_term(s.last(), total)
    }
}

pub open spec fn volatility_sum(s: Seq<PortfolioAllocation>, total: int) -> int
    decreases s.len(),
{
    if s.len() == 0 {
        0
    } else {
        volatility_sum(s.drop_last(), total) + volatility_term(s.last(), total)
    }
}

pub open spec fn sharpe_sum(s: Seq<PortfolioAllocation>, total: int) -> int
    decreases s.len(),
{
    if s.len() == 0 {
        0
    } else {
        sharpe_sum(s.drop_last(), total) + sharpe_term(s.last(), total)
    }
}

/// The largest weight; 0 without positions.
pub open spec fn max_weight(s: Seq<PortfolioAllocation>, total: int) -> int
    decreases s.len(),
{
    if s.len() == 0 {
        0
    } else {
        let m = max_weight(s.drop_last(), total);
        let w = weight_of(s.last(), total);
        if w > m { w } else { m }
    }
}

pub open spec fn in_i128(x: int) -> bool {
    -0x8000_0000_0000_0000_0000_0000_0000_0000 <= x <= 0x7fff_ffff_ffff_ffff_ffff_ffff_ffff_ffff
}

/// The running sums over the first `k` positions are representable.
pub open spec fn prefix_fits(s: Seq<PortfolioAllocation>, total: int, k: int) -> bool {
    &&& in_i128(expected_sum(s.take(k), total))
    &&& in_i128(volatility_sum(s.take(k), total))
    &&& in_i128(sharpe_sum(s.take(k), total))
}

/// Every running sum, and twice the volatility, is representable in 128 bits.
pub open spec fn figures_fit(s: Seq<PortfolioAllocation>, total: int) -> bool {
    &&& forall|k: int| 0 <= k <= s.len() ==> #[trigger] prefix_fits(s, total, k)
    &&& in_i128(2 * volatility_sum(s, total))
}

/// Some position holds money.
pub open spec fn any_allocated(s: Seq<PortfolioAllocation>) -> bool {
    exists|i: int| 0 <= i < s.len() && #[trigger] s[i].dollar_allocation != 0
}

/// `a + b`, or `None` where that leaves the 128-bit range.
fn add_checked(a: i128, b: i128) -> (r: Option<i128>)
    ensures
        r matches Some(x) ==> x == a + b,
        r is None <==> !in_i128(a + b),
{
    if b >= 0 {
        if a > i128::MAX - b {
            None
        } else {
            Some(a + b)
        }
    } else {
        if a < i128::MIN - b {
            None
        } else {
            Some(a + b)
        }
    }
}

/// Portfolio-level figures from the positions and the total allocated.
///
/// Each position weighs `dollar_allocation / total_allocated`. Expected
/// return is `sum p * g * weight`, volatility `sum vol * weight` (correlation
/// between assets is ignored), Sharpe `sum sharpe * weight`; each position's
/// part is rounded down. The drawdown estimate is twice the volatility, and
/// concentration risk is the largest weight (in millionths, rounded down).
///
/// Fails with `InvalidParameter` when the total is not positive while some
/// position holds money; with nothing allocated anywhere and no positive
/// total all figures are 0. Fails with `Calculation` when a figure, or a
/// running sum of one, leaves the 128-bit range.
pub fn summarize_portfolio(
    allocations: Vec<PortfolioAllocation>,
    total_allocated: i64,
    cash_remaining: i64,
    allocation_percentage: i64,
) -> (r: Result<PortfolioSummary, TradingBotError>)
    requires
        allocations_valid(allocations@),
    ensures
        r is Err <==> (total_allocated <= 0 && any_allocated(allocations@)) || (total_allocated > 0
            && !figures_fit(allocations@, total_allocated as int)),
        r matches Err(e) ==> (e.is_invalid_parameter() <==> total_allocated <= 0),
        total_allocated > 0 ==> (r matches Err(e) ==> e is Calculation),
        r matches Ok(p) ==> {
            &&& p.allocations == allocations
            &&& p.total_allocated == total_allocated
            &&& p.cash_remaining == cash_remaining
            &&& p.allocation_percentage == allocation_percentage
            &&& p.number_of_positions == allocations@.len()
            &&& p.max_drawdown_estimate == 2 * p.portfolio_volatility
            &&& total_allocated > 0 ==> {
                &&& p.expected_return == expected_sum(allocations@, total_allocated as int)
                &&& p.portfolio_volatility == volatility_sum(allocations@, total_allocated as int)
                &&& p.portfolio_sharpe == sharpe_sum(allocations@, total_allocated as int)
                &&& p.concentration_risk == max_weight(allocations@, total_allocated as int)
            }
            &&& total_allocated <= 0 ==> p.expected_return == 0 && p.portfolio_volatility == 0
                && p.portfolio_sharpe == 0 && p.concentration_risk == 0
        },
{
    let n = allocations.len();
    if total_allocated <= 0 {
        let mut i: usize = 0;
        while i < n
            invariant
                n == allocations@.len(),
                total_allocated <= 0,
                i <= n,
                forall|t: int| 0 <= t < i ==> #[trigger] allocations@[t].dollar_allocation == 0,
            decreases n - i,
        {
            if allocations[i].dollar_allocation != 0 {
                assert(allocations@[i as int].dollar_allocation != 0);
                return Err(TradingBotError::invalid("Total allocation must be positive"));
            }
            i = i + 1;
        }
        return Ok(
            PortfolioSummary {
                allocations,
                total_allocated,
                cash_remaining,
                allocation_percentage,
                expected_return: 0,
                portfolio_volatility: 0,
                portfolio_sharpe: 0,
                max_drawdown_estimate: 0,
                number_of_positions: n,
                concentration_risk: 0,
            },
        );
    }
    let ghost s = allocations@;
    let total: i128 = total_allocated as i128;
    let mut expected: i128 = 0;
    let mut volatility: i128 = 0;
    let mut sharpe: i128 = 0;
    let mut concentration: i128 = 0;
    let mut i: usize = 0;
    assert(prefix_fits(s, total as int, 0)) by {
        assert(s.take(0) =~= Seq::<PortfolioAllocation>::empty());
    }
    while i < n
        invariant
            s == allocations@,
            n == s.len(),
            i <= n,
            total == total_allocated,
            total > 0,
            allocations_valid(s),
            expected == expected_sum(s.take(i as int), total as int),
            volatility == volatility_sum(s.take(i as int), total as int),
            sharpe == sharpe_sum(s.take(i as int), total as int),
            concentration == max_weight(s.take(i as int), total as int),
            forall|k: int| 0 <= k <= i ==> #[trigger] prefix_fits(s, total as int, k),
        decreases n - i,
    {
        let ghost t = s.take(i as int + 1);
        assert(t.drop_last() =~= s.take(i as int));
        assert(t.last() == s[i as int]);
        let a = &allocations[i];
        let amount: i128 = a.dollar_allocation as i128;
        let p: i128 = a.win_probability as i128;
        let g: i128 = a.avg_gain as i128;
        proof {
            assert(0 <= p <= SCALE);
            assert(-0x8000_0000_0000_0000 * SCALE <= p * g <= 0x8000_0000_0000_0000 * SCALE)
                by (nonlinear_arith)
                requires
                    0 <= p <= SCALE,
                    -0x8000_0000_0000_0000 <= g <= 0x8000_0000_0000_0000,
            ;
        }
        let pg = floor_div(p * g, SCALE as i128);
        proof {
            assert(-0x8000_0000_0000_0000 <= pg <= 0x8000_0000_0000_0000) by (nonlinear_arith)
                requires
                    pg == (p * g) / 1_000_000,
                    -0x8000_0000_0000_0000 * 1_000_000 <= p * g <= 0x8000_0000_0000_0000
                        * 1_000_000,
            ;
            assert(-0x8000_0000_0000_0000 * 0xffff_ffff_ffff_ffff <= pg * amount
                <= 0x8000_0000_0000_0000 * 0xffff_ffff_ffff_ffff) by (nonlinear_arith)
                requires
                    -0x8000_0000_0000_0000 <= pg <= 0x8000_0000_0000_0000,
                    0 <= amount <= 0xffff_ffff_ffff_ffff,
            ;
            assert(-0x8000_0000_0000_0000 * 0xffff_ffff_ffff_ffff <= (a.volatility as int) * amount
                <= 0x8000_0000_0000_0000 * 0xffff_ffff_ffff_ffff) by (nonlinear_arith)
                requires
                    -0x8000_0000_0000_0000 <= a.volatility <= 0x8000_0000_0000_0000,
                    0 <= amount <= 0xffff_ffff_ffff_ffff,
            ;
            assert(-0x8000_0000_0000_0000 * 0xffff_ffff_ffff_ffff <= (a.sharpe_ratio as int)
                * amount <= 0x8000_0000_0000_0000 * 0xffff_ffff_ffff_ffff) by (nonlinear_arith)
                requires
                    -0x8000_0000_0000_0000 <= a.sharpe_ratio <= 0x8000_0000_0000_0000,
                    0 <= amount <= 0xffff_ffff_ffff_ffff,
            ;
        }
        let e_term = floor_div(pg * amount, total);
        let v_term = floor_div((a.volatility as i128) * amount, total);
        let h_term = floor_div((a.sharpe_ratio as i128) * amount, total);
        let w: i128 = amount * (SCALE as i128) / total;
        assert(e_term == expected_term(t.last(), total as int));
        assert(w == weight_of(t.last(), total as int));
        let e = add_checked(expected, e_term);
        let v = add_checked(volatility, v_term);
        let h = add_checked(sharpe, h_term);
        match (e, v, h) {
            (Some(e), Some(v), Some(h)) => {
                expected = e;
                volatility = v;
                sharpe = h;
            },
            _ => {
                assert(!prefix_fits(s, total as int, i as int + 1));
                return Err(TradingBotError::Calculation(String::from_str("Portfolio figures out of range")));
            },
        }
        if w > concentration {
            concentration = w;
        }
        i = i + 1;
        assert(prefix_fits(s, total as int, i as int));
    }
    assert(s.take(n as int) =~= s);
    if volatility > i128::MAX / 2 || volatility < i128::MIN / 2 {
        return Err(TradingBotError::Calculation(String::from_str("Portfolio figures out of range")));
    }
    Ok(
        PortfolioSummary {
            allocations,
            total_allocated,
            cash_remaining,
            allocation_percentage,
            expected_return: expected,
            portfolio_volatility: volatility,
            portfolio_sharpe: sharpe,
            max_drawdown_estimate: 2 * volatility,
            number_of_positions: n,
            concentration_risk: concentration,
        },
    )
}

/// Portfolio management under a set of trading settings.
pub struct PortfolioManager {
    config: TradingConfig,
}

impl PortfolioManager {
    pub fn new(config: TradingConfig) -> (r: Self)
        ensures
            r.config() == config,
    {
        PortfolioManager { config }
    }

    pub closed spec fn config(&self) -> TradingConfig {
        self.config
    }

    /// Hands a summary on; every figure is already final.
    pub fn enhance_portfolio_summary(&self, portfolio_summary: PortfolioSummary) -> (r: Result<
        PortfolioSummary,
        TradingBotError,
    >)
        ensures
            r matches Ok(p) && p == portfolio_summary,
    {
        Ok(portfolio_summary)
    }
}

} // verus!
