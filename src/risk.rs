use vstd::prelude::*;
use crate::fixed::{SCALE, floor_div};

verus! {

/// Trading days in a year: the period that annual rates are spread over.
pub const TRADING_DAYS: i64 = 252;

/// The longest return series that the statistics accept: their exact sums of
/// squares must fit 128 bits.
pub const MAX_SAMPLES: usize = 0xffff_ffff;

/// The sum of a return series.
pub open spec fn sum_of(s: Seq<i32>) -> int
    decreases s.len(),
{
    if s.len() == 0 {
        0
    } else {
        sum_of(s.drop_last()) + s.last()
    }
}

/// The sum of the squares of a return series.
pub open spec fn sum_sq_of(s: Seq<i32>) -> int
    decreases s.len(),
{
    if s.len() == 0 {
        0
    } else {
        sum_sq_of(s.drop_last()) + s.last() * s.last()
    }
}

/// `sum (a * r - c)^2` over the series.
pub open spec fn dev_sq_of(s: Seq<i32>, a: int, c: int) -> int
    decreases s.len(),
{
    if s.len() == 0 {
        0
    } else {
        dev_sq_of(s.drop_last(), a, c) + (a * s.last() - c) * (a * s.last() - c)
    }
}

/// The integer square root: the `r >= 0` with `r^2 <= x < (r + 1)^2`.
pub open spec fn is_isqrt(x: int, r: int) -> bool {
    0 <= r && r * r <= x < (r + 1) * (r + 1)
}

pub open spec fn isqrt_of(x: int) -> int {
    choose|r: int| is_isqrt(x, r)
}

/// The square root rounded up: the least `r >= 0` with `x <= r^2`.
pub open spec fn is_ceil_sqrt(x: int, r: int) -> bool {
    0 <= r && x <= r * r && (r == 0 || (r - 1) * (r - 1) < x)
}

pub open spec fn ceil_sqrt_of(x: int) -> int {
    choose|r: int| is_ceil_sqrt(x, r)
}

/// All values of the series are equal.
pub open spec fn is_constant(s: Seq<i32>) -> bool {
    forall|i: int, j: int| 0 <= i < s.len() && 0 <= j < s.len() ==> s[i] == s[j]
}

/// The arithmetic mean of a series, rounded down; 0 for an empty one.
pub open spec fn mean_of(s: Seq<i32>) -> int {
    if s.len() == 0 {
        0
    } else {
        sum_of(s) / (s.len() as int)
    }
}

/// `n * sum r^2 - (sum r)^2`: `n (n - 1)` times the sample variance.
pub open spec fn variance_numerator_of(s: Seq<i32>) -> int {
    s.len() * sum_sq_of(s) - sum_of(s) * sum_of(s)
}

/// The sample variance (Bessel's `n - 1` denominator), rounded up:
/// `sum (r - mean)^2 / (n - 1) = (n * sum r^2 - (sum r)^2) / (n (n - 1))`.
pub open spec fn sample_variance_of(s: Seq<i32>) -> int {
    let n = s.len() as int;
    let d = n * (n - 1);
    (variance_numerator_of(s) + d - 1) / d
}

/// The sample standard deviation, rounded up, so that only a constant
/// series has none; 0 for fewer than two samples.
pub open spec fn volatility_of(s: Seq<i32>) -> int {
    if s.len() < 2 {
        0
    } else {
        ceil_sqrt_of(sample_variance_of(s))
    }
}

/// Mean return less a daily share (`annual_rf / 252`) of the annual
/// risk-free rate, over the volatility; 0 where the volatility is 0.
pub open spec fn sharpe_of(s: Seq<i32>, annual_rf: int) -> int {
    let n = s.len() as int;
    let v = volatility_of(s);
    if n == 0 || v == 0 {
        0
    } else {
        (SCALE * (TRADING_DAYS * sum_of(s) - n * annual_rf)) / (TRADING_DAYS * n * v)
    }
}

/// `sum min(0, r - daily_rf - target)^2`: the squared shortfalls of the
/// excess values below the target.
pub open spec fn downside_sq_of(s: Seq<i32>, daily_rf: int, target: int) -> int
    decreases s.len(),
{
    if s.len() == 0 {
        0
    } else {
        let d = s.last() - daily_rf - target;
        let m = if d < 0 { d } else { 0 };
        downside_sq_of(s.drop_last(), daily_rf, target) + m * m
    }
}

/// The downside deviation `sqrt(mean(shortfall^2))`, rounded up, so that it
/// is 0 only without any shortfall.
pub open spec fn downside_deviation_of(s: Seq<i32>, daily_rf: int, target: int) -> int {
    let n = s.len() as int;
    if n == 0 {
        0
    } else {
        ceil_sqrt_of((downside_sq_of(s, daily_rf, target) + n - 1) / n)
    }
}

/// Mean excess return over the downside deviation; 0 where that is 0.
pub open spec fn sortino_of(s: Seq<i32>, daily_rf: int, target: int) -> int {
    let n = s.len() as int;
    let dd = downside_deviation_of(s, daily_rf, target);
    if n == 0 || dd == 0 {
        0
    } else {
        (SCALE * (sum_of(s) - n * daily_rf)) / (n * dd)
    }
}

/// The highest value among `s[0..=i]`.
pub open spec fn peak_of(s: Seq<u64>, i: int) -> int
    decreases i,
{
    if i <= 0 {
        s[0] as int
    } else {
        let p = peak_of(s, i - 1);
        if s[i] > p { s[i] as int } else { p }
    }
}

/// The fall of `s[i]` below the running peak, as a fraction of that peak,
/// rounded up so that any fall counts.
pub open spec fn drawdown_at(s: Seq<u64>, i: int) -> int {
    let p = peak_of(s, i);
    if p == 0 {
        0
    } else {
        ((p - s[i]) * SCALE + p - 1) / p
    }
}

/// No value is below an earlier one.
pub open spec fn is_non_decreasing(s: Seq<u64>) -> bool {
    forall|i: int, j: int| 0 <= i < j < s.len() ==> s[i] <= s[j]
}

/// The largest drawdown among the first `k` points.
pub open spec fn max_drawdown_upto(s: Seq<u64>, k: int) -> int
    decreases k,
{
    if k <= 0 {
        0
    } else {
        let m = max_drawdown_upto(s, k - 1);
        let d = drawdown_at(s, k - 1);
        if d > m { d } else { m }
    }
}

/// The magnitude of the worst peak-to-trough fall; 0 under two points.
pub open spec fn max_drawdown_of(s: Seq<u64>) -> int {
    if s.len() < 2 {
        0
    } else {
        max_drawdown_upto(s, s.len() as int)
    }
}

/// Wealth as a fraction of its running peak after period `i`, where wealth
/// compounds by `1 + r` each period. The first period sets the peak; a
/// fraction is rounded down, and a loss beyond 100% leaves nothing.
pub open spec fn peak_ratio_of(s: Seq<i32>, i: int) -> int
    decreases i,
{
    if i <= 0 {
        SCALE as int
    } else {
        let x = (peak_ratio_of(s, i - 1) * (SCALE + s[i])) / (SCALE as int);
        if x > SCALE {
            SCALE as int
        } else if x < 0 {
            0
        } else {
            x
        }
    }
}

/// The largest fall below the peak among the first `k` periods.
pub open spec fn path_drawdown_upto(s: Seq<i32>, k: int) -> int
    decreases k,
{
    if k <= 0 {
        0
    } else {
        let m = path_drawdown_upto(s, k - 1);
        let d = SCALE - peak_ratio_of(s, k - 1);
        if d > m { d } else { m }
    }
}

/// The maximum drawdown of the cumulative return path; 0 under two periods.
pub open spec fn path_drawdown_of(s: Seq<i32>) -> int {
    if s.len() < 2 {
        0
    } else {
        path_drawdown_upto(s, s.len() as int)
    }
}

pub proof fn lemma_peak_ratio(s: Seq<i32>, i: int)
    requires
        0 <= i < s.len(),
    ensures
        0 <= peak_ratio_of(s, i) <= SCALE,
        (forall|j: int| 1 <= j <= i ==> s[j] >= 0) ==> peak_ratio_of(s, i) == SCALE,
        i >= 1 && s[i] < 0 ==> peak_ratio_of(s, i) < SCALE,
    decreases i,
{
    if i > 0 {
        lemma_peak_ratio(s, i - 1);
        let rho = peak_ratio_of(s, i - 1);
        let f = SCALE + s[i];
        let x = (rho * f) / (SCALE as int);
        if s[i] < 0 {
            assert(x < SCALE) by (nonlinear_arith)
                requires
                    x == (rho * f) / 1_000_000,
                    0 <= rho <= 1_000_000,
                    f < 1_000_000,
            ;
        }
        if forall|j: int| 1 <= j <= i ==> s[j] >= 0 {
            assert(s[i] >= 0);
            assert(x >= SCALE) by (nonlinear_arith)
                requires
                    x == (rho * f) / 1_000_000,
                    rho == 1_000_000,
                    f >= 1_000_000,
            ;
        }
    }
}

pub proof fn lemma_path_drawdown_upto_zero(s: Seq<i32>, k: int)
    requires
        0 <= k <= s.len(),
    ensures
        path_drawdown_upto(s, k) >= 0,
        path_drawdown_upto(s, k) == 0 <==> forall|i: int| 0 <= i < k ==> peak_ratio_of(s, i) == SCALE,
    decreases k,
{
    if k > 0 {
        lemma_path_drawdown_upto_zero(s, k - 1);
        lemma_peak_ratio(s, k - 1);
    }
}

/// The cumulative path of two or more returns has no drawdown exactly when
/// no period after the first loses.
pub proof fn lemma_path_drawdown_zero_iff_no_loss(s: Seq<i32>)
    requires
        s.len() >= 2,
    ensures
        path_drawdown_of(s) == 0 <==> forall|i: int| 1 <= i < s.len() ==> s[i] >= 0,
{
    lemma_path_drawdown_upto_zero(s, s.len() as int);
    if forall|i: int| 1 <= i < s.len() ==> s[i] >= 0 {
        assert forall|i: int| 0 <= i < s.len() implies peak_ratio_of(s, i) == SCALE by {
            lemma_peak_ratio(s, i);
        }
    }
    if forall|i: int| 0 <= i < s.len() ==> peak_ratio_of(s, i) == SCALE {
        assert forall|i: int| 1 <= i < s.len() implies s[i] >= 0 by {
            lemma_peak_ratio(s, i);
        }
    }
}

/// The running peak is one of the values so far and none exceeds it.
pub proof fn lemma_peak_bounds(s: Seq<u64>, i: int)
    requires
        0 <= i < s.len(),
    ensures
        forall|j: int| 0 <= j <= i ==> s[j] <= peak_of(s, i),
        exists|j: int| 0 <= j <= i && peak_of(s, i) == s[j],
    decreases i,
{
    if i > 0 {
        lemma_peak_bounds(s, i - 1);
        if s[i] <= peak_of(s, i - 1) {
            let j = choose|j: int| 0 <= j <= i - 1 && peak_of(s, i - 1) == s[j];
            assert(peak_of(s, i) == s[j]);
        } else {
            assert(peak_of(s, i) == s[i]);
        }
    } else {
        assert(peak_of(s, 0) == s[0]);
    }
}

pub proof fn lemma_drawdown_at_zero(s: Seq<u64>, i: int)
    requires
        0 <= i < s.len(),
    ensures
        0 <= drawdown_at(s, i) <= SCALE,
        drawdown_at(s, i) == 0 <==> s[i] == peak_of(s, i),
{
    lemma_peak_bounds(s, i);
    let p = peak_of(s, i);
    let x = s[i] as int;
    if p != 0 {
        let d = drawdown_at(s, i);
        assert(0 <= d <= SCALE && (d == 0 <==> x == p)) by (nonlinear_arith)
            requires
                d == ((p - x) * SCALE + p - 1) / p,
                0 <= x <= p,
                p > 0,
        ;
    } else {
        assert(x == 0);
    }
}

pub proof fn lemma_max_drawdown_upto_zero(s: Seq<u64>, k: int)
    requires
        0 <= k <= s.len(),
    ensures
        max_drawdown_upto(s, k) >= 0,
        max_drawdown_upto(s, k) == 0 <==> forall|i: int| 0 <= i < k ==> s[i] == peak_of(s, i),
    decreases k,
{
    if k > 0 {
        lemma_max_drawdown_upto_zero(s, k - 1);
        lemma_drawdown_at_zero(s, k - 1);
    }
}

/// Two or more prices have no drawdown exactly when they never fall.
pub proof fn lemma_drawdown_zero_iff_non_decreasing(s: Seq<u64>)
    requires
        s.len() >= 2,
    ensures
        max_drawdown_of(s) == 0 <==> is_non_decreasing(s),
{
    lemma_max_drawdown_upto_zero(s, s.len() as int);
    if is_non_decreasing(s) {
        assert forall|i: int| 0 <= i < s.len() implies s[i] == peak_of(s, i) by {
            lemma_peak_bounds(s, i);
            let j = choose|j: int| 0 <= j <= i && peak_of(s, i) == s[j];
            if j < i {
                assert(s[j] <= s[i]);
            }
        }
    }
    if forall|i: int| 0 <= i < s.len() ==> s[i] == peak_of(s, i) {
        assert forall|i: int, j: int| 0 <= i < j < s.len() implies s[i] <= s[j] by {
            lemma_peak_bounds(s, j);
            assert(s[j] == peak_of(s, j));
        }
    }
}

/// Annualized return over the drawdown magnitude; 0 without a drawdown.
pub open spec fn calmar_of(annualized_return: int, max_drawdown: int) -> int {
    let m = if max_drawdown < 0 { -max_drawdown } else { max_drawdown };
    if m == 0 {
        0
    } else {
        (annualized_return * SCALE) / m
    }
}

pub proof fn lemma_isqrt_unique(x: int, r: int)
    requires
        is_isqrt(x, r),
    ensures
        isqrt_of(x) == r,
{
    let c = isqrt_of(x);
    assert(is_isqrt(x, c));
    if c < r {
        assert((c + 1) * (c + 1) <= r * r) by (nonlinear_arith)
            requires
                0 <= c < r,
        ;
    } else if c > r {
        assert((r + 1) * (r + 1) <= c * c) by (nonlinear_arith)
            requires
                0 <= r < c,
        ;
    }
}

/// Expands `sum (a r - c)^2` and shows it is not negative.
pub proof fn lemma_dev_sq(s: Seq<i32>, a: int, c: int)
    ensures
        dev_sq_of(s, a, c) == a * a * sum_sq_of(s) - 2 * a * c * sum_of(s) + s.len() * c * c,
        dev_sq_of(s, a, c) >= 0,
    decreases s.len(),
{
    if s.len() > 0 {
        let t = s.drop_last();
        let x = s.last() as int;
        lemma_dev_sq(t, a, c);
        let d = dev_sq_of(t, a, c);
        let q = sum_sq_of(t);
        let m = sum_of(t);
        let n = t.len() as int;
        assert(d + (a * x - c) * (a * x - c) == a * a * (q + x * x) - 2 * a * c * (m + x) + (n
            + 1) * c * c) by (nonlinear_arith)
            requires
                d == a * a * q - 2 * a * c * m + n * c * c,
        ;
        assert((a * x - c) * (a * x - c) >= 0) by (nonlinear_arith);
    }
}

/// `n * sum r^2 - (sum r)^2` is never negative, so the variance is not either.
pub proof fn lemma_variance_numerator_nonneg(s: Seq<i32>)
    ensures
        s.len() * sum_sq_of(s) - sum_of(s) * sum_of(s) >= 0,
{
    let n = s.len() as int;
    let m = sum_of(s);
    let q = sum_sq_of(s);
    if n > 0 {
        lemma_dev_sq(s, n, m);
        assert(n * (n * q - m * m) >= 0) by (nonlinear_arith)
            requires
                n * n * q - 2 * n * m * m + n * m * m >= 0,
        ;
        assert(n * q - m * m >= 0) by (nonlinear_arith)
            requires
                n * (n * q - m * m) >= 0,
                n > 0,
        ;
    } else {
        assert(s =~= Seq::<i32>::empty());
    }
}

pub proof fn lemma_sums_bounded(s: Seq<i32>)
    ensures
        -(s.len() * 0x8000_0000) <= sum_of(s) <= s.len() * 0x8000_0000,
        0 <= sum_sq_of(s) <= s.len() * 0x4000_0000_0000_0000,
    decreases s.len(),
{
    if s.len() > 0 {
        let x = s.last() as int;
        lemma_sums_bounded(s.drop_last());
        assert(0 <= x * x <= 0x4000_0000_0000_0000) by (nonlinear_arith)
            requires
                -0x8000_0000 <= x < 0x8000_0000,
        ;
    }
}

/// The integer square root of `x`.
pub fn isqrt(x: u128) -> (r: u64)
    ensures
        is_isqrt(x as int, r as int),
        r == isqrt_of(x as int),
{
    let mut lo: u128 = 0;
    let mut hi: u128 = 0x1_0000_0000_0000_0000;
    proof {
        assert(x < hi * hi) by (nonlinear_arith)
            requires
                x <= 0xffff_ffff_ffff_ffff_ffff_ffff_ffff_ffff,
                hi == 0x1_0000_0000_0000_0000,
        ;
    }
    while hi - lo > 1
        invariant
            lo < hi <= 0x1_0000_0000_0000_0000,
            lo * lo <= x,
            x < hi * hi,
        decreases hi - lo,
    {
        let mid: u128 = lo + (hi - lo) / 2;
        proof {
            assert(mid * mid <= 0xffff_ffff_ffff_fffe_0000_0000_0000_0001) by (nonlinear_arith)
                requires
                    mid <= 0xffff_ffff_ffff_ffff,
            ;
        }
        if mid * mid <= x {
            lo = mid;
        } else {
            hi = mid;
        }
    }
    proof {
        assert(hi == lo + 1);
        lemma_isqrt_unique(x as int, lo as int);
    }
    lo as u64
}

pub proof fn lemma_ceil_sqrt_unique(x: int, r: int)
    requires
        is_ceil_sqrt(x, r),
    ensures
        ceil_sqrt_of(x) == r,
{
    let c = ceil_sqrt_of(x);
    assert(is_ceil_sqrt(x, c));
    if c < r {
        assert(c * c <= (r - 1) * (r - 1)) by (nonlinear_arith)
            requires
                0 <= c < r,
        ;
    } else if c > r {
        assert(r * r <= (c - 1) * (c - 1)) by (nonlinear_arith)
            requires
                0 <= r < c,
        ;
    }
}

pub proof fn lemma_ceil_sqrt_exists(x: int)
    requires
        x >= 0,
    ensures
        is_ceil_sqrt(x, ceil_sqrt_of(x)),
    decreases x,
{
    if x == 0 {
        assert(is_ceil_sqrt(0, 0));
    } else {
        lemma_ceil_sqrt_exists(x - 1);
        let p = ceil_sqrt_of(x - 1);
        if x <= p * p {
            assert(p != 0) by {
                if p == 0 {
                    assert(p * p == 0);
                }
            }
            assert(is_ceil_sqrt(x, p));
        } else {
            assert((p + 1) * (p + 1) == p * p + 2 * p + 1) by (nonlinear_arith);
            assert(p * p >= 0) by (nonlinear_arith);
            assert(is_ceil_sqrt(x, p + 1));
        }
    }
}

/// `sum (a r - c)^2` is 0 exactly when every `a r` equals `c`.
pub proof fn lemma_dev_sq_zero(s: Seq<i32>, a: int, c: int)
    ensures
        dev_sq_of(s, a, c) == 0 <==> forall|i: int| 0 <= i < s.len() ==> a * s[i] == c,
    decreases s.len(),
{
    if s.len() > 0 {
        let t = s.drop_last();
        let y = a * s.last() - c;
        lemma_dev_sq_zero(t, a, c);
        lemma_dev_sq(t, a, c);
        assert(y * y >= 0) by (nonlinear_arith);
        assert(y * y == 0 <==> y == 0) by (nonlinear_arith);
        if dev_sq_of(s, a, c) == 0 {
            assert forall|i: int| 0 <= i < s.len() implies a * s[i] == c by {
                if i < t.len() {
                    assert(s[i] == t[i]);
                }
            }
        }
        if forall|i: int| 0 <= i < s.len() ==> a * s[i] == c {
            assert forall|i: int| 0 <= i < t.len() implies a * t[i] == c by {
                assert(s[i] == t[i]);
            }
            assert(a * s[s.len() - 1] == c);
        }
    }
}

pub proof fn lemma_sum_constant(s: Seq<i32>, x: int)
    requires
        forall|i: int| 0 <= i < s.len() ==> s[i] == x,
    ensures
        sum_of(s) == s.len() * x,
    decreases s.len(),
{
    if s.len() > 0 {
        let t = s.drop_last();
        assert forall|i: int| 0 <= i < t.len() implies t[i] == x by {
            assert(s[i] == t[i]);
        }
        lemma_sum_constant(t, x);
        assert(s.last() == s[s.len() - 1]);
        assert(t.len() * x + x == s.len() * x) by (nonlinear_arith)
            requires
                s.len() == t.len() + 1,
        ;
    }
}

/// The volatility of two or more samples is 0 exactly when they are all equal.
pub proof fn lemma_volatility_zero_iff_constant(s: Seq<i32>)
    requires
        s.len() >= 2,
    ensures
        volatility_of(s) == 0 <==> is_constant(s),
{
    let n = s.len() as int;
    let m = sum_of(s);
    let q = sum_sq_of(s);
    let num = variance_numerator_of(s);
    let d = n * (n - 1);
    lemma_dev_sq(s, n, m);
    lemma_dev_sq_zero(s, n, m);
    lemma_variance_numerator_nonneg(s);
    assert(dev_sq_of(s, n, m) == n * num) by (nonlinear_arith)
        requires
            dev_sq_of(s, n, m) == n * n * q - 2 * n * m * m + n * m * m,
            num == n * q - m * m,
    ;
    assert(d >= 2) by (nonlinear_arith)
        requires
            n >= 2,
            d == n * (n - 1),
    ;
    let v = (num + d - 1) / d;
    assert(num == 0 <==> v == 0) by (nonlinear_arith)
        requires
            v == (num + d - 1) / d,
            num >= 0,
            d >= 2,
    ;
    assert(num == 0 <==> dev_sq_of(s, n, m) == 0) by (nonlinear_arith)
        requires
            dev_sq_of(s, n, m) == n * num,
            n >= 2,
    ;
    assert(v >= 0) by (nonlinear_arith)
        requires
            v == (num + d - 1) / d,
            num >= 0,
            d >= 2,
    ;
    lemma_ceil_sqrt_exists(v);
    let c = ceil_sqrt_of(v);
    if v == 0 {
        lemma_ceil_sqrt_unique(0, 0);
    } else {
        assert(c != 0);
    }
    if is_constant(s) {
        lemma_sum_constant(s, s[0] as int);
        assert forall|i: int| 0 <= i < s.len() implies n * s[i] == m by {
            assert(s[i] == s[0]);
        }
    }
    if num == 0 {
        assert forall|i: int, j: int| 0 <= i < s.len() && 0 <= j < s.len() implies s[i] == s[j] by {
            assert(n * s[i] == m && n * s[j] == m);
            assert(s[i] == s[j]) by (nonlinear_arith)
                requires
                    n * s[i] == n * s[j],
                    n > 0,
            ;
        }
    }
}

/// The square root of `x`, rounded up.
pub fn ceil_isqrt(x: u128) -> (r: u128)
    ensures
        is_ceil_sqrt(x as int, r as int),
        r == ceil_sqrt_of(x as int),
{
    let f = isqrt(x) as u128;
    proof {
        assert(f * f <= 0xffff_ffff_ffff_fffe_0000_0000_0000_0001) by (nonlinear_arith)
            requires
                f <= 0xffff_ffff_ffff_ffff,
        ;
    }
    let r: u128 = if f * f == x {
        f
    } else {
        f + 1
    };
    proof {
        if r == f + 1 {
            assert((r - 1) * (r - 1) == f * f);
        } else if f > 0 {
            assert((f - 1) * (f - 1) < f * f) by (nonlinear_arith)
                requires
                    f > 0,
            ;
        }
        lemma_ceil_sqrt_unique(x as int, r as int);
    }
    r
}

pub proof fn lemma_downside_bounded(s: Seq<i32>, daily_rf: int, target: int)
    requires
        -0x8000_0000 <= daily_rf < 0x8000_0000,
        -0x8000_0000 <= target < 0x8000_0000,
    ensures
        0 <= downside_sq_of(s, daily_rf, target) <= s.len() * 0x4_0000_0000_0000_0000,
    decreases s.len(),
{
    if s.len() > 0 {
        lemma_downside_bounded(s.drop_last(), daily_rf, target);
        let d = s.last() - daily_rf - target;
        let m = if d < 0 { d } else { 0 };
        assert(0 <= m * m <= 0x4_0000_0000_0000_0000) by (nonlinear_arith)
            requires
                -0x2_0000_0000 <= m <= 0,
        ;
    }
}

/// The sum and the sum of squares of a series.
fn sums(series: &[i32]) -> (r: (i128, i128))
    requires
        series@.len() <= MAX_SAMPLES,
    ensures
        r.0 == sum_of(series@),
        r.1 == sum_sq_of(series@),
{
    let mut s: i128 = 0;
    let mut q: i128 = 0;
    let mut i: usize = 0;
    while i < series.len()
        invariant
            i <= series@.len() <= MAX_SAMPLES,
            s == sum_of(series@.take(i as int)),
            q == sum_sq_of(series@.take(i as int)),
        decreases series@.len() - i,
    {
        let x: i32 = series[i];
        proof {
            let t = series@.take(i as int + 1);
            assert(t.drop_last() =~= series@.take(i as int));
            assert(t.last() == x);
            lemma_sums_bounded(t);
            assert(0 <= x * x <= 0x4000_0000_0000_0000) by (nonlinear_arith)
                requires
                    -0x8000_0000 <= x < 0x8000_0000,
            ;
        }
        s = s + x as i128;
        q = q + (x as i128) * (x as i128);
        i = i + 1;
    }
    proof {
        assert(series@.take(series@.len() as int) =~= series@);
    }
    (s, q)
}

/// The mean of a period-return series, rounded down; 0 when empty.
pub fn calculate_average_return(series: &[i32]) -> (r: i64)
    requires
        series@.len() <= MAX_SAMPLES,
    ensures
        r == mean_of(series@),
{
    let n = series.len();
    if n == 0 {
        return 0;
    }
    let (s, _) = sums(series);
    proof {
        lemma_sums_bounded(series@);
    }
    let m = floor_div(s, n as i128);
    proof {
        let ni = n as int;
        assert(-0x8000_0000 <= m <= 0x8000_0000) by (nonlinear_arith)
            requires
                m == s as int / ni,
                -(ni * 0x8000_0000) <= s <= ni * 0x8000_0000,
                ni > 0,
        ;
    }
    m as i64
}

/// The sample standard deviation of a period-return series (Bessel's
/// `n - 1` denominator), rounded down; 0 for fewer than two samples.
pub fn calculate_volatility(series: &[i32]) -> (r: i64)
    requires
        series@.len() <= MAX_SAMPLES,
    ensures
        r == volatility_of(series@),
        r >= 0,
        series@.len() < 2 ==> r == 0,
        series@.len() >= 2 ==> (r == 0 <==> is_constant(series@)),
{
    let n = series.len();
    if n < 2 {
        return 0;
    }
    proof {
        lemma_volatility_zero_iff_constant(series@);
    }
    let (s, q) = sums(series);
    let nn: i128 = n as i128;
    proof {
        lemma_sums_bounded(series@);
        lemma_variance_numerator_nonneg(series@);
        assert(nn * q <= 0x4000_0000_0000_0000_0000_0000_0000_0000) by (nonlinear_arith)
            requires
                0 <= q <= nn * 0x4000_0000_0000_0000,
                0 <= nn <= 0xffff_ffff,
        ;
        assert(s * s <= 0x4000_0000_0000_0000_0000_0000_0000_0000) by (nonlinear_arith)
            requires
                -(nn * 0x8000_0000) <= s <= nn * 0x8000_0000,
                0 <= nn <= 0xffff_ffff,
        ;
        assert(s * s >= 0) by (nonlinear_arith);
        assert(nn * (nn - 1) >= 2) by (nonlinear_arith)
            requires
                nn >= 2,
        ;
        assert(nn * (nn - 1) <= 0xffff_ffff * 0xffff_ffff) by (nonlinear_arith)
            requires
                2 <= nn <= 0xffff_ffff,
        ;
    }
    let num: i128 = nn * q - s * s;
    let den: i128 = nn * (nn - 1);
    let var: u128 = (num as u128 + den as u128 - 1) / (den as u128);
    let r = ceil_isqrt(var);
    proof {
        assert(var <= 0x2000_0000_0000_0000_0000_0000_0000_0000) by (nonlinear_arith)
            requires
                var == (num + den - 1) / (den as int),
                0 <= num <= 0x4000_0000_0000_0000_0000_0000_0000_0000,
                den >= 2,
        ;
        if r > 0 {
            assert(r < 0x8000_0000_0000_0000) by (nonlinear_arith)
                requires
                    (r - 1) * (r - 1) < var,
                    var <= 0x2000_0000_0000_0000_0000_0000_0000_0000,
                    r >= 1,
            ;
        }
    }
    r as i64
}

/// The Sharpe ratio of a period-return series against an annual
/// risk-free rate spread evenly (not compounded) over 252 trading days; 0 for
/// an empty series or one without volatility.
pub fn calculate_sharpe_ratio(series: &[i32], risk_free_rate: i64) -> (r: i128)
    requires
        series@.len() <= MAX_SAMPLES,
    ensures
        r == sharpe_of(series@, risk_free_rate as int),
{
    let n = series.len();
    if n == 0 {
        return 0;
    }
    let v = calculate_volatility(series);
    if v == 0 {
        return 0;
    }
    let (s, _) = sums(series);
    let nn: i128 = n as i128;
    let rf: i128 = risk_free_rate as i128;
    proof {
        lemma_sums_bounded(series@);
        assert(-0x8000_0000_0000_0000_0000_0000 <= nn * rf <= 0x8000_0000_0000_0000_0000_0000)
            by (nonlinear_arith)
            requires
                0 <= nn <= 0xffff_ffff,
                -0x8000_0000_0000_0000 <= rf < 0x8000_0000_0000_0000,
        ;
        assert(1 <= 252 * nn * v <= 252 * 0xffff_ffff * 0x7fff_ffff_ffff_ffff) by (nonlinear_arith)
            requires
                1 <= nn <= 0xffff_ffff,
                1 <= v <= 0x7fff_ffff_ffff_ffff,
        ;
    }
    let excess: i128 = 252 * s - nn * rf;
    let den: i128 = 252 * nn * (v as i128);
    assert(-0x1_0000_0000_0000_0000_0000_0000 <= excess <= 0x1_0000_0000_0000_0000_0000_0000);
    assert(-0x100_0000_0000_0000_0000_0000_0000_0000 <= 1_000_000 * excess
        <= 0x100_0000_0000_0000_0000_0000_0000_0000) by (nonlinear_arith)
        requires
            -0x1_0000_0000_0000_0000_0000_0000 <= excess <= 0x1_0000_0000_0000_0000_0000_0000,
    ;
    floor_div((SCALE as i128) * excess, den)
}

/// Sum of squared shortfalls of the excess values below the target.
fn downside_sq(series: &[i32], daily_rf: i32, target: i32) -> (r: i128)
    requires
        series@.len() <= MAX_SAMPLES,
    ensures
        r == downside_sq_of(series@, daily_rf as int, target as int),
{
    let mut acc: i128 = 0;
    let mut i: usize = 0;
    while i < series.len()
        invariant
            i <= series@.len() <= MAX_SAMPLES,
            acc == downside_sq_of(series@.take(i as int), daily_rf as int, target as int),
        decreases series@.len() - i,
    {
        let x: i32 = series[i];
        let d: i128 = x as i128 - daily_rf as i128 - target as i128;
        let m: i128 = if d < 0 { d } else { 0 };
        proof {
            let t = series@.take(i as int + 1);
            assert(t.drop_last() =~= series@.take(i as int));
            assert(t.last() == x);
            lemma_downside_bounded(t, daily_rf as int, target as int);
            assert(0 <= m * m <= 0x4_0000_0000_0000_0000) by (nonlinear_arith)
                requires
                    -0x2_0000_0000 <= m <= 0,
            ;
        }
        acc = acc + m * m;
        i = i + 1;
    }
    proof {
        assert(series@.take(series@.len() as int) =~= series@);
    }
    acc
}

/// The Sortino ratio: mean excess return (`r - daily_rf`) over the downside
/// deviation below `target_return`; 0 for an empty series or one without
/// downside. `daily_rf` is the daily share of the annual risk-free rate,
/// compounded: `(1 + annual)^(1/252) - 1`.
pub fn calculate_sortino_ratio(series: &[i32], target_return: i32, daily_rf: i32) -> (r: i64)
    requires
        series@.len() <= MAX_SAMPLES,
    ensures
        r == sortino_of(series@, daily_rf as int, target_return as int),
{
    let n = series.len();
    if n == 0 {
        return 0;
    }
    let d = downside_sq(series, daily_rf, target_return);
    proof {
        lemma_downside_bounded(series@, daily_rf as int, target_return as int);
    }
    let dd = ceil_isqrt((d as u128 + n as u128 - 1) / (n as u128));
    proof {
        let v = (d + n - 1) / (n as int);
        assert(v <= 0x8_0000_0000_0000_0000) by (nonlinear_arith)
            requires
                v == (d + n - 1) / (n as int),
                0 <= d <= n * 0x4_0000_0000_0000_0000,
                n >= 1,
        ;
        if dd > 0 {
            assert(dd <= 0x4_0000_0001) by (nonlinear_arith)
                requires
                    (dd - 1) * (dd - 1) < v,
                    v <= 0x8_0000_0000_0000_0000,
                    dd >= 1,
            ;
        }
    }
    if dd == 0 {
        return 0;
    }
    let (s, _) = sums(series);
    let nn: i128 = n as i128;
    proof {
        lemma_sums_bounded(series@);
        assert(-0x8000_0000_0000_0000 <= nn * daily_rf <= 0x8000_0000_0000_0000)
            by (nonlinear_arith)
            requires
                0 <= nn <= 0xffff_ffff,
                -0x8000_0000 <= daily_rf < 0x8000_0000,
        ;
        assert(1 <= nn * dd <= 0xffff_ffff * 0xffff_ffff_ffff_ffff) by (nonlinear_arith)
            requires
                1 <= nn <= 0xffff_ffff,
                1 <= dd <= 0xffff_ffff_ffff_ffff,
        ;
    }
    let excess: i128 = s - nn * (daily_rf as i128);
    let den: i128 = nn * (dd as i128);
    assert(-0x1_0000_0000_0000_0000_0000_0000 <= excess <= 0x1_0000_0000_0000_0000_0000_0000);
    assert(-0x100_0000_0000_0000_0000_0000_0000_0000 <= 1_000_000 * excess
        <= 0x100_0000_0000_0000_0000_0000_0000_0000) by (nonlinear_arith)
        requires
            -0x1_0000_0000_0000_0000_0000_0000 <= excess <= 0x1_0000_0000_0000_0000_0000_0000,
    ;
    let q = floor_div((SCALE as i128) * excess, den);
    proof {
        assert(-(nn * 0x8000_0000) <= nn * daily_rf <= nn * 0x8000_0000) by (nonlinear_arith)
            requires
                nn >= 0,
                -0x8000_0000 <= daily_rf < 0x8000_0000,
        ;
        assert(-(nn * 0x1_0000_0000) <= excess <= nn * 0x1_0000_0000);
        assert(-0x10_0000_0000_0000 <= q <= 0x10_0000_0000_0000) by (nonlinear_arith)
            requires
                q == (1_000_000 * excess) / (den as int),
                -(nn * 0x1_0000_0000) <= excess <= nn * 0x1_0000_0000,
                den == nn * dd,
                nn >= 1,
                dd >= 1,
        ;
    }
    q as i64
}

/// The largest fall below a running peak, as a fraction of that peak, over a
/// series of prices or cumulative values; 0 for fewer than two points.
pub fn calculate_max_drawdown(prices: &[u64]) -> (r: i64)
    ensures
        r == max_drawdown_of(prices@),
        0 <= r <= SCALE,
        prices@.len() >= 2 ==> (r == 0 <==> is_non_decreasing(prices@)),
{
    let n = prices.len();
    if n < 2 {
        return 0;
    }
    proof {
        lemma_drawdown_zero_iff_non_decreasing(prices@);
    }
    let mut peak: u64 = prices[0];
    let mut worst: i64 = 0;
    let mut i: usize = 0;
    while i < n
        invariant
            n == prices@.len(),
            2 <= n,
            i <= n,
            worst == max_drawdown_upto(prices@, i as int),
            0 <= worst <= SCALE,
            i > 0 ==> peak == peak_of(prices@, i - 1),
            i == 0 ==> peak == prices@[0],
        decreases n - i,
    {
        let p = prices[i];
        if p > peak {
            peak = p;
        }
        assert(peak == peak_of(prices@, i as int));
        let d: i64 = if peak == 0 {
            0
        } else {
            let q: u128 = (((peak - p) as u128) * (SCALE as u128) + peak as u128 - 1) / (
            peak as u128);
            proof {
                assert(q <= SCALE) by (nonlinear_arith)
                    requires
                        q == ((peak - p) * SCALE + peak - 1) / (peak as int),
                        0 <= p <= peak,
                        peak > 0,
                ;
            }
            q as i64
        };
        if d > worst {
            worst = d;
        }
        i = i + 1;
    }
    worst
}

/// The maximum drawdown of the cumulative path of a return series, as a
/// fraction of the running peak; 0 for fewer than two periods.
pub fn calculate_path_drawdown(series: &[i32]) -> (r: i64)
    ensures
        r == path_drawdown_of(series@),
        0 <= r <= SCALE,
        series@.len() >= 2 ==> (r == 0 <==> forall|i: int|
            1 <= i < series@.len() ==> series@[i] >= 0),
{
    let n = series.len();
    if n < 2 {
        return 0;
    }
    proof {
        lemma_path_drawdown_zero_iff_no_loss(series@);
    }
    let mut ratio: i128 = SCALE as i128;
    let mut worst: i64 = 0;
    let mut i: usize = 0;
    while i < n
        invariant
            n == series@.len(),
            2 <= n,
            i <= n,
            worst == path_drawdown_upto(series@, i as int),
            0 <= worst <= SCALE,
            i > 0 ==> ratio == peak_ratio_of(series@, i - 1),
            i == 0 ==> ratio == SCALE,
            0 <= ratio <= SCALE,
        decreases n - i,
    {
        if i > 0 {
            let f: i128 = SCALE as i128 + series[i] as i128;
            proof {
                assert(-0x80_0000_0000_0000 <= ratio * f <= 0x80_0000_0000_0000)
                    by (nonlinear_arith)
                    requires
                        0 <= ratio <= 1_000_000,
                        -0x1_0000_0000 <= f <= 0x1_0000_0000,
                ;
            }
            let x = floor_div(ratio * f, SCALE as i128);
            ratio = if x > SCALE as i128 {
                SCALE as i128
            } else if x < 0 {
                0
            } else {
                x
            };
        }
        assert(ratio == peak_ratio_of(series@, i as int));
        let d: i64 = (SCALE as i128 - ratio) as i64;
        if d > worst {
            worst = d;
        }
        i = i + 1;
    }
    worst
}

/// The Calmar ratio: an annualized return over the magnitude of the maximum
/// drawdown; 0 when there is no drawdown.
pub fn calculate_calmar_ratio(annualized_return: i64, max_drawdown: i64) -> (r: i128)
    ensures
        r == calmar_of(annualized_return as int, max_drawdown as int),
{
    let m: i128 = if max_drawdown < 0 { -(max_drawdown as i128) } else { max_drawdown as i128 };
    if m == 0 {
        return 0;
    }
    floor_div(crate::fixed::mul_wide(annualized_return, SCALE), m)
}

} // verus!
