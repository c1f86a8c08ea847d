use vstd::prelude::*;
use crate::fixed::{SCALE, floor_div};
use crate::models::{CryptoAnalysis, CryptoData, MarketOverview, MarketSentiment};

verus! {

/// How many gainers and how many losers are kept.
pub const TOP_MOVERS: usize = 5;

/// The 24-hour price changes of a list of snapshots.
pub open spec fn changes_of(s: Seq<CryptoData>) -> Seq<i64> {
    s.map_values(|c: CryptoData| c.price_change_24h)
}

/// A gainer (`up`) moved up over 24 hours; a loser did not.
pub open spec fn is_mover(c: Seq<i64>, up: bool, i: int) -> bool {
    if up {
        c[i] > 0
    } else {
        c[i] <= 0
    }
}

/// The order the movers are listed in: gainers by change descending, losers
/// by change ascending (the steepest fall first), ties in input order.
pub open spec fn ranks_before(c: Seq<i64>, up: bool, i: int, j: int) -> bool {
    if up {
        c[i] > c[j] || (c[i] == c[j] && i < j)
    } else {
        c[i] < c[j] || (c[i] == c[j] && i < j)
    }
}

pub open spec fn picked(idx: Seq<usize>, j: int) -> bool {
    exists|a: int| 0 <= a < idx.len() && idx[a] == j
}

/// `idx` lists the positions of the first `k` movers of `c` in ranking order
/// (all of them, when there are fewer than `k`).
pub open spec fn is_top_movers(c: Seq<i64>, up: bool, k: int, idx: Seq<usize>) -> bool {
    &&& idx.len() <= k
    &&& forall|a: int| 0 <= a < idx.len() ==> idx[a] < c.len() && is_mover(c, up, idx[a] as int)
    &&& forall|a: int, b: int|
        0 <= a < b < idx.len() ==> ranks_before(c, up, idx[a] as int, idx[b] as int)
    &&& forall|j: int, a: int|
        0 <= j < c.len() && is_mover(c, up, j) && !picked(idx, j) && 0 <= a < idx.len()
            ==> ranks_before(c, up, idx[a] as int, j)
    &&& idx.len() < k ==> forall|j: int| 0 <= j < c.len() && is_mover(c, up, j) ==> picked(idx, j)
}

/// At most one list of positions meets `is_top_movers`, so the contracts
/// that speak of it fix their results.
pub proof fn lemma_top_movers_unique(c: Seq<i64>, up: bool, k: int, a: Seq<usize>, b: Seq<usize>)
    requires
        is_top_movers(c, up, k, a),
        is_top_movers(c, up, k, b),
    ensures
        a == b,
{
    assert forall|p: int| 0 <= p < a.len() && p < b.len() implies a[p] == b[p] by {
        lemma_top_movers_agree_at(c, up, k, a, b, p);
    }
    if a.len() < b.len() {
        lemma_top_movers_no_longer(c, up, k, a, b);
    } else if b.len() < a.len() {
        assert forall|p: int| 0 <= p < b.len() implies b[p] == a[p] by {
            lemma_top_movers_agree_at(c, up, k, a, b, p);
        }
        lemma_top_movers_no_longer(c, up, k, b, a);
    }
    assert(a =~= b);
}

proof fn lemma_top_movers_agree_at(
    c: Seq<i64>,
    up: bool,
    k: int,
    a: Seq<usize>,
    b: Seq<usize>,
    p: int,
)
    requires
        is_top_movers(c, up, k, a),
        is_top_movers(c, up, k, b),
        0 <= p < a.len(),
        p < b.len(),
    ensures
        a[p] == b[p],
    decreases p,
{
    assert forall|q: int| 0 <= q < p implies a[q] == b[q] by {
        lemma_top_movers_agree_at(c, up, k, a, b, q);
    }
    if a[p] != b[p] {
        let x = a[p] as int;
        let y = b[p] as int;
        if picked(b, x) {
            let q = choose|q: int| 0 <= q < b.len() && b[q] == x;
            if q < p {
                assert(a[q] == b[q]);
                assert(ranks_before(c, up, a[q] as int, a[p] as int));
            } else {
                assert(ranks_before(c, up, b[p] as int, b[q] as int));
                if picked(a, y) {
                    let r = choose|r: int| 0 <= r < a.len() && a[r] == y;
                    if r < p {
                        assert(a[r] == b[r]);
                        assert(ranks_before(c, up, b[r] as int, b[p] as int));
                    } else {
                        assert(ranks_before(c, up, a[p] as int, a[r] as int));
                    }
                } else {
                    assert(ranks_before(c, up, a[p] as int, y));
                }
            }
        } else {
            assert(ranks_before(c, up, b[p] as int, x));
            if picked(a, y) {
                let r = choose|r: int| 0 <= r < a.len() && a[r] == y;
                if r < p {
                    assert(a[r] == b[r]);
                    assert(ranks_before(c, up, b[r] as int, b[p] as int));
                } else {
                    assert(ranks_before(c, up, a[p] as int, a[r] as int));
                }
            } else {
                assert(ranks_before(c, up, a[p] as int, y));
            }
        }
    }
}

proof fn lemma_top_movers_no_longer(c: Seq<i64>, up: bool, k: int, a: Seq<usize>, b: Seq<usize>)
    requires
        is_top_movers(c, up, k, a),
        is_top_movers(c, up, k, b),
        forall|p: int| 0 <= p < a.len() && p < b.len() ==> a[p] == b[p],
    ensures
        b.len() <= a.len(),
{
    if a.len() < b.len() {
        let n = a.len() as int;
        let y = b[n] as int;
        assert(is_mover(c, up, y));
        assert(picked(a, y));
        let q = choose|q: int| 0 <= q < a.len() && a[q] == y;
        assert(b[q] == a[q]);
        assert(ranks_before(c, up, b[q] as int, b[n] as int));
    }
}

/// The positions of the top `k` gainers (`up`) or losers of `changes`, in
/// ranking order.
pub fn top_movers(changes: &Vec<i64>, up: bool, k: usize) -> (idx: Vec<usize>)
    ensures
        is_top_movers(changes@, up, k as int, idx@),
{
    let ghost c = changes@;
    let n = changes.len();
    let mut taken: Vec<bool> = Vec::new();
    let mut t: usize = 0;
    while t < n
        invariant
            taken@.len() == t,
            t <= n,
            forall|u: int| 0 <= u < t ==> !taken@[u],
        decreases n - t,
    {
        taken.push(false);
        t = t + 1;
    }
    let mut idx: Vec<usize> = Vec::new();
    while idx.len() < k
        invariant
            n == c.len(),
            c == changes@,
            taken@.len() == n,
            idx@.len() <= k,
            forall|u: int| 0 <= u < n ==> (taken@[u] <==> picked(idx@, u)),
            forall|a: int| 0 <= a < idx@.len() ==> idx@[a] < n && is_mover(c, up, idx@[a] as int),
            forall|a: int, b: int|
                0 <= a < b < idx@.len() ==> ranks_before(c, up, idx@[a] as int, idx@[b] as int),
            forall|j: int, a: int|
                0 <= j < n && is_mover(c, up, j) && !picked(idx@, j) && 0 <= a < idx@.len()
                    ==> ranks_before(c, up, idx@[a] as int, j),
        decreases k - idx@.len(),
    {
        let mut best: usize = n;
        let mut i: usize = 0;
        while i < n
            invariant
                n == c.len(),
                c == changes@,
                taken@.len() == n,
                i <= n,
                best == n || (best < i && is_mover(c, up, best as int) && !taken@[best as int]),
                forall|u: int|
                    0 <= u < i && is_mover(c, up, u) && !taken@[u] ==> best != n && (u == best
                        || ranks_before(c, up, best as int, u)),
            decreases n - i,
        {
            let x = changes[i];
            let moved = if up { x > 0 } else { x <= 0 };
            if !taken[i] && moved {
                if best == n {
                    best = i;
                } else {
                    let y = changes[best];
                    let better = if up { x > y } else { x < y };
                    if better {
                        best = i;
                    }
                }
            }
            i = i + 1;
        }
        if best == n {
            proof {
                assert forall|j: int| 0 <= j < n && is_mover(c, up, j) implies picked(idx@, j) by {
                    assert(taken@[j]);
                }
            }
            return idx;
        }
        let ghost old_idx = idx@;
        taken.set(best, true);
        idx.push(best);
        proof {
            assert(idx@ == old_idx.push(best));
            assert forall|u: int| 0 <= u < n implies (taken@[u] <==> picked(idx@, u)) by {
                if u == best {
                    assert(idx@[old_idx.len() as int] == best);
                } else if picked(old_idx, u) {
                    let a = choose|a: int| 0 <= a < old_idx.len() && old_idx[a] == u;
                    assert(idx@[a] == u);
                } else if picked(idx@, u) {
                    let a = choose|a: int| 0 <= a < idx@.len() && idx@[a] == u;
                    assert(a < old_idx.len());
                    assert(old_idx[a] == u);
                }
            }
            assert forall|j: int, a: int|
                0 <= j < n && is_mover(c, up, j) && !picked(idx@, j) && 0 <= a < idx@.len()
                    implies ranks_before(c, up, idx@[a] as int, j) by {
                if !picked(old_idx, j) {
                    if a < old_idx.len() {
                        assert(idx@[a] == old_idx[a]);
                    } else {
                        assert(j != best) by {
                            assert(idx@[old_idx.len() as int] == best);
                        }
                        assert(!taken@[j]);
                    }
                } else {
                    let w = choose|w: int| 0 <= w < old_idx.len() && old_idx[w] == j;
                    assert(idx@[w] == j);
                }
            }
        }
    }
    idx
}

/// Sentiment thresholds on the score, in millionths of a percent; each
/// label needs a score strictly above its threshold.
pub const VERY_BULLISH_ABOVE: i64 = 10_000_000;
pub const BULLISH_ABOVE: i64 = 5_000_000;
pub const SLIGHTLY_BULLISH_ABOVE: i64 = 2_000_000;
pub const NEUTRAL_ABOVE: i64 = -2_000_000;
pub const BEARISH_ABOVE: i64 = -5_000_000;
pub const VERY_BEARISH_ABOVE: i64 = -10_000_000;

pub open spec fn sum_caps(s: Seq<CryptoData>) -> int
    decreases s.len(),
{
    if s.len() == 0 {
        0
    } else {
        sum_caps(s.drop_last()) + s.last().market_cap
    }
}

pub open spec fn sum_volumes(s: Seq<CryptoData>) -> int
    decreases s.len(),
{
    if s.len() == 0 {
        0
    } else {
        sum_volumes(s.drop_last()) + s.last().volume_24h
    }
}

pub open spec fn sum_changes(s: Seq<CryptoData>) -> int
    decreases s.len(),
{
    if s.len() == 0 {
        0
    } else {
        sum_changes(s.drop_last()) + s.last().price_change_24h
    }
}

/// The mean 24-hour change of a list, rounded down; 0 for an empty list.
pub open spec fn mean_change_of(s: Seq<CryptoData>) -> int {
    if s.len() == 0 {
        0
    } else {
        sum_changes(s) / (s.len() as int)
    }
}

/// The symbol reads "bitcoin" in any mix of upper and lower case.
pub open spec fn is_bitcoin_symbol(sym: Seq<char>) -> bool {
    sym.len() == 7 && forall|i: int|
        0 <= i < 7 ==> sym[i] == bitcoin_lower()[i] || sym[i] == bitcoin_upper()[i]
}

pub open spec fn bitcoin_lower() -> Seq<char> {
    seq!['b', 'i', 't', 'c', 'o', 'i', 'n']
}

pub open spec fn bitcoin_upper() -> Seq<char> {
    seq!['B', 'I', 'T', 'C', 'O', 'I', 'N']
}

/// The market cap of the last entry whose symbol reads "bitcoin" (see
/// `is_bitcoin`); 0 when there is none.
pub open spec fn bitcoin_cap_of(s: Seq<CryptoData>) -> int
    decreases s.len(),
{
    if s.len() == 0 {
        0
    } else if is_bitcoin_symbol(s.last().symbol@) {
        s.last().market_cap as int
    } else {
        bitcoin_cap_of(s.drop_last())
    }
}

/// Bitcoin's share of the total cap, in millionths of a percent; 0 when the
/// total is 0.
pub open spec fn dominance_of(bitcoin_cap: int, total_cap: int) -> int {
    if total_cap == 0 {
        0
    } else {
        (bitcoin_cap * 100 * SCALE) / total_cap
    }
}

/// The label for a market whose score is `(avg_gain + |avg_loss|) / 2`.
pub open spec fn sentiment_of(avg_gain: int, avg_loss: int) -> MarketSentiment {
    let twice = avg_gain + (if avg_loss < 0 { -avg_loss } else { avg_loss });
    if twice > 2 * VERY_BULLISH_ABOVE {
        MarketSentiment::VeryBullish
    } else if twice > 2 * BULLISH_ABOVE {
        MarketSentiment::Bullish
    } else if twice > 2 * SLIGHTLY_BULLISH_ABOVE {
        MarketSentiment::SlightlyBullish
    } else if twice > 2 * NEUTRAL_ABOVE {
        MarketSentiment::Neutral
    } else if twice > 2 * BEARISH_ABOVE {
        MarketSentiment::Bearish
    } else if twice > 2 * VERY_BEARISH_ABOVE {
        MarketSentiment::VeryBearish
    } else {
        MarketSentiment::ExtremelyBearish
    }
}

pub proof fn lemma_bitcoin_cap_within_total(s: Seq<CryptoData>)
    ensures
        0 <= bitcoin_cap_of(s) <= sum_caps(s),
        bitcoin_cap_of(s) <= 0xffff_ffff_ffff_ffff,
        0 <= sum_caps(s) <= s.len() * 0xffff_ffff_ffff_ffff,
        0 <= sum_volumes(s) <= s.len() * 0xffff_ffff_ffff_ffff,
    decreases s.len(),
{
    if s.len() > 0 {
        lemma_bitcoin_cap_within_total(s.drop_last());
    }
}

pub proof fn lemma_changes_bounded(s: Seq<CryptoData>)
    ensures
        -(s.len() * 0x8000_0000_0000_0000) <= sum_changes(s) <= s.len() * 0x8000_0000_0000_0000,
    decreases s.len(),
{
    if s.len() > 0 {
        lemma_changes_bounded(s.drop_last());
    }
}

/// The snapshots at the given positions, in that order.
fn select(s: &Vec<CryptoData>, idx: &Vec<usize>) -> (r: Vec<CryptoData>)
    requires
        forall|a: int| 0 <= a < idx@.len() ==> idx@[a] < s@.len(),
    ensures
        r@ == idx@.map_values(|j: usize| s@[j as int]),
{
    let mut r: Vec<CryptoData> = Vec::new();
    let mut a: usize = 0;
    while a < idx.len()
        invariant
            a <= idx@.len(),
            r@.len() == a,
            forall|a: int| 0 <= a < idx@.len() ==> idx@[a] < s@.len(),
            forall|b: int| 0 <= b < a ==> r@[b] == s@[idx@[b] as int],
        decreases idx@.len() - a,
    {
        r.push(s[idx[a]].copy());
        a = a + 1;
    }
    assert(r@ =~= idx@.map_values(|j: usize| s@[j as int]));
    r
}

/// The top `TOP_MOVERS` gainers (`up`) or losers among the snapshots.
fn rank_movers(s: &Vec<CryptoData>, up: bool) -> (r: Vec<CryptoData>)
    ensures
        exists|idx: Seq<usize>|
            #[trigger] is_top_movers(changes_of(s@), up, TOP_MOVERS as int, idx) && r@
                == idx.map_values(|j: usize| s@[j as int]),
{
    let mut changes: Vec<i64> = Vec::new();
    let mut i: usize = 0;
    while i < s.len()
        invariant
            i <= s@.len(),
            changes@.len() == i,
            forall|t: int| 0 <= t < i ==> changes@[t] == s@[t].price_change_24h,
        decreases s@.len() - i,
    {
        changes.push(s[i].price_change_24h);
        i = i + 1;
    }
    assert(changes@ =~= changes_of(s@));
    let idx = top_movers(&changes, up, TOP_MOVERS);
    let r = select(s, &idx);
    assert(is_top_movers(changes_of(s@), up, TOP_MOVERS as int, idx@));
    r
}

/// Whether a symbol reads "bitcoin", ignoring ASCII case. No other letter
/// lowers to one of these, so this is the same as lowering the whole symbol
/// and comparing.
///
/// Bitcoin is identified by its symbol, not by its ticker code or display
/// name. Market listings give ticker codes such as "BTC", so on those no
/// entry matches and the dominance comes out 0. Whether to match the code
/// "btc" or the name "Bitcoin" instead is an open question.
pub fn is_bitcoin(symbol: &String) -> (r: bool)
    ensures
        r == is_bitcoin_symbol(symbol@),
{
    let text = symbol.as_str();
    if text.unicode_len() != 7 {
        return false;
    }
    let lower = ['b', 'i', 't', 'c', 'o', 'i', 'n'];
    let upper = ['B', 'I', 'T', 'C', 'O', 'I', 'N'];
    let ghost lo = bitcoin_lower();
    let ghost hi = bitcoin_upper();
    assert(lower@ =~= lo);
    assert(upper@ =~= hi);
    let mut i: usize = 0;
    while i < 7
        invariant
            i <= 7,
            text@ == symbol@,
            text@.len() == 7,
            lower@ == lo,
            upper@ == hi,
            lo == bitcoin_lower(),
            hi == bitcoin_upper(),
            forall|t: int| 0 <= t < i ==> text@[t] == lo[t] || text@[t] == hi[t],
        decreases 7 - i,
    {
        let ch = text.get_char(i);
        if ch != lower[i] && ch != upper[i] {
            assert(symbol@[i as int] != lo[i as int] && symbol@[i as int] != hi[i as int]);
            return false;
        }
        i = i + 1;
    }
    true
}

/// The mean 24-hour change of a list, rounded down; 0 when it is empty.
fn mean_change(s: &Vec<CryptoData>) -> (r: i128)
    ensures
        r == mean_change_of(s@),
{
    let n = s.len();
    let mut acc: i128 = 0;
    let mut i: usize = 0;
    while i < n
        invariant
            n == s@.len(),
            i <= n,
            acc == sum_changes(s@.take(i as int)),
        decreases n - i,
    {
        proof {
            let t = s@.take(i as int + 1);
            assert(t.drop_last() =~= s@.take(i as int));
            lemma_changes_bounded(t);
        }
        acc = acc + s[i].price_change_24h as i128;
        i = i + 1;
    }
    assert(s@.take(n as int) =~= s@);
    if n == 0 {
        0
    } else {
        floor_div(acc, n as i128)
    }
}

/// The market mood from the average 24-hour change of the gainers and of the
/// losers: the score is `(avg_gain + |avg_loss|) / 2`.
pub fn calculate_market_sentiment(gainers: &Vec<CryptoData>, losers: &Vec<CryptoData>) -> (r:
    MarketSentiment)
    ensures
        r == sentiment_of(mean_change_of(gainers@), mean_change_of(losers@)),
{
    let g = mean_change(gainers);
    let l = mean_change(losers);
    proof {
        lemma_changes_bounded(gainers@);
        lemma_changes_bounded(losers@);
        let ng = gainers@.len() as int;
        let nl = losers@.len() as int;
        if ng > 0 {
            assert(-0x8000_0000_0000_0000 <= g <= 0x8000_0000_0000_0000) by (nonlinear_arith)
                requires
                    g == sum_changes(gainers@) / ng,
                    -(ng * 0x8000_0000_0000_0000) <= sum_changes(gainers@) <= ng
                        * 0x8000_0000_0000_0000,
                    ng > 0,
            ;
        }
        if nl > 0 {
            assert(-0x8000_0000_0000_0000 <= l <= 0x8000_0000_0000_0000) by (nonlinear_arith)
                requires
                    l == sum_changes(losers@) / nl,
                    -(nl * 0x8000_0000_0000_0000) <= sum_changes(losers@) <= nl
                        * 0x8000_0000_0000_0000,
                    nl > 0,
            ;
        }
    }
    let twice: i128 = g + if l < 0 { -l } else { l };
    if twice > 2 * VERY_BULLISH_ABOVE as i128 {
        MarketSentiment::VeryBullish
    } else if twice > 2 * BULLISH_ABOVE as i128 {
        MarketSentiment::Bullish
    } else if twice > 2 * SLIGHTLY_BULLISH_ABOVE as i128 {
        MarketSentiment::SlightlyBullish
    } else if twice > 2 * NEUTRAL_ABOVE as i128 {
        MarketSentiment::Neutral
    } else if twice > 2 * BEARISH_ABOVE as i128 {
        MarketSentiment::Bearish
    } else if twice > 2 * VERY_BEARISH_ABOVE as i128 {
        MarketSentiment::VeryBearish
    } else {
        MarketSentiment::ExtremelyBearish
    }
}

/// Total cap, total volume and the cap of the last Bitcoin entry.
fn market_totals(s: &Vec<CryptoData>) -> (r: (u128, u128, u128))
    ensures
        r.0 == sum_caps(s@),
        r.1 == sum_volumes(s@),
        r.2 == bitcoin_cap_of(s@),
{
    let n = s.len();
    let mut cap: u128 = 0;
    let mut volume: u128 = 0;
    let mut bitcoin: u128 = 0;
    let mut i: usize = 0;
    while i < n
        invariant
            n == s@.len(),
            i <= n,
            cap == sum_caps(s@.take(i as int)),
            volume == sum_volumes(s@.take(i as int)),
            bitcoin == bitcoin_cap_of(s@.take(i as int)),
        decreases n - i,
    {
        proof {
            let t = s@.take(i as int + 1);
            assert(t.drop_last() =~= s@.take(i as int));
            lemma_bitcoin_cap_within_total(t);
            assert(t.len() * 0xffff_ffff_ffff_ffff <= 0xffff_ffff_ffff_ffff * 0xffff_ffff_ffff_ffff)
                by (nonlinear_arith)
                requires
                    t.len() <= 0xffff_ffff_ffff_ffff,
            ;
        }
        cap = cap + s[i].market_cap as u128;
        volume = volume + s[i].volume_24h as u128;
        if is_bitcoin(&s[i].symbol) {
            bitcoin = s[i].market_cap as u128;
        }
        i = i + 1;
    }
    assert(s@.take(n as int) =~= s@);
    (cap, volume, bitcoin)
}

/// Ranks the snapshots into the top gainers (change above 0, largest first)
/// and top losers (the rest, steepest fall first), at most `TOP_MOVERS`
/// each, and fills in the market overview: total cap and volume, Bitcoin
/// dominance and the sentiment of the top movers. The summary text is kept.
pub fn parse_market_data(snapshots: &Vec<CryptoData>, crypto_analysis: CryptoAnalysis) -> (r:
    CryptoAnalysis)
    ensures
        exists|idx: Seq<usize>|
            #[trigger] is_top_movers(changes_of(snapshots@), true, TOP_MOVERS as int, idx)
                && r.top_gainers@ == idx.map_values(|j: usize| snapshots@[j as int]),
        exists|idx: Seq<usize>|
            #[trigger] is_top_movers(changes_of(snapshots@), false, TOP_MOVERS as int, idx)
                && r.top_losers@ == idx.map_values(|j: usize| snapshots@[j as int]),
        r.top_gainers@.len() <= TOP_MOVERS,
        r.top_losers@.len() <= TOP_MOVERS,
        forall|a: int, b: int|
            0 <= a < b < r.top_gainers@.len() ==> r.top_gainers@[a].price_change_24h
                >= r.top_gainers@[b].price_change_24h,
        forall|a: int, b: int|
            0 <= a < b < r.top_losers@.len() ==> r.top_losers@[a].price_change_24h
                <= r.top_losers@[b].price_change_24h,
        (forall|i: int, j: int|
            0 <= i < j < snapshots@.len() ==> snapshots@[i].price_change_24h
                != snapshots@[j].price_change_24h) ==> (forall|a: int, b: int|
            0 <= a < b < r.top_gainers@.len() ==> r.top_gainers@[a].price_change_24h
                > r.top_gainers@[b].price_change_24h) && (forall|a: int, b: int|
            0 <= a < b < r.top_losers@.len() ==> r.top_losers@[a].price_change_24h
                < r.top_losers@[b].price_change_24h),
        r.market_overview.total_market_cap == sum_caps(snapshots@),
        r.market_overview.total_volume_24h == sum_volumes(snapshots@),
        r.market_overview.bitcoin_dominance == dominance_of(
            bitcoin_cap_of(snapshots@),
            sum_caps(snapshots@),
        ),
        sum_caps(snapshots@) == 0 ==> r.market_overview.bitcoin_dominance == 0,
        0 <= r.market_overview.bitcoin_dominance <= 100 * SCALE,
        r.market_overview.market_sentiment == sentiment_of(
            mean_change_of(r.top_gainers@),
            mean_change_of(r.top_losers@),
        ),
        r.analysis_summary == crypto_analysis.analysis_summary,
{
    let gainers = rank_movers(snapshots, true);
    let losers = rank_movers(snapshots, false);
    let (total_cap, total_volume, bitcoin_cap) = market_totals(snapshots);
    proof {
        lemma_bitcoin_cap_within_total(snapshots@);
    }
    let dominance: i64 = if total_cap == 0 {
        0
    } else {
        let d: u128 = bitcoin_cap * 100_000_000 / total_cap;
        proof {
            assert(d <= 100_000_000) by (nonlinear_arith)
                requires
                    d == (bitcoin_cap * 100_000_000) / (total_cap as int),
                    bitcoin_cap <= total_cap,
                    total_cap > 0,
            ;
        }
        d as i64
    };
    let sentiment = calculate_market_sentiment(&gainers, &losers);
    proof {
        let c = changes_of(snapshots@);
        let gi = choose|idx: Seq<usize>|
            #[trigger] is_top_movers(c, true, TOP_MOVERS as int, idx) && gainers@
                == idx.map_values(|j: usize| snapshots@[j as int]);
        let li = choose|idx: Seq<usize>|
            #[trigger] is_top_movers(c, false, TOP_MOVERS as int, idx) && losers@
                == idx.map_values(|j: usize| snapshots@[j as int]);
        assert forall|a: int, b: int| 0 <= a < b < gainers@.len() implies gainers@[a].price_change_24h
            >= gainers@[b].price_change_24h && gi[a] != gi[b] by {
            assert(ranks_before(c, true, gi[a] as int, gi[b] as int));
        }
        assert forall|a: int, b: int| 0 <= a < b < losers@.len() implies losers@[a].price_change_24h
            <= losers@[b].price_change_24h && li[a] != li[b] by {
            assert(ranks_before(c, false, li[a] as int, li[b] as int));
        }
        if forall|i: int, j: int|
            0 <= i < j < snapshots@.len() ==> snapshots@[i].price_change_24h
                != snapshots@[j].price_change_24h {
            assert forall|a: int, b: int| 0 <= a < b < gainers@.len() implies gainers@[a].price_change_24h
                > gainers@[b].price_change_24h by {
                assert(ranks_before(c, true, gi[a] as int, gi[b] as int));
                if gi[a] < gi[b] {
                    assert(snapshots@[gi[a] as int].price_change_24h != snapshots@[gi[b] as int].price_change_24h);
                } else {
                    assert(snapshots@[gi[b] as int].price_change_24h != snapshots@[gi[a] as int].price_change_24h);
                }
            }
            assert forall|a: int, b: int| 0 <= a < b < losers@.len() implies losers@[a].price_change_24h
                < losers@[b].price_change_24h by {
                assert(ranks_before(c, false, li[a] as int, li[b] as int));
                if li[a] < li[b] {
                    assert(snapshots@[li[a] as int].price_change_24h != snapshots@[li[b] as int].price_change_24h);
                } else {
                    assert(snapshots@[li[b] as int].price_change_24h != snapshots@[li[a] as int].price_change_24h);
                }
            }
        }
    }
    CryptoAnalysis {
        top_gainers: gainers,
        top_losers: losers,
        market_overview: MarketOverview {
            total_market_cap: total_cap,
            total_volume_24h: total_volume,
            bitcoin_dominance: dominance,
            market_sentiment: sentiment,
        },
        analysis_summary: crypto_analysis.analysis_summary,
    }
}

} // verus!
