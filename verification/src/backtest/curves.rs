//! Curves, buckets and bins over the trades of a backtest.

use vstd::prelude::*;

use crate::backtest::tally::{count_of, trade_views, TradeRecord, TradeView};
use crate::number::Real;
use crate::types::Side;

verus! {

// ── Drawdown ──

/// One point of the drawdown curve.
#[derive(Clone, Copy, Debug, PartialEq, Eq, Structural)]
pub struct DrawdownEntry {
    /// The number of the trade, from 1 on.
    pub trade_idx: usize,
    /// The highest total so far.
    pub peak: Real,
    /// Trades since then.
    pub duration: usize,
}

/// The highest of the totals, zero where that is more, and the number of the trade that
/// reached it, 0 where it is the start.
pub open spec fn peak_of(totals: Seq<Real>) -> (Real, int)
    decreases totals.len(),
{
    if totals.len() == 0 {
        (Real { bits: 0 }, 0)
    } else {
        let before = peak_of(totals.drop_last());
        if before.0.lt(totals.last()) {
            (totals.last(), totals.len() as int)
        } else {
            before
        }
    }
}

proof fn lemma_peak_place(totals: Seq<Real>)
    ensures
        0 <= peak_of(totals).1 <= totals.len(),
    decreases totals.len(),
{
    if totals.len() > 0 {
        lemma_peak_place(totals.drop_last());
    }
}

/// No total is above the peak, and the peak is the total at its place.
pub proof fn law_peak_is_highest(totals: Seq<Real>, i: int)
    requires
        0 <= i < totals.len(),
    ensures
        !peak_of(totals).0.lt(totals[i]),
        0 <= peak_of(totals).1 <= totals.len(),
        peak_of(totals).1 > 0 ==> peak_of(totals).0 == totals[peak_of(totals).1 - 1],
        peak_of(totals).1 == 0 ==> peak_of(totals).0 == (Real { bits: 0 }),
    decreases totals.len(),
{
    let t = totals.drop_last();
    lemma_peak_place(t);
    if i < t.len() {
        law_peak_is_highest(t, i);
        assert(t[i] == totals[i]);
    } else if t.len() > 0 {
        law_peak_is_highest(t, 0);
    }
    let p = peak_of(t).1;
    if p > 0 {
        assert(t[p - 1] == totals[p - 1]);
    }
    if t.len() == 0 {
        assert(peak_of(t) == (Real { bits: 0 }, 0int));
    }
}

pub open spec fn drawdown_at(totals: Seq<Real>, k: int) -> DrawdownEntry {
    let peak = peak_of(totals.take(k + 1));
    DrawdownEntry {
        trade_idx: (k + 1) as usize,
        peak: peak.0,
        duration: (k + 1 - peak.1) as usize,
    }
}

/// The drawdown curve of the totals after each trade.
pub fn drawdown_curve(totals: &Vec<Real>) -> (r: Vec<DrawdownEntry>)
    ensures
        r@ == Seq::new(totals@.len(), |k: int| drawdown_at(totals@, k)),
{
    let mut out: Vec<DrawdownEntry> = Vec::new();
    let mut peak = Real::zero();
    let mut peak_idx: usize = 0;
    let mut i: usize = 0;
    assert(totals@.take(0) =~= Seq::empty());
    while i < totals.len()
        invariant
            i <= totals@.len(),
            (peak, peak_idx as int) == peak_of(totals@.take(i as int)),
            peak_idx <= i,
            out@.len() == i,
            forall|k: int| 0 <= k < i ==> out@[k] == drawdown_at(totals@, k),
        decreases totals@.len() - i,
    {
        assert(totals@.take(i + 1).drop_last() =~= totals@.take(i as int));
        if peak.less(totals[i]) {
            peak = totals[i];
            peak_idx = i + 1;
        }
        out.push(DrawdownEntry { trade_idx: i + 1, peak, duration: i + 1 - peak_idx });
        i = i + 1;
    }
    assert(out@ =~= Seq::new(totals@.len(), |k: int| drawdown_at(totals@, k)));
    out
}

pub open spec fn longest_of(curve: Seq<DrawdownEntry>) -> usize
    decreases curve.len(),
{
    if curve.len() == 0 {
        0
    } else {
        let before = longest_of(curve.drop_last());
        if curve.last().duration > before {
            curve.last().duration
        } else {
            before
        }
    }
}

/// The most trades between two peaks.
pub fn max_drawdown_duration(curve: &Vec<DrawdownEntry>) -> (n: usize)
    ensures
        n == longest_of(curve@),
        forall|i: int| 0 <= i < curve@.len() ==> (#[trigger] curve@[i]).duration <= n,
        curve@.len() > 0 ==> exists|i: int|
            0 <= i < curve@.len() && (#[trigger] curve@[i]).duration == n,
{
    let mut n: usize = 0;
    let mut i: usize = 0;
    assert(curve@.take(0) =~= Seq::empty());
    while i < curve.len()
        invariant
            i <= curve@.len(),
            n == longest_of(curve@.take(i as int)),
            forall|k: int| 0 <= k < i ==> (#[trigger] curve@[k]).duration <= n,
            i == 0 ==> n == 0,
            i > 0 ==> exists|k: int| 0 <= k < i && (#[trigger] curve@[k]).duration == n,
        decreases curve@.len() - i,
    {
        assert(curve@.take(i + 1).drop_last() =~= curve@.take(i as int));
        if curve[i].duration > n {
            n = curve[i].duration;
            assert(curve@[i as int].duration == n);
        } else if i == 0 {
            assert(curve@[0].duration == n);
        }
        i = i + 1;
    }
    assert(curve@.take(i as int) =~= curve@);
    n
}

// ── Time buckets ──

/// Seconds as numbers.
pub const S_0: u64 = 0;

pub const S_15: u64 = 0x402E000000000000;

pub const S_30: u64 = 0x403E000000000000;

pub const S_60: u64 = 0x404E000000000000;

pub const S_120: u64 = 0x405E000000000000;

pub const S_180: u64 = 0x4066800000000000;

pub const S_300: u64 = 0x4072C00000000000;

pub const S_600: u64 = 0x4082C00000000000;

pub const S_99999: u64 = 0x40F869F000000000;

/// A range of the time that a trade had left.
#[derive(Clone, Copy, Debug)]
pub struct TimeBucket {
    pub label: &'static str,
    pub lo_s: Real,
    pub hi_s: Real,
    pub n_trades: usize,
    pub n_wins: usize,
}

/// Where the buckets begin; each ends where the next begins.
pub open spec fn bucket_edges() -> Seq<u64> {
    seq![S_0, S_15, S_30, S_60, S_120, S_180, S_300, S_600, S_99999]
}

pub open spec fn bucket_labels() -> Seq<Seq<char>> {
    seq![
        "0-15s"@,
        "15-30s"@,
        "30-60s"@,
        "1-2min"@,
        "2-3min"@,
        "3-5min"@,
        "5-10min"@,
        "10min+"@,
    ]
}

/// Whether a time is in a range, its end excluded.
pub open spec fn in_range(t: Real, lo: Real, hi: Real) -> bool {
    lo.le(t) && t.lt(hi)
}

/// Whether a time is in the `k`-th bucket.
pub open spec fn in_bucket(t: Real, k: int) -> bool {
    in_range(t, Real { bits: bucket_edges()[k] }, Real { bits: bucket_edges()[k + 1] })
}

/// No time is in two buckets, and each from zero up to the last edge is in one.
pub proof fn law_buckets_partition(t: Real, j: int, k: int)
    requires
        0 <= j < 8,
        0 <= k < 8,
    ensures
        in_bucket(t, j) && in_bucket(t, k) ==> j == k,
        (Real { bits: S_0 }).le(t) && t.lt(Real { bits: S_99999 }) ==> exists|b: int|
            0 <= b < 8 && #[trigger] in_bucket(t, b),
{
    let e = bucket_edges();
    assert forall|a: int, b: int| 0 <= a < b < 9 implies (Real { bits: #[trigger] e[a] }).key()
        < (Real { bits: #[trigger] e[b] }).key() by {}
    if (Real { bits: S_0 }).le(t) && t.lt(Real { bits: S_99999 }) {
        if t.key() < S_15 {
            assert(in_bucket(t, 0));
        } else if t.key() < S_30 {
            assert(in_bucket(t, 1));
        } else if t.key() < S_60 {
            assert(in_bucket(t, 2));
        } else if t.key() < S_120 {
            assert(in_bucket(t, 3));
        } else if t.key() < S_180 {
            assert(in_bucket(t, 4));
        } else if t.key() < S_300 {
            assert(in_bucket(t, 5));
        } else if t.key() < S_600 {
            assert(in_bucket(t, 6));
        } else {
            assert(in_bucket(t, 7));
        }
    }
}

/// The positions of the trades that had a time in a range left.
pub open spec fn trades_in_range(trades: Seq<TradeView>, lo: Real, hi: Real) -> Seq<usize>
    decreases trades.len(),
{
    if trades.len() == 0 {
        Seq::empty()
    } else if in_range(trades.last().time_left_s, lo, hi) {
        trades_in_range(trades.drop_last(), lo, hi).push((trades.len() - 1) as usize)
    } else {
        trades_in_range(trades.drop_last(), lo, hi)
    }
}

/// The positions of the trades that had a time in a range left.
pub fn bucket_trades(trades: &Vec<TradeRecord>, lo: Real, hi: Real) -> (r: Vec<usize>)
    ensures
        r@ == trades_in_range(trade_views(trades@), lo, hi),
{
    let ghost all = trade_views(trades@);
    let mut out: Vec<usize> = Vec::new();
    let mut i: usize = 0;
    assert(all.take(0) =~= Seq::empty());
    while i < trades.len()
        invariant
            i <= trades@.len(),
            all == trade_views(trades@),
            out@ == trades_in_range(all.take(i as int), lo, hi),
        decreases trades@.len() - i,
    {
        assert(all.take(i + 1).drop_last() =~= all.take(i as int));
        assert(all[i as int] == trades@[i as int]@);
        let t: Real = trades[i].time_left_s;
        if lo.at_most(t) && t.less(hi) {
            out.push(i);
        }
        i = i + 1;
    }
    assert(all.take(i as int) =~= all);
    out
}

fn bucket(trades: &Vec<TradeRecord>, label: &'static str, lo_s: Real, hi_s: Real) -> (b: TimeBucket)
    ensures
        b.label@ == label@,
        b.lo_s == lo_s,
        b.hi_s == hi_s,
        b.n_trades == count_of(
            trade_views(trades@),
            |t: TradeView| in_range(t.time_left_s, lo_s, hi_s),
        ),
        b.n_wins == count_of(
            trade_views(trades@),
            |t: TradeView| in_range(t.time_left_s, lo_s, hi_s) && t.won,
        ),
{
    let ghost all = trade_views(trades@);
    let ghost f = |t: TradeView| in_range(t.time_left_s, lo_s, hi_s);
    let ghost g = |t: TradeView| in_range(t.time_left_s, lo_s, hi_s) && t.won;
    let mut n_trades: usize = 0;
    let mut n_wins: usize = 0;
    let mut i: usize = 0;
    assert(all.take(0) =~= Seq::empty());
    while i < trades.len()
        invariant
            i <= trades@.len(),
            n_trades <= i,
            n_wins <= i,
            all == trade_views(trades@),
            f == (|t: TradeView| in_range(t.time_left_s, lo_s, hi_s)),
            g == (|t: TradeView| in_range(t.time_left_s, lo_s, hi_s) && t.won),
            n_trades == count_of(all.take(i as int), f),
            n_wins == count_of(all.take(i as int), g),
        decreases trades@.len() - i,
    {
        assert(all.take(i + 1).drop_last() =~= all.take(i as int));
        assert(all[i as int] == trades@[i as int]@);
        let t: Real = trades[i].time_left_s;
        if lo_s.at_most(t) && t.less(hi_s) {
            n_trades = n_trades + 1;
            if trades[i].won {
                n_wins = n_wins + 1;
            }
        }
        i = i + 1;
    }
    assert(all.take(i as int) =~= all);
    TimeBucket { label, lo_s, hi_s, n_trades, n_wins }
}

/// Whether a bucket is the `k`-th one of the trades.
pub open spec fn is_bucket(trades: Seq<TradeView>, k: int, b: TimeBucket) -> bool {
    &&& b.label@ == bucket_labels()[k]
    &&& b.lo_s == (Real { bits: bucket_edges()[k] })
    &&& b.hi_s == (Real { bits: bucket_edges()[k + 1] })
    &&& b.n_trades == count_of(trades, |t: TradeView| in_bucket(t.time_left_s, k))
    &&& b.n_wins == count_of(trades, |t: TradeView| in_bucket(t.time_left_s, k) && t.won)
}

proof fn lemma_bucket(trades: Seq<TradeView>, k: int, b: TimeBucket)
    requires
        0 <= k < 8,
        b.label@ == bucket_labels()[k],
        b.lo_s == (Real { bits: bucket_edges()[k] }),
        b.hi_s == (Real { bits: bucket_edges()[k + 1] }),
        b.n_trades == count_of(
            trades,
            |t: TradeView| in_range(t.time_left_s, b.lo_s, b.hi_s),
        ),
        b.n_wins == count_of(
            trades,
            |t: TradeView| in_range(t.time_left_s, b.lo_s, b.hi_s) && t.won,
        ),
    ensures
        is_bucket(trades, k, b),
{
    assert((|t: TradeView| in_range(t.time_left_s, b.lo_s, b.hi_s)) =~= (|t: TradeView|
        in_bucket(t.time_left_s, k)));
    assert((|t: TradeView| in_range(t.time_left_s, b.lo_s, b.hi_s) && t.won) =~= (|t: TradeView|
        in_bucket(t.time_left_s, k) && t.won));
}

/// The buckets of the time that the trades had left.
pub fn time_buckets(trades: &Vec<TradeRecord>) -> (r: Vec<TimeBucket>)
    ensures
        r@.len() == 8,
        forall|k: int| 0 <= k < 8 ==> is_bucket(trade_views(trades@), k, #[trigger] r@[k]),
{
    let b0 = bucket(trades, "0-15s", Real { bits: S_0 }, Real { bits: S_15 });
    let b1 = bucket(trades, "15-30s", Real { bits: S_15 }, Real { bits: S_30 });
    let b2 = bucket(trades, "30-60s", Real { bits: S_30 }, Real { bits: S_60 });
    let b3 = bucket(trades, "1-2min", Real { bits: S_60 }, Real { bits: S_120 });
    let b4 = bucket(trades, "2-3min", Real { bits: S_120 }, Real { bits: S_180 });
    let b5 = bucket(trades, "3-5min", Real { bits: S_180 }, Real { bits: S_300 });
    let b6 = bucket(trades, "5-10min", Real { bits: S_300 }, Real { bits: S_600 });
    let b7 = bucket(trades, "10min+", Real { bits: S_600 }, Real { bits: S_99999 });
    proof {
        let all = trade_views(trades@);
        lemma_bucket(all, 0, b0);
        lemma_bucket(all, 1, b1);
        lemma_bucket(all, 2, b2);
        lemma_bucket(all, 3, b3);
        lemma_bucket(all, 4, b4);
        lemma_bucket(all, 5, b5);
        lemma_bucket(all, 6, b6);
        lemma_bucket(all, 7, b7);
    }
    vec![b0, b1, b2, b3, b4, b5, b6, b7]
}

// ── Histograms ──

/// How many of the values fall into bin `k`; those beyond the last bin count for it.
pub open spec fn bin_count(bins: Seq<usize>, n_bins: int, k: int) -> nat
    decreases bins.len(),
{
    if bins.len() == 0 {
        0
    } else {
        let b = bins.last() as int;
        let at = if b < n_bins - 1 {
            b
        } else {
            n_bins - 1
        };
        bin_count(bins.drop_last(), n_bins, k) + if at == k {
            1nat
        } else {
            0
        }
    }
}

/// Every value falls into a bin.
pub proof fn law_bins_hold_all(bins: Seq<usize>, n_bins: int)
    requires
        n_bins > 0,
    ensures
        sum_of_bins(bins, n_bins, n_bins) == bins.len(),
    decreases bins.len(),
{
    if bins.len() == 0 {
        lemma_no_values(bins, n_bins, n_bins);
    } else {
        law_bins_hold_all(bins.drop_last(), n_bins);
        lemma_one_more_value(bins, n_bins, n_bins);
    }
}

/// How many values fall into the first `k` bins.
pub open spec fn sum_of_bins(bins: Seq<usize>, n_bins: int, k: int) -> nat
    decreases k,
{
    if k <= 0 {
        0
    } else {
        sum_of_bins(bins, n_bins, k - 1) + bin_count(bins, n_bins, k - 1)
    }
}

proof fn lemma_no_values(bins: Seq<usize>, n_bins: int, k: int)
    requires
        bins.len() == 0,
    ensures
        sum_of_bins(bins, n_bins, k) == 0,
    decreases k,
{
    if k > 0 {
        lemma_no_values(bins, n_bins, k - 1);
    }
}

proof fn lemma_one_more_value(bins: Seq<usize>, n_bins: int, k: int)
    requires
        bins.len() > 0,
        0 <= k <= n_bins,
        n_bins > 0,
    ensures
        ({
            let b = bins.last() as int;
            let at = if b < n_bins - 1 {
                b
            } else {
                n_bins - 1
            };
            sum_of_bins(bins, n_bins, k) == sum_of_bins(bins.drop_last(), n_bins, k) + if at < k {
                1nat
            } else {
                0
            }
        }),
    decreases k,
{
    if k > 0 {
        lemma_one_more_value(bins, n_bins, k - 1);
    }
}

/// How many of the values fall into each bin; those beyond the last bin count for it.
pub fn bin_counts(bins: &Vec<usize>, n_bins: usize) -> (r: Vec<usize>)
    requires
        n_bins > 0,
    ensures
        r@.len() == n_bins,
        forall|k: int| 0 <= k < n_bins ==> #[trigger] r@[k] == bin_count(bins@, n_bins as int, k),
{
    let mut counts: Vec<usize> = Vec::new();
    let mut k: usize = 0;
    assert(bins@.take(0) =~= Seq::empty());
    while k < n_bins
        invariant
            k <= n_bins,
            counts@.len() == k,
            bins@.take(0) =~= Seq::empty(),
            forall|j: int|
                0 <= j < k ==> #[trigger] counts@[j] == bin_count(bins@.take(0), n_bins as int, j),
        decreases n_bins - k,
    {
        counts.push(0);
        k = k + 1;
    }
    assert(forall|j: int| 0 <= j < n_bins ==> #[trigger] counts@[j] == 0);
    let mut i: usize = 0;
    while i < bins.len()
        invariant
            i <= bins@.len(),
            n_bins > 0,
            counts@.len() == n_bins,
            forall|j: int| 0 <= j < n_bins ==> #[trigger] counts@[j] <= i,
            forall|j: int|
                0 <= j < n_bins ==> #[trigger] counts@[j] == bin_count(
                    bins@.take(i as int),
                    n_bins as int,
                    j,
                ),
        decreases bins@.len() - i,
    {
        assert(bins@.take(i + 1).drop_last() =~= bins@.take(i as int));
        let at: usize = if bins[i] < n_bins - 1 {
            bins[i]
        } else {
            n_bins - 1
        };
        let c: usize = counts[at];
        counts.set(at, c + 1);
        i = i + 1;
    }
    assert(bins@.take(i as int) =~= bins@);
    counts
}

// ── Rolling window ──

/// How many entries from one position to another are true.
pub open spec fn trues(flags: Seq<bool>, from: int, to: int) -> nat
    decreases to - from,
{
    if to <= from {
        0
    } else {
        trues(flags, from, to - 1) + if flags[to - 1] {
            1nat
        } else {
            0
        }
    }
}

/// How many of the last `window` trades won, after each trade from the `window`-th on.
pub fn rolling_wins(won: &Vec<bool>, window: usize) -> (r: Vec<usize>)
    requires
        window > 0,
    ensures
        r@.len() == (if won@.len() < window {
            0
        } else {
            won@.len() - window + 1
        }),
        forall|k: int| 0 <= k < r@.len() ==> #[trigger] r@[k] == trues(won@, k, k + window),
{
    let mut out: Vec<usize> = Vec::new();
    if won.len() < window {
        return out;
    }
    let last: usize = won.len() - window;
    let mut from: usize = 0;
    let mut more = true;
    while more
        invariant
            from <= last,
            last + window == won@.len() <= usize::MAX,
            window > 0,
            out@.len() == from + if more {
                0int
            } else {
                1
            },
            !more ==> from == last,
            forall|k: int| 0 <= k < out@.len() ==> #[trigger] out@[k] == trues(won@, k, k + window),
        decreases last - from, more as int,
    {
        let mut n: usize = 0;
        let mut j: usize = from;
        let end: usize = from + window;
        while j < end
            invariant
                from <= j <= end,
                end <= won@.len(),
                n <= j - from,
                n == trues(won@, from as int, j as int),
            decreases end - j,
        {
            if won[j] {
                n = n + 1;
            }
            j = j + 1;
        }
        out.push(n);
        if from == last {
            more = false;
        } else {
            from = from + 1;
        }
    }
    out
}

// ── Markets ──

pub open spec fn sides_count(outcomes: Seq<Side>, side: Side) -> nat
    decreases outcomes.len(),
{
    if outcomes.len() == 0 {
        0
    } else {
        sides_count(outcomes.drop_last(), side) + if outcomes.last() == side {
            1nat
        } else {
            0
        }
    }
}

/// How many markets ended up, and how many down.
pub fn outcome_counts(outcomes: &Vec<Side>) -> (r: (usize, usize))
    ensures
        r.0 == sides_count(outcomes@, Side::Up),
        r.1 == sides_count(outcomes@, Side::Down),
        r.0 + r.1 == outcomes@.len(),
{
    let mut up: usize = 0;
    let mut down: usize = 0;
    let mut i: usize = 0;
    assert(outcomes@.take(0) =~= Seq::empty());
    while i < outcomes.len()
        invariant
            i <= outcomes@.len(),
            up + down == i,
            up == sides_count(outcomes@.take(i as int), Side::Up),
            down == sides_count(outcomes@.take(i as int), Side::Down),
        decreases outcomes@.len() - i,
    {
        assert(outcomes@.take(i + 1).drop_last() =~= outcomes@.take(i as int));
        match outcomes[i] {
            Side::Up => {
                up = up + 1;
            },
            Side::Down => {
                down = down + 1;
            },
        }
        i = i + 1;
    }
    assert(outcomes@.take(i as int) =~= outcomes@);
    (up, down)
}

/// A point of the drawdown curve counts trades from one on. Its peak is no less than any total so
/// far and than zero; at a peak the drawdown has lasted no trade, and each trade that is not
/// above the peak lets it last one more.
pub proof fn law_drawdown(totals: Seq<Real>, k: int, i: int)
    requires
        0 <= i <= k < totals.len() <= usize::MAX,
    ensures
        drawdown_at(totals, k).trade_idx == k + 1,
        !drawdown_at(totals, k).peak.lt(totals[i]),
        drawdown_at(totals, k).duration <= k + 1,
        k > 0 ==> {
            let before = drawdown_at(totals, k - 1);
            let now = drawdown_at(totals, k);
            &&& before.peak.lt(totals[k]) ==> now.peak == totals[k] && now.duration == 0
            &&& !before.peak.lt(totals[k]) ==> now.peak == before.peak && now.duration
                == before.duration + 1
        },
        (Real { bits: 0 }).lt(totals[0]) ==> drawdown_at(totals, 0).peak == totals[0] && drawdown_at(
            totals,
            0,
        ).duration == 0,
        !(Real { bits: 0 }).lt(totals[0]) ==> drawdown_at(totals, 0).peak.bits == 0 && drawdown_at(
            totals,
            0,
        ).duration == 1,
{
    let t = totals.take(k + 1);
    law_peak_is_highest(t, i);
    assert(t[i] == totals[i]);
    lemma_peak_place(t);
    lemma_peak_place(totals.take(k));
    assert(t.drop_last() =~= totals.take(k));
    assert(totals.take(1).drop_last() =~= Seq::empty());
    assert(peak_of(totals.take(1).drop_last()) == (Real { bits: 0 }, 0int));
}

/// The buckets: their names, and the seconds where they begin and end.
pub proof fn law_buckets(t: Real)
    ensures
        bucket_labels().len() == 8,
        bucket_labels()[0] == "0-15s"@,
        in_bucket(t, 0) <==> (Real { bits: 0x0000000000000000 }).le(t) && t.lt(Real { bits: 0x402E000000000000 }),
        bucket_labels()[1] == "15-30s"@,
        in_bucket(t, 1) <==> (Real { bits: 0x402E000000000000 }).le(t) && t.lt(Real { bits: 0x403E000000000000 }),
        bucket_labels()[2] == "30-60s"@,
        in_bucket(t, 2) <==> (Real { bits: 0x403E000000000000 }).le(t) && t.lt(Real { bits: 0x404E000000000000 }),
        bucket_labels()[3] == "1-2min"@,
        in_bucket(t, 3) <==> (Real { bits: 0x404E000000000000 }).le(t) && t.lt(Real { bits: 0x405E000000000000 }),
        bucket_labels()[4] == "2-3min"@,
        in_bucket(t, 4) <==> (Real { bits: 0x405E000000000000 }).le(t) && t.lt(Real { bits: 0x4066800000000000 }),
        bucket_labels()[5] == "3-5min"@,
        in_bucket(t, 5) <==> (Real { bits: 0x4066800000000000 }).le(t) && t.lt(Real { bits: 0x4072C00000000000 }),
        bucket_labels()[6] == "5-10min"@,
        in_bucket(t, 6) <==> (Real { bits: 0x4072C00000000000 }).le(t) && t.lt(Real { bits: 0x4082C00000000000 }),
        bucket_labels()[7] == "10min+"@,
        in_bucket(t, 7) <==> (Real { bits: 0x4082C00000000000 }).le(t) && t.lt(Real { bits: 0x40F869F000000000 }),
{
}

/// A bucket counts one more trade that had a time in it left, a win exactly where that won, and
/// no other trade.
pub proof fn law_bucket_counts(
    trades: Seq<TradeView>,
    t: TradeView,
    k: int,
    a: TimeBucket,
    z: TimeBucket,
)
    requires
        0 <= k < 8,
        is_bucket(trades, k, a),
        is_bucket(trades.push(t), k, z),
    ensures
        in_bucket(t.time_left_s, k) ==> z.n_trades == a.n_trades + 1,
        in_bucket(t.time_left_s, k) && t.won ==> z.n_wins == a.n_wins + 1,
        in_bucket(t.time_left_s, k) && !t.won ==> z.n_wins == a.n_wins,
        !in_bucket(t.time_left_s, k) ==> z.n_trades == a.n_trades && z.n_wins == a.n_wins,
        in_bucket(t.time_left_s, k) <==> z.lo_s.le(t.time_left_s) && t.time_left_s.lt(z.hi_s),
        z.label@ == bucket_labels()[k],
{
    assert(trades.push(t).drop_last() =~= trades);
}

/// A trade is in a range exactly where the time that it had left is no less than the start and
/// less than the end, and trades keep their order.
pub proof fn law_trades_in_range(trades: Seq<TradeView>, t: TradeView, lo: Real, hi: Real)
    ensures
        lo.le(t.time_left_s) && t.time_left_s.lt(hi) ==> trades_in_range(trades.push(t), lo, hi)
            == trades_in_range(trades, lo, hi).push(trades.len() as usize),
        !lo.le(t.time_left_s) || !t.time_left_s.lt(hi) ==> trades_in_range(trades.push(t), lo, hi)
            == trades_in_range(trades, lo, hi),
        trades_in_range(Seq::empty(), lo, hi).len() == 0,
{
    assert(trades.push(t).drop_last() =~= trades);
}

/// One more value counts for its own bin, or for the last one where it lies beyond, and for no
/// other.
pub proof fn law_bin_of_value(bins: Seq<usize>, b: usize, n_bins: int, k: int)
    requires
        0 <= k < n_bins,
    ensures
        b == k ==> bin_count(bins.push(b), n_bins, k) == bin_count(bins, n_bins, k) + 1,
        b != k && b < n_bins ==> bin_count(bins.push(b), n_bins, k) == bin_count(bins, n_bins, k),
        b >= n_bins && k == n_bins - 1 ==> bin_count(bins.push(b), n_bins, k) == bin_count(
            bins,
            n_bins,
            k,
        ) + 1,
        b >= n_bins && k < n_bins - 1 ==> bin_count(bins.push(b), n_bins, k) == bin_count(
            bins,
            n_bins,
            k,
        ),
        bin_count(Seq::empty(), n_bins, k) == 0,
{
    assert(bins.push(b).drop_last() =~= bins);
}

/// One entry counts one where it is true and nothing where it is not, and the counts of two parts
/// add up.
pub proof fn law_trues(flags: Seq<bool>, from: int, mid: int, to: int)
    requires
        0 <= from <= mid <= to <= flags.len(),
    ensures
        trues(flags, from, to) == trues(flags, from, mid) + trues(flags, mid, to),
        from < flags.len() ==> trues(flags, from, from + 1) == if flags[from] {
            1int
        } else {
            0
        },
    decreases to - mid,
{
    if mid < to {
        law_trues(flags, from, mid, to - 1);
    }
    reveal_with_fuel(trues, 2);
}

/// One more market counts for the side that it ended on.
pub proof fn law_sides_count(outcomes: Seq<Side>, o: Side, side: Side)
    ensures
        o == side ==> sides_count(outcomes.push(o), side) == sides_count(outcomes, side) + 1,
        o != side ==> sides_count(outcomes.push(o), side) == sides_count(outcomes, side),
        sides_count(Seq::empty(), side) == 0,
{
    assert(outcomes.push(o).drop_last() =~= outcomes);
}

} // verus!
