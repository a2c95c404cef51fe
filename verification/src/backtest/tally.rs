//! Counts over the trades of a backtest.

use vstd::prelude::*;
use vstd::string::*;

use crate::number::Real;
use crate::text::str_eq;
use crate::types::Side;

verus! {

/// A trade of a backtest, as far as it is counted.
#[derive(Debug)]
pub struct TradeRecord {
    pub strategy: String,
    pub side: Side,
    pub is_passive: bool,
    pub time_left_s: Real,
    pub pnl: Real,
    pub won: bool,
}

/// What a `TradeRecord` holds.
pub ghost struct TradeView {
    pub strategy: Seq<char>,
    pub side: Side,
    pub is_passive: bool,
    pub time_left_s: Real,
    pub pnl: Real,
    pub won: bool,
}

impl View for TradeRecord {
    type V = TradeView;

    open spec fn view(&self) -> TradeView {
        TradeView {
            strategy: self.strategy@,
            side: self.side,
            is_passive: self.is_passive,
            time_left_s: self.time_left_s,
            pnl: self.pnl,
            won: self.won,
        }
    }
}

pub open spec fn trade_views(v: Seq<TradeRecord>) -> Seq<TradeView> {
    v.map_values(|t: TradeRecord| t@)
}

/// How many trades meet a condition.
pub open spec fn count_of(trades: Seq<TradeView>, f: spec_fn(TradeView) -> bool) -> nat
    decreases trades.len(),
{
    if trades.len() == 0 {
        0
    } else {
        count_of(trades.drop_last(), f) + if f(trades.last()) {
            1nat
        } else {
            0
        }
    }
}

proof fn lemma_count_bound(trades: Seq<TradeView>, f: spec_fn(TradeView) -> bool)
    ensures
        count_of(trades, f) <= trades.len(),
    decreases trades.len(),
{
    if trades.len() > 0 {
        lemma_count_bound(trades.drop_last(), f);
    }
}

// ── Per strategy ──

/// What the trades of one strategy, or of all, come to.
#[derive(Debug)]
pub struct StrategyStats {
    pub n_orders: usize,
    pub n_wins: usize,
    pub n_losses: usize,
    pub n_passive: usize,
    pub n_active: usize,
    /// The best result of a trade that won, 0 where that is more.
    pub max_win: Real,
    /// The worst result of a trade that lost, 0 where that is less.
    pub max_loss: Real,
    /// The results of the trades, in their order.
    pub trade_pnls: Vec<Real>,
}

/// Whether a trade belongs to a strategy; without one, all do.
pub open spec fn belongs(t: TradeView, strategy: Option<Seq<char>>) -> bool {
    match strategy {
        Some(name) => t.strategy == name,
        None => true,
    }
}

/// The best result of the trades of a strategy that won, 0 where that is more.
pub open spec fn best_win(trades: Seq<TradeView>, strategy: Option<Seq<char>>) -> Real
    decreases trades.len(),
{
    if trades.len() == 0 {
        Real { bits: 0 }
    } else {
        let before = best_win(trades.drop_last(), strategy);
        let t = trades.last();
        if belongs(t, strategy) && t.won {
            before.greater(t.pnl)
        } else {
            before
        }
    }
}

/// The worst result of the trades of a strategy that lost, 0 where that is less.
pub open spec fn worst_loss(trades: Seq<TradeView>, strategy: Option<Seq<char>>) -> Real
    decreases trades.len(),
{
    if trades.len() == 0 {
        Real { bits: 0 }
    } else {
        let before = worst_loss(trades.drop_last(), strategy);
        let t = trades.last();
        if belongs(t, strategy) && !t.won {
            before.lesser(t.pnl)
        } else {
            before
        }
    }
}

/// The results of the trades of a strategy, in their order.
pub open spec fn results(trades: Seq<TradeView>, strategy: Option<Seq<char>>) -> Seq<Real>
    decreases trades.len(),
{
    if trades.len() == 0 {
        Seq::empty()
    } else {
        let before = results(trades.drop_last(), strategy);
        if belongs(trades.last(), strategy) {
            before.push(trades.last().pnl)
        } else {
            before
        }
    }
}

pub open spec fn is_stats(
    s: StrategyStats,
    trades: Seq<TradeView>,
    strategy: Option<Seq<char>>,
) -> bool {
    &&& s.n_orders == count_of(trades, |t: TradeView| belongs(t, strategy))
    &&& s.n_wins == count_of(trades, |t: TradeView| belongs(t, strategy) && t.won)
    &&& s.n_losses == count_of(trades, |t: TradeView| belongs(t, strategy) && !t.won)
    &&& s.n_passive == count_of(trades, |t: TradeView| belongs(t, strategy) && t.is_passive)
    &&& s.n_active == count_of(trades, |t: TradeView| belongs(t, strategy) && !t.is_passive)
    &&& s.max_win == best_win(trades, strategy)
    &&& s.max_loss == worst_loss(trades, strategy)
    &&& s.trade_pnls@ == results(trades, strategy)
}

/// What the trades of a strategy come to; without one, those of all.
pub fn stats_of(trades: &Vec<TradeRecord>, strategy: Option<&str>) -> (s: StrategyStats)
    ensures
        is_stats(s, trade_views(trades@), crate::analyzer::rows::opt_str(strategy)),
{
    let ghost all = trade_views(trades@);
    let ghost name = crate::analyzer::rows::opt_str(strategy);
    let ghost f1 = |t: TradeView| belongs(t, name);
    let ghost f2 = |t: TradeView| belongs(t, name) && t.won;
    let ghost f3 = |t: TradeView| belongs(t, name) && !t.won;
    let ghost f4 = |t: TradeView| belongs(t, name) && t.is_passive;
    let ghost f5 = |t: TradeView| belongs(t, name) && !t.is_passive;
    let mut s = StrategyStats {
        n_orders: 0,
        n_wins: 0,
        n_losses: 0,
        n_passive: 0,
        n_active: 0,
        max_win: Real::zero(),
        max_loss: Real::zero(),
        trade_pnls: Vec::new(),
    };
    let mut i: usize = 0;
    assert(all.take(0) =~= Seq::empty());
    while i < trades.len()
        invariant
            i <= trades@.len(),
            all == trade_views(trades@),
            name == crate::analyzer::rows::opt_str(strategy),
            f1 == (|t: TradeView| belongs(t, name)),
            f2 == (|t: TradeView| belongs(t, name) && t.won),
            f3 == (|t: TradeView| belongs(t, name) && !t.won),
            f4 == (|t: TradeView| belongs(t, name) && t.is_passive),
            f5 == (|t: TradeView| belongs(t, name) && !t.is_passive),
            s.n_orders == count_of(all.take(i as int), f1),
            s.n_wins == count_of(all.take(i as int), f2),
            s.n_losses == count_of(all.take(i as int), f3),
            s.n_passive == count_of(all.take(i as int), f4),
            s.n_active == count_of(all.take(i as int), f5),
            s.max_win == best_win(all.take(i as int), name),
            s.max_loss == worst_loss(all.take(i as int), name),
            s.trade_pnls@ == results(all.take(i as int), name),
        decreases trades@.len() - i,
    {
        let t = &trades[i];
        proof {
            assert(all.take(i + 1).drop_last() =~= all.take(i as int));
            assert(all[i as int] == t@);
            lemma_count_bound(all.take(i as int), f1);
            lemma_count_bound(all.take(i as int), f2);
            lemma_count_bound(all.take(i as int), f3);
            lemma_count_bound(all.take(i as int), f4);
            lemma_count_bound(all.take(i as int), f5);
        }
        let ours = match strategy {
            Some(n) => str_eq(t.strategy.as_str(), n),
            None => true,
        };
        if ours {
            s.n_orders = s.n_orders + 1;
            s.trade_pnls.push(t.pnl);
            if t.won {
                s.n_wins = s.n_wins + 1;
                s.max_win = s.max_win.max(t.pnl);
            } else {
                s.n_losses = s.n_losses + 1;
                s.max_loss = s.max_loss.min(t.pnl);
            }
            if t.is_passive {
                s.n_passive = s.n_passive + 1;
            } else {
                s.n_active = s.n_active + 1;
            }
        }
        i = i + 1;
    }
    assert(all.take(i as int) =~= all);
    s
}

/// Every order won or lost, and was passive or active.
pub proof fn law_stats_add_up(s: StrategyStats, trades: Seq<TradeView>, strategy: Option<Seq<char>>)
    requires
        is_stats(s, trades, strategy),
    ensures
        s.n_wins + s.n_losses == s.n_orders,
        s.n_passive + s.n_active == s.n_orders,
{
    lemma_split_counts(trades, strategy);
}

proof fn lemma_split_counts(trades: Seq<TradeView>, strategy: Option<Seq<char>>)
    ensures
        count_of(trades, |t: TradeView| belongs(t, strategy) && t.won) + count_of(
            trades,
            |t: TradeView| belongs(t, strategy) && !t.won,
        ) == count_of(trades, |t: TradeView| belongs(t, strategy)),
        count_of(trades, |t: TradeView| belongs(t, strategy) && t.is_passive) + count_of(
            trades,
            |t: TradeView| belongs(t, strategy) && !t.is_passive,
        ) == count_of(trades, |t: TradeView| belongs(t, strategy)),
    decreases trades.len(),
{
    if trades.len() > 0 {
        lemma_split_counts(trades.drop_last(), strategy);
    }
}

/// How many trades were on a side.
pub open spec fn on_side(trades: Seq<TradeView>, side: Side) -> nat {
    count_of(trades, |t: TradeView| t.side == side)
}

/// One more trade counts for its side and for no other, and every trade counts for a side.
pub proof fn law_on_side(trades: Seq<TradeView>, t: TradeView, side: Side)
    ensures
        t.side == side ==> on_side(trades.push(t), side) == on_side(trades, side) + 1,
        t.side != side ==> on_side(trades.push(t), side) == on_side(trades, side),
        on_side(trades, Side::Up) + on_side(trades, Side::Down) == trades.len(),
    decreases trades.len(),
{
    assert(trades.push(t).drop_last() =~= trades);
    if trades.len() > 0 {
        law_on_side(trades.drop_last(), t, side);
    }
}

/// How many trades were on a side.
pub fn trades_on(trades: &Vec<TradeRecord>, side: Side) -> (n: usize)
    ensures
        n == on_side(trade_views(trades@), side),
        n == count_of(trade_views(trades@), |t: TradeView| t.side == side),
{
    let ghost all = trade_views(trades@);
    let ghost f = |t: TradeView| t.side == side;
    let mut n: usize = 0;
    let mut i: usize = 0;
    assert(all.take(0) =~= Seq::empty());
    while i < trades.len()
        invariant
            i <= trades@.len(),
            all == trade_views(trades@),
            f == (|t: TradeView| t.side == side),
            n == count_of(all.take(i as int), f),
        decreases trades@.len() - i,
    {
        proof {
            assert(all.take(i + 1).drop_last() =~= all.take(i as int));
            assert(all[i as int] == trades@[i as int]@);
            lemma_count_bound(all.take(i as int), f);
        }
        if trades[i].side == side {
            n = n + 1;
        }
        i = i + 1;
    }
    assert(all.take(i as int) =~= all);
    n
}

// ── Streaks ──

/// How many of the last entries are true, one after the other.
pub open spec fn run_at_end(flags: Seq<bool>) -> nat
    decreases flags.len(),
{
    if flags.len() == 0 || !flags.last() {
        0
    } else {
        run_at_end(flags.drop_last()) + 1
    }
}

/// The most entries that are true one after the other.
pub open spec fn longest_run(flags: Seq<bool>) -> nat
    decreases flags.len(),
{
    if flags.len() == 0 {
        0
    } else {
        let before = longest_run(flags.drop_last());
        let now = run_at_end(flags);
        if now > before {
            now
        } else {
            before
        }
    }
}

/// Whether all entries from one position to another are true.
pub open spec fn all_true(flags: Seq<bool>, from: int, to: int) -> bool {
    forall|i: int| from <= i < to ==> #[trigger] flags[i]
}

/// Whether `n` entries from a position on are true.
pub open spec fn run_from(flags: Seq<bool>, a: int, n: int) -> bool {
    0 <= a && a + n <= flags.len() && all_true(flags, a, a + n)
}

proof fn lemma_run_at_end(flags: Seq<bool>)
    ensures
        run_at_end(flags) <= flags.len(),
        all_true(flags, flags.len() - run_at_end(flags), flags.len() as int),
        run_at_end(flags) < flags.len() ==> !flags[flags.len() - run_at_end(flags) - 1],
    decreases flags.len(),
{
    if flags.len() > 0 && flags.last() {
        let f = flags.drop_last();
        lemma_run_at_end(f);
        let k = flags.len() - run_at_end(flags);
        assert forall|i: int| k <= i < flags.len() implies #[trigger] flags[i] by {
            if i < f.len() {
                assert(f[i]);
            }
        }
        if run_at_end(flags) < flags.len() {
            assert(f[k - 1] == flags[k - 1]);
        }
    }
}

/// The longest run is one that occurs, and none is longer.
pub proof fn law_longest_run(flags: Seq<bool>, from: int, to: int)
    requires
        0 <= from <= to <= flags.len(),
        all_true(flags, from, to),
    ensures
        to - from <= longest_run(flags),
        exists|a: int| #[trigger] run_from(flags, a, longest_run(flags) as int),
    decreases flags.len(),
{
    if flags.len() == 0 {
        assert(run_from(flags, 0, 0));
    } else {
        let f = flags.drop_last();
        let n = flags.len() as int;
        lemma_run_at_end(flags);
        let r = run_at_end(flags) as int;
        // The longest run so far occurs
        assert(all_true(f, 0, 0));
        law_longest_run(f, 0, 0);
        let b = longest_run(f) as int;
        let a = choose|a: int| #[trigger] run_from(f, a, longest_run(f) as int);
        assert(all_true(flags, a, a + b)) by {
            assert forall|i: int| a <= i < a + b implies #[trigger] flags[i] by {
                assert(f[i]);
            }
        }
        assert(all_true(flags, n - r, n));
        if r > b {
            assert(run_from(flags, n - r, longest_run(flags) as int));
        } else {
            assert(run_from(flags, a, longest_run(flags) as int));
        }
        // None is longer
        if to < n {
            assert(all_true(f, from, to)) by {
                assert forall|i: int| from <= i < to implies #[trigger] f[i] by {
                    assert(flags[i]);
                }
            }
            law_longest_run(f, from, to);
        } else if to - from > r {
            assert(flags[n - r - 1]);
            assert(false);
        }
    }
}

fn run_length(flags: &Vec<bool>) -> (n: usize)
    ensures
        n == longest_run(flags@),
{
    let mut best: usize = 0;
    let mut run: usize = 0;
    let mut i: usize = 0;
    assert(flags@.take(0) =~= Seq::empty());
    while i < flags.len()
        invariant
            i <= flags@.len(),
            run <= i,
            run == run_at_end(flags@.take(i as int)),
            best == longest_run(flags@.take(i as int)),
        decreases flags@.len() - i,
    {
        assert(flags@.take(i + 1).drop_last() =~= flags@.take(i as int));
        if flags[i] {
            run = run + 1;
        } else {
            run = 0;
        }
        if run > best {
            best = run;
        }
        i = i + 1;
    }
    assert(flags@.take(i as int) =~= flags@);
    best
}

/// Which results are above zero.
pub open spec fn wins(pnls: Seq<Real>) -> Seq<bool> {
    pnls.map_values(|p: Real| p.pos())
}

/// Which results are zero or below.
pub open spec fn losses(pnls: Seq<Real>) -> Seq<bool> {
    pnls.map_values(|p: Real| p.le(Real { bits: 0 }))
}

/// Which results are not above zero.
pub open spec fn no_wins(pnls: Seq<Real>) -> Seq<bool> {
    pnls.map_values(|p: Real| !p.pos())
}

fn win_streak(pnls: &Vec<Real>) -> (n: usize)
    ensures
        n == longest_run(wins(pnls@)),
{
    let mut flags: Vec<bool> = Vec::new();
    let mut i: usize = 0;
    while i < pnls.len()
        invariant
            i <= pnls@.len(),
            flags@.len() == i,
            forall|j: int| 0 <= j < i ==> flags@[j] == wins(pnls@)[j],
        decreases pnls@.len() - i,
    {
        flags.push(pnls[i].is_positive());
        i = i + 1;
    }
    assert(flags@ =~= wins(pnls@));
    run_length(&flags)
}

impl StrategyStats {
    /// The most trades one after the other with a result above zero.
    pub fn max_consecutive_wins(&self) -> (n: usize)
        ensures
            n == longest_run(wins(self.trade_pnls@)),
    {
        win_streak(&self.trade_pnls)
    }

    /// The most trades one after the other with a result of zero or below.
    pub fn max_consecutive_losses(&self) -> (n: usize)
        ensures
            n == longest_run(losses(self.trade_pnls@)),
    {
        let mut flags: Vec<bool> = Vec::new();
        let mut i: usize = 0;
        while i < self.trade_pnls.len()
            invariant
                i <= self.trade_pnls@.len(),
                flags@.len() == i,
                forall|j: int| 0 <= j < i ==> flags@[j] == losses(self.trade_pnls@)[j],
            decreases self.trade_pnls@.len() - i,
        {
            flags.push(self.trade_pnls[i].at_most(Real::zero()));
            i = i + 1;
        }
        assert(flags@ =~= losses(self.trade_pnls@));
        run_length(&flags)
    }
}

/// The most results above zero one after the other, and the most others.
pub fn compute_streaks(pnls: &Vec<Real>) -> (r: (usize, usize))
    ensures
        r.0 == longest_run(wins(pnls@)),
        r.1 == longest_run(no_wins(pnls@)),
{
    let mut flags: Vec<bool> = Vec::new();
    let mut i: usize = 0;
    while i < pnls.len()
        invariant
            i <= pnls@.len(),
            flags@.len() == i,
            forall|j: int| 0 <= j < i ==> flags@[j] == no_wins(pnls@)[j],
        decreases pnls@.len() - i,
    {
        flags.push(!pnls[i].is_positive());
        i = i + 1;
    }
    assert(flags@ =~= no_wins(pnls@));
    (win_streak(pnls), run_length(&flags))
}

/// Where the trades of all markets stand, as market and place in it: market by market, each in
/// its own order. `counts` holds how many trades each market has.
pub open spec fn places(counts: Seq<usize>) -> Seq<(usize, usize)>
    decreases counts.len(),
{
    if counts.len() == 0 {
        Seq::empty()
    } else {
        let last = (counts.len() - 1) as usize;
        places(counts.drop_last()) + Seq::new(
            counts.last() as nat,
            |i: int| (last, i as usize),
        )
    }
}

/// Joins the trades of all markets.
pub fn trade_places(counts: &Vec<usize>) -> (r: Vec<(usize, usize)>)
    ensures
        r@ == places(counts@),
{
    let mut r: Vec<(usize, usize)> = Vec::new();
    let mut m: usize = 0;
    assert(counts@.take(0) =~= Seq::empty());
    while m < counts.len()
        invariant
            m <= counts.len(),
            r@ == places(counts@.take(m as int)),
        decreases counts.len() - m,
    {
        let ghost before = r@;
        let n: usize = counts[m];
        let mut i: usize = 0;
        while i < n
            invariant
                i <= n,
                r@ == before + Seq::new(i as nat, |j: int| (m, j as usize)),
            decreases n - i,
        {
            r.push((m, i));
            i = i + 1;
            assert(r@ =~= before + Seq::new(i as nat, |j: int| (m, j as usize)));
        }
        assert(counts@.take(m + 1).drop_last() =~= counts@.take(m as int));
        assert(r@ =~= places(counts@.take(m + 1)));
        m = m + 1;
    }
    assert(counts@.take(m as int) =~= counts@);
    r
}

/// Every trade of every market is joined, and nothing else; and of two trades the one of the
/// earlier market, or the earlier one of the same market, comes first.
pub proof fn law_trades_joined(counts: Seq<usize>)
    requires
        counts.len() <= usize::MAX,
    ensures
        forall|m: usize, i: usize| #[trigger]
            places(counts).contains((m, i)) <==> m < counts.len() && i < counts[m as int],
        forall|a: int, b: int|
            0 <= a < b < places(counts).len() ==> (#[trigger] places(counts)[a]).0 < (
            #[trigger] places(counts)[b]).0 || (places(counts)[a].0 == places(counts)[b].0
                && places(counts)[a].1 < places(counts)[b].1),
    decreases counts.len(),
{
    if counts.len() > 0 {
        let p = counts.drop_last();
        law_trades_joined(p);
        let q = places(p);
        let all = places(counts);
        let last = (counts.len() - 1) as usize;
        assert forall|a: int| 0 <= a < q.len() implies #[trigger] q[a].0 < last by {
            assert(q.contains((q[a].0, q[a].1)));
        }
        assert forall|a: int| 0 <= a < all.len() implies #[trigger] all[a] == (if a < q.len() {
            q[a]
        } else {
            (last, (a - q.len()) as usize)
        }) by {}
        assert forall|m: usize, i: usize| #[trigger] all.contains((m, i)) <==> m < counts.len() && i
            < counts[m as int] by {
            if all.contains((m, i)) {
                let a = choose|a: int| 0 <= a < all.len() && all[a] == (m, i);
                if a < q.len() {
                    assert(q[a] == (m, i));
                    assert(q.contains((m, i)));
                }
            }
            if m < counts.len() && i < counts[m as int] {
                if m < last {
                    assert(p[m as int] == counts[m as int]);
                    assert(q.contains((m, i)));
                    let a = choose|a: int| 0 <= a < q.len() && q[a] == (m, i);
                    assert(all[a] == (m, i));
                } else {
                    assert(all[q.len() + i] == (m, i));
                }
            }
        }
    }
}

/// One more trade of the strategy is one more order: a win exactly where it won, passive exactly
/// where it was passive, and its result comes last. A trade of another strategy changes nothing.
pub proof fn law_one_more_trade(
    a: StrategyStats,
    z: StrategyStats,
    trades: Seq<TradeView>,
    t: TradeView,
    strategy: Option<Seq<char>>,
)
    requires
        is_stats(a, trades, strategy),
        is_stats(z, trades.push(t), strategy),
    ensures
        strategy is None || strategy == Some(t.strategy) ==> {
            &&& z.n_orders == a.n_orders + 1
            &&& t.won ==> z.n_wins == a.n_wins + 1 && z.n_losses == a.n_losses
            &&& !t.won ==> z.n_wins == a.n_wins && z.n_losses == a.n_losses + 1
            &&& t.is_passive ==> z.n_passive == a.n_passive + 1 && z.n_active == a.n_active
            &&& !t.is_passive ==> z.n_passive == a.n_passive && z.n_active == a.n_active + 1
            &&& z.trade_pnls@ == a.trade_pnls@.push(t.pnl)
            &&& t.won ==> z.max_loss == a.max_loss && !z.max_win.lt(t.pnl)
            &&& !t.won ==> z.max_win == a.max_win && !t.pnl.lt(z.max_loss)
        },
        strategy is Some && strategy != Some(t.strategy) ==> {
            &&& z.n_orders == a.n_orders
            &&& z.n_wins == a.n_wins
            &&& z.n_losses == a.n_losses
            &&& z.n_passive == a.n_passive
            &&& z.n_active == a.n_active
            &&& z.trade_pnls@ == a.trade_pnls@
            &&& z.max_win == a.max_win
            &&& z.max_loss == a.max_loss
        },
{
    assert(trades.push(t).drop_last() =~= trades);
}

/// Without trades everything is zero.
pub proof fn law_no_trades(s: StrategyStats, strategy: Option<Seq<char>>)
    requires
        is_stats(s, Seq::empty(), strategy),
    ensures
        s.n_orders == 0,
        s.n_wins == 0,
        s.n_losses == 0,
        s.n_passive == 0,
        s.n_active == 0,
        s.max_win.bits == 0,
        s.max_loss.bits == 0,
        s.trade_pnls@.len() == 0,
{
}

/// The best win is no less than zero and than the result of any trade that won, and it is zero or
/// one of these results; so the other way round for the worst loss.
pub proof fn law_extremes(trades: Seq<TradeView>, strategy: Option<Seq<char>>, i: int)
    ensures
        (Real { bits: 0 }).le(best_win(trades, strategy)),
        worst_loss(trades, strategy).le(Real { bits: 0 }),
        0 <= i < trades.len() && (strategy is None || strategy == Some(trades[i].strategy)) ==> {
            &&& trades[i].won ==> !best_win(trades, strategy).lt(trades[i].pnl)
            &&& !trades[i].won ==> !trades[i].pnl.lt(worst_loss(trades, strategy))
        },
        best_win(trades, strategy).bits == 0 || exists|k: int|
            0 <= k < trades.len() && (#[trigger] trades[k]).won && trades[k].pnl == best_win(
                trades,
                strategy,
            ),
        worst_loss(trades, strategy).bits == 0 || exists|k: int|
            0 <= k < trades.len() && !(#[trigger] trades[k]).won && trades[k].pnl == worst_loss(
                trades,
                strategy,
            ),
    decreases trades.len(),
{
    if trades.len() > 0 {
        let p = trades.drop_last();
        law_extremes(p, strategy, i);
        let n = trades.len() - 1;
        assert(trades[n] == trades.last());
        if 0 <= i < n {
            assert(p[i] == trades[i]);
        }
        if best_win(trades, strategy) == best_win(p, strategy) && best_win(p, strategy).bits != 0 {
            let k = choose|k: int|
                0 <= k < p.len() && (#[trigger] p[k]).won && p[k].pnl == best_win(p, strategy);
            assert(trades[k] == p[k]);
        } else if best_win(trades, strategy) != best_win(p, strategy) {
            assert(trades[n].won && trades[n].pnl == best_win(trades, strategy));
        }
        if worst_loss(trades, strategy) == worst_loss(p, strategy) && worst_loss(p, strategy).bits
            != 0 {
            let k = choose|k: int|
                0 <= k < p.len() && !(#[trigger] p[k]).won && p[k].pnl == worst_loss(p, strategy);
            assert(trades[k] == p[k]);
        } else if worst_loss(trades, strategy) != worst_loss(p, strategy) {
            assert(!trades[n].won && trades[n].pnl == worst_loss(trades, strategy));
        }
    }
}

/// A result is a win exactly where it is above zero, and a loss where it is zero or below.
pub proof fn law_win_and_loss(pnls: Seq<Real>, i: int)
    requires
        0 <= i < pnls.len(),
    ensures
        wins(pnls).len() == pnls.len(),
        losses(pnls).len() == pnls.len(),
        no_wins(pnls).len() == pnls.len(),
        wins(pnls)[i] <==> (Real { bits: 0 }).lt(pnls[i]),
        losses(pnls)[i] <==> pnls[i].le(Real { bits: 0 }),
        no_wins(pnls)[i] <==> !(Real { bits: 0 }).lt(pnls[i]),
{
}

/// A run ends with an entry that is false and grows by one with each that is true; the longest
/// run never shrinks.
pub proof fn law_run_grows(flags: Seq<bool>, b: bool)
    ensures
        b ==> run_at_end(flags.push(b)) == run_at_end(flags) + 1,
        !b ==> run_at_end(flags.push(b)) == 0,
        longest_run(flags) <= longest_run(flags.push(b)),
        !b ==> longest_run(flags.push(b)) == longest_run(flags),
{
    assert(flags.push(b).drop_last() =~= flags);
}

/// What is counted of a trade is what its fields hold.
pub proof fn law_counted_view(t: TradeRecord)
    ensures
        t@.strategy == t.strategy@,
        t@.side == t.side,
        t@.is_passive == t.is_passive,
        t@.time_left_s == t.time_left_s,
        t@.pnl == t.pnl,
        t@.won == t.won,
{
}

} // verus!
