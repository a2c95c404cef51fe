//! What is known of the running market.

use vstd::prelude::*;

use crate::config::Interval;
use crate::engine::book::{first_price, is_arranged, prices_are_numbers, OrderBook};
use crate::engine::book::{law_best_prices, law_best_prices_are_there};
use crate::math::ewma::{Sample, SampledEwmaVol};
use crate::math::regime::RegimeClassifier;
use crate::math::vwap::VwapTracker;
use crate::math::window::{lemma_stale_count, stale_count, RollingWindow};
use crate::number::Real;
use crate::table::{distinct_names, has_name, place_of, NameTable};
use crate::types::{BinanceTrade, MarketInfo, OrderAck, PolymarketBook, PolymarketQuote, Side};

verus! {

/// Per-strategy performance counters, accumulated during a single market.
#[derive(Clone, Copy, Debug, PartialEq, Eq, Structural)]
pub struct StrategyStats {
    pub signals: u32,
    pub orders: u32,
    pub filled: u32,
    pub gross_pnl: Real,
    pub total_edge: Real,
}

impl StrategyStats {
    pub open spec fn fresh() -> StrategyStats {
        StrategyStats {
            signals: 0,
            orders: 0,
            filled: 0,
            gross_pnl: Real { bits: 0 },
            total_edge: Real { bits: 0 },
        }
    }

    pub fn new() -> (s: Self)
        ensures
            s == Self::fresh(),
    {
        StrategyStats {
            signals: 0,
            orders: 0,
            filled: 0,
            gross_pnl: Real::zero(),
            total_edge: Real::zero(),
        }
    }
}

/// Cross-market state for the cross-timeframe strategy.
#[derive(Clone, Copy, Debug, PartialEq, Eq, Structural)]
pub struct CrossMarketState {
    pub interval: Interval,
    pub up_bid: Real,
    pub up_ask: Real,
    pub down_bid: Real,
    pub down_ask: Real,
    pub strike: Real,
    pub end_ms: i64,
}

/// At most one market for each interval.
pub open spec fn one_per_interval(v: Seq<CrossMarketState>) -> bool {
    forall|a: int, b: int|
        0 <= a < v.len() && 0 <= b < v.len() && (#[trigger] v[a]).interval == (
        #[trigger] v[b]).interval ==> a == b
}

/// How long trades are kept, in milliseconds.
pub const TRADE_BUFFER_MS: i64 = 30_000;

/// Persistent Binance-derived state that survives across markets.
#[derive(Clone)]
pub struct BinanceState {
    pub ewma_vol: SampledEwmaVol<Real>,
    pub trade_buffer: RollingWindow<BinanceTrade>,
    pub binance_price: Real,
    pub binance_ts: i64,
    pub prev_binance_price: Real,
    pub vwap_tracker: VwapTracker<Real>,
    pub regime: RegimeClassifier,
    /// Realized volatility, recomputed whenever a sample is taken.
    pub sigma_real_cached: Real,
}

/// What a trade asks of the volatility and the average price.
pub struct TradeEffects {
    /// A sample to fold into the volatility.
    pub sample: Option<Sample<Real>>,
    /// Trades that left the average price window: price and quantity, oldest first.
    pub left_window: Vec<(i64, (Real, Real))>,
}

/// Whether `after` is what a trade makes of `before`, and asks for `effects`: the price and time
/// are those of the trade; the volatility is sampled where a second has passed, at any price
/// that is not zero or less; trades older than their windows are gone; and a price that differs
/// from the one before it is a tick.
pub open spec fn trade_taken(
    before: BinanceState,
    t: BinanceTrade,
    after: BinanceState,
    effects: TradeEffects,
) -> bool {
    let sampled = before.ewma_vol.samples(!t.price.le(Real { bits: 0 }), t.exchange_ts_ms);
    let all = before.vwap_tracker@.push((t.exchange_ts_ms, (t.price, t.qty)));
    let k = stale_count(all, t.exchange_ts_ms - before.vwap_tracker.width());
    &&& after.binance_price == t.price
    &&& after.prev_binance_price == t.price
    &&& after.binance_ts == t.exchange_ts_ms
    &&& after.sigma_real_cached == before.sigma_real_cached
    &&& effects.sample is Some <==> sampled
    &&& sampled ==> effects.sample->0.base == before.ewma_vol.last_sample_price
        && effects.sample->0.elapsed_ms == t.exchange_ts_ms - before.ewma_vol.last_sample_ts
    &&& after.ewma_vol.n_samples == before.ewma_vol.n_samples + if sampled {
        1int
    } else {
        0
    }
    &&& after.ewma_vol.seeded == (before.ewma_vol.seeded || !t.price.le(Real { bits: 0 }))
    &&& after.ewma_vol.min_samples == before.ewma_vol.min_samples
    &&& if sampled || before.ewma_vol.seeds(!t.price.le(Real { bits: 0 })) {
        after.ewma_vol.last_sample_price == t.price && after.ewma_vol.last_sample_ts
            == t.exchange_ts_ms
    } else {
        after.ewma_vol.last_sample_price == before.ewma_vol.last_sample_price
            && after.ewma_vol.last_sample_ts == before.ewma_vol.last_sample_ts
    }
    &&& after.trade_buffer@ == before.trade_buffer.after(t.exchange_ts_ms, t)
    &&& after.vwap_tracker@ == all.skip(k)
    &&& effects.left_window@ == all.take(k)
    &&& after.vwap_tracker.width() == before.vwap_tracker.width()
    &&& after.regime.width() == before.regime.width()
    &&& after.regime@ == (if before.ticks(t) {
        before.regime.after(t.exchange_ts_ms, before.prev_binance_price.lt(t.price))
    } else {
        before.regime@
    })
}

impl BinanceState {
    pub open spec fn wf(&self) -> bool {
        self.regime.wf() && self.trade_buffer.window_ms == TRADE_BUFFER_MS
    }

    pub fn new(ewma_min_samples: u32, vwap_window_ms: i64, regime_window_ms: i64) -> (s: Self)
        ensures
            s.wf(),
            s.ewma_vol.n_samples == 0,
            !s.ewma_vol.seeded,
            s.ewma_vol.min_samples == ewma_min_samples,
            s.trade_buffer@.len() == 0,
            s.binance_price == (Real { bits: 0 }),
            s.binance_ts == 0,
            s.prev_binance_price == (Real { bits: 0 }),
            s.vwap_tracker@.len() == 0,
            s.vwap_tracker.width() == vwap_window_ms,
            s.regime@.len() == 0,
            s.regime.width() == regime_window_ms,
            s.sigma_real_cached == (Real { bits: 0 }),
    {
        BinanceState {
            ewma_vol: SampledEwmaVol::new(Real::zero(), ewma_min_samples),
            trade_buffer: RollingWindow::new(TRADE_BUFFER_MS),
            binance_price: Real::zero(),
            binance_ts: 0,
            prev_binance_price: Real::zero(),
            vwap_tracker: VwapTracker::new(vwap_window_ms),
            regime: RegimeClassifier::new(regime_window_ms),
            sigma_real_cached: Real::zero(),
        }
    }

    /// Whether a trade is a tick: the price differs from a positive one before it.
    pub open spec fn ticks(self, t: BinanceTrade) -> bool {
        self.prev_binance_price.pos() && !t.price.same(self.prev_binance_price)
    }

    /// Takes a trade in.
    pub fn on_trade(&mut self, t: BinanceTrade) -> (effects: TradeEffects)
        requires
            old(self).wf(),
            old(self).ewma_vol.n_samples < u32::MAX,
            old(self).regime@.len() < u32::MAX,
        ensures
            final(self).wf(),
            trade_taken(*old(self), t, *final(self), effects),
    {
        self.binance_price = t.price;
        self.binance_ts = t.exchange_ts_ms;
        let counts = !t.price.at_most(Real::zero());
        let sample = self.ewma_vol.update(t.price, counts, t.exchange_ts_ms);
        let left_window = self.vwap_tracker.update(t.exchange_ts_ms, t.price, t.qty);
        // Only count actual price changes: identical prices are noise, not direction
        if self.prev_binance_price.is_positive() && !t.price.equals(self.prev_binance_price) {
            self.regime.update(t.exchange_ts_ms, self.prev_binance_price.less(t.price));
        }
        self.prev_binance_price = t.price;
        let _ = self.trade_buffer.push(t.exchange_ts_ms, t);
        TradeEffects { sample, left_window }
    }

    /// The volatility of an estimate.
    pub open spec fn sigma_of(self, raw: Real, floor: Real) -> Real {
        if self.ewma_vol.n_samples >= self.ewma_vol.min_samples {
            raw.greater(floor)
        } else {
            Real { bits: 0 }
        }
    }

    /// Remembers the volatility after a sample: the estimate, but no less than a floor, and none
    /// before there are enough samples.
    pub fn recache_sigma(&mut self, raw: Real, floor: Real)
        ensures
            *final(self) == (BinanceState {
                sigma_real_cached: if old(self).ewma_vol.n_samples
                    >= old(self).ewma_vol.min_samples {
                    raw.greater(floor)
                } else {
                    Real { bits: 0 }
                },
                ..*old(self)
            }),
            final(self).sigma_real_cached == old(self).sigma_of(raw, floor),
    {
        self.sigma_real_cached =
        if self.ewma_vol.is_valid() {
            raw.max(floor)
        } else {
            Real::zero()
        };
    }
}

/// Owned by the engine task. Holds one market at a time.
#[derive(Clone)]
pub struct MarketState {
    pub info: MarketInfo,
    pub strike: Real,
    pub bn: BinanceState,
    pub up_bid: Real,
    pub up_ask: Real,
    pub down_bid: Real,
    pub down_ask: Real,
    pub pm_last_ts: i64,
    pub up_book: OrderBook,
    pub down_book: OrderBook,
    pub cross_markets: Vec<CrossMarketState>,
    pub position: PositionTracker,
    pub total_signals: u32,
    pub total_orders: u32,
    pub total_filled: u32,
    pub gross_pnl: Real,
    pub strategy_stats: NameTable<StrategyStats>,
}

/// How old a feed may be before it counts as stale, in milliseconds.
pub const STALE_MS: i64 = 5000;

/// Whether a feed that last spoke at `last_ms` is stale. A feed that never spoke is not.
pub open spec fn feed_is_stale(last_ms: i64, now_ms: i64) -> bool {
    last_ms > 0 && now_ms - last_ms > STALE_MS
}

fn feed_stale(last_ms: i64, now_ms: i64) -> (r: bool)
    ensures
        r == feed_is_stale(last_ms, now_ms),
{
    last_ms > 0 && now_ms as i128 - last_ms as i128 > STALE_MS as i128
}

/// The new value of a quote, where an update gives one.
pub open spec fn quoted(update: Option<Real>, current: Real) -> Real {
    match update {
        Some(v) => v,
        None => current,
    }
}

/// Whether `after` is what a full book makes of `before`: the levels of its token are arranged,
/// and their best prices are its quotes.
pub open spec fn book_taken(
    before: MarketState,
    is_up: bool,
    bids: Seq<(Real, Real)>,
    asks: Seq<(Real, Real)>,
    after: MarketState,
) -> bool {
    if is_up {
        &&& is_arranged(bids, true, after.up_book.bids@)
        &&& is_arranged(asks, false, after.up_book.asks@)
        &&& after == MarketState {
            up_book: after.up_book,
            up_bid: first_price(after.up_book.bids@),
            up_ask: first_price(after.up_book.asks@),
            ..before
        }
    } else {
        &&& is_arranged(bids, true, after.down_book.bids@)
        &&& is_arranged(asks, false, after.down_book.asks@)
        &&& after == MarketState {
            down_book: after.down_book,
            down_bid: first_price(after.down_book.bids@),
            down_ask: first_price(after.down_book.asks@),
            ..before
        }
    }
}

impl MarketState {
    pub open spec fn wf(&self) -> bool {
        &&& self.bn.wf()
        &&& one_per_interval(self.cross_markets@)
        &&& self.strategy_stats.wf()
    }

    /// Starts a market: quotes, books and counters start fresh; what is known of Binance
    /// carries over.
    pub fn new(info: MarketInfo, strike: Real, bn: BinanceState) -> (s: Self)
        requires
            bn.wf(),
        ensures
            s.wf(),
            s.info == info,
            s.strike == strike,
            s.bn == bn,
            s.up_bid == (Real { bits: 0 }),
            s.up_ask == (Real { bits: 0 }),
            s.down_bid == (Real { bits: 0 }),
            s.down_ask == (Real { bits: 0 }),
            s.pm_last_ts == 0,
            s.up_book.bids@.len() == 0,
            s.up_book.asks@.len() == 0,
            s.down_book.bids@.len() == 0,
            s.down_book.asks@.len() == 0,
            s.cross_markets@.len() == 0,
            s.position == PositionTracker::empty(),
            s.total_signals == 0,
            s.total_orders == 0,
            s.total_filled == 0,
            s.gross_pnl == (Real { bits: 0 }),
            s.strategy_stats@ == Map::<Seq<char>, StrategyStats>::empty(),
    {
        MarketState {
            info,
            strike,
            bn,
            up_bid: Real::zero(),
            up_ask: Real::zero(),
            down_bid: Real::zero(),
            down_ask: Real::zero(),
            pm_last_ts: 0,
            up_book: OrderBook::new(),
            down_book: OrderBook::new(),
            cross_markets: Vec::new(),
            position: PositionTracker::new(),
            total_signals: 0,
            total_orders: 0,
            total_filled: 0,
            gross_pnl: Real::zero(),
            strategy_stats: NameTable::new(),
        }
    }

    /// Extract BinanceState at market end to carry into next market.
    pub fn take_binance_state(self) -> (bn: BinanceState)
        ensures
            bn == self.bn,
    {
        self.bn
    }

    /// Takes a trade in; what does not come from Binance stays.
    pub fn on_binance_trade(&mut self, t: BinanceTrade) -> (effects: TradeEffects)
        requires
            old(self).wf(),
            old(self).bn.ewma_vol.n_samples < u32::MAX,
            old(self).bn.regime@.len() < u32::MAX,
        ensures
            final(self).wf(),
            trade_taken(old(self).bn, t, final(self).bn, effects),
            *final(self) == (MarketState { bn: final(self).bn, ..*old(self) }),
    {
        self.bn.on_trade(t)
    }

    /// Volatility per second, as it was remembered after the last sample.
    pub fn sigma_real(&self) -> (r: Real)
        ensures
            r == self.bn.sigma_real_cached,
    {
        self.bn.sigma_real_cached
    }

    pub open spec fn after_quote(self, q: PolymarketQuote) -> MarketState {
        MarketState {
            up_bid: quoted(q.up_bid, self.up_bid),
            up_ask: quoted(q.up_ask, self.up_ask),
            down_bid: quoted(q.down_bid, self.down_bid),
            down_ask: quoted(q.down_ask, self.down_ask),
            pm_last_ts: q.server_ts_ms,
            ..self
        }
    }

    /// Takes a quote in: each price that it gives replaces the one before.
    pub fn on_polymarket_quote(&mut self, q: PolymarketQuote)
        ensures
            *final(self) == old(self).after_quote(q),
    {
        if let Some(v) = q.up_bid {
            self.up_bid = v;
        }
        if let Some(v) = q.up_ask {
            self.up_ask = v;
        }
        if let Some(v) = q.down_bid {
            self.down_bid = v;
        }
        if let Some(v) = q.down_ask {
            self.down_ask = v;
        }
        self.pm_last_ts = q.server_ts_ms;
    }

    /// Takes a full book of one token in; its best prices become the quotes of that token.
    pub fn on_book_update(&mut self, book: PolymarketBook)
        requires
            prices_are_numbers(book.bids@),
            prices_are_numbers(book.asks@),
        ensures
            book_taken(*old(self), book.is_up_token, book.bids@, book.asks@, *final(self)),
    {
        if book.is_up_token {
            self.up_book.apply_snapshot(book.bids, book.asks);
            self.up_bid = self.up_book.best_bid();
            self.up_ask = self.up_book.best_ask();
        } else {
            self.down_book.apply_snapshot(book.bids, book.asks);
            self.down_bid = self.down_book.best_bid();
            self.down_ask = self.down_book.best_ask();
        }
    }

    /// Takes the quote of another market in: it replaces what was known for that interval.
    pub fn on_cross_market_quote(&mut self, e: CrossMarketState)
        requires
            one_per_interval(old(self).cross_markets@),
        ensures
            one_per_interval(final(self).cross_markets@),
            forall|c: CrossMarketState| #[trigger]
                final(self).cross_markets@.contains(c) <==> c == e || (c.interval != e.interval
                    && old(self).cross_markets@.contains(c)),
            *final(self) == (MarketState {
                cross_markets: final(self).cross_markets,
                ..*old(self)
            }),
    {
        let ghost before = self.cross_markets@;
        let mut i: usize = 0;
        while i < self.cross_markets.len()
            invariant
                i <= self.cross_markets.len(),
                *self == *old(self),
                before == self.cross_markets@,
                one_per_interval(before),
                forall|j: int| 0 <= j < i ==> (#[trigger] before[j]).interval != e.interval,
            decreases self.cross_markets.len() - i,
        {
            if self.cross_markets[i].interval == e.interval {
                self.cross_markets.set(i, e);
                proof {
                    let after = self.cross_markets@;
                    assert(after[i as int] == e);
                    assert forall|c: CrossMarketState| #[trigger]
                        after.contains(c) <==> c == e || (c.interval != e.interval
                            && before.contains(c)) by {
                        if after.contains(c) && c != e {
                            let k = choose|k: int| 0 <= k < after.len() && after[k] == c;
                            assert(before[k] == c);
                        }
                        if c.interval != e.interval && before.contains(c) {
                            let k = choose|k: int| 0 <= k < before.len() && before[k] == c;
                            assert(after[k] == c);
                        }
                    }
                    assert forall|a: int, b: int|
                        0 <= a < after.len() && 0 <= b < after.len() && (
                        #[trigger] after[a]).interval == (
                        #[trigger] after[b]).interval implies a == b by {
                        assert(before[a].interval == after[a].interval);
                        assert(before[b].interval == after[b].interval);
                    }
                }
                return ;
            }
            i = i + 1;
        }
        self.cross_markets.push(e);
        proof {
            let after = self.cross_markets@;
            assert(after[before.len() as int] == e);
            assert forall|c: CrossMarketState| #[trigger]
                after.contains(c) <==> c == e || (c.interval != e.interval && before.contains(c)) by {
                if after.contains(c) && c != e {
                    let k = choose|k: int| 0 <= k < after.len() && after[k] == c;
                    assert(before[k] == c);
                }
                if before.contains(c) {
                    let k = choose|k: int| 0 <= k < before.len() && before[k] == c;
                    assert(after[k] == c);
                }
            }
        }
    }

    /// Time until the market ends, in milliseconds; none is left after the end.
    pub fn time_left_ms(&self, now_ms: i64) -> (r: u64)
        ensures
            r == left_of(self.info.end_ms as int, now_ms as int),
            r == if self.info.end_ms > now_ms {
                self.info.end_ms - now_ms
            } else {
                0
            },
    {
        if self.info.end_ms > now_ms {
            (self.info.end_ms as i128 - now_ms as i128) as u64
        } else {
            0
        }
    }

    pub open spec fn stale(self, now_ms: i64) -> bool {
        feed_is_stale(self.bn.binance_ts, now_ms) || feed_is_stale(self.pm_last_ts, now_ms)
    }

    /// Whether either feed has been silent for more than five seconds.
    pub fn is_stale(&self, now_ms: i64) -> (r: bool)
        ensures
            r == self.stale(now_ms),
    {
        feed_stale(self.bn.binance_ts, now_ms) || feed_stale(self.pm_last_ts, now_ms)
    }

    pub open spec fn data_known(self) -> bool {
        self.bn.binance_price.pos() && (self.up_ask.pos() || self.down_ask.pos())
    }

    /// Whether there is a price on Binance and an ask on Polymarket.
    pub fn has_data(&self) -> (r: bool)
        ensures
            r == self.data_known(),
    {
        self.bn.binance_price.is_positive() && (self.up_ask.is_positive()
            || self.down_ask.is_positive())
    }
}

/// The counters of strategies with the results that are known filled in.
pub open spec fn with_results(
    stats: Map<Seq<char>, StrategyStats>,
    pnls: Map<Seq<char>, Real>,
) -> Map<Seq<char>, StrategyStats> {
    stats.map_entries(
        |name: Seq<char>, s: StrategyStats|
            if pnls.contains_key(name) {
                StrategyStats { gross_pnl: pnls[name], ..s }
            } else {
                s
            },
    )
}

impl MarketState {
    /// Closes the books of a market: the result in total, and that of each strategy that is
    /// counted.
    pub fn settle(&mut self, gross_pnl: Real, pnls: &NameTable<Real>)
        requires
            old(self).strategy_stats.wf(),
            pnls.wf(),
        ensures
            *final(self) == (MarketState {
                gross_pnl,
                strategy_stats: final(self).strategy_stats,
                ..*old(self)
            }),
            final(self).strategy_stats.wf(),
            final(self).strategy_stats@ == with_results(old(self).strategy_stats@, pnls@),
    {
        let ghost before = self.strategy_stats@;
        let rows = pnls.rows();
        let mut i: usize = 0;
        assert(before =~= with_results(before, known_by(rows@.take(0))));
        while i < rows.len()
            invariant
                i <= rows@.len(),
                distinct_names(rows@),
                *self == (MarketState { strategy_stats: self.strategy_stats, ..*old(self) }),
                self.strategy_stats.wf(),
                self.strategy_stats@ == with_results(before, known_by(rows@.take(i as int))),
            decreases rows@.len() - i,
        {
            let ghost part = rows@.take(i as int);
            let ghost more = rows@.take(i + 1);
            let ghost now = self.strategy_stats@;
            let name = rows[i].0.as_str();
            let pnl = rows[i].1;
            proof {
                lemma_known_by(rows@, i as int);
            }
            match self.strategy_stats.get(name) {
                Some(s) => {
                    let mut s = *s;
                    s.gross_pnl = pnl;
                    self.strategy_stats.set(name, s);
                    assert(self.strategy_stats@ =~= with_results(before, known_by(more)));
                },
                None => {
                    assert(self.strategy_stats@ =~= with_results(before, known_by(more)));
                },
            }
            i = i + 1;
        }
        proof {
            assert(rows@.take(i as int) =~= rows@);
            lemma_all_known(*pnls, rows@);
        }
        self.gross_pnl = gross_pnl;
    }
}

/// The values of rows by name.
spec fn known_by(rows: Seq<(String, Real)>) -> Map<Seq<char>, Real> {
    Map::new(
        |name: Seq<char>| has_name(rows, name),
        |name: Seq<char>| rows[place_of(rows, name)].1,
    )
}

proof fn lemma_known_by(rows: Seq<(String, Real)>, i: int)
    requires
        distinct_names(rows),
        0 <= i < rows.len(),
    ensures
        known_by(rows.take(i + 1)) == known_by(rows.take(i)).insert(rows[i].0@, rows[i].1),
{
    let a = rows.take(i);
    let b = rows.take(i + 1);
    assert(b[i].0@ == rows[i].0@);
    assert(has_name(b, rows[i].0@));
    assert forall|name: Seq<char>| has_name(a, name) implies has_name(b, name) && place_of(b, name)
        == place_of(a, name) by {
        let j = place_of(a, name);
        assert(b[j].0@ == name);
        let k = place_of(b, name);
        assert(rows[j].0@ == rows[k].0@);
    }
    assert forall|name: Seq<char>| has_name(b, name) && name != rows[i].0@ implies has_name(
        a,
        name,
    ) by {
        let k = place_of(b, name);
        assert(a[k].0@ == name);
    }
    let k = place_of(b, rows[i].0@);
    assert(rows[k].0@ == rows[i].0@);
    assert(known_by(b) =~= known_by(a).insert(rows[i].0@, rows[i].1));
}

proof fn lemma_all_known(t: NameTable<Real>, rows: Seq<(String, Real)>)
    requires
        distinct_names(rows),
        forall|i: int|
            0 <= i < rows.len() ==> t@.contains_key((#[trigger] rows[i]).0@) && t@[rows[i].0@]
                == rows[i].1,
        forall|name: Seq<char>| #[trigger]
            t@.contains_key(name) ==> exists|i: int|
                0 <= i < rows.len() && (#[trigger] rows[i]).0@ == name,
    ensures
        known_by(rows) == t@,
{
    assert forall|name: Seq<char>| known_by(rows).contains_key(name) == t@.contains_key(name) by {
        if has_name(rows, name) {
            assert(rows[place_of(rows, name)].0@ == name);
        }
    }
    assert(known_by(rows) =~= t@);
}

/// A market state that nothing has been heard in is not stale.
pub proof fn law_silent_state_is_not_stale(s: MarketState, now_ms: i64)
    requires
        s.bn.binance_ts <= 0,
        s.pm_last_ts <= 0,
    ensures
        !s.stale(now_ms),
{
}

/// Position of the running market.
#[derive(Clone, Copy, Debug, PartialEq, Eq, Structural)]
pub struct PositionTracker {
    pub side: Option<Side>,
    pub size: Real,
    pub avg_price: Real,
    pub pending_orders: u32,
}

impl PositionTracker {
    pub open spec fn empty() -> PositionTracker {
        PositionTracker {
            side: None,
            size: Real { bits: 0 },
            avg_price: Real { bits: 0 },
            pending_orders: 0,
        }
    }

    pub fn new() -> (p: Self)
        ensures
            p == Self::empty(),
    {
        PositionTracker {
            side: None,
            size: Real::zero(),
            avg_price: Real::zero(),
            pending_orders: 0,
        }
    }

    pub fn on_order_sent(&mut self)
        requires
            old(self).pending_orders < u32::MAX,
        ensures
            *final(self) == (PositionTracker {
                pending_orders: (old(self).pending_orders + 1) as u32,
                ..*old(self)
            }),
    {
        self.pending_orders = self.pending_orders + 1;
    }

    /// Whether an answer changes what is held.
    pub open spec fn adds(ack: OrderAck) -> bool {
        ack.fills() && ack.filled_price is Some && ack.filled_size is Some
    }

    /// The position after the answer to an order.
    pub open spec fn after_ack(self, ack: OrderAck, total: Real, average: Real) -> PositionTracker {
        PositionTracker {
            pending_orders: if self.pending_orders > 0 {
                (self.pending_orders - 1) as u32
            } else {
                0
            },
            side: self.side,
            size: if Self::adds(ack) {
                total
            } else {
                self.size
            },
            avg_price: if Self::adds(ack) && total.pos() {
                average
            } else {
                self.avg_price
            },
        }
    }

    /// Takes the answer to an order in. `total` is the size held with the filled size added;
    /// `average` is the average price of both together.
    pub fn on_fill(&mut self, ack: &OrderAck, total: Real, average: Real)
        ensures
            *final(self) == old(self).after_ack(*ack, total, average),
    {
        if self.pending_orders > 0 {
            self.pending_orders = self.pending_orders - 1;
        }
        if ack.is_fill() && ack.filled_price.is_some() && ack.filled_size.is_some() {
            if total.is_positive() {
                self.avg_price = average;
            }
            self.size = total;
        }
    }
}

/// Each price that a quote gives replaces that very price, and a price that it does not give
/// stays; nothing but prices and the time of the last quote changes.
pub proof fn law_quote_replaces(s: MarketState, q: PolymarketQuote)
    ensures
        ({
            let t = s.after_quote(q);
            &&& q.up_bid is Some ==> Some(t.up_bid) == q.up_bid
            &&& q.up_ask is Some ==> Some(t.up_ask) == q.up_ask
            &&& q.down_bid is Some ==> Some(t.down_bid) == q.down_bid
            &&& q.down_ask is Some ==> Some(t.down_ask) == q.down_ask
            &&& q.up_bid is None ==> t.up_bid == s.up_bid
            &&& q.up_ask is None ==> t.up_ask == s.up_ask
            &&& q.down_bid is None ==> t.down_bid == s.down_bid
            &&& q.down_ask is None ==> t.down_ask == s.down_ask
            &&& t.pm_last_ts == q.server_ts_ms
            &&& t.bn == s.bn && t.strike == s.strike && t.info == s.info
            &&& t.up_book == s.up_book && t.down_book == s.down_book
            &&& t.position == s.position && t.strategy_stats == s.strategy_stats
            &&& t.total_signals == s.total_signals && t.total_orders == s.total_orders
            &&& t.total_filled == s.total_filled && t.cross_markets == s.cross_markets
        }),
{
}

/// A book makes the highest bid that came the bid of its own token and the lowest ask its ask;
/// the other token and what does not come from Polymarket stay.
pub proof fn law_book_sets_best_prices(
    before: MarketState,
    is_up: bool,
    bids: Seq<(Real, Real)>,
    asks: Seq<(Real, Real)>,
    after: MarketState,
)
    requires
        book_taken(before, is_up, bids, asks, after),
        bids.len() <= usize::MAX,
        asks.len() <= usize::MAX,
    ensures
        ({
            let bid = if is_up {
                after.up_bid
            } else {
                after.down_bid
            };
            let ask = if is_up {
                after.up_ask
            } else {
                after.down_ask
            };
            &&& forall|k: int| 0 <= k < bids.len() ==> (#[trigger] bids[k]).0.key() <= bid.key()
            &&& forall|k: int| 0 <= k < asks.len() ==> ask.key() <= (#[trigger] asks[k]).0.key()
            &&& bids.len() > 0 ==> exists|k: int|
                0 <= k < bids.len() && (#[trigger] bids[k]).0 == bid
            &&& asks.len() > 0 ==> exists|k: int|
                0 <= k < asks.len() && (#[trigger] asks[k]).0 == ask
        }),
        is_up ==> after.down_bid == before.down_bid && after.down_ask == before.down_ask
            && after.down_book == before.down_book,
        !is_up ==> after.up_bid == before.up_bid && after.up_ask == before.up_ask && after.up_book
            == before.up_book,
        after.bn == before.bn && after.strike == before.strike && after.position == before.position,
        after.pm_last_ts == before.pm_last_ts,
{
    let book = if is_up {
        after.up_book
    } else {
        after.down_book
    };
    law_best_prices(book, bids, asks);
    law_best_prices_are_there(book, bids, asks);
}

/// The price and the time of Binance are those of the last trade. A trade is a tick exactly
/// where its price differs from a positive one before it, up where it is the higher one; it is
/// the newest trade of both windows.
pub proof fn law_trade_moves_binance(
    before: BinanceState,
    t: BinanceTrade,
    after: BinanceState,
    effects: TradeEffects,
)
    requires
        trade_taken(before, t, after, effects),
        0 < before.trade_buffer.window_ms,
        0 < before.regime.width(),
        0 < before.vwap_tracker.width(),
    ensures
        after.binance_price == t.price,
        after.binance_ts == t.exchange_ts_ms,
        after.prev_binance_price == t.price,
        after.trade_buffer@.len() > 0 && after.trade_buffer@.last() == (t.exchange_ts_ms, t),
        after.vwap_tracker@.len() > 0 && after.vwap_tracker@.last() == (
            t.exchange_ts_ms,
            (t.price, t.qty),
        ),
        effects.left_window@ + after.vwap_tracker@ == before.vwap_tracker@.push(
            (t.exchange_ts_ms, (t.price, t.qty)),
        ),
        !before.prev_binance_price.pos() || t.price.same(before.prev_binance_price)
            ==> after.regime@ == before.regime@,
        before.prev_binance_price.pos() && !t.price.same(before.prev_binance_price)
            ==> after.regime@.len() > 0 && after.regime@.last() == (
            t.exchange_ts_ms,
            before.prev_binance_price.lt(t.price),
        ),
{
    let a = before.trade_buffer@.push((t.exchange_ts_ms, t));
    lemma_stale_count(a, t.exchange_ts_ms - before.trade_buffer.window_ms);
    let v = before.vwap_tracker@.push((t.exchange_ts_ms, (t.price, t.qty)));
    lemma_stale_count(v, t.exchange_ts_ms - before.vwap_tracker.width());
    let k = stale_count(v, t.exchange_ts_ms - before.vwap_tracker.width());
    assert(v.take(k) + v.skip(k) =~= v);
    let g = before.regime@.push((t.exchange_ts_ms, before.prev_binance_price.lt(t.price)));
    lemma_stale_count(g, t.exchange_ts_ms - before.regime.width());
    assert(a[a.len() - 1].0 == t.exchange_ts_ms);
    assert(v[v.len() - 1].0 == t.exchange_ts_ms);
    assert(g[g.len() - 1].0 == t.exchange_ts_ms);
}

/// A feed that spoke is stale once it has been silent for more than five seconds; a market is
/// stale exactly where one of its two feeds is.
pub proof fn law_stale(s: MarketState, now_ms: i64)
    ensures
        s.stale(now_ms) <==> (s.bn.binance_ts > 0 && now_ms - s.bn.binance_ts > 5_000) || (
        s.pm_last_ts > 0 && now_ms - s.pm_last_ts > 5_000),
{
}

/// A market has data with a price on Binance and an ask of either token.
pub proof fn law_has_data(s: MarketState)
    ensures
        s.data_known() ==> s.bn.binance_price.pos(),
        s.bn.binance_price.pos() && s.up_ask.pos() ==> s.data_known(),
        s.bn.binance_price.pos() && s.down_ask.pos() ==> s.data_known(),
        !s.up_ask.pos() && !s.down_ask.pos() ==> !s.data_known(),
{
}

/// The result of a strategy is the one that is known for it; its counts and the strategies
/// without a known result stay as they were.
pub proof fn law_results_filled_in(
    stats: Map<Seq<char>, StrategyStats>,
    pnls: Map<Seq<char>, Real>,
    name: Seq<char>,
)
    ensures
        with_results(stats, pnls).contains_key(name) <==> stats.contains_key(name),
        stats.contains_key(name) && pnls.contains_key(name) ==> with_results(
            stats,
            pnls,
        )[name].gross_pnl == pnls[name],
        stats.contains_key(name) && !pnls.contains_key(name) ==> with_results(stats, pnls)[name]
            == stats[name],
        stats.contains_key(name) ==> ({
            let a = with_results(stats, pnls)[name];
            a.signals == stats[name].signals && a.orders == stats[name].orders && a.filled
                == stats[name].filled && a.total_edge == stats[name].total_edge
        }),
{
}

/// The answer to an order takes it off those that are pending. A fill makes the size held what it
/// comes to together, and the average price likewise where something is held; any other answer
/// leaves both.
pub proof fn law_position_after_ack(p: PositionTracker, ack: OrderAck, total: Real, average: Real)
    ensures
        ({
            let q = p.after_ack(ack, total, average);
            let filled = (ack.status is Filled || ack.status is PartialFill)
                && ack.filled_price is Some && ack.filled_size is Some;
            &&& p.pending_orders > 0 ==> q.pending_orders == p.pending_orders - 1
            &&& p.pending_orders == 0 ==> q.pending_orders == 0
            &&& filled ==> q.size == total
            &&& filled && total.pos() ==> q.avg_price == average
            &&& !filled ==> q.size == p.size && q.avg_price == p.avg_price
            &&& q.side == p.side
        }),
{
}

/// Fresh counters and an empty position are all zero.
pub proof fn law_fresh_state()
    ensures
        StrategyStats::fresh().signals == 0 && StrategyStats::fresh().orders == 0,
        StrategyStats::fresh().filled == 0 && StrategyStats::fresh().gross_pnl.bits == 0,
        StrategyStats::fresh().total_edge.bits == 0,
        PositionTracker::empty().side is None && PositionTracker::empty().size.bits == 0,
        PositionTracker::empty().avg_price.bits == 0 && PositionTracker::empty().pending_orders == 0,
{
}

/// The volatility that is remembered is the estimate, but no less than the floor, and none before
/// there are enough samples.
pub proof fn law_sigma(bn: BinanceState, raw: Real, floor: Real)
    ensures
        bn.ewma_vol.n_samples < bn.ewma_vol.min_samples ==> bn.sigma_of(raw, floor).bits == 0,
        bn.ewma_vol.n_samples >= bn.ewma_vol.min_samples && floor.le(raw) ==> bn.sigma_of(raw, floor)
            == raw,
        bn.ewma_vol.n_samples >= bn.ewma_vol.min_samples && raw.lt(floor) ==> bn.sigma_of(raw, floor)
            == floor,
{
}

/// The time that is left until an end.
pub open spec fn left_of(end_ms: int, now_ms: int) -> int {
    if end_ms > now_ms {
        end_ms - now_ms
    } else {
        0
    }
}

/// Before the end the time left and the time that it is now make the end; from the end on nothing
/// is left.
pub proof fn law_left(end_ms: int, now_ms: int)
    ensures
        now_ms <= end_ms ==> now_ms + left_of(end_ms, now_ms) == end_ms,
        end_ms <= now_ms ==> left_of(end_ms, now_ms) == 0,
{
}

/// Trades are kept for half a minute, and of each interval there is one market.
pub proof fn law_kept_markets(markets: Seq<CrossMarketState>, i: int, j: int)
    requires
        one_per_interval(markets),
        0 <= i < j < markets.len(),
    ensures
        markets[i].interval != markets[j].interval,
        TRADE_BUFFER_MS == 30_000,
{
}

} // verus!
