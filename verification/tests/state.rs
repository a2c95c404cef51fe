//! Order book, market state and position.

use polymarket_crypto::config::Interval;
use polymarket_crypto::engine::book::OrderBook;
use polymarket_crypto::engine::state::{BinanceState, CrossMarketState, MarketState, PositionTracker};
use polymarket_crypto::number::Real;
use polymarket_crypto::types::{BinanceTrade, MarketInfo, OrderAck, OrderStatus, PolymarketBook};
use polymarket_crypto::types::PolymarketQuote;

fn r(x: f64) -> Real {
    Real { bits: x.to_bits() }
}

fn f(x: Real) -> f64 {
    f64::from_bits(x.bits)
}

fn levels(v: &[(f64, f64)]) -> Vec<(Real, Real)> {
    v.iter().map(|l| (r(l.0), r(l.1))).collect()
}

fn make_book(bids: &[(f64, f64)], asks: &[(f64, f64)]) -> OrderBook {
    let mut ob = OrderBook::new();
    ob.apply_snapshot(levels(bids), levels(asks));
    ob
}

/// Scenario: Bids and asks passed in unsorted order to apply_snapshot().
/// Expected: Bids are sorted descending (best bid first), asks ascending (best ask first).
#[test]
fn test_apply_snapshot_sorts_correctly() {
    let ob = make_book(&[(0.48, 10.0), (0.50, 20.0)], &[(0.54, 10.0), (0.52, 20.0)]);
    assert_eq!(f(ob.bids[0].0), 0.50, "Best bid should be highest");
    assert_eq!(f(ob.asks[0].0), 0.52, "Best ask should be lowest");
}

/// Scenario: Completely empty book queried for best_bid and best_ask.
/// Expected: Both return 0.0 as the fallback when no levels exist.
#[test]
fn test_best_bid_ask_empty() {
    let ob = make_book(&[], &[]);
    assert_eq!(f(ob.best_bid()), 0.0);
    assert_eq!(f(ob.best_ask()), 0.0);
}

fn make_test_state(strike: f64, binance_price: f64) -> MarketState {
    let info = MarketInfo {
        slug: "test".to_string(),
        start_ms: 0,
        end_ms: 300_000,
        up_token_id: "up".to_string(),
        down_token_id: "down".to_string(),
    };
    let mut bn = BinanceState::new(5, 30_000, 60_000);
    bn.binance_price = r(binance_price);
    MarketState::new(info, r(strike), bn)
}

/// Scenario: Market ends at 300s; check at 200s and at 400s (past expiry).
/// Expected: 100s remaining mid-market, 0s after expiry (clamped to non-negative).
#[test]
fn test_time_left_s() {
    let state = make_test_state(95_000.0, 96_000.0);
    assert!((state.time_left_ms(200_000) as f64 / 1000.0 - 100.0).abs() < 1e-10);
    assert_eq!(state.time_left_ms(400_000) as f64 / 1000.0, 0.0); // past expiry
}

/// Scenario: Binance timestamp is fresh but Polymarket is 6s old (>5s threshold).
/// Expected: is_stale() returns true because PM feed exceeds the staleness limit.
#[test]
fn test_is_stale_polymarket_path() {
    let mut state = make_test_state(95_000.0, 96_000.0);
    state.bn.binance_ts = 100_000;
    state.pm_last_ts = 94_000; // PM is 6s old at now=100_000
    assert!(state.is_stale(100_000));
}

/// Scenario: Both timestamps are 0 (no data received yet).
/// Expected: is_stale() returns false because staleness requires ts > 0.
#[test]
fn test_is_stale_no_data_not_stale() {
    let state = make_test_state(95_000.0, 96_000.0);
    // Both timestamps are 0: not stale (condition requires ts > 0)
    assert!(!state.is_stale(100_000));
}

/// Scenario: Binance price is set but no PM quotes yet, then up_ask is set.
/// Expected: has_data() is false with BN only, true once any PM ask appears.
#[test]
fn test_has_data_needs_both() {
    let mut state = make_test_state(95_000.0, 96_000.0);
    assert!(!state.has_data(), "No PM data yet");
    state.up_ask = r(0.55);
    assert!(state.has_data(), "BN price + up_ask = has data");
}

/// Scenario: Binance price set plus only down_ask (no up token data).
/// Expected: has_data() returns true because down-side ask alone satisfies the requirement.
#[test]
fn test_has_data_down_only() {
    let mut state = make_test_state(95_000.0, 96_000.0);
    state.down_ask = r(0.45);
    assert!(state.has_data(), "Down-only data counts");
}

fn fill_ack(order_id: u64, price: f64, size: f64) -> OrderAck {
    OrderAck {
        order_id,
        status: OrderStatus::Filled,
        filled_price: Some(r(price)),
        filled_size: Some(r(size)),
    }
}

fn on_fill(pt: &mut PositionTracker, ack: &OrderAck) {
    let price = ack.filled_price.map_or(0.0, f);
    let size = ack.filled_size.map_or(0.0, f);
    let total = f(pt.size) + size;
    let average = (f(pt.avg_price) * f(pt.size) + price * size) / total;
    pt.on_fill(ack, r(total), r(average));
}

/// Scenario: Two sequential fills at prices 0.50 and 0.60 for 10 units each.
/// Expected: Total size is 20, avg_price is 0.55 (weighted average), pending_orders resets to 0.
#[test]
fn test_position_tracker_fill_averaging() {
    let mut pt = PositionTracker::new();
    pt.on_order_sent();
    on_fill(&mut pt, &fill_ack(1, 0.50, 10.0));
    pt.on_order_sent();
    on_fill(&mut pt, &fill_ack(2, 0.60, 10.0));
    assert!((f(pt.size) - 20.0).abs() < 1e-10);
    assert!((f(pt.avg_price) - 0.55).abs() < 1e-10);
    assert_eq!(pt.pending_orders, 0);
}

/// Scenario: on_fill() called without a preceding on_order_sent().
/// Expected: pending_orders stays at 0 (underflow guard prevents wrapping).
#[test]
fn test_position_tracker_pending_underflow_guard() {
    let mut pt = PositionTracker::new();
    // on_fill without on_order_sent: pending stays 0
    on_fill(&mut pt, &fill_ack(1, 0.55, 10.0));
    assert_eq!(pt.pending_orders, 0);
}

// ── Own cases ──

#[test]
fn a_refused_order_changes_nothing_held() {
    let mut pt = PositionTracker::new();
    pt.on_order_sent();
    on_fill(&mut pt, &fill_ack(1, 0.50, 10.0));
    pt.on_order_sent();
    let mut ack = fill_ack(2, 0.90, 10.0);
    ack.status = OrderStatus::Rejected("no".to_string());
    on_fill(&mut pt, &ack);
    assert_eq!((f(pt.size), f(pt.avg_price), pt.pending_orders), (10.0, 0.50, 0));
}

#[test]
fn equal_prices_keep_their_order() {
    let ob = make_book(&[(0.5, 1.0), (0.6, 2.0), (0.5, 3.0)], &[(0.7, 1.0), (0.7, 2.0), (0.65, 3.0)]);
    assert_eq!(ob.bids, levels(&[(0.6, 2.0), (0.5, 1.0), (0.5, 3.0)]));
    assert_eq!(ob.asks, levels(&[(0.65, 3.0), (0.7, 1.0), (0.7, 2.0)]));
    assert_eq!(f(ob.best_bid()), 0.6);
    assert_eq!(f(ob.best_ask()), 0.65);
}

#[test]
fn a_quote_keeps_what_it_leaves_out() {
    let mut state = make_test_state(95_000.0, 96_000.0);
    state.up_bid = r(0.1);
    state.on_polymarket_quote(PolymarketQuote {
        server_ts_ms: 7,
        up_bid: None,
        up_ask: Some(r(0.2)),
        down_bid: Some(r(0.3)),
        down_ask: None,
    });
    assert_eq!(
        (f(state.up_bid), f(state.up_ask), f(state.down_bid), f(state.down_ask), state.pm_last_ts),
        (0.1, 0.2, 0.3, 0.0, 7)
    );
}

#[test]
fn a_book_sets_the_quotes_of_its_token() {
    let mut state = make_test_state(95_000.0, 96_000.0);
    state.on_book_update(PolymarketBook {
        is_up_token: false,
        bids: levels(&[(0.40, 1.0), (0.42, 1.0)]),
        asks: levels(&[(0.46, 1.0), (0.44, 1.0)]),
    });
    assert_eq!((f(state.down_bid), f(state.down_ask)), (0.42, 0.44));
    assert_eq!((f(state.up_bid), f(state.up_ask)), (0.0, 0.0));
    state.on_book_update(PolymarketBook { is_up_token: true, bids: levels(&[(0.5, 1.0)]), asks: vec![] });
    assert_eq!((f(state.up_bid), f(state.up_ask)), (0.5, 0.0));
    assert_eq!(f(state.down_ask), 0.44);
}

#[test]
fn one_entry_for_each_interval() {
    let quote = |interval: Interval, ask: f64| CrossMarketState {
        interval,
        up_bid: r(0.0),
        up_ask: r(ask),
        down_bid: r(0.0),
        down_ask: r(0.0),
        strike: r(95_000.0),
        end_ms: 1,
    };
    let mut state = make_test_state(95_000.0, 96_000.0);
    state.on_cross_market_quote(quote(Interval::M15, 0.1));
    state.on_cross_market_quote(quote(Interval::H1, 0.2));
    state.on_cross_market_quote(quote(Interval::M15, 0.3));
    let held: Vec<(Interval, f64)> = state.cross_markets.iter().map(|c| (c.interval, f(c.up_ask))).collect();
    assert_eq!(held, vec![(Interval::M15, 0.3), (Interval::H1, 0.2)]);
}

#[test]
fn stale_after_five_seconds() {
    let mut state = make_test_state(95_000.0, 96_000.0);
    state.bn.binance_ts = 1_000;
    assert!(!state.is_stale(6_000));
    assert!(state.is_stale(6_001));
    state.bn.binance_ts = i64::MIN;
    assert!(!state.is_stale(i64::MAX));
}

#[test]
fn trades_move_the_underlying() {
    let mut bn = BinanceState::new(5, 30_000, 60_000);
    let trade = |ts: i64, price: f64| BinanceTrade { exchange_ts_ms: ts, price: r(price), qty: r(2.0), is_buy: true };
    let first = bn.on_trade(trade(1_000, 100.0));
    assert!(first.sample.is_none());
    // An equal price is no tick; a higher one is.
    bn.on_trade(trade(1_100, 100.0));
    let third = bn.on_trade(trade(2_000, 101.0));
    let sample = third.sample.unwrap();
    assert_eq!((f(sample.base), sample.elapsed_ms), (100.0, 1_000));
    assert_eq!((f(bn.binance_price), bn.binance_ts, f(bn.prev_binance_price)), (101.0, 2_000, 101.0));
    // Thirty seconds later the first two have left the window.
    let later = bn.on_trade(trade(31_500, 99.0));
    assert_eq!(later.left_window, vec![(1_000, (r(100.0), r(2.0))), (1_100, (r(100.0), r(2.0)))]);
    assert_eq!(bn.ewma_vol.n_samples, 2);
}

#[test]
fn the_underlying_outlives_the_market() {
    let state = make_test_state(95_000.0, 96_000.0);
    assert_eq!(f(state.take_binance_state().binance_price), 96_000.0);
}

#[test]
fn a_trade_leaves_the_quotes_alone() {
    let mut state = make_test_state(95_000.0, 96_000.0);
    state.up_ask = r(0.4);
    let t = BinanceTrade { exchange_ts_ms: 9_000, price: r(95_500.0), qty: r(1.0), is_buy: false };
    state.on_binance_trade(t);
    assert_eq!((f(state.bn.binance_price), state.bn.binance_ts), (95_500.0, 9_000));
    assert_eq!(f(state.up_ask), 0.4);
    assert_eq!(state.sigma_real(), state.bn.sigma_real_cached);
}
