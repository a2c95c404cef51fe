//! From signals to orders.

use polymarket_crypto::engine::pipeline::{process_signals, select_signals, slipped_price, Calls, House};
use polymarket_crypto::engine::pipeline::{OrderSums, ProcessConfig, Scored, SignalSink};
use polymarket_crypto::engine::risk::{limits_of, Amounts, StrategyRiskManager};
use polymarket_crypto::engine::state::{BinanceState, MarketState};
use polymarket_crypto::number::Real;
use polymarket_crypto::types::{MarketInfo, Order, Side, Signal};

fn r(x: f64) -> Real {
    Real { bits: x.to_bits() }
}

fn f(x: Real) -> f64 {
    f64::from_bits(x.bits)
}

/// Test sink that records calls for assertions.
struct TestSink {
    config: ProcessConfig,
    signals: Vec<String>,
    orders: Vec<(String, Side, f64, f64)>, // (strategy, side, price, size)
    calls: Vec<String>,
    kelly: Option<f64>,
    raised: Option<f64>,
}

impl TestSink {
    fn live() -> Self {
        TestSink {
            config: ProcessConfig::live(),
            signals: Vec::new(),
            orders: Vec::new(),
            calls: Vec::new(),
            kelly: None,
            raised: None,
        }
    }

    fn backtest() -> Self {
        TestSink { config: ProcessConfig::backtest(), ..TestSink::live() }
    }
}

impl SignalSink for TestSink {
    fn calls(&self) -> Calls {
        unreachable!()
    }

    fn on_signal(&mut self, sig: &Signal, _state: &MarketState, _now_ms: i64) {
        self.signals.push(sig.strategy.to_string());
        self.calls.push(format!("log {}", sig.strategy));
    }

    fn amounts(&mut self, sig: &Signal, risk: &StrategyRiskManager) -> Amounts {
        self.calls.push(format!("ask {}", sig.strategy));
        let b = 1000.0;
        let l = limits_of(sig.strategy).unwrap();
        let exposure = risk.strategy_state(sig.strategy).map_or(0.0, |s| f(s.exposure));
        Amounts {
            daily_floor: r(-0.03 * b),
            weekly_floor: r(-0.08 * b),
            max_portfolio: r(0.15 * b),
            max_strategy: r(f(l.max_total_frac) * b),
            kelly_size: r(self.kelly.unwrap_or(f(sig.size_frac) * b)),
            per_trade_cap: r(f(l.max_per_trade_frac) * b),
            strategy_room: r(f(l.max_total_frac) * b - exposure),
            portfolio_room: r(0.15 * b - f(risk.total_exposure)),
            max_delta: r(0.0),
            max_gamma_neg: r(0.0),
        }
    }

    fn sums(
        &mut self,
        sig: &Signal,
        order: &Order,
        state: &MarketState,
        risk: &StrategyRiskManager,
    ) -> OrderSums {
        self.calls.push(format!("sum {}", sig.strategy));
        let exposure = risk.strategy_state(sig.strategy).map_or(0.0, |s| f(s.exposure));
        let edges = state.strategy_stats.get(sig.strategy).map_or(0.0, |s| f(s.total_edge));
        OrderSums {
            raised: r(self.raised.unwrap_or(f(order.price) + f(self.config.slippage_cents))),
            exposure: r(exposure + f(order.size)),
            total_exposure: r(f(risk.total_exposure) + f(order.size)),
            total_edge: r(edges + f(sig.edge)),
        }
    }

    fn on_order(&mut self, sig: &Signal, order: &Order, _state: &MarketState, _now_ms: i64) {
        self.orders.push((sig.strategy.to_string(), sig.side, f(order.price), f(order.size)));
        self.calls.push(format!("send {} {}", sig.strategy, order.id));
    }
}

fn make_state() -> (MarketState, i64) {
    let now_ms: i64 = 1_700_000_100_000;
    let info = MarketInfo {
        slug: "btc-updown-5m-1700000090".to_string(),
        start_ms: now_ms - 10_000,
        end_ms: now_ms + 120_000,
        up_token_id: "up-token".to_string(),
        down_token_id: "down-token".to_string(),
    };
    let mut state = MarketState::new(info, r(95_000.0), BinanceState::new(5, 30_000, 60_000));
    state.bn.binance_price = r(95_500.0);
    state.bn.binance_ts = now_ms;
    state.pm_last_ts = now_ms;
    state.up_ask = r(0.50);
    state.down_ask = r(0.50);
    (state, now_ms)
}

fn make_signal(strategy: &'static str, side: Side, edge: f64, confidence: f64, price: f64) -> Signal {
    Signal {
        strategy,
        side,
        edge: r(edge),
        fair_value: r(price + edge),
        market_price: r(price),
        confidence: r(confidence),
        size_frac: r(0.02),
        is_passive: false,
        use_bid: false,
    }
}

fn make_passive_signal(strategy: &'static str, side: Side, edge: f64, price: f64) -> Signal {
    Signal { is_passive: true, ..make_signal(strategy, side, edge, 0.5, price) }
}

fn scored(signals: &[Signal]) -> Vec<Scored> {
    signals.iter().map(|s| Scored { signal: *s, score: r(f(s.edge) * f(s.confidence)) }).collect()
}

struct Run {
    house: House,
    state: MarketState,
    risk: StrategyRiskManager,
    next_id: u64,
    dispatched: bool,
}

fn run(signals: &[Signal], house_side: Option<Side>, sink: &mut TestSink) -> Run {
    let (mut state, now) = make_state();
    let mut risk = StrategyRiskManager::new();
    let mut house = House::new();
    house.side = house_side;
    let mut next_id = 1;
    let (mut up, mut down) = (0.0, 0.0);
    for s in signals.iter().filter(|s| !s.is_passive) {
        match s.side {
            Side::Up => up += f(s.edge) * f(s.confidence),
            Side::Down => down += f(s.edge) * f(s.confidence),
        }
    }
    let config = sink.config;
    let dispatched = process_signals(
        &scored(signals), r(up), r(down), &mut state, &mut risk, &mut house, &mut next_id, now, &config, sink,
    );
    Run { house, state, risk, next_id, dispatched }
}

/// When house_side is None and active signals disagree, the dominant side
/// (by sum of edge * confidence) survives.
#[test]
fn test_deconfliction_picks_dominant_side() {
    let signals = vec![
        make_signal("latency_arb", Side::Up, 0.05, 0.8, 0.50),   // score = 0.04
        make_signal("convexity_fade", Side::Down, 0.03, 0.6, 0.50), // score = 0.018
    ];
    let mut sink = TestSink::live();
    run(&signals, None, &mut sink);

    // All logged signals should be Up only (Down was deconflicted away)
    assert!(
        sink.signals.iter().all(|s| s == "latency_arb"),
        "Only dominant side (Up) signals should be logged: {:?}", sink.signals
    );
    assert_eq!(sink.signals.len(), 1);
}

/// When house_side is set, opposite-side active signals are dropped.
#[test]
fn test_house_side_filters_opposite() {
    let signals = vec![make_signal("latency_arb", Side::Down, 0.05, 0.8, 0.50)];
    let mut sink = TestSink::live();
    run(&signals, Some(Side::Up), &mut sink);
    assert!(sink.signals.is_empty(), "Down signal should be filtered by house=Up");
}

/// Passive signals are exempt from house-side filtering.
#[test]
fn test_passive_exempt_from_house_side() {
    let signals = vec![make_passive_signal("lp_extreme", Side::Down, 0.05, 0.10)];
    let mut sink = TestSink::live();
    run(&signals, Some(Side::Up), &mut sink);
    assert_eq!(sink.signals.len(), 1, "Passive signal should survive house_side filter");
    assert_eq!(sink.signals[0], "lp_extreme");
}

/// Signals are sorted by edge * confidence descending before processing.
#[test]
fn test_signals_sorted_by_score() {
    let signals = vec![
        make_signal("convexity_fade", Side::Up, 0.02, 0.4, 0.50),  // score = 0.008
        make_signal("latency_arb", Side::Up, 0.05, 0.8, 0.50),     // score = 0.040
        make_signal("certainty_capture", Side::Up, 0.03, 0.9, 0.50), // score = 0.027
    ];
    let mut sink = TestSink::live();
    run(&signals, None, &mut sink);

    // Signals logged in score order: latency_arb (0.040), certainty_capture (0.027), convexity_fade (0.008)
    assert_eq!(sink.signals[0], "latency_arb");
    assert_eq!(sink.signals[1], "certainty_capture");
    assert_eq!(sink.signals[2], "convexity_fade");
}

/// Only signals with confidence >= 0.7 can set house_side.
#[test]
fn test_house_side_set_by_high_confidence_only() {
    // Only a low-confidence signal
    let signals = vec![make_signal("convexity_fade", Side::Up, 0.05, 0.4, 0.50)];
    let mut sink = TestSink::live();
    let end = run(&signals, None, &mut sink);
    assert!(end.house.side.is_none(), "Low-confidence signal should not set house_side");
}

/// High-confidence signal sets house_side.
#[test]
fn test_house_side_set_by_high_confidence() {
    let signals = vec![make_signal("strike_misalign", Side::Down, 0.05, 0.9, 0.50)];
    let mut sink = TestSink::live();
    let end = run(&signals, None, &mut sink);

    // If the signal passed risk and filled, house_side should be set
    assert!(!sink.orders.is_empty());
    assert_eq!(end.house.side, Some(Side::Down), "High-confidence signal should set house_side");
}

/// Backtest config applies +1 cent slippage to fill price.
#[test]
fn test_slippage_applied_in_backtest() {
    let signals = vec![make_signal("latency_arb", Side::Up, 0.05, 0.8, 0.50)];
    let mut sink = TestSink::backtest();
    run(&signals, None, &mut sink);
    let (_, _, price, _) = sink.orders[0];
    assert!((price - 0.51).abs() < 0.001, "Backtest slippage should add 0.01: got {}", price);
}

/// Live config does NOT apply slippage.
#[test]
fn test_no_slippage_in_live() {
    let signals = vec![make_signal("latency_arb", Side::Up, 0.05, 0.8, 0.50)];
    let mut sink = TestSink::live();
    run(&signals, None, &mut sink);
    let (_, _, price, _) = sink.orders[0];
    assert!((price - 0.50).abs() < 0.001, "Live should not add slippage: got {}", price);
}

/// Strategy stats are incremented for signals and orders.
#[test]
fn test_strategy_stats_incremented() {
    let signals = vec![make_signal("latency_arb", Side::Up, 0.05, 0.8, 0.50)];
    let mut sink = TestSink::live();
    let end = run(&signals, None, &mut sink);

    assert!(end.state.total_signals >= 1, "total_signals should be incremented");
    let stats = end.state.strategy_stats.get("latency_arb");
    assert!(stats.is_some(), "latency_arb should have stats");
    assert!(stats.unwrap().signals >= 1, "signal count should be incremented");
}

/// Empty signal buffer returns false and does nothing.
#[test]
fn test_empty_signals_noop() {
    let mut sink = TestSink::live();
    let end = run(&[], None, &mut sink);
    assert!(!end.dispatched, "Empty signals should return false");
    assert!(sink.signals.is_empty());
    assert!(sink.orders.is_empty());
}

// ── Own cases ──

#[test]
fn an_order_is_counted_once() {
    let signals = vec![
        make_signal("latency_arb", Side::Up, 0.05, 0.8, 0.50),
        make_signal("certainty_capture", Side::Up, 0.03, 0.9, 0.50),
    ];
    let mut sink = TestSink::live();
    let end = run(&signals, None, &mut sink);
    assert!(end.dispatched);
    assert_eq!(end.next_id, 3);
    assert_eq!(end.state.total_orders, 2);
    assert_eq!(end.state.position.pending_orders, 2);
    assert_eq!(f(end.risk.total_exposure), 40.0);
    assert_eq!(f(end.state.strategy_stats.get("latency_arb").unwrap().total_edge), 0.05);
    assert_eq!(sink.orders[0], ("latency_arb".to_string(), Side::Up, 0.50, 20.0));
}

#[test]
fn slippage_stops_at_99_cents() {
    assert_eq!(f(slipped_price(r(0.985), r(0.01), r(0.995))), 0.99);
    assert_eq!(f(slipped_price(r(0.5), r(0.01), r(0.51))), 0.51);
    assert_eq!(f(slipped_price(r(0.995), r(0.0), r(0.995))), 0.995);
}

#[test]
fn a_tie_goes_up() {
    let signals = vec![
        make_signal("latency_arb", Side::Down, 0.05, 0.8, 0.50),
        make_signal("convexity_fade", Side::Up, 0.05, 0.8, 0.50),
    ];
    let kept = select_signals(&scored(&signals), None, r(0.04), r(0.04));
    assert_eq!(kept.len(), 1);
    assert_eq!(kept[0].signal.side, Side::Up);
}

#[test]
fn the_house_turns_once() {
    let up = make_signal("latency_arb", Side::Up, 0.05, 0.7, 0.50);
    let down = make_signal("latency_arb", Side::Down, 0.05, 0.7, 0.50);
    let mut house = House::new();
    house.note_order(&up);
    assert_eq!((house.side, house.flips), (Some(Side::Up), 0));
    house.note_order(&down);
    assert_eq!((house.side, house.flips), (Some(Side::Down), 1));
    house.note_order(&up);
    assert_eq!((house.side, house.flips), (Some(Side::Down), 1));
    house.note_order(&make_passive_signal("lp_extreme", Side::Up, 0.1, 0.1));
    assert_eq!((house.side, house.flips), (Some(Side::Down), 1));
}

#[test]
fn the_calls_of_a_sink() {
    let signals = vec![
        make_signal("convexity_fade", Side::Up, 0.02, 0.4, 0.50),
        make_signal("latency_arb", Side::Up, 0.05, 0.8, 0.50),
        make_signal("certainty_capture", Side::Down, 0.03, 0.9, 0.50),
        make_passive_signal("lp_extreme", Side::Down, 0.05, 0.10),
    ];
    let mut sink = TestSink::live();
    let done = run(&signals, None, &mut sink);
    // The down side is dropped; the others are logged by score before any is checked.
    assert_eq!(
        sink.calls,
        vec![
            "log latency_arb", "log lp_extreme", "log convexity_fade",
            "ask latency_arb", "sum latency_arb", "send latency_arb 1",
            "ask lp_extreme", "sum lp_extreme", "send lp_extreme 2",
            "ask convexity_fade", "sum convexity_fade", "send convexity_fade 3",
        ]
    );
    assert_eq!((done.next_id, done.dispatched, done.house.side), (4, true, Some(Side::Up)));
    assert_eq!((done.state.total_signals, done.state.total_orders), (3, 3));
}

#[test]
fn the_amounts_of_the_sink_decide() {
    let signals = vec![make_signal("latency_arb", Side::Up, 0.05, 0.8, 0.50)];
    let mut sink = TestSink { kelly: Some(0.0), ..TestSink::live() };
    let done = run(&signals, None, &mut sink);
    assert_eq!(sink.calls, vec!["log latency_arb", "ask latency_arb"]);
    assert_eq!((done.next_id, done.dispatched, done.house.side), (1, false, None));
    assert_eq!((done.state.total_signals, done.state.total_orders), (1, 0));
    let mut sink = TestSink { kelly: Some(7.5), ..TestSink::live() };
    run(&signals, None, &mut sink);
    assert_eq!(sink.orders, vec![("latency_arb".to_string(), Side::Up, 0.50, 7.5)]);
}

#[test]
fn no_signals_no_calls() {
    let mut sink = TestSink::live();
    let done = run(&[], None, &mut sink);
    assert!(sink.calls.is_empty() && !done.dispatched);
    assert_eq!((done.next_id, done.state.total_signals), (1, 0));
    assert_eq!((done.house.side, f(done.risk.total_exposure)), (None, 0.0));
}

#[test]
fn the_price_of_an_order() {
    assert_eq!(f(ProcessConfig::live().slippage_cents), 0.0);
    assert_eq!(f(ProcessConfig::backtest().slippage_cents), 0.01);
    let signals = vec![make_signal("latency_arb", Side::Up, 0.05, 0.8, 0.50)];
    // A live order goes out at the price of its signal, whatever the sink makes of it.
    let mut sink = TestSink { raised: Some(0.77), ..TestSink::live() };
    run(&signals, None, &mut sink);
    assert_eq!(sink.orders[0].2, 0.50);
    let mut sink = TestSink { raised: Some(0.77), ..TestSink::backtest() };
    run(&signals, None, &mut sink);
    assert_eq!(sink.orders[0].2, 0.77);
    let mut sink = TestSink { raised: Some(1.5), ..TestSink::backtest() };
    run(&signals, None, &mut sink);
    assert_eq!(sink.orders[0].2, 0.99);
}
