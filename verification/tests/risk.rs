//! Risk gates and settlement.

use polymarket_crypto::engine::risk::{execution, fill_wins, limits_of, Amounts, Gate, GreeksTracker};
use polymarket_crypto::engine::risk::StrategyRiskManager;
use polymarket_crypto::engine::state::{BinanceState, MarketState};
use polymarket_crypto::number::Real;
use polymarket_crypto::types::{Fill, MarketInfo, Order, OrderType, Side, Signal};

fn r(x: f64) -> Real {
    Real { bits: x.to_bits() }
}

fn f(x: Real) -> f64 {
    f64::from_bits(x.bits)
}

fn phi(x: f64) -> f64 {
    0.398_942_280_401_432_7 * (-0.5 * x * x).exp()
}

fn d2(s: f64, k: f64, sigma: f64, tau: f64) -> f64 {
    ((s / k).ln() - 0.5 * sigma * sigma * tau) / (sigma * tau.sqrt())
}

fn delta_bin(s: f64, k: f64, sigma: f64, tau: f64) -> f64 {
    phi(d2(s, k, sigma, tau)) / (s * sigma * tau.sqrt())
}

fn gamma_bin(s: f64, k: f64, sigma: f64, tau: f64) -> f64 {
    let sig_sqrt_tau = sigma * tau.sqrt();
    let d = d2(s, k, sigma, tau);
    -phi(d) / (s * s * sig_sqrt_tau) * (1.0 + d / sig_sqrt_tau)
}

fn greeks_totals(t: &GreeksTracker, s: f64, k: f64, sigma: f64, tau: f64) -> (f64, f64) {
    let (unit_delta, unit_gamma) = (delta_bin(s, k, sigma, tau), gamma_bin(s, k, sigma, tau));
    let mut total = (0.0, 0.0);
    for (side, size) in &t.positions {
        let sign = if *side == Side::Up { 1.0 } else { -1.0 };
        total.0 += sign * f(*size) * unit_delta;
        total.1 += sign * f(*size) * unit_gamma;
    }
    total
}

struct Greeks {
    t: GreeksTracker,
}

impl Greeks {
    fn new() -> Self {
        Greeks { t: GreeksTracker::new() }
    }

    fn on_fill(&mut self, side: Side, size: f64) {
        self.t.on_fill(side, r(size));
    }

    fn recompute(&mut self, s: f64, k: f64, sigma: f64, tau: f64) {
        let (d, g) = greeks_totals(&self.t, s, k, sigma, tau);
        self.t.recompute(r(d), r(g));
    }

    fn reset(&mut self) {
        self.t.reset();
    }
}

#[derive(Clone, Copy)]
struct Money {
    bankroll: f64,
    max_total_exposure_frac: f64,
    daily_loss_halt_frac: f64,
    weekly_loss_halt_frac: f64,
    max_portfolio_delta: f64,
    max_portfolio_gamma_neg: f64,
}

fn make_config() -> Money {
    Money {
        bankroll: 1000.0,
        max_total_exposure_frac: 0.15,
        daily_loss_halt_frac: -0.03,
        weekly_loss_halt_frac: -0.08,
        max_portfolio_delta: 0.0,
        max_portfolio_gamma_neg: 0.0,
    }
}

/// The risk manager with the sums in dollars.
struct Risk {
    m: StrategyRiskManager,
    c: Money,
}

impl Risk {
    fn new(c: &Money) -> Self {
        Risk { m: StrategyRiskManager::new(), c: *c }
    }

    fn amounts(&self, sig: &Signal) -> Amounts {
        let b = self.c.bankroll;
        let (per_trade, total) = match limits_of(sig.strategy) {
            Some(l) => (f(l.max_per_trade_frac), f(l.max_total_frac)),
            None => (0.0, 0.0),
        };
        let exposure = self.m.strategy_state(sig.strategy).map_or(0.0, |s| f(s.exposure));
        let max_portfolio = self.c.max_total_exposure_frac * b;
        Amounts {
            daily_floor: r(self.c.daily_loss_halt_frac * b),
            weekly_floor: r(self.c.weekly_loss_halt_frac * b),
            max_portfolio: r(max_portfolio),
            max_strategy: r(total * b),
            kelly_size: r(f(sig.size_frac) * b),
            per_trade_cap: r(per_trade * b),
            strategy_room: r(total * b - exposure),
            portfolio_room: r(max_portfolio - f(self.m.total_exposure)),
            max_delta: r(self.c.max_portfolio_delta),
            max_gamma_neg: r(self.c.max_portfolio_gamma_neg),
        }
    }

    fn check_strategy(&self, sig: &Signal, state: &MarketState, id: u64, now_ms: i64) -> Option<Order> {
        self.m.check_strategy(sig, &self.amounts(sig), state.is_stale(now_ms), id, now_ms)
    }

    fn gate(&self, sig: &Signal, stale: bool, now_ms: i64) -> Option<Gate> {
        self.m.first_gate(sig.strategy, &self.amounts(sig), stale, now_ms)
    }

    fn on_order_sent(&mut self, strategy: &'static str, now_ms: i64, size: f64) {
        let exposure = self.m.strategy_state(strategy).map_or(0.0, |s| f(s.exposure)) + size;
        let total = f(self.m.total_exposure) + size;
        self.m.on_order_sent(strategy, now_ms, r(exposure), r(total));
    }

    fn settle_market(&mut self, outcome: Side, fills: &Vec<Fill>) {
        let mut pnl = 0.0;
        for x in fills {
            pnl += if fill_wins(x, outcome) {
                (1.0 - f(x.price)) * f(x.size)
            } else {
                -(f(x.price) * f(x.size))
            };
        }
        let daily = f(self.m.daily_pnl) + pnl;
        let weekly = f(self.m.weekly_pnl) + pnl;
        self.m.settle_market(r(daily), r(weekly));
    }

    fn trigger_halt(&mut self, now_ms: i64, duration_ms: i64) {
        self.m.trigger_halt(now_ms, duration_ms);
    }

    fn greek_fill(&mut self, side: Side, size: f64) {
        self.m.greeks.on_fill(side, r(size));
    }

    fn greek_recompute(&mut self, s: f64, k: f64, sigma: f64, tau: f64) {
        let (d, g) = greeks_totals(&self.m.greeks, s, k, sigma, tau);
        self.m.greeks.recompute(r(d), r(g));
    }
}

fn make_state(
    strike: f64,
    binance_price: f64,
    sigma: f64,
    tau_s: f64,
    up_ask: f64,
    down_ask: f64,
) -> (MarketState, i64) {
    let now_ms: i64 = 1_700_000_100_000;
    let info = MarketInfo {
        slug: "btc-updown-5m-1700000090".to_string(),
        start_ms: now_ms - 10_000,
        end_ms: now_ms + (tau_s * 1000.0) as i64,
        up_token_id: "up-token".to_string(),
        down_token_id: "down-token".to_string(),
    };
    let mut state = MarketState::new(info, r(strike), BinanceState::new(5, 30_000, 60_000));
    state.bn.binance_price = r(binance_price);
    state.bn.binance_ts = now_ms;
    state.bn.sigma_real_cached = r(sigma);
    state.pm_last_ts = now_ms;
    state.up_ask = r(up_ask);
    state.down_ask = r(down_ask);
    state.up_bid = r(if up_ask > 0.02 { up_ask - 0.02 } else { 0.0 });
    state.down_bid = r(if down_ask > 0.02 { down_ask - 0.02 } else { 0.0 });
    (state, now_ms)
}

fn make_signal(strategy: &'static str, edge: f64, price: f64, size_frac: f64) -> Signal {
    Signal {
        strategy,
        side: Side::Up,
        edge: r(edge),
        fair_value: r(price + edge),
        market_price: r(price),
        confidence: r(0.8),
        size_frac: r(size_frac),
        is_passive: false,
        use_bid: false,
    }
}

fn fill(order_id: u64, strategy: &'static str, side: Side, price: f64, size: f64) -> Fill {
    Fill { order_id, strategy, side, price: r(price), size: r(size) }
}

/// Scenario: Valid latency_arb signal with fresh feeds, no prior orders, within all limits.
/// Expected: Order is approved with size between $1 floor and $20 per-trade cap.
#[test]
fn test_order_approved_happy_path() {
    let config = make_config();
    let risk = Risk::new(&config);
    let (state, now) = make_state(95_000.0, 95_500.0, 0.001, 120.0, 0.50, 0.50);
    let signal = make_signal("latency_arb", 0.05, 0.50, 0.01);
    let order = risk.check_strategy(&signal, &state, 1, now);
    assert!(order.is_some(), "Valid signal should produce an order");
    let order = order.unwrap();
    assert!(f(order.size) >= 1.0, "Order size should be at least $1: {}", f(order.size));
    assert!(f(order.size) <= 20.0, "Order size capped at per_trade_frac * bankroll = $20: {}", f(order.size));
}

/// Scenario: Portfolio halt triggered for 60s; signal arrives 1s later.
/// Expected: Order rejected because halt has not yet expired (gate 1).
#[test]
fn test_halt_blocks_order() {
    let config = make_config();
    let mut risk = Risk::new(&config);
    let (state, now) = make_state(95_000.0, 95_500.0, 0.001, 120.0, 0.50, 0.50);
    risk.trigger_halt(now, 60_000);
    let signal = make_signal("latency_arb", 0.05, 0.50, 0.01);
    assert!(risk.check_strategy(&signal, &state, 1, now + 1000).is_none());
}

/// Scenario: 1s halt triggered; check at +500ms (still halted) and +2000ms (expired).
/// Expected: Blocked while halted, approved after halt expires.
#[test]
fn test_halt_expires() {
    let config = make_config();
    let mut risk = Risk::new(&config);
    let (mut state, now) = make_state(95_000.0, 95_500.0, 0.001, 120.0, 0.50, 0.50);
    risk.trigger_halt(now, 1000);
    let signal = make_signal("latency_arb", 0.05, 0.50, 0.01);
    // Still halted at now + 500
    assert!(risk.check_strategy(&signal, &state, 1, now + 500).is_none());
    // Halt expired at now + 2000 — update feed timestamps so they're not stale
    state.bn.binance_ts = now + 2000;
    state.pm_last_ts = now + 2000;
    assert!(risk.check_strategy(&signal, &state, 2, now + 2000).is_some());
}

/// Scenario: daily_pnl set to -$50, exceeding the -$30 daily loss threshold.
/// Expected: Order rejected by the daily loss kill switch (gate 2).
#[test]
fn test_daily_loss_blocks() {
    let config = make_config();
    let mut risk = Risk::new(&config);
    let (state, now) = make_state(95_000.0, 95_500.0, 0.001, 120.0, 0.50, 0.50);
    // daily_loss_halt_frac = -0.03, bankroll = 1000 → threshold = -30
    risk.m.daily_pnl = r(-50.0);
    let signal = make_signal("latency_arb", 0.05, 0.50, 0.01);
    assert!(risk.check_strategy(&signal, &state, 1, now).is_none());
}

/// Scenario: weekly_pnl set to -$100, exceeding the -$80 weekly loss threshold.
/// Expected: Order rejected by the weekly loss kill switch (gate 3).
#[test]
fn test_weekly_loss_blocks() {
    let config = make_config();
    let mut risk = Risk::new(&config);
    let (state, now) = make_state(95_000.0, 95_500.0, 0.001, 120.0, 0.50, 0.50);
    // weekly_loss_halt_frac = -0.08, bankroll = 1000 → threshold = -80
    risk.m.weekly_pnl = r(-100.0);
    let signal = make_signal("latency_arb", 0.05, 0.50, 0.01);
    assert!(risk.check_strategy(&signal, &state, 1, now).is_none());
}

/// Scenario: Binance timestamp set to 6s behind now (>1s staleness threshold).
/// Expected: Order rejected by the stale feed kill switch (gate 4).
#[test]
fn test_stale_feed_blocks() {
    let config = make_config();
    let risk = Risk::new(&config);
    let (mut state, now) = make_state(95_000.0, 95_500.0, 0.001, 120.0, 0.50, 0.50);
    // Make binance data stale (> 1000ms old)
    state.bn.binance_ts = now - 6000;
    let signal = make_signal("latency_arb", 0.05, 0.50, 0.01);
    assert!(risk.check_strategy(&signal, &state, 1, now).is_none());
}

/// Scenario: total_exposure already at $150 (= 15% cap of $1000 bankroll).
/// Expected: Order rejected by portfolio-level exposure cap (gate 5).
#[test]
fn test_portfolio_cap_blocks() {
    let config = make_config();
    let mut risk = Risk::new(&config);
    let (state, now) = make_state(95_000.0, 95_500.0, 0.001, 120.0, 0.50, 0.50);
    // max_total_exposure_frac = 0.15, bankroll = 1000 → cap = 150
    risk.m.total_exposure = r(150.0);
    let signal = make_signal("latency_arb", 0.05, 0.50, 0.01);
    assert!(risk.check_strategy(&signal, &state, 1, now).is_none());
}

/// Scenario: Signal references "bogus_strategy" which has no registered limits.
/// Expected: Order rejected because unknown strategies have no limits entry (gate 6).
#[test]
fn test_unknown_strategy_blocks() {
    let config = make_config();
    let risk = Risk::new(&config);
    let (state, now) = make_state(95_000.0, 95_500.0, 0.001, 120.0, 0.50, 0.50);
    let signal = make_signal("bogus_strategy", 0.05, 0.50, 0.01);
    assert!(risk.check_strategy(&signal, &state, 1, now).is_none());
}

/// Scenario: latency_arb order sent at now; second signal arrives 1s later (cooldown is 60s).
/// Expected: Order rejected because strategy is still in cooldown (gate 7).
#[test]
fn test_cooldown_blocks() {
    let config = make_config();
    let mut risk = Risk::new(&config);
    let (state, now) = make_state(95_000.0, 95_500.0, 0.001, 120.0, 0.50, 0.50);
    risk.on_order_sent("latency_arb", now, 10.0);
    let signal = make_signal("latency_arb", 0.05, 0.50, 0.01);
    // cooldown for latency_arb = 60_000ms, check at now + 1000 → still cooling
    assert!(risk.check_strategy(&signal, &state, 2, now + 1000).is_none());
}

/// Scenario: Two fills -- one winning (Up bet, Up outcome) and one losing (Down bet, Up outcome).
/// Expected: PnL nets to $0 (+$4 win - $4 loss); exposure resets after settlement.
#[test]
fn test_settle_market_pnl() {
    let config = make_config();
    let mut risk = Risk::new(&config);
    risk.on_order_sent("latency_arb", 0, 10.0);
    risk.on_order_sent("certainty_capture", 0, 10.0);

    let fills = vec![
        fill(1, "latency_arb", Side::Up, 0.60, 10.0),
        fill(2, "certainty_capture", Side::Down, 0.40, 10.0),
    ];

    // Outcome is Up
    risk.settle_market(Side::Up, &fills);

    // Fill 1: side=Up, outcome=Up → pnl = (1 - 0.60) * 10 = 4.0
    // Fill 2: side=Down, outcome=Up → pnl = -(0.40 * 10) = -4.0
    // Total = 0.0
    assert!((f(risk.m.daily_pnl) - 0.0).abs() < 1e-10, "Daily PnL: {}", f(risk.m.daily_pnl));
    assert!((f(risk.m.weekly_pnl) - 0.0).abs() < 1e-10, "Weekly PnL: {}", f(risk.m.weekly_pnl));
    assert_eq!(f(risk.m.total_exposure), 0.0, "Exposure should be reset after settle");
}

// ── Max orders per market gate ──

/// Scenario: Two latency_arb orders already sent (max_orders_per_market = 2); third attempted.
/// Expected: Third order rejected by the per-strategy max orders gate (gate 8).
#[test]
fn test_max_orders_per_market_blocks() {
    let config = make_config();
    let mut risk = Risk::new(&config);
    let (mut state, now) = make_state(95_000.0, 95_500.0, 0.001, 120.0, 0.50, 0.50);

    // latency_arb allows max 2 orders per market
    risk.on_order_sent("latency_arb", now, 5.0);
    risk.on_order_sent("latency_arb", now + 61_000, 5.0); // past cooldown

    // Update feed timestamps so staleness doesn't mask the real gate
    let check_time = now + 122_000;
    state.bn.binance_ts = check_time;
    state.pm_last_ts = check_time;

    // 3rd order should be blocked (max_orders_per_market = 2)
    let signal = make_signal("latency_arb", 0.05, 0.50, 0.01);
    assert!(risk.check_strategy(&signal, &state, 3, check_time).is_none(),
        "3rd order should be blocked by max_orders_per_market");
}

// ── Per-strategy exposure cap ──

/// Scenario: latency_arb already at $40 exposure (= 4% of $1000 bankroll cap).
/// Expected: Next order rejected by per-strategy exposure limit (gate 9).
#[test]
fn test_per_strategy_exposure_cap_blocks() {
    let config = make_config();
    let mut risk = Risk::new(&config);
    let (mut state, now) = make_state(95_000.0, 95_500.0, 0.001, 120.0, 0.50, 0.50);

    // latency_arb max_total_frac = 0.04 * bankroll(1000) = $40
    risk.on_order_sent("latency_arb", now, 40.0);

    // Update feed timestamps past cooldown
    let check_time = now + 61_000;
    state.bn.binance_ts = check_time;
    state.pm_last_ts = check_time;

    let signal = make_signal("latency_arb", 0.05, 0.50, 0.01);
    // Past cooldown but at exposure cap
    assert!(risk.check_strategy(&signal, &state, 2, check_time).is_none(),
        "Should be blocked by per-strategy exposure cap");
}

// ── Size floor ($1 minimum) ──

/// Scenario: Signal with size_frac = 0.0001 producing a $0.10 order (below $1 floor).
/// Expected: Order rejected by the minimum size floor (gate 10).
#[test]
fn test_size_floor_blocks_tiny_order() {
    let config = make_config();
    let risk = Risk::new(&config);
    let (state, now) = make_state(95_000.0, 95_500.0, 0.001, 120.0, 0.50, 0.50);

    // Very small size_frac → kelly_size < $1 → None
    let signal = make_signal("latency_arb", 0.001, 0.50, 0.0001);
    // size_frac * bankroll = 0.0001 * 1000 = $0.10 < $1
    assert!(risk.check_strategy(&signal, &state, 1, now).is_none(),
        "Sub-dollar order should be rejected");
}

// ── Settle with empty fills ──

/// Scenario: Market settled with an empty fills slice after accumulating $10 exposure.
/// Expected: PnL stays at $0, exposure resets to $0, strategy state cleared.
#[test]
fn test_settle_empty_fills() {
    let config = make_config();
    let mut risk = Risk::new(&config);
    risk.on_order_sent("latency_arb", 0, 10.0);
    assert_eq!(f(risk.m.total_exposure), 10.0);

    risk.settle_market(Side::Up, &vec![]);
    assert_eq!(f(risk.m.daily_pnl), 0.0, "Empty fills → zero PnL");
    assert_eq!(f(risk.m.total_exposure), 0.0, "Exposure should reset");
}

// ── Settle PnL accumulation across multiple markets ──

/// Scenario: Two sequential markets -- first a +$6 win, then a -$6 loss.
/// Expected: daily_pnl accumulates across markets: $6 after win, $0 after loss.
#[test]
fn test_settle_pnl_accumulates() {
    let config = make_config();
    let mut risk = Risk::new(&config);

    // Market 1: Win
    let fills1 = vec![fill(1, "latency_arb", Side::Up, 0.40, 10.0)];
    risk.settle_market(Side::Up, &fills1);
    // PnL = (1 - 0.40) * 10 = 6.0
    assert!((f(risk.m.daily_pnl) - 6.0).abs() < 1e-10, "After win: {}", f(risk.m.daily_pnl));

    // Market 2: Lose
    let fills2 = vec![fill(2, "latency_arb", Side::Up, 0.60, 10.0)];
    risk.settle_market(Side::Down, &fills2);
    // PnL = -(0.60 * 10) = -6.0 → cumulative = 6.0 + (-6.0) = 0.0
    assert!((f(risk.m.daily_pnl) - 0.0).abs() < 1e-10, "After loss: {}", f(risk.m.daily_pnl));
}

// ── Settle all winning fills ──

/// Scenario: Two fills both on the winning side (Up bets, Up outcome).
/// Expected: Both contribute positive PnL; daily and weekly totals equal $19.
#[test]
fn test_settle_all_winning() {
    let config = make_config();
    let mut risk = Risk::new(&config);

    let fills = vec![
        fill(1, "latency_arb", Side::Up, 0.30, 20.0),
        fill(2, "certainty_capture", Side::Up, 0.50, 10.0),
    ];
    risk.settle_market(Side::Up, &fills);

    // Fill 1: (1 - 0.30) * 20 = 14.0
    // Fill 2: (1 - 0.50) * 10 = 5.0
    let expected = 14.0 + 5.0;
    assert!((f(risk.m.daily_pnl) - expected).abs() < 1e-10, "All winning PnL: {}", f(risk.m.daily_pnl));
    assert!((f(risk.m.weekly_pnl) - expected).abs() < 1e-10);
}

// ── Settle all losing fills ──

/// Scenario: Two fills both on the losing side (Up bets, Down outcome).
/// Expected: Both contribute negative PnL; daily total equals -$13.
#[test]
fn test_settle_all_losing() {
    let config = make_config();
    let mut risk = Risk::new(&config);

    let fills = vec![
        fill(1, "latency_arb", Side::Up, 0.60, 15.0),
        fill(2, "certainty_capture", Side::Up, 0.40, 10.0),
    ];
    risk.settle_market(Side::Down, &fills);

    // Fill 1: -(0.60 * 15) = -9.0
    // Fill 2: -(0.40 * 10) = -4.0
    let expected = -9.0 + -4.0;
    assert!((f(risk.m.daily_pnl) - expected).abs() < 1e-10, "All losing PnL: {}", f(risk.m.daily_pnl));
}

// ── Size capping by room ──

/// Scenario: Portfolio exposure at $145 with $150 cap; signal wants $20.
/// Expected: Order approved but size clamped to $5 (remaining portfolio room).
#[test]
fn test_order_size_capped_by_portfolio_room() {
    let config = make_config();
    let mut risk = Risk::new(&config);
    let (state, now) = make_state(95_000.0, 95_500.0, 0.001, 120.0, 0.50, 0.50);

    // Portfolio cap = 0.15 * 1000 = 150. Set exposure to 145 → only $5 room
    risk.m.total_exposure = r(145.0);

    let signal = make_signal("latency_arb", 0.05, 0.50, 0.02); // wants 0.02 * 1000 = $20
    let order = risk.check_strategy(&signal, &state, 1, now);
    assert!(order.is_some(), "Should still approve with room");
    let order = order.unwrap();
    assert!(f(order.size) <= 5.0, "Size capped by portfolio room: {}", f(order.size));
}

/// Scenario: latency_arb at $35 exposure with $40 strategy cap; signal wants $20.
/// Expected: Order approved but size clamped to $5 (remaining strategy room).
#[test]
fn test_order_size_capped_by_strategy_room() {
    let config = make_config();
    let mut risk = Risk::new(&config);
    let (state, now) = make_state(95_000.0, 95_500.0, 0.001, 120.0, 0.50, 0.50);

    // latency_arb max_total_frac = 0.04 → $40. Spend $35 → $5 room
    risk.on_order_sent("latency_arb", now - 120_000, 35.0); // past cooldown

    let signal = make_signal("latency_arb", 0.05, 0.50, 0.02); // wants $20
    let order = risk.check_strategy(&signal, &state, 2, now);
    assert!(order.is_some(), "Should approve with strategy room");
    let order = order.unwrap();
    assert!(f(order.size) <= 5.0, "Size capped by strategy room: {}", f(order.size));
}

// ── Cooldown expires ──

/// Scenario: latency_arb order sent at now; second signal checked at now + 61s (cooldown is 60s).
/// Expected: Order approved because the cooldown period has expired.
#[test]
fn test_cooldown_expires() {
    let config = make_config();
    let mut risk = Risk::new(&config);
    let (mut state, now) = make_state(95_000.0, 95_500.0, 0.001, 120.0, 0.50, 0.50);
    risk.on_order_sent("latency_arb", now, 10.0);

    let signal = make_signal("latency_arb", 0.05, 0.50, 0.01);
    // Advance feed timestamps so they're not stale at now + 61_000
    state.bn.binance_ts = now + 61_000;
    state.pm_last_ts = now + 61_000;
    // latency_arb cooldown = 60_000ms. At now + 61_000 → cooldown expired
    assert!(risk.check_strategy(&signal, &state, 2, now + 61_000).is_some(),
        "Order should be approved after cooldown expires");
}

// ── on_order_sent updates both per-strategy and portfolio ──

/// Scenario: Two orders sent on different strategies ($15 + $25).
/// Expected: Portfolio total_exposure accumulates to $40 across both strategies.
#[test]
fn test_on_order_sent_updates_exposure() {
    let config = make_config();
    let mut risk = Risk::new(&config);

    risk.on_order_sent("latency_arb", 1000, 15.0);
    assert_eq!(f(risk.m.total_exposure), 15.0);

    risk.on_order_sent("certainty_capture", 2000, 25.0);
    assert_eq!(f(risk.m.total_exposure), 40.0);
}

// ── Independent strategy limits ──

/// Scenario: latency_arb filled to its $40 exposure cap; certainty_capture signal arrives.
/// Expected: latency_arb is blocked but certainty_capture passes (independent strategy limits).
#[test]
fn test_one_strategy_cap_doesnt_block_another() {
    let config = make_config();
    let mut risk = Risk::new(&config);
    let (mut state, now) = make_state(95_000.0, 95_500.0, 0.001, 120.0, 0.50, 0.50);

    // Fill up latency_arb (max_total_frac=0.04 → $40)
    risk.on_order_sent("latency_arb", now, 40.0);

    // latency_arb should be blocked (at now — not stale, exposure cap hit)
    let signal_la = make_signal("latency_arb", 0.05, 0.50, 0.01);
    assert!(risk.check_strategy(&signal_la, &state, 2, now).is_none());

    // certainty_capture should still work (independent limits)
    let signal_cc = make_signal("certainty_capture", 0.05, 0.50, 0.01);
    assert!(risk.check_strategy(&signal_cc, &state, 3, now).is_some(),
        "Certainty capture should not be blocked by latency_arb cap");
}

// ── Portfolio Greeks tests ──

/// Scenario: Fresh GreeksTracker with no fills.
/// Expected: Snapshot is all zeros.
#[test]
fn test_greeks_tracker_empty() {
    let tracker = Greeks::new();
    assert_eq!(f(tracker.t.snapshot.delta), 0.0);
    assert_eq!(f(tracker.t.snapshot.gamma), 0.0);
    assert_eq!(tracker.t.snapshot.n_positions, 0);
}

/// Scenario: One UP fill of $10, recomputed at ATM (S=K=100000).
/// Expected: Portfolio delta is positive (long the binary call).
#[test]
fn test_greeks_tracker_single_up_fill() {
    let mut tracker = Greeks::new();
    tracker.on_fill(Side::Up, 10.0);
    // ATM with sigma=0.001/s, tau=300s
    tracker.recompute(100_000.0, 100_000.0, 0.001, 300.0);
    assert!(f(tracker.t.snapshot.delta) > 0.0,
        "UP fill should produce positive delta: {}", f(tracker.t.snapshot.delta));
    assert_eq!(tracker.t.snapshot.n_positions, 1);
}

/// Scenario: Equal-size UP and DOWN fills ($10 each), recomputed at ATM.
/// Expected: Delta and gamma cancel to near-zero (opposing positions).
#[test]
fn test_greeks_tracker_opposing_fills_cancel() {
    let mut tracker = Greeks::new();
    tracker.on_fill(Side::Up, 10.0);
    tracker.on_fill(Side::Down, 10.0);
    tracker.recompute(100_000.0, 100_000.0, 0.001, 300.0);
    assert!(f(tracker.t.snapshot.delta).abs() < 1e-12,
        "Opposing fills should cancel delta: {}", f(tracker.t.snapshot.delta));
    assert!(f(tracker.t.snapshot.gamma).abs() < 1e-12,
        "Opposing fills should cancel gamma: {}", f(tracker.t.snapshot.gamma));
    assert_eq!(tracker.t.snapshot.n_positions, 2);
}

/// Scenario: One UP fill, recompute at S=100000 then at S=100500.
/// Expected: Delta changes because delta_bin is a function of spot price.
#[test]
fn test_greeks_tracker_recompute_varies_with_s() {
    let mut tracker = Greeks::new();
    tracker.on_fill(Side::Up, 10.0);

    tracker.recompute(100_000.0, 100_000.0, 0.001, 300.0);
    let delta_at_atm = f(tracker.t.snapshot.delta);

    tracker.recompute(100_500.0, 100_000.0, 0.001, 300.0);
    let delta_itm = f(tracker.t.snapshot.delta);

    assert!((delta_at_atm - delta_itm).abs() > 1e-10,
        "Delta should change with S: atm={} itm={}", delta_at_atm, delta_itm);
}

/// Scenario: Add a fill, recompute, then reset.
/// Expected: After reset, snapshot is all zeros and positions vec is empty.
#[test]
fn test_greeks_tracker_reset_clears() {
    let mut tracker = Greeks::new();
    tracker.on_fill(Side::Up, 10.0);
    tracker.recompute(100_000.0, 100_000.0, 0.001, 300.0);
    assert!(f(tracker.t.snapshot.delta) != 0.0, "Should have nonzero delta before reset");

    tracker.reset();
    assert_eq!(f(tracker.t.snapshot.delta), 0.0);
    assert_eq!(f(tracker.t.snapshot.gamma), 0.0);
    assert_eq!(tracker.t.snapshot.n_positions, 0);
}

/// Scenario: max_portfolio_delta set to a tiny value; delta pushed past it via greeks.recompute.
/// Expected: check_strategy returns None (gate 5b blocks).
#[test]
fn test_delta_limit_blocks_order() {
    let mut config = make_config();
    config.max_portfolio_delta = 0.0001; // very tight limit
    let mut risk = Risk::new(&config);
    let (state, now) = make_state(95_000.0, 95_500.0, 0.001, 120.0, 0.50, 0.50);

    // Simulate a fill that pushes delta past the limit
    risk.greek_fill(Side::Up, 100.0);
    risk.greek_recompute(95_500.0, 95_000.0, 0.001, 120.0);
    assert!(f(risk.m.greeks.snapshot.delta).abs() > 0.0001,
        "Delta should exceed limit: {}", f(risk.m.greeks.snapshot.delta));

    let signal = make_signal("latency_arb", 0.05, 0.50, 0.01);
    assert!(risk.check_strategy(&signal, &state, 1, now).is_none(),
        "Should be blocked by portfolio delta limit");
}

/// Scenario: max_portfolio_gamma_neg set to a small value; gamma made sufficiently negative.
/// Expected: check_strategy returns None (gate 5c blocks).
#[test]
fn test_gamma_limit_blocks_order() {
    let mut config = make_config();
    config.max_portfolio_gamma_neg = 1e-12; // very tight limit
    let mut risk = Risk::new(&config);
    let (state, now) = make_state(95_000.0, 95_500.0, 0.001, 120.0, 0.50, 0.50);

    // Deep ITM: gamma_bin is negative. UP fill with positive sign * negative gamma = negative.
    // Actually, for S > K (ITM), gamma_bin is negative.
    // UP fill: sign=+1, so total_gamma = +1 * size * gamma_bin (negative) = negative.
    risk.greek_fill(Side::Up, 100.0);
    risk.greek_recompute(100_000.0, 95_000.0, 0.001, 120.0);
    assert!(f(risk.m.greeks.snapshot.gamma) < 0.0,
        "ITM UP fill should produce negative portfolio gamma: {}", f(risk.m.greeks.snapshot.gamma));

    let signal = make_signal("latency_arb", 0.05, 0.50, 0.01);
    assert!(risk.check_strategy(&signal, &state, 1, now).is_none(),
        "Should be blocked by portfolio gamma limit");
}

/// Scenario: Greeks limits at default (0.0 = disabled), with active fills.
/// Expected: check_strategy still approves (limits disabled by default).
#[test]
fn test_greeks_limits_disabled_by_default() {
    let config = make_config();
    let mut risk = Risk::new(&config);
    let (state, now) = make_state(95_000.0, 95_500.0, 0.001, 120.0, 0.50, 0.50);

    // Add a fill with nonzero Greeks
    risk.greek_fill(Side::Up, 100.0);
    risk.greek_recompute(95_500.0, 95_000.0, 0.001, 120.0);
    assert!(f(risk.m.greeks.snapshot.delta).abs() > 0.0, "Should have nonzero delta");

    // Default limits are 0.0 = disabled, so order should pass
    let signal = make_signal("latency_arb", 0.05, 0.50, 0.01);
    assert!(risk.check_strategy(&signal, &state, 1, now).is_some(),
        "Order should pass when Greeks limits are disabled (0.0)");
}

/// Scenario: settle_market resets Greeks tracker.
/// Expected: After settlement, greeks snapshot is zeroed out.
#[test]
fn test_settle_resets_greeks() {
    let config = make_config();
    let mut risk = Risk::new(&config);

    risk.greek_fill(Side::Up, 10.0);
    risk.greek_recompute(100_000.0, 100_000.0, 0.001, 300.0);
    assert!(risk.m.greeks.snapshot.n_positions > 0);

    risk.settle_market(Side::Up, &vec![]);
    assert_eq!(risk.m.greeks.snapshot.n_positions, 0, "Greeks should reset after settle");
    assert_eq!(f(risk.m.greeks.snapshot.delta), 0.0);
    assert_eq!(f(risk.m.greeks.snapshot.gamma), 0.0);
}

/// Scenario: Risk manager check_strategy() called 1000 times with a valid signal,
///   measuring the overhead of the 10-gate risk check pipeline.
/// Expected: Total time under 10ms — risk checks are pure arithmetic comparisons.
#[test]
fn test_latency_risk_check() {
    let config = make_config();
    let mut risk = Risk::new(&config);
    let (state, now) = make_state(95_000.0, 95_500.0, 0.001, 120.0, 0.50, 0.50);

    let signal = Signal {
        strategy: "latency_arb",
        side: Side::Up,
        edge: r(0.05),
        fair_value: r(0.55),
        market_price: r(0.50),
        confidence: r(0.8),
        size_frac: r(0.02),
        is_passive: false,
        use_bid: false,
    };

    // Warmup
    for i in 0..10u64 {
        let _ = risk.check_strategy(&signal, &state, i + 1, now);
    }

    // Reset risk state for the benchmark (clear cooldown/order counts)
    risk = Risk::new(&config);

    let start = std::time::Instant::now();
    for i in 0..1000u32 {
        let _ = risk.check_strategy(&signal, &state, (i + 100) as u64, now);
    }
    let elapsed_us = start.elapsed().as_micros();

    println!(
        "[BENCH] risk_check: {}μs total, {:.2}μs/call ({} iters)",
        elapsed_us, elapsed_us as f64 / 1000u32 as f64, 1000u32,
    );
    assert!(
        elapsed_us < 10_000,
        "risk_check too slow: {}μs for {} calls",
        elapsed_us, 1000u32,
    );
}

// ── Own cases ──

#[test]
fn every_limit() {
    let all = [
        ("latency_arb", 0.02, 0.04, 60_000, 2),
        ("certainty_capture", 0.03, 0.03, 120_000, 1),
        ("convexity_fade", 0.01, 0.02, 60_000, 2),
        ("cross_timeframe", 0.005, 0.02, 120_000, 1),
        ("strike_misalign", 0.02, 0.04, 30_000, 2),
        ("lp_extreme", 0.02, 0.02, 120_000, 1),
    ];
    for (name, per_trade, total, cooldown, orders) in all {
        let l = limits_of(name).unwrap();
        assert_eq!(f(l.max_per_trade_frac), per_trade);
        assert_eq!(f(l.max_total_frac), total);
        assert_eq!(l.cooldown_ms, cooldown);
        assert_eq!(l.max_orders_per_market, orders);
    }
    assert!(limits_of("momentum").is_none());
}

#[test]
fn each_reason_to_stop() {
    let (_, now) = make_state(95_000.0, 95_500.0, 0.001, 120.0, 0.50, 0.50);
    let sig = make_signal("latency_arb", 0.05, 0.50, 0.01);
    let fresh = || Risk::new(&make_config());

    assert_eq!(fresh().gate(&sig, false, now), None);
    assert_eq!(fresh().gate(&sig, true, now), Some(Gate::StaleFeeds));

    let mut risk = fresh();
    risk.trigger_halt(now, 1);
    assert_eq!(risk.gate(&sig, false, now), Some(Gate::Halted));
    assert_eq!(risk.gate(&sig, false, now + 1), None);

    let mut risk = fresh();
    risk.m.daily_pnl = r(-30.0);
    assert_eq!(risk.gate(&sig, false, now), None);
    risk.m.daily_pnl = r(-30.01);
    assert_eq!(risk.gate(&sig, false, now), Some(Gate::DailyLoss));

    let mut risk = fresh();
    risk.m.weekly_pnl = r(-80.01);
    assert_eq!(risk.gate(&sig, false, now), Some(Gate::WeeklyLoss));

    let mut risk = fresh();
    risk.m.total_exposure = r(150.0);
    assert_eq!(risk.gate(&sig, false, now), Some(Gate::PortfolioFull));

    let mut c = make_config();
    c.max_portfolio_delta = 0.5;
    c.max_portfolio_gamma_neg = 0.5;
    let mut risk = Risk::new(&c);
    risk.m.greeks.recompute(r(-0.6), r(0.0));
    assert_eq!(risk.gate(&sig, false, now), Some(Gate::DeltaLimit));
    risk.m.greeks.recompute(r(0.5), r(-0.6));
    assert_eq!(risk.gate(&sig, false, now), Some(Gate::GammaLimit));
    risk.m.greeks.recompute(r(0.5), r(0.6));
    assert_eq!(risk.gate(&sig, false, now), None);

    let unknown = make_signal("momentum", 0.05, 0.50, 0.01);
    assert_eq!(fresh().gate(&unknown, false, now), Some(Gate::UnknownStrategy));

    let mut risk = fresh();
    risk.on_order_sent("latency_arb", now, 5.0);
    assert_eq!(risk.gate(&sig, false, now + 59_999), Some(Gate::Cooldown));
    assert_eq!(risk.gate(&sig, false, now + 60_000), None);
    risk.on_order_sent("latency_arb", now, 5.0);
    assert_eq!(risk.gate(&sig, false, now + 60_000), Some(Gate::MaxOrders));

    let mut risk = fresh();
    risk.on_order_sent("latency_arb", now, 40.0);
    assert_eq!(risk.gate(&sig, false, now + 60_000), Some(Gate::StrategyFull));

    let tiny = make_signal("latency_arb", 0.05, 0.50, 0.0009);
    assert_eq!(fresh().gate(&tiny, false, now), Some(Gate::TooSmall));
    let least = make_signal("latency_arb", 0.05, 0.50, 0.001);
    assert_eq!(fresh().gate(&least, false, now), None);
}

#[test]
fn how_orders_are_executed() {
    assert_eq!(execution("lp_extreme", true, false, 7), (OrderType::GTC, true, None));
    assert_eq!(execution("convexity_fade", false, true, 7), (OrderType::GTD, true, Some(10_007)));
    assert_eq!(execution("latency_arb", false, false, 7), (OrderType::FOK, false, None));
    assert_eq!(execution("certainty_capture", false, false, 7), (OrderType::GTD, false, Some(10_007)));
}

#[test]
fn an_order_carries_its_signal() {
    let risk = Risk::new(&make_config());
    let (state, now) = make_state(95_000.0, 95_500.0, 0.001, 120.0, 0.50, 0.50);
    let order = risk.check_strategy(&make_signal("latency_arb", 0.05, 0.50, 0.015), &state, 9, now).unwrap();
    assert_eq!(order.id, 9);
    assert_eq!(order.side, Side::Up);
    assert_eq!(f(order.price), 0.50);
    assert_eq!(f(order.size), 15.0);
    assert_eq!(f(order.signal_edge), 0.05);
    assert_eq!(order.strategy, "latency_arb");
}

#[test]
fn settlement_forgets_the_market() {
    let mut risk = Risk::new(&make_config());
    risk.on_order_sent("lp_extreme", 5, 20.0);
    assert_eq!(risk.m.strategy_state("lp_extreme").unwrap().orders_this_market, 1);
    risk.settle_market(Side::Down, &vec![]);
    let s = risk.m.strategy_state("lp_extreme").unwrap();
    assert_eq!((s.orders_this_market, s.last_order_ms, f(s.exposure)), (0, 0, 0.0));
}
