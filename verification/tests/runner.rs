//! The course of a market.

use polymarket_crypto::config::{Config, Interval};
use polymarket_crypto::engine::cycle::Engine;
use polymarket_crypto::engine::runner::{
    binance_strategies, certainty_gate, convexity_gate, count_fill, enabled_strategies, lp_gate,
    open_strategies, opening_gate, outcome_of, polymarket_strategies, quote_strategies, token_of, wait_after_ms, wait_ms,
    LpGate, OrderLog, QuotePlan, Session, StrategyKind, TradePlan,
};
use polymarket_crypto::engine::state::{BinanceState, MarketState, StrategyStats};
use polymarket_crypto::gateway::records::{order_type_text, refusal, request_record, Reply};
use polymarket_crypto::gateway::order::{
    ack_of_reply, dry_run_ack, rejected_ack, signer_kind, tick_decimals, PostStatus, SignerKind,
};
use polymarket_crypto::math::regime::Regime;
use polymarket_crypto::number::Real;
use polymarket_crypto::table::NameTable;
use polymarket_crypto::types::{
    BinanceTrade, MarketInfo, Order, OrderAck, OrderStatus, OrderType, PolymarketBook, PolymarketQuote, Side,
};

fn r(x: f64) -> Real {
    Real { bits: x.to_bits() }
}

fn f(x: Real) -> f64 {
    f64::from_bits(x.bits)
}

fn info() -> MarketInfo {
    MarketInfo {
        slug: "btc-updown-5m-1700000090".to_string(),
        start_ms: 1_000_000,
        end_ms: 1_300_000,
        up_token_id: "up-token".to_string(),
        down_token_id: "down-token".to_string(),
    }
}

fn order(id: u64) -> Order {
    Order {
        id,
        side: Side::Up,
        price: r(0.5),
        size: r(10.0),
        strategy: "latency_arb",
        signal_edge: r(0.05),
        is_passive: false,
        order_type: OrderType::FOK,
        post_only: false,
        expiration_ms: None,
    }
}

fn ack(order_id: u64, status: OrderStatus, filled: Option<(f64, f64)>) -> OrderAck {
    OrderAck {
        order_id,
        status,
        filled_price: filled.map(|x| r(x.0)),
        filled_size: filled.map(|x| r(x.1)),
    }
}

#[test]
fn strategies_of_each_feed() {
    let mut config = Config::offline();
    config.strategy_latency_arb = true;
    config.strategy_certainty_capture = true;
    config.strategy_convexity_fade = true;
    config.strategy_strike_misalign = true;
    config.strategy_lp_extreme = true;
    config.strategy_cross_timeframe = false;
    assert_eq!(binance_strategies(&config), vec![StrategyKind::LatencyArb, StrategyKind::LpExtreme]);
    assert_eq!(
        polymarket_strategies(&config),
        vec![StrategyKind::CertaintyCapture, StrategyKind::ConvexityFade, StrategyKind::LpExtreme]
    );
    assert_eq!(open_strategies(&config), vec![StrategyKind::StrikeMisalign]);
    config.strategy_lp_extreme = false;
    assert_eq!(binance_strategies(&config), vec![StrategyKind::LatencyArb]);
    let names: Vec<&str> = enabled_strategies(&config).iter().map(|k| k.name()).collect();
    assert_eq!(names, vec!["latency_arb", "certainty_capture", "convexity_fade", "strike_misalign"]);
}

#[test]
fn warm_up_takes_ten_fresh_samples() {
    let mut s = Session::new(Interval::M5, &info(), 7);
    let none = TradePlan { open: false, warmed_up: false, diagnose: false, main: false };
    assert_eq!(s.after_trade(1_100_000, false, true, 30), none);
    assert_eq!(s.after_trade(1_100_000, true, false, 30), none);
    assert_eq!(s.after_trade(1_100_000, true, true, 16), none);
    // In the opening window the opening strategies run all the same.
    assert_eq!(s.after_trade(1_015_000, true, true, 16), TradePlan { open: true, ..none });
    assert_eq!(
        s.after_trade(1_100_000, true, true, 17),
        TradePlan { open: false, warmed_up: true, diagnose: true, main: true }
    );
    assert_eq!(
        s.after_trade(1_109_999, true, true, 17),
        TradePlan { open: false, warmed_up: false, diagnose: false, main: true }
    );
    assert!(s.after_trade(1_110_000, true, true, 17).diagnose);
}

#[test]
fn what_follows_a_quote() {
    let mut s = Session::new(Interval::M5, &info(), 0);
    assert_eq!(s.after_quote(1_010_000, false, true), QuotePlan::Nothing);
    assert_eq!(s.after_quote(1_010_000, true, true), QuotePlan::OpenOnly);
    assert_eq!(s.after_quote(1_010_000, true, false), QuotePlan::Nothing);
    assert_eq!(s.after_quote(1_015_001, true, true), QuotePlan::Nothing);
    s.warmup_done = true;
    assert_eq!(s.after_quote(1_010_000, true, false), QuotePlan::Main { with_open: true });
    assert_eq!(s.after_quote(1_100_000, true, true), QuotePlan::Main { with_open: false });
    assert_eq!(s.after_quote(1_100_000, false, true), QuotePlan::Nothing);
}

#[test]
fn the_end_of_a_market() {
    let s = Session::new(Interval::M5, &info(), 0);
    let buffer = Interval::M5.post_end_buffer_secs() as i64 * 1000;
    assert!(!s.is_over(1_300_000 + buffer - 1));
    assert!(s.is_over(1_300_000 + buffer));
    assert_eq!(outcome_of(r(95_000.0), r(95_000.0)), Side::Up);
    assert_eq!(outcome_of(r(-0.0), r(0.0)), Side::Up);
    assert_eq!(outcome_of(r(94_999.99), r(95_000.0)), Side::Down);
    assert_eq!(outcome_of(r(f64::NAN), r(95_000.0)), Side::Down);
    assert_eq!(outcome_of(r(f64::INFINITY), r(95_000.0)), Side::Up);
    assert_eq!(outcome_of(r(f64::INFINITY), r(f64::INFINITY)), Side::Down);
    assert_eq!(token_of(&info(), Side::Down), "down-token");
    assert_eq!(wait_ms(10_000, 3_000, 5_000), 2_000);
    assert_eq!(wait_ms(10_000, 3_000, 7_000), 0);
    assert_eq!(wait_after_ms(10_000, 3_000, 5_000), 8_000);
    assert_eq!(wait_after_ms(10_000, 3_000, 13_000), 0);
}

#[test]
fn answers_find_their_strategy() {
    let mut log = OrderLog::new();
    log.on_order(1, "latency_arb", Side::Down);
    let who = log.on_ack(&ack(1, OrderStatus::Filled, Some((0.4, 10.0))));
    assert_eq!((who.strategy, who.side), ("latency_arb", Side::Down));
    assert_eq!(log.fills.len(), 1);
    assert_eq!((log.fills[0].order_id, f(log.fills[0].price), log.fills[0].side), (1, 0.4, Side::Down));
    // The order is forgotten.
    let who = log.on_ack(&ack(1, OrderStatus::Filled, None));
    assert_eq!((who.strategy, who.side), ("unknown", Side::Up));
    log.on_ack(&ack(2, OrderStatus::Live, Some((0.4, 10.0))));
    assert_eq!(log.fills.len(), 1);
}

#[test]
fn fills_are_counted() {
    let mut state = MarketState::new(info(), r(95_000.0), BinanceState::new(5, 30_000, 60_000));
    state.strategy_stats.set("latency_arb", StrategyStats::new());
    count_fill(&mut state, &ack(1, OrderStatus::PartialFill, None), "latency_arb");
    count_fill(&mut state, &ack(2, OrderStatus::Filled, None), "unknown");
    count_fill(&mut state, &ack(3, OrderStatus::Unmatched, None), "latency_arb");
    assert_eq!(state.total_filled, 2);
    assert_eq!(state.strategy_stats.get("latency_arb").unwrap().filled, 1);
    assert!(state.strategy_stats.get("unknown").is_none());
}

#[test]
fn words_of_the_log() {
    assert_eq!(certainty_gate(r(1.4), r(0.5), r(0.1)), "z<1.5");
    assert_eq!(certainty_gate(r(1.5), r(1.0), r(0.1)), "bad_ask");
    assert_eq!(certainty_gate(r(1.5), r(0.5), r(0.01)), "edge<0.02");
    assert_eq!(certainty_gate(r(1.5), r(0.5), r(0.02)), "PASS");
    assert_eq!(convexity_gate(Regime::Trend, r(0.0)), "regime=Trend");
    assert_eq!(convexity_gate(Regime::Range, r(0.0031)), "dist>0.3%");
    assert_eq!(convexity_gate(Regime::Ambiguous, r(0.003)), "PASS(regime+dist)");
    assert_eq!(lp_gate(Regime::Trend, r(60.0), r(60.0), r(2.0), r(0.1)), LpGate::Trend);
    assert_eq!(lp_gate(Regime::Range, r(59.0), r(60.0), r(2.0), r(0.1)), LpGate::TooLate);
    assert_eq!(lp_gate(Regime::Range, r(60.0), r(60.0), r(1.0), r(0.1)), LpGate::ZTooLow);
    assert_eq!(lp_gate(Regime::Range, r(60.0), r(60.0), r(2.0), r(0.25)), LpGate::AskTooHigh);
    assert_eq!(lp_gate(Regime::Range, r(60.0), r(60.0), r(2.0), r(0.1)), LpGate::Pass);
    assert_eq!(opening_gate(0, 15_000), "in_window");
    assert_eq!(opening_gate(0, 15_001), "past_open_window");
}

// ── Engine ──

fn trade(ts_ms: i64, price: f64) -> BinanceTrade {
    BinanceTrade { exchange_ts_ms: ts_ms, price: r(price), qty: r(1.0), is_buy: true }
}

fn quote(ask: Option<f64>) -> PolymarketQuote {
    PolymarketQuote { server_ts_ms: 5, up_bid: None, up_ask: ask.map(r), down_bid: None, down_ask: None }
}

fn engine() -> Engine {
    Engine::new(info(), r(95_000.0), BinanceState::new(2, 30_000, 60_000), Interval::M5)
}

#[test]
fn an_engine_warms_up() {
    let mut e = engine();
    assert_eq!(e.next_order_id, 1);
    // A price alone is no data.
    assert_eq!(e.on_trade(trade(1_000_000, 95_000.0), 1_000_000).1.open, false);
    assert_eq!(e.on_quote(quote(Some(0.5)), 1_000_100), QuotePlan::Nothing);
    let (_, plan) = e.on_trade(trade(1_001_000, 95_001.0), 1_001_000);
    assert!(!plan.open);
    let (effects, plan) = e.on_trade(trade(1_002_000, 95_002.0), 1_002_000);
    assert_eq!(f(effects.sample.unwrap().base), 95_001.0);
    assert!(plan.open && !plan.main);
    assert_eq!(e.on_quote(quote(None), 1_002_100), QuotePlan::OpenOnly);
    for i in 3..10 {
        assert!(!e.on_trade(trade(1_000_000 + i * 1_000, 95_000.0), 1_000_000 + i * 1_000).1.main);
    }
    let (_, plan) = e.on_trade(trade(1_010_000, 95_000.0), 1_010_000);
    assert!(plan.main && plan.warmed_up);
    let book = PolymarketBook { is_up_token: true, bids: vec![], asks: vec![(r(0.4), r(1.0))] };
    assert_eq!(e.on_book(book, 1_020_000), QuotePlan::Main { with_open: false });
    assert_eq!(f(e.state.up_ask), 0.4);
}

#[test]
fn an_engine_takes_answers() {
    let mut e = engine();
    e.state.strategy_stats.set("latency_arb", StrategyStats::new());
    e.log.on_order(1, "latency_arb", Side::Down);
    e.state.position.pending_orders = 1;
    let who = e.on_ack(&ack(1, OrderStatus::Filled, Some((0.4, 10.0))), r(10.0), r(0.4));
    assert_eq!((who.strategy, who.side), ("latency_arb", Side::Down));
    assert_eq!((e.state.total_filled, e.state.position.pending_orders), (1, 0));
    assert_eq!((f(e.state.position.size), f(e.state.position.avg_price)), (10.0, 0.4));
    assert_eq!(e.state.strategy_stats.get("latency_arb").unwrap().filled, 1);
    assert_eq!(e.log.fills.len(), 1);
    assert!(!e.is_over(1_300_000) && e.is_over(2_000_000));
}

#[test]
fn the_books_are_closed() {
    let mut e = engine();
    e.state.strategy_stats.set("latency_arb", StrategyStats::new());
    e.state.strategy_stats.set("lp_extreme", StrategyStats::new());
    e.risk.on_order_sent("latency_arb", 5, r(20.0), r(20.0));
    let mut pnls: NameTable<Real> = NameTable::new();
    pnls.set("latency_arb", r(7.5));
    pnls.set("unknown", r(1.0));
    e.state.bn.binance_price = r(f(e.state.strike) - 3.0);
    let outcome = e.finish(r(8.5), &pnls, r(8.5), r(9.5));
    assert_eq!(outcome, Side::Down);
    assert_eq!(f(e.state.gross_pnl), 8.5);
    assert_eq!(f(e.state.strategy_stats.get("latency_arb").unwrap().gross_pnl), 7.5);
    assert_eq!(f(e.state.strategy_stats.get("lp_extreme").unwrap().gross_pnl), 0.0);
    assert!(e.state.strategy_stats.get("unknown").is_none());
    assert_eq!((f(e.risk.total_exposure), f(e.risk.daily_pnl), f(e.risk.weekly_pnl)), (0.0, 8.5, 9.5));
    assert_eq!(e.risk.strategy_state("latency_arb").unwrap().orders_this_market, 0);
}

#[test]
fn volatility_has_a_floor() {
    let mut bn = BinanceState::new(1, 30_000, 60_000);
    bn.recache_sigma(r(0.5), r(0.1));
    assert_eq!(f(bn.sigma_real_cached), 0.0);
    bn.on_trade(trade(0, 100.0));
    bn.on_trade(trade(1_000, 101.0));
    bn.recache_sigma(r(0.5), r(0.1));
    assert_eq!(f(bn.sigma_real_cached), 0.5);
    bn.recache_sigma(r(0.05), r(0.1));
    assert_eq!(f(bn.sigma_real_cached), 0.1);
}

#[test]
fn strategies_after_a_quote() {
    let mut config = Config::offline();
    config.strategy_certainty_capture = true;
    config.strategy_convexity_fade = false;
    config.strategy_lp_extreme = true;
    config.strategy_strike_misalign = true;
    assert!(quote_strategies(&config, QuotePlan::Nothing).is_empty());
    assert_eq!(quote_strategies(&config, QuotePlan::OpenOnly), vec![StrategyKind::StrikeMisalign]);
    assert_eq!(
        quote_strategies(&config, QuotePlan::Main { with_open: true }),
        vec![StrategyKind::CertaintyCapture, StrategyKind::LpExtreme, StrategyKind::StrikeMisalign]
    );
}

// ── Gateway ──

#[test]
fn records_of_the_exchange() {
    assert_eq!(
        request_record(&order(5), "123", "0.50", "20.00", "10.0"),
        r#"{"order_id":5,"order_type":"FOK","post_only":false,"price":"0.50","side":"Up","size_shares":"20.00","size_usdc":10.0,"strategy":"latency_arb","token_id":"123"}"#
    );
    let mut reply = Reply {
        success: true,
        order_id: "0xab".to_string(),
        status: "Matched".to_string(),
        error_msg: None,
        making_amount: "10".to_string(),
        taking_amount: "20".to_string(),
        trade_ids: vec!["a".to_string(), "b\"".to_string()],
    };
    assert_eq!(
        reply.record(),
        r#"{"error_msg":null,"making_amount":"10","order_id":"0xab","status":"Matched","success":true,"taking_amount":"20","trade_ids":["a","b\""]}"#
    );
    reply.success = false;
    reply.error_msg = Some("no".to_string());
    assert!(reply.record().starts_with(r#"{"error_msg":"no","#));
    assert_eq!(order_type_text(OrderType::GTD), "GTD");
}

#[test]
fn orders_that_are_not_sent() {
    let e = |s: &str| Some(s.to_string());
    assert_eq!(refusal(e("x"), e("y"), e("z")).as_deref(), Some("bad price: x"));
    assert_eq!(refusal(None, e("y"), e("z")).as_deref(), Some("bad size: y"));
    assert_eq!(refusal(None, None, e("z")).as_deref(), Some("bad token_id: z"));
    assert_eq!(refusal(None, None, None), None);
}

#[test]
fn decimals_of_a_tick() {
    let decimals: Vec<usize> = [0.1, 0.01, 0.001, 0.0001].iter().map(|t| tick_decimals(r(*t))).collect();
    assert_eq!(decimals, vec![1, 2, 3, 4]);
}

#[test]
fn who_signs() {
    assert_eq!(signer_kind(0), SignerKind::Eoa);
    assert_eq!(signer_kind(1), SignerKind::Proxy);
    assert_eq!(signer_kind(2), SignerKind::GnosisSafe);
    assert_eq!(signer_kind(3), SignerKind::Eoa);
}

#[test]
fn the_exchange_answers() {
    let o = order(5);
    let a = ack_of_reply(&o, true, PostStatus::Matched, None);
    assert!(matches!(a.status, OrderStatus::Filled));
    assert_eq!((a.order_id, a.filled_price.map(f), a.filled_size.map(f)), (5, Some(0.5), Some(10.0)));
    let a = ack_of_reply(&o, true, PostStatus::Live, None);
    assert!(matches!(a.status, OrderStatus::Live));
    assert_eq!((a.filled_price.map(f), a.filled_size.map(f)), (Some(0.5), None));
    assert!(matches!(ack_of_reply(&o, true, PostStatus::Delayed, None).status, OrderStatus::Live));
    assert!(matches!(ack_of_reply(&o, true, PostStatus::Unmatched, None).status, OrderStatus::Unmatched));
    let a = ack_of_reply(&o, false, PostStatus::Other, Some("not enough balance".to_string()));
    assert!(matches!(&a.status, OrderStatus::Rejected(why) if why == "not enough balance"));
    assert!(matches!(rejected_ack(&o, "x".to_string()).status, OrderStatus::Rejected(why) if why == "x"));
    let a = dry_run_ack(&o);
    assert!(matches!(a.status, OrderStatus::Filled));
    assert_eq!(a.filled_size.map(f), Some(10.0));
}

#[test]
fn when_the_end_is_looked_for() {
    let plan = TradePlan { open: true, warmed_up: false, diagnose: false, main: false };
    assert!(!plan.looks_for_end());
    assert!(TradePlan { main: true, ..plan }.looks_for_end());
    assert!(!QuotePlan::Nothing.looks_for_end() && !QuotePlan::OpenOnly.looks_for_end());
    assert!(QuotePlan::Main { with_open: false }.looks_for_end());
}

#[test]
fn a_new_engine_is_fresh() {
    let e = engine();
    assert_eq!((e.risk.halted_until_ms, f(e.risk.total_exposure)), (0, 0.0));
    assert_eq!((f(e.risk.daily_pnl), f(e.risk.weekly_pnl)), (0.0, 0.0));
    assert_eq!((f(e.state.up_bid), f(e.state.down_ask), e.state.pm_last_ts), (0.0, 0.0, 0));
    assert_eq!((e.state.total_signals, e.state.total_orders, e.state.position.pending_orders), (0, 0, 0));
    assert!(e.state.cross_markets.is_empty() && e.log.fills.is_empty());
    assert_eq!((e.house.side, e.house.flips, e.next_order_id), (None, 0, 1));
}

#[test]
fn the_end_keeps_house_and_log() {
    let mut e = engine();
    e.house.side = Some(Side::Up);
    e.house.flips = 1;
    e.next_order_id = 9;
    e.log.on_order(1, "latency_arb", Side::Down);
    e.on_ack(&ack(1, OrderStatus::Filled, Some((0.4, 10.0))), r(10.0), r(0.4));
    e.finish(r(0.0), &NameTable::new(), r(0.0), r(0.0));
    assert_eq!((e.house.side, e.house.flips, e.next_order_id), (Some(Side::Up), 1, 9));
    assert_eq!(e.log.fills.len(), 1);
}

#[test]
fn a_price_that_is_no_number_counts() {
    let mut bn = BinanceState::new(1, 30_000, 60_000);
    bn.on_trade(trade(0, 0.0));
    assert!(!bn.ewma_vol.seeded);
    bn.on_trade(trade(0, f64::NAN));
    assert!(bn.ewma_vol.seeded);
    assert!(f(bn.on_trade(trade(1_000, 100.0)).sample.unwrap().base).is_nan());
    assert_eq!(f(bn.on_trade(trade(2_000, f64::NAN)).sample.unwrap().base), 100.0);
    assert_eq!(bn.ewma_vol.n_samples(), 2);
}
