//! Playing a recorded market.

use std::collections::VecDeque;

use polymarket_crypto::history::events::ReplayEvent;
use polymarket_crypto::keys::{Key, KeyPress};
use polymarket_crypto::number::Real;
use polymarket_crypto::engine::risk::Amounts;
use polymarket_crypto::replay::account::Account;
use polymarket_crypto::replay::export::{export_header, export_row, ORDER_COLUMNS, SIGNAL_COLUMNS};
use polymarket_crypto::replay::player::{
    charts_ask, charts_bid, history_start, house_after_order, house_filter, jump_to, nearest_snapshot, push_capped,
    snapshot_due, Action, Player, SIGNAL_LOOKBACK,
};
use polymarket_crypto::replay::settings::replay_config;
use polymarket_crypto::types::{Side, Signal};

fn r(x: f64) -> Real {
    Real { bits: x.to_bits() }
}

fn press(key: Key) -> KeyPress {
    KeyPress { key, control: false, plain: true }
}

#[test]
fn steps_stay_in_the_replay() {
    let mut p = Player::new(250);
    assert_eq!(p.step_forward(100), Action::Forward { from: 0, to: 100 });
    assert_eq!(p.step_forward(usize::MAX), Action::Forward { from: 100, to: 250 });
    assert_eq!(p.step_back(50), Action::Back { to: 200, signals_from: 0 });
    assert_eq!(p.step_back(1_000), Action::Back { to: 0, signals_from: 0 });
    let mut p = Player::new(5_000);
    p.step_forward(4_000);
    assert_eq!(p.step_back(1), Action::Back { to: 3_999, signals_from: 3_999 - SIGNAL_LOOKBACK });
}

#[test]
fn keys_of_the_player() {
    let mut p = Player::new(1_000);
    assert_eq!(p.handle_key(press(Key::Right)), Action::Forward { from: 0, to: 1 });
    assert_eq!(p.handle_key(press(Key::Char('l'))), Action::Forward { from: 1, to: 2 });
    assert_eq!(p.handle_key(KeyPress { key: Key::Char('l'), control: true, plain: false }), Action::Nothing);
    assert_eq!(p.handle_key(press(Key::Char('h'))), Action::Back { to: 1, signals_from: 0 });
    assert_eq!(p.handle_key(press(Key::PageDown)), Action::Forward { from: 1, to: 101 });
    assert_eq!(p.handle_key(press(Key::PageUp)), Action::Back { to: 1, signals_from: 0 });
    assert_eq!(p.handle_key(press(Key::Char('G'))), Action::Forward { from: 1, to: 1_000 });
    assert_eq!(p.handle_key(press(Key::Home)), Action::Restart);
    assert_eq!(p.cursor, 0);
    assert_eq!(p.handle_key(press(Key::Esc)), Action::Quit);
    assert_eq!(p.handle_key(press(Key::Char('z'))), Action::Nothing);
}

#[test]
fn speed_and_ticks() {
    let mut p = Player::new(100);
    assert_eq!(p.tick(), Action::Nothing);
    p.handle_key(press(Key::Char(' ')));
    for _ in 0..10 {
        p.handle_key(press(Key::Char('+')));
    }
    assert_eq!(p.speed, 32);
    assert_eq!(p.tick(), Action::Forward { from: 0, to: 32 });
    for _ in 0..10 {
        p.handle_key(press(Key::Char('-')));
    }
    assert_eq!(p.speed, 1);
    p.step_forward(100);
    assert_eq!(p.tick(), Action::Nothing);
}

#[test]
fn where_the_replay_stands() {
    let events = vec![
        ReplayEvent::Binance { ts_ms: 7, price: r(1.0), qty: r(1.0), is_buy: true },
        ReplayEvent::Book { ts_ms: 9, is_up: true, bids: vec![], asks: vec![] },
    ];
    let mut p = Player::new(2);
    assert_eq!((p.current_event_ts(&events), p.current_event_label(&events)), (7, "---"));
    p.step_forward(2);
    assert_eq!((p.current_event_ts(&events), p.current_event_label(&events)), (9, "PM Book"));
    assert_eq!(Player::new(0).current_event_ts(&vec![]), 0);
}

#[test]
fn snapshots() {
    assert!(snapshot_due(2_000, 1_000) && !snapshot_due(2_001, 1_000));
    let at = vec![0, 1_000, 2_000];
    assert_eq!((nearest_snapshot(&at, 0), nearest_snapshot(&at, 999), nearest_snapshot(&at, 1_000)), (0, 0, 1));
    assert_eq!(nearest_snapshot(&at, 9_999), 2);
    assert_eq!(nearest_snapshot(&vec![5], 1), 0);
    let j = jump_to(&at, 2_500, 1_700);
    assert_eq!((j.snapshot, j.from, j.to), (1, 1_000, 1_700));
    let j = jump_to(&at, 1_200, 9_999);
    assert_eq!((j.snapshot, j.from, j.to), (1, 1_000, 1_200));
    assert_eq!(jump_to(&at, 0, 7).to, 0);
    // The way from a snapshot leads where the whole way leads.
    let apply = |from: u64, events: &[u64]| events.iter().fold(from, |s, e| s * 3 + e);
    let events: Vec<u64> = (0..30).collect();
    let j = jump_to(&vec![0, 10, 20], 30, 17);
    assert_eq!(apply(apply(0, &events[..j.from]), &events[j.from..j.to]), apply(0, &events[..17]));
    assert_eq!((history_start(100), history_start(1_500)), (0, 1_000));
}

#[test]
fn histories_are_capped() {
    let mut d: VecDeque<u32> = VecDeque::new();
    for i in 0..5 {
        push_capped(&mut d, 3, i);
    }
    assert_eq!(d, vec![2, 3, 4]);
    assert!(charts_bid(r(0.02)) && !charts_bid(r(0.01)));
    assert!(charts_ask(r(0.98)) && !charts_ask(r(0.99)) && !charts_ask(r(0.0)));
}

fn signal(side: Side, is_passive: bool) -> Signal {
    Signal {
        strategy: "latency_arb",
        side,
        edge: r(0.1),
        fair_value: r(0.5),
        market_price: r(0.4),
        confidence: r(0.5),
        size_frac: r(0.01),
        is_passive,
        use_bid: false,
    }
}

#[test]
fn the_side_of_the_house() {
    let all = vec![signal(Side::Up, false), signal(Side::Down, false), signal(Side::Down, true)];
    assert_eq!(house_filter(&all, None).len(), 3);
    let kept: Vec<(Side, bool)> = house_filter(&all, Some(Side::Up)).iter().map(|s| (s.side, s.is_passive)).collect();
    assert_eq!(kept, vec![(Side::Up, false), (Side::Down, true)]);
    assert_eq!(house_after_order(None, &signal(Side::Down, false)), Some(Side::Down));
    assert_eq!(house_after_order(None, &signal(Side::Down, true)), None);
    assert_eq!(house_after_order(Some(Side::Up), &signal(Side::Down, false)), Some(Side::Up));
}

#[test]
fn rows_of_an_export() {
    let columns = export_header().split(',').count();
    let event: Vec<String> = vec!["x".to_string(); columns - SIGNAL_COLUMNS - ORDER_COLUMNS];
    let bare = export_row(event.clone(), None, None);
    assert_eq!(bare.split(',').count(), columns);
    assert!(bare.ends_with("x,,,,,,,,,,,,,,,"));
    let full = export_row(event, Some(vec!["s".to_string(); SIGNAL_COLUMNS]), Some(vec!["o".to_string(); ORDER_COLUMNS]));
    assert!(full.ends_with("s,s,o,o,o,o,o,o,o"));
    assert_eq!(full.split(',').count(), columns);
    assert!(replay_config().dry_run);
}

fn signal_of(strategy: &'static str, side: Side, is_passive: bool) -> Signal {
    Signal {
        strategy,
        side,
        edge: r(0.1),
        fair_value: r(0.6),
        market_price: r(0.5),
        confidence: r(0.5),
        size_frac: r(0.01),
        is_passive,
        use_bid: false,
    }
}

fn plenty(size: f64) -> Amounts {
    Amounts {
        daily_floor: r(-30.0),
        weekly_floor: r(-80.0),
        max_portfolio: r(150.0),
        max_strategy: r(50.0),
        kelly_size: r(size),
        per_trade_cap: r(20.0),
        strategy_room: r(50.0),
        portfolio_room: r(150.0),
        max_delta: r(0.0),
        max_gamma_neg: r(0.0),
    }
}

#[test]
fn account_puts_orders_down() {
    let mut a = Account::new();
    let passive = signal_of("lp_extreme", Side::Down, true);
    let o = a.take(&passive, &plenty(10.0), false, r(10.0), r(10.0), 1_000).unwrap();
    assert_eq!((o.id, o.side, o.size), (1, Side::Down, r(10.0)));
    assert_eq!(a.house, None);
    let active = signal_of("certainty_capture", Side::Up, false);
    let o = a.take(&active, &plenty(30.0), false, r(20.0), r(30.0), 1_000).unwrap();
    assert_eq!((o.id, o.size), (2, r(20.0)));
    assert_eq!((a.house, a.next_order_id), (Some(Side::Up), 3));
    assert_eq!(a.risk.total_exposure, r(30.0));
    let state = a.risk.strategy_state("certainty_capture").unwrap();
    assert_eq!((state.exposure, state.orders_this_market, state.last_order_ms), (r(20.0), 1, 1_000));
}

#[test]
fn account_refuses_what_a_limit_stops() {
    let mut a = Account::new();
    let s = signal_of("latency_arb", Side::Up, false);
    assert!(a.take(&s, &plenty(10.0), true, r(10.0), r(10.0), 1_000).is_none());
    assert!(a.take(&signal_of("unknown", Side::Up, false), &plenty(10.0), false, r(10.0), r(10.0), 1_000).is_none());
    assert_eq!((a.house, a.next_order_id, a.risk.total_exposure), (None, 1, r(0.0)));
    assert!(a.take(&s, &plenty(10.0), false, r(10.0), r(10.0), 1_000).is_some());
    // The pause between two orders of a strategy has not passed.
    assert!(a.take(&s, &plenty(10.0), false, r(20.0), r(20.0), 1_001).is_none());
    assert_eq!(a.next_order_id, 2);
}
