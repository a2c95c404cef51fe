//! Results of a backtest and its dashboard.

use polymarket_crypto::backtest::curves::{
    bin_counts, bucket_trades, drawdown_curve, max_drawdown_duration, outcome_counts, rolling_wins,
    time_buckets,
};
use polymarket_crypto::backtest::dashboard::{handle_key, BacktestApp, Tab};
use polymarket_crypto::backtest::mix::{count_strategies, strategy_mix, strategy_short};
use polymarket_crypto::backtest::settings::backtest_config;
use polymarket_crypto::backtest::tally::{compute_streaks, stats_of, trade_places, trades_on, TradeRecord};
use polymarket_crypto::keys::{Key, KeyPress};
use polymarket_crypto::number::Real;
use polymarket_crypto::types::Side;

fn r(x: f64) -> Real {
    Real { bits: x.to_bits() }
}

fn f(x: Real) -> f64 {
    f64::from_bits(x.bits)
}

fn reals(v: &[f64]) -> Vec<Real> {
    v.iter().map(|x| r(*x)).collect()
}

fn words(v: &[&str]) -> Vec<String> {
    v.iter().map(|s| s.to_string()).collect()
}

fn trade(strategy: &str, side: Side, is_passive: bool, time_left_s: f64, pnl: f64) -> TradeRecord {
    TradeRecord {
        strategy: strategy.to_string(),
        side,
        is_passive,
        time_left_s: r(time_left_s),
        pnl: r(pnl),
        won: pnl > 0.0,
    }
}

fn sample() -> Vec<TradeRecord> {
    vec![
        trade("latency_arb", Side::Up, false, 250.0, 5.0),
        trade("lp_extreme", Side::Down, true, 70.0, -2.0),
        trade("latency_arb", Side::Up, false, 20.0, -3.0),
        trade("latency_arb", Side::Down, false, 14.9, -4.0),
    ]
}

#[test]
fn stats_of_a_strategy() {
    let all = stats_of(&sample(), None);
    assert_eq!((all.n_orders, all.n_wins, all.n_losses, all.n_passive, all.n_active), (4, 1, 3, 1, 3));
    assert_eq!((f(all.max_win), f(all.max_loss)), (5.0, -4.0));
    assert_eq!((all.max_consecutive_wins(), all.max_consecutive_losses()), (1, 3));
    let la = stats_of(&sample(), Some("latency_arb"));
    assert_eq!((la.n_orders, la.n_wins, la.n_losses), (3, 1, 2));
    assert_eq!(la.trade_pnls, reals(&[5.0, -3.0, -4.0]));
    assert_eq!(stats_of(&sample(), Some("none")).n_orders, 0);
    assert_eq!((trades_on(&sample(), Side::Up), trades_on(&sample(), Side::Down)), (2, 2));
}

#[test]
fn streaks() {
    assert_eq!(compute_streaks(&reals(&[1.0, 2.0, -1.0, 0.0, -2.0, 3.0])), (2, 3));
    assert_eq!(compute_streaks(&vec![]), (0, 0));
}

#[test]
fn drawdowns() {
    let curve = drawdown_curve(&reals(&[1.0, 3.0, 2.0, 1.0, 4.0]));
    assert_eq!(
        curve.iter().map(|e| (e.trade_idx, f(e.peak), e.duration)).collect::<Vec<_>>(),
        vec![(1, 1.0, 0), (2, 3.0, 0), (3, 3.0, 1), (4, 3.0, 2), (5, 4.0, 0)]
    );
    assert_eq!(max_drawdown_duration(&curve), 2);
    assert_eq!(max_drawdown_duration(&vec![]), 0);
    // A curve that starts with a loss has its peak at zero.
    let curve = drawdown_curve(&reals(&[-1.0]));
    assert_eq!((f(curve[0].peak), curve[0].duration), (0.0, 1));
}

#[test]
fn trades_by_time_left() {
    let buckets = time_buckets(&sample());
    assert_eq!(buckets.len(), 8);
    assert_eq!(buckets.iter().map(|b| b.n_trades).sum::<usize>(), 4);
    let at = |s: f64| buckets.iter().find(|b| f(b.lo_s) <= s && s < f(b.hi_s)).unwrap();
    assert_eq!((at(250.0).n_trades, at(250.0).n_wins), (1, 1));
    assert_eq!((at(20.0).n_trades, at(14.9).n_trades, at(70.0).n_wins), (1, 1, 0));
    assert_eq!((f(at(14.9).lo_s), f(at(14.9).hi_s)), (0.0, 15.0));
    assert_eq!(bucket_trades(&sample(), r(15.0), r(100.0)), vec![1, 2]);
}

#[test]
fn counts_in_bins_and_windows() {
    assert_eq!(bin_counts(&vec![0, 2, 2, 9], 3), vec![1, 0, 3]);
    assert_eq!(rolling_wins(&vec![true, false, true, true], 2), vec![1, 1, 2]);
    assert!(rolling_wins(&vec![true], 2).is_empty());
    assert_eq!(outcome_counts(&vec![Side::Up, Side::Down, Side::Up]), (2, 1));
}

#[test]
fn the_mix_of_strategies() {
    let list = words(&["lp_extreme", "latency_arb", "lp_extreme", "odd"]);
    assert_eq!(strategy_mix(&list), "LP:2 LA:1 ??:1");
    assert_eq!(count_strategies(&list)[0], ("lp_extreme".to_string(), 2));
    let shorts: Vec<&str> = ["latency_arb", "certainty_capture", "convexity_fade", "cross_timeframe", "strike_misalign", "lp_extreme", "x"]
        .iter()
        .map(|s| strategy_short(s))
        .collect();
    assert_eq!(shorts, vec!["LA", "CC", "CF", "CT", "SM", "LP", "??"]);
    assert_eq!(strategy_mix(&vec![]), "");
}

#[test]
fn settings_of_a_backtest() {
    let c = backtest_config();
    assert!(c.dry_run);
    assert!(c.polymarket_private_key.is_none());
}

// ── Dashboard ──

fn press(key: Key) -> KeyPress {
    KeyPress { key, control: false, plain: true }
}

fn app() -> BacktestApp {
    BacktestApp::new(30, words(&["latency_arb", "lp_extreme", "latency_arb"]))
}

#[test]
fn pages_form_a_ring() {
    let mut t = Tab::Summary;
    for expected in Tab::all() {
        assert_eq!(t, expected);
        assert_eq!(t.next().prev(), t);
        t = t.next();
    }
    assert_eq!(t, Tab::Summary);
    assert_eq!(Tab::Correlation.label(), "Correl");
    let mut a = app();
    assert!(!handle_key(&mut a, press(Key::BackTab)));
    assert_eq!(a.tab, Tab::Correlation);
    handle_key(&mut a, press(Key::Char('4')));
    assert_eq!(a.tab, Tab::Trades);
}

#[test]
fn keys_that_leave() {
    let mut a = app();
    assert!(handle_key(&mut a, press(Key::Char('q'))));
    assert!(!handle_key(&mut a, press(Key::Char('c'))));
    assert!(handle_key(&mut a, KeyPress { key: Key::Char('c'), control: true, plain: false }));
    handle_key(&mut a, press(Key::Char('3')));
    handle_key(&mut a, press(Key::Enter));
    assert_eq!(a.market_drill_down, Some(0));
    assert!(!handle_key(&mut a, press(Key::Esc)));
    assert_eq!(a.market_drill_down, None);
    assert!(handle_key(&mut a, press(Key::Esc)));
}

#[test]
fn lists_scroll_within_their_ends() {
    let mut a = app();
    handle_key(&mut a, press(Key::Char('3')));
    handle_key(&mut a, press(Key::Up));
    assert_eq!(a.market_scroll, 0);
    handle_key(&mut a, press(Key::PageDown));
    assert_eq!(a.market_scroll, 20);
    handle_key(&mut a, press(Key::PageDown));
    assert_eq!(a.market_scroll, 29);
    handle_key(&mut a, press(Key::Char('j')));
    assert_eq!(a.market_scroll, 29);
    handle_key(&mut a, press(Key::PageUp));
    assert_eq!(a.market_scroll, 9);
    handle_key(&mut a, press(Key::Home));
    assert_eq!(a.market_scroll, 0);
    handle_key(&mut a, press(Key::End));
    assert_eq!((a.market_scroll, a.trade_scroll, a.strategy_scroll), (29, 0, 0));
}

#[test]
fn the_filter_walks_the_strategies() {
    let mut a = app();
    assert_eq!(a.filtered_trades(), vec![0, 1, 2]);
    handle_key(&mut a, press(Key::Char('f')));
    assert_eq!(a.filter_idx, 0);
    handle_key(&mut a, press(Key::Char('4')));
    handle_key(&mut a, press(Key::End));
    assert_eq!(a.trade_scroll, 2);
    handle_key(&mut a, press(Key::Char('f')));
    assert_eq!((a.filtered_trades(), a.trade_scroll), (vec![0, 2], 0));
    a.cycle_filter_forward();
    assert_eq!(a.filtered_trades(), vec![1]);
    a.cycle_filter_forward();
    assert_eq!(a.filtered_trades(), vec![0, 1, 2]);
}

#[test]
fn trades_are_joined_market_by_market() {
    assert_eq!(trade_places(&vec![2, 0, 1]), vec![(0, 0), (0, 1), (2, 0)]);
    assert_eq!(trade_places(&vec![0, 0]), vec![]);
    assert_eq!(trade_places(&vec![]), vec![]);
}
