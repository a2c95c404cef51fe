//! Logs of a market: what is written, what is read back, and what it adds up to.

use polymarket_crypto::analyzer::args::{
    date_range, from_cli, interval_selected, parse_date, parse_date_to_ms, slug_selected, start_selected,
    Args, Command,
};
use polymarket_crypto::analyzer::report::{market_detail, report};
use polymarket_crypto::analyzer::rows::{
    parse_fills, parse_market_info, parse_orders, parse_signals, FillRow, OrderRow, SignalRow,
};
use polymarket_crypto::analyzer::tally::{
    analyze_market, earlier, later, side_matches, status_is_filled, StrategyCounts,
};
use polymarket_crypto::table::NameTable;
use polymarket_crypto::telemetry::alerts::{
    market_start_text, rejection_text, FillAlert, MetricsAlert, OrderAlert, SignalAlert, SummaryAlert,
};
use polymarket_crypto::telemetry::lines::{
    fills_header, latency_header, latency_line, log_dir, message_url, orders_header, signals_header,
    FillLine, OrderLine, SignalLine,
};
use polymarket_crypto::telemetry::market::{outcome_text, start_lines, MarketEnd, StrategyEntry};
use polymarket_crypto::types::Side;

fn words(v: &[&str]) -> Vec<String> {
    v.iter().map(|s| s.to_string()).collect()
}

fn run_args(v: &[&str]) -> Args {
    match from_cli(&words(v)) {
        Command::Run(a) => a,
        _ => panic!("not a run"),
    }
}

// ── Command line ──

#[test]
fn options_of_the_analyzer() {
    let a = run_args(&["analyzer"]);
    assert_eq!((a.logs_dir.as_str(), a.interval_filter, a.asset_filter, a.since_ms, a.verbose), ("logs", None, None, None, false));
    let a = run_args(&["analyzer", "--logs-dir", "out", "--interval", "5m", "--asset", "BTC", "--since", "2024-01-02", "-v"]);
    assert_eq!(a.logs_dir, "out");
    assert_eq!(a.interval_filter.as_deref(), Some("5m"));
    assert_eq!(a.asset_filter.as_deref(), Some("btc"));
    assert_eq!(a.since_ms, Some(1_704_153_600_000));
    assert!(a.verbose);
    assert_eq!(run_args(&["analyzer", "--since", "soon"]).since_ms, None);
    assert!(run_args(&["analyzer", "--verbose"]).verbose);
}

#[test]
fn options_that_are_none() {
    assert!(matches!(from_cli(&words(&["analyzer", "--help"])), Command::Help));
    assert!(matches!(from_cli(&words(&["analyzer", "-v", "-h", "--bad"])), Command::Help));
    assert!(matches!(from_cli(&words(&["analyzer", "--bad"])), Command::Unknown(w) if w == "--bad"));
    assert!(matches!(from_cli(&words(&["analyzer", "--since"])), Command::MissingValue(w) if w == "--since"));
    assert!(matches!(from_cli(&words(&[])), Command::Run(_)));
}

#[test]
fn dates() {
    assert_eq!(parse_date("2024-02-29"), Some((2024, 2, 29)));
    assert_eq!(parse_date("2024-02"), None);
    assert_eq!(parse_date("2024-x-01"), None);
    assert_eq!(parse_date_to_ms("1970-01-02"), Some(86_400_000));
    assert_eq!(parse_date_to_ms("2023-02-29"), None);
    assert_eq!(date_range(Some(0), Some(86_400_000)), "1970-01-01..1970-01-02");
    assert_eq!(date_range(Some(0), None), "no dates");
    assert_eq!(date_range(Some(i64::MAX), Some(0)), "?..1970-01-01");
}

#[test]
fn which_markets_are_read() {
    let mut a = run_args(&["analyzer"]);
    assert!(interval_selected(&a, "5m") && slug_selected(&a, "x") && start_selected(&a, None));
    a.interval_filter = Some("5m".to_string());
    a.asset_filter = Some("btc".to_string());
    a.since_ms = Some(100);
    assert!(interval_selected(&a, "5m") && !interval_selected(&a, "15m"));
    assert!(slug_selected(&a, "btc-updown-5m") && !slug_selected(&a, "eth-btc"));
    assert!(start_selected(&a, Some(100)) && !start_selected(&a, Some(99)) && start_selected(&a, None));
    assert_eq!((earlier(None, 5), earlier(Some(3), 5), earlier(Some(7), 5)), (5, 3, 5));
    assert_eq!((later(None, 5), later(Some(3), 5), later(Some(7), 5)), (5, 5, 7));
}

// ── Written lines ──

fn order_line(order_id: u64, side: Side, strategy: &str) -> OrderLine {
    OrderLine {
        ts_ms: 1,
        order_id,
        side,
        price: "0.500000".to_string(),
        size: "10.00".to_string(),
        strategy: strategy.to_string(),
        edge: "0.050000".to_string(),
        binance_price: "95000.00".to_string(),
        time_left_s: "120.0".to_string(),
    }
}

fn fill_line(order_id: u64, strategy: &str, status: &str) -> FillLine {
    FillLine {
        ts_ms: 2,
        order_id,
        strategy: strategy.to_string(),
        status: status.to_string(),
        filled_price: Some("0.5".to_string()),
        filled_size: Some("10".to_string()),
        submit_to_ack_ms: "12.0".to_string(),
        pnl_if_correct: None,
    }
}

#[test]
fn lines_of_the_logs() {
    assert_eq!(log_dir("5m", "btc-1"), "logs/5m/btc-1");
    assert_eq!(message_url("T"), "https://api.telegram.org/botT/sendMessage");
    assert_eq!(latency_header(), "ts_ms,event,latency_us");
    assert_eq!(latency_line(-5, "trade", 7), "-5,trade,7");
    assert_eq!(signals_header("btc"), "ts_ms,strategy,side,edge,fair,mkt,conf,size_frac,btc,dist,time_left_s,eval_us,selected");
    let s = SignalLine {
        ts_ms: 9,
        strategy: "lp_extreme".to_string(),
        side: Side::Down,
        edge: "0.1".to_string(),
        fair_value: "0.2".to_string(),
        market_price: "0.3".to_string(),
        confidence: "0.4".to_string(),
        size_frac: "0.5".to_string(),
        binance_price: "6".to_string(),
        distance: "7".to_string(),
        time_left_s: "8".to_string(),
        eval_latency_us: 11,
        selected: true,
    };
    assert_eq!(s.line(), "9,lp_extreme,Down,0.1,0.2,0.3,0.4,0.5,6,7,8,11,1");
    assert_eq!(orders_header(), "ts_ms,order_id,side,price,size,strategy,edge,btc,time_left_s");
    assert_eq!(order_line(3, Side::Up, "latency_arb").line(), "1,3,Up,0.500000,10.00,latency_arb,0.050000,95000.00,120.0");
    assert_eq!(fills_header(), "ts_ms,order_id,strategy,status,filled_price,filled_size,submit_to_ack_ms,pnl_if_correct");
    assert_eq!(fill_line(3, "latency_arb", "Filled").line(), "2,3,latency_arb,Filled,0.5,10,12.0,");
}

#[test]
fn a_written_market_reads_back() {
    let mut lines = start_lines("btc-1", "95000.00", 100, 200);
    assert_eq!(lines, words(&["slug=btc-1", "strike=95000.00", "start_ms=100", "end_ms=200"]));
    let end = MarketEnd {
        final_binance_price: "96000.00".to_string(),
        final_distance: "1000.00".to_string(),
        outcome: Side::Up,
        total_signals: 3,
        total_orders: 2,
        total_filled: 1,
        gross_pnl: "1.5".to_string(),
        per_strategy: vec![StrategyEntry {
            strategy: "latency_arb".to_string(),
            signals: 3,
            orders: 2,
            filled: 1,
            gross_pnl: "1.5".to_string(),
            avg_edge: "0.05".to_string(),
        }],
    };
    lines.extend(end.lines());
    assert_eq!(lines.len(), 12);
    assert_eq!(lines[6], format!("outcome={}", outcome_text(Side::Up)));
    let meta = parse_market_info("btc-1", Some(&lines.join("\n")));
    assert_eq!(meta.slug, "btc-1");
    assert_eq!(meta.strike.as_deref(), Some("95000.00"));
    assert_eq!((meta.start_ms, meta.end_ms), (Some(100), Some(200)));
    assert_eq!(meta.outcome.as_deref(), Some(outcome_text(Side::Up)));
    assert_eq!(meta.gross_pnl.as_deref(), Some("1.5"));
    let none = parse_market_info("btc-1", None);
    assert_eq!((none.strike, none.start_ms, none.outcome), (None, None, None));
}

#[test]
fn written_rows_read_back() {
    let content = format!("{}\n{}\n{}\n", orders_header(), order_line(3, Side::Up, "a").line(), order_line(4, Side::Down, "b").line());
    let orders = parse_orders(Some(&content));
    assert_eq!(orders.len(), 2);
    assert_eq!((orders[1].order_id, orders[1].side.as_str(), orders[1].strategy.as_str()), (4, "Down", "b"));
    assert_eq!((orders[0].price.as_str(), orders[0].size.as_str(), orders[0].edge.as_deref()), ("0.500000", "10.00", Some("0.050000")));
    let content = format!("{}\n{}\n", fills_header(), fill_line(3, "a", "Filled").line());
    let fills = parse_fills(Some(&content));
    assert_eq!((fills[0].order_id, fills[0].status.as_str(), fills[0].pnl_if_correct.as_deref()), (3, "Filled", None));
    assert_eq!(fills[0].filled_price.as_deref(), Some("0.5"));
    assert!(parse_orders(None).is_empty() && parse_fills(Some("")).is_empty());
}

#[test]
fn rows_that_say_too_little_are_left_out() {
    let orders = parse_orders(Some("order_id,side,price,size,strategy,edge\n1,Up,0.5,10,a,?\nx,Up,0.5,10,a,0.1\n2,Up,bad,10,a,0.1\n3,Up,0.5,10,a\n"));
    assert_eq!(orders.iter().map(|o| (o.order_id, o.edge.clone())).collect::<Vec<_>>(), vec![(1, None)]);
    let signals = parse_signals(Some("ts,strategy,selected\n1,a,1\n2,b,TRUE\n3,c,0\n4,d\n"));
    assert_eq!(
        signals.iter().map(|s| (s.strategy.as_str(), s.selected)).collect::<Vec<_>>(),
        vec![("a", Some(true)), ("b", Some(true)), ("c", Some(false)), ("d", None)]
    );
}

// ── Counts ──

fn order(order_id: u64, side: &str, strategy: &str) -> OrderRow {
    OrderRow {
        order_id,
        side: side.to_string(),
        price: "0.5".to_string(),
        size: "10".to_string(),
        strategy: strategy.to_string(),
        edge: None,
    }
}

fn fill(order_id: u64, strategy: &str, status: &str) -> FillRow {
    FillRow {
        order_id,
        strategy: strategy.to_string(),
        status: status.to_string(),
        filled_price: Some("0.4".to_string()),
        filled_size: Some("10".to_string()),
        pnl_if_correct: None,
    }
}

#[test]
fn sides_and_statuses() {
    assert!(side_matches("Up", "UP") && side_matches("\"down\"", "Down") && !side_matches("Up", "DOWN"));
    assert!(status_is_filled("Filled") && status_is_filled("PartialFill") && !status_is_filled("Live"));
}

#[test]
fn a_market_adds_to_its_strategies() {
    let meta = parse_market_info("btc-1", Some("outcome=UP\n"));
    let signals = vec![
        SignalRow { strategy: "a".to_string(), selected: Some(true) },
        SignalRow { strategy: "a".to_string(), selected: Some(false) },
    ];
    let orders = vec![order(1, "Up", "a"), order(2, "Down", "b"), order(3, "Up", "a")];
    let fills = vec![fill(1, "", "Filled"), fill(2, "b", "Filled"), fill(3, "a", "Live"), fill(9, "", "Filled")];
    let mut table: NameTable<StrategyCounts> = NameTable::new();
    let trades = analyze_market(&mut table, &meta, &signals, &orders, &fills, 0);
    let a = table.get("a").unwrap();
    assert_eq!((a.markets, a.signals_total, a.signals_selected, a.orders, a.fills, a.wins), (1, 2, 1, 2, 1, 1));
    let b = table.get("b").unwrap();
    assert_eq!((b.markets, b.orders, b.fills, b.wins), (1, 1, 1, 0));
    assert_eq!(
        trades.iter().map(|t| (t.strategy.as_str(), t.won)).collect::<Vec<_>>(),
        vec![("a", Some(true)), ("b", Some(false)), ("unknown", Some(false))]
    );
    let all = report(&table);
    assert_eq!(all.names, words(&["a", "b"]));
    assert_eq!((all.totals.signals, all.totals.selected, all.totals.orders, all.totals.fills, all.totals.wins), (2, 1, 3, 2, 1));
    assert_eq!(all.unattributed, 1);
    // A second market is counted once more.
    analyze_market(&mut table, &meta, &signals, &orders, &fills, 1);
    assert_eq!(table.get("a").unwrap().markets, 2);
    // One in which a strategy has signals alone is not.
    analyze_market(&mut table, &meta, &signals, &vec![], &vec![], 2);
    analyze_market(&mut table, &meta, &signals, &vec![], &vec![fill(2, "b", "Filled")], 3);
    assert_eq!((table.get("a").unwrap().markets, table.get("b").unwrap().markets), (2, 3));
}

#[test]
fn details_of_a_market() {
    let orders = vec![order(1, "Up", "b"), order(2, "Down", "a"), order(3, "Up", "b")];
    let fills = vec![fill(1, "b", "Filled"), fill(3, "b", "Live"), fill(2, "a", "PartialFill")];
    let detail = market_detail(&orders, &fills);
    let seen: Vec<(&str, u64, usize)> = detail.iter().map(|d| (d.strategy.as_str(), d.orders, d.fills)).collect();
    assert!(seen.contains(&("a", 1, 1)));
    assert!(seen.contains(&("b", 2, 2)));
    assert_eq!(seen.len(), 2);
}

// ── Alerts ──

#[test]
fn texts_of_alerts() {
    let s = |x: &str| x.to_string();
    let signal = SignalAlert {
        strategy: s("lp_extreme"),
        side: Side::Up,
        edge_cents: s("5.0"),
        fair_value: s("0.55"),
        market_price: s("0.50"),
        asset_label: s("BTC"),
        binance_price: s("95000"),
        distance: s("500"),
        time_left_s: s("120"),
        eval_latency_us: 7,
    };
    assert_eq!(
        signal.text(),
        "⚡ lp_extreme signal: 🟢 UP\nEdge: 5.0¢ | Fair: 0.55 | Mkt: 0.50\nBTC: $95000 | Dist: $500\nTime: 120s left | eval: 7μs"
    );
    let order = OrderAlert {
        order_id: 3,
        side: Side::Down,
        price: s("0.50"),
        size: s("20.00"),
        strategy: s("latency_arb"),
        edge_cents: s("5.0"),
        asset_label: s("BTC"),
        binance_price: s("95000"),
        time_left_s: s("120"),
    };
    assert_eq!(
        order.text(),
        "📦 ORDER #3: 🔴 DOWN @ $0.50 x $20.00\nStrategy: latency_arb | Edge: 5.0¢\nBTC: $95000 | Time: 120s left"
    );
    let mut fill = FillAlert {
        order_id: 3,
        side: Side::Down,
        status: s("Filled"),
        filled_price: Some(s("0.50")),
        filled_size: None,
        submit_to_ack_ms: s("12.0"),
        strategy: s("latency_arb"),
        pnl_if_correct: None,
    };
    assert_eq!(
        fill.text(),
        "✅ FILL #3: 🔴 DOWN Filled price=$0.50 size=n/a (12.0ms)\nStrategy: latency_arb | PnL if correct: n/a"
    );
    fill.status = s("Unmatched");
    assert!(fill.text().starts_with("❌ FILL"));
    assert_eq!(market_start_text("btc-1", "95000", 300), "🏁 Market started: <code>btc-1</code>\nStrike: $95000 | Window: 300s");
    assert_eq!(rejection_text(4, "a", "bad price: x"), "⛔ ORDER #4 REJECTED (local)\nStrategy: a | Reason: bad price: x");
    let metrics = MetricsAlert {
        strategy: s("a"),
        fill_count: 2,
        fill_rate_pct: s("50.0"),
        win_rate_pct: s("60.0"),
        adverse_selection: s("0.100"),
        avg_edge: s("0.0500"),
    };
    assert_eq!(metrics.text(), "📊 Strategy: a\nFills: 2 | Rate: 50.0% | WR: 60.0%\nAdv sel: 0.100 | Avg edge: 0.0500");
    let mut summary = SummaryAlert {
        slug: s("btc-1"),
        outcome: Side::Up,
        final_distance: s("12"),
        total_signals: 3,
        total_orders: 2,
        total_filled: 1,
        gross_pnl: s("1.50"),
        per_strategy: vec![],
    };
    let totals = "🏆 Market ended: <code>btc-1</code>\nOutcome: 🟢 UP | Final dist: $12\nSignals: 3 | Orders: 2 | Filled: 1\nGross PnL: $1.50";
    assert_eq!(summary.text(), totals);
    summary.per_strategy.push(StrategyEntry {
        strategy: s("a"),
        signals: 3,
        orders: 2,
        filled: 1,
        gross_pnl: s("1.50"),
        avg_edge: s("0.05"),
    });
    assert_eq!(summary.text(), format!("{}\n\n📊 <b>Per Strategy:</b>\n  <code>a</code>: sig=3 ord=2 fill=1 pnl=$1.50", totals));
}
