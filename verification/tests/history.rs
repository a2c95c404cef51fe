//! Recorded markets.

use polymarket_crypto::engine::runner::StrategyKind;
use polymarket_crypto::engine::state::{BinanceState, MarketState};
use polymarket_crypto::history::events::{
    advance, apply_event, evaluate_event, in_opening, merge_events, MarketInput, ReplayEvent,
};
use polymarket_crypto::history::info::{load_market_info, strike_of, time_or};
use polymarket_crypto::history::rows::{
    binance_row, buys, group_books, load_binance_csv, load_book_csv, load_polymarket_csv, BinanceCsvRow,
    BookSide, BookSnapshot, LevelRow, PmCsvRow,
};
use polymarket_crypto::number::Real;
use polymarket_crypto::types::MarketInfo;

fn r(x: f64) -> Real {
    Real { bits: x.to_bits() }
}

fn f(x: Real) -> f64 {
    f64::from_bits(x.bits)
}

#[test]
fn recorded_trades() {
    let rows = load_binance_csv(
        "timestamp,recv,exchange_ts,price,qty,side\n\
         a,b,1000,95000.5,0.25,buy\n\
         a,b,1001,95001,, SELL \n\
         a,b,0,95001,1,buy\n\
         a,b,x,95001,1,buy\n\
         a,b,1002,price,1,buy\n\
         a,b,1003,95001\n",
    );
    assert_eq!(rows.len(), 2);
    assert_eq!((rows[0].ts_ms, rows[0].price.as_str(), rows[0].qty.as_deref(), rows[0].is_buy), (1000, "95000.5", Some("0.25"), true));
    assert_eq!((rows[1].ts_ms, rows[1].qty.as_deref(), rows[1].is_buy), (1001, None, false));
    let row = binance_row(&rows[0], r(95000.5), r(0.25)).unwrap();
    assert_eq!((row.ts_ms, f(row.price), row.is_buy), (1000, 95000.5, true));
    assert!(binance_row(&rows[0], r(0.0), r(0.25)).is_none());
    assert!(buys("buy") && buys("") && !buys("sell"));
}

#[test]
fn recorded_quotes() {
    let rows = load_polymarket_csv("h\na,77,c,d,0.48,0.52,,x\nb,77,c,d,0.48,0.52,0.1\n");
    assert_eq!(rows.len(), 1);
    assert_eq!((rows[0].ts_ms, rows[0].up_bid.as_deref(), rows[0].up_ask.as_deref()), (77, Some("0.48"), Some("0.52")));
    assert_eq!((rows[0].down_bid.as_deref(), rows[0].down_ask.as_deref()), (None, None));
    assert!(load_polymarket_csv("").is_empty());
}

#[test]
fn recorded_levels() {
    let rows = load_book_csv("h\na,5, up ,bid,0,0.48,100\na,5,down,ask,1,0.52,50\na,5,down,mid,1,0.52,50\na,5,up,bid,0,x,1\n");
    assert_eq!(rows.len(), 3);
    assert!(rows[0].is_up && rows[0].side == BookSide::Bid);
    assert!(!rows[1].is_up && rows[1].side == BookSide::Ask);
    assert!(rows[2].side == BookSide::Other);
}

fn level(ts_ms: i64, is_up: bool, side: BookSide, price: f64) -> LevelRow {
    LevelRow { ts_ms, is_up, side, price: r(price), size: r(1.0) }
}

#[test]
fn levels_make_books() {
    let books = group_books(&vec![
        level(5, true, BookSide::Bid, 0.4),
        level(5, true, BookSide::Ask, 0.6),
        level(5, false, BookSide::Bid, 0.3),
        level(4, true, BookSide::Bid, 0.1),
        level(5, true, BookSide::Bid, 0.45),
        level(5, true, BookSide::Other, 0.9),
    ]);
    let find = |ts: i64, up: bool| books.iter().find(|b| b.ts_ms == ts && b.is_up == up).unwrap();
    assert_eq!(books.len(), 3);
    assert_eq!(books[0].ts_ms, 4);
    assert_eq!(find(5, true).bids.iter().map(|l| f(l.0)).collect::<Vec<_>>(), vec![0.4, 0.45]);
    assert_eq!(find(5, true).asks.len(), 1);
    assert_eq!(find(5, false).bids.len(), 1);
}

#[test]
fn what_is_known_of_a_recorded_market() {
    let info = load_market_info("slug=btc-1\nstart_ms=100\nend_ms = 200\nstrike=95000.5\n");
    assert_eq!((info.slug.as_str(), info.start_ms, info.end_ms, info.strike.as_deref()), ("btc-1", 100, 200, Some("95000.5")));
    let info = load_market_info("no key here");
    assert_eq!((info.slug.as_str(), info.start_ms, info.strike), ("unknown", 0, None));
    assert_eq!((time_or(0, Some(5)), time_or(3, Some(5)), time_or(3, None)), (5, 3, 3));
    assert_eq!(strike_of(r(7.0), Some(r(8.0))).map(f), Some(7.0));
    assert_eq!(strike_of(r(0.0), Some(r(8.0))).map(f), Some(8.0));
    assert_eq!(strike_of(r(0.0), None).map(f), None);
}

fn timeline() -> Vec<ReplayEvent> {
    let trade = |ts: i64| BinanceCsvRow { ts_ms: ts, price: r(95_000.0), qty: r(1.0), is_buy: true };
    let quote = |ts: i64| PmCsvRow { ts_ms: ts, up_bid: r(0.01), up_ask: r(0.99), down_bid: r(0.4), down_ask: r(0.5) };
    let book = |ts: i64| BookSnapshot { ts_ms: ts, is_up: true, bids: vec![], asks: vec![] };
    merge_events(&vec![trade(10), trade(30)], &vec![quote(10), quote(20)], &vec![book(10), book(5)])
}

#[test]
fn events_come_in_time() {
    let seen: Vec<(i64, &str)> = timeline().iter().map(|e| (e.ts_ms(), e.type_label())).collect();
    assert_eq!(seen, vec![
        (5, "PM Book"),
        (10, "BN Trade"),
        (10, "PM Book"),
        (10, "PM Quote"),
        (20, "PM Quote"),
        (30, "BN Trade"),
    ]);
}

#[test]
fn events_move_the_market() {
    let events = timeline();
    assert!(matches!(apply_event(&events[1]), MarketInput::Trade(t) if t.exchange_ts_ms == 10 && t.is_buy));
    match apply_event(&events[3]) {
        MarketInput::Quote(q) => {
            // Placeholder prices are no quotes.
            assert_eq!((q.up_bid, q.up_ask), (None, None));
            assert_eq!((q.down_bid.map(f), q.down_ask.map(f)), (Some(0.4), Some(0.5)));
        }
        _ => panic!("not a quote"),
    }
    assert!(matches!(apply_event(&events[0]), MarketInput::Book(b) if b.is_up_token));
}

#[test]
fn strategies_of_an_event() {
    let events = timeline();
    assert!(evaluate_event(&events[1], false, 0, 300_000).is_empty());
    assert_eq!(
        evaluate_event(&events[1], true, 0, 300_000),
        vec![StrategyKind::LatencyArb, StrategyKind::LpExtreme, StrategyKind::StrikeMisalign]
    );
    assert_eq!(
        evaluate_event(&events[2], true, -100_000, 200_000),
        vec![
            StrategyKind::CertaintyCapture,
            StrategyKind::ConvexityFade,
            StrategyKind::CrossTimeframe,
            StrategyKind::LpExtreme
        ]
    );
    assert!(in_opening(0, 300_000, 15_000) && !in_opening(0, 300_000, 15_001) && !in_opening(0, 300_000, -1));
}

#[test]
fn a_timeline_is_played() {
    let info = MarketInfo {
        slug: "btc".to_string(),
        start_ms: 0,
        end_ms: 300_000,
        up_token_id: String::new(),
        down_token_id: String::new(),
    };
    let mut state = MarketState::new(info, r(95_000.0), BinanceState::new(5, 30_000, 60_000));
    let effects: Vec<bool> = timeline().iter().map(|e| advance(&mut state, e).is_some()).collect();
    assert_eq!(effects, vec![false, true, false, false, false, true]);
    assert_eq!((f(state.bn.binance_price), state.bn.binance_ts, state.pm_last_ts), (95_000.0, 30, 20));
    assert_eq!((f(state.down_bid), f(state.up_ask)), (0.4, 0.0));
}
