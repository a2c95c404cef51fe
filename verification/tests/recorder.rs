//! Recording markets, and the small tools.

use polymarket_crypto::history::info::load_market_info;
use polymarket_crypto::history::rows::{load_binance_csv, load_book_csv, load_polymarket_csv, BookSide};
use polymarket_crypto::json::parse_json;
use polymarket_crypto::number::{Quoted, Real};
use polymarket_crypto::probe::{reply_tokens, stream_passed, token_pair, tokens_from_json};
use polymarket_crypto::recorder::lines::{
    binance_header, book_header, info_lines, level_line, polymarket_header, record_trade, trade_line,
    QuoteLine,
};
use polymarket_crypto::recorder::quotes::{
    events_from_json, mid_of, record_message, recorded_levels, Mid, QuoteBoard, RecordedEvent,
};
use polymarket_crypto::recorder::session::{
    cycles_done, max_cycles, price_from_json, price_of_reply, price_url, quote_flush_due, ticker_url,
    trade_flush_due,
};
use polymarket_crypto::redeem::{redeemed_text, redemptions, sends_alerts};
use polymarket_crypto::types::MarketInfo;

fn r(x: f64) -> Real {
    Real { bits: x.to_bits() }
}

fn f(x: Real) -> f64 {
    f64::from_bits(x.bits)
}

fn words(v: &[&str]) -> Vec<String> {
    v.iter().map(|s| s.to_string()).collect()
}

fn number(q: &Option<Quoted>) -> Option<f64> {
    match q {
        Some(Quoted::Text(s)) => Some(s.parse().unwrap()),
        Some(Quoted::Bits(b)) => Some(f64::from_bits(*b)),
        None => None,
    }
}

#[test]
fn how_many_markets() {
    assert_eq!(max_cycles(&words(&["recorder", "--cycles", "3"])), Some(3));
    assert_eq!(max_cycles(&words(&["recorder"])), None);
    assert_eq!(max_cycles(&words(&["recorder", "--cycles"])), None);
    assert_eq!(max_cycles(&words(&["recorder", "--cycles", "many"])), None);
    assert!(!cycles_done(2, Some(3)) && cycles_done(3, Some(3)) && !cycles_done(9, None));
    assert!(trade_flush_due(2_000) && !trade_flush_due(1_999));
    assert!(quote_flush_due(100) && !quote_flush_due(0) && !quote_flush_due(50));
}

#[test]
fn the_price_service() {
    assert_eq!(ticker_url("BTC"), "https://api.binance.com/api/v3/ticker/price?symbol=BTCUSDT");
    assert_eq!(price_url("eth"), "https://api.binance.com/api/v3/ticker/price?symbol=ETHUSDT");
    assert_eq!(price_of_reply(r#"{"symbol":"BTCUSDT","price":"95000.10"}"#).as_deref(), Some("95000.10"));
    assert_eq!(price_of_reply(r#"{"price":"much"}"#), None);
    assert_eq!(price_of_reply("down"), None);
    assert_eq!(price_from_json(&parse_json(r#"{"price":1}"#).unwrap()), None);
}

#[test]
fn recorded_trades_read_back() {
    let line = record_trade("12:00:00", 1_001, r#"{"p":"95000.5","q":"0.25","T":1000,"m":true}"#).unwrap();
    assert_eq!(line, "12:00:00,1001,1000,95000.5,0.25,sell");
    let rows = load_binance_csv(&format!("{}\n{}\n", binance_header(), line));
    assert_eq!((rows[0].ts_ms, rows[0].price.as_str(), rows[0].is_buy), (1000, "95000.5", false));
    let bare = trade_line("t", 5, &parse_json("{}").unwrap());
    assert_eq!(bare, "t,5,0,0,0,buy");
    assert!(record_trade("t", 5, "nonsense").is_none());
}

#[test]
fn recorded_quotes_read_back() {
    let q = QuoteLine {
        up_price: "0.5".to_string(),
        down_price: "0.5".to_string(),
        up_bid: "0.48".to_string(),
        up_ask: "0.52".to_string(),
        down_bid: "0.47".to_string(),
        down_ask: "0.53".to_string(),
    };
    let line = q.line("t", 77);
    assert_eq!(line, "t,77,0.5,0.5,0.48,0.52,0.47,0.53");
    let rows = load_polymarket_csv(&format!("{}\n{}\n", polymarket_header(), line));
    assert_eq!((rows[0].ts_ms, rows[0].up_bid.as_deref(), rows[0].down_ask.as_deref()), (77, Some("0.48"), Some("0.53")));
    let line = level_line("t", 77, true, false, 2, "0.52", "100");
    assert_eq!(line, "t,77,up,ask,2,0.52,100");
    let rows = load_book_csv(&format!("{}\n{}\n", book_header(), line));
    assert!(rows[0].is_up && rows[0].side == BookSide::Ask && rows[0].size == "100");
}

#[test]
fn a_recorded_market_reads_back() {
    let m = MarketInfo {
        slug: "btc-updown-5m-1".to_string(),
        start_ms: 100,
        end_ms: 200,
        up_token_id: "11".to_string(),
        down_token_id: "22".to_string(),
    };
    let info = load_market_info(&info_lines(&m, "95000.5").join("\n"));
    assert_eq!((info.slug.as_str(), info.start_ms, info.end_ms, info.strike.as_deref()), ("btc-updown-5m-1", 100, 200, Some("95000.5")));
}

#[test]
fn events_of_a_recorded_message() {
    let events = record_message(
        r#"[{"event_type":"book","asset_id":"U","bids":[{"price":"0.4","size":"10"}],"asks":[{"price":0.6}]},
            {"event_type":"best_bid_ask","asset_id":"D","best_bid":"0.3","best_ask":"0.7"},
            {"event_type":"best_bid_ask","asset_id":"X","best_bid":"0.3"}]"#,
        "U",
        "D",
    );
    assert_eq!(events.len(), 2);
    match &events[0] {
        RecordedEvent::Book { is_up, bids, asks } => {
            assert!(*is_up);
            assert_eq!((number(&bids[0].price), number(&bids[0].size)), (Some(0.4), Some(10.0)));
            assert_eq!((number(&asks[0].price), number(&asks[0].size)), (Some(0.6), None));
        }
        _ => panic!("not a book"),
    }
    assert!(matches!(&events[1], RecordedEvent::Quote { is_up: false, bid, ask } if number(bid) == Some(0.3) && number(ask) == Some(0.7)));
    assert!(record_message("PONG", "U", "D").is_empty());
    assert!(events_from_json(&parse_json("7").unwrap(), "U", "D").is_empty());
}

#[test]
fn the_board_keeps_the_last_prices() {
    let mut b = QuoteBoard::new();
    b.on_quote(true, Some(r(0.4)), None);
    b.on_quote(true, None, Some(r(0.6)));
    b.on_book(false, &vec![(r(0.3), r(1.0))], &vec![(r(0.0), r(1.0))]);
    assert_eq!((f(b.up_bid), f(b.up_ask), f(b.down_bid), f(b.down_ask)), (0.4, 0.6, 0.3, 0.0));
    assert_eq!(mid_of(b.up_bid, b.up_ask), Mid::Average);
    assert_eq!(mid_of(b.down_bid, b.down_ask), Mid::Price(r(0.3)));
    assert_eq!(recorded_levels(&vec![(r(0.4), r(1.0)), (r(0.0), r(1.0)), (r(0.5), r(0.0)), (r(0.6), r(2.0))]), vec![0, 3]);
}

// ── Tools ──

#[test]
fn tokens_of_the_probe() {
    assert_eq!(
        token_pair(Some(words(&["Up", "Down"])), Some(words(&["1", "2", "3"]))),
        Some(("1".to_string(), "2".to_string()))
    );
    assert_eq!(token_pair(Some(words(&["Up"])), Some(words(&["1", "2"]))), None);
    assert_eq!(token_pair(None, Some(words(&["1", "2"]))), None);
    let reply = r#"[{"markets":[{"outcomes":"[\"Up\"]","clobTokenIds":"[]"},
        {"outcomes":"[\"Up\",\"Down\"]","clobTokenIds":"[\"11\",\"22\"]"}]}]"#;
    assert_eq!(reply_tokens(reply), ("11".to_string(), "22".to_string()));
    assert_eq!(reply_tokens("[]"), (String::new(), String::new()));
    assert_eq!(reply_tokens("no"), (String::new(), String::new()));
    assert_eq!(tokens_from_json(&parse_json("{}").unwrap()), (String::new(), String::new()));
    assert!(stream_passed(1, true) && stream_passed(0, false) && !stream_passed(0, true));
}

#[test]
fn conditions_are_redeemed_once() {
    assert_eq!(redemptions(&words(&["a", "b", "a", "c", "b"])), vec![0, 1, 3]);
    assert!(redemptions(&vec![]).is_empty());
    assert_eq!(
        redeemed_text("BTC up?", "Up", "0xab"),
        "💰 *Redeemed*\nBTC up?\nOutcome: Up\n[View tx](https://polygonscan.com/tx/0xab)"
    );
    assert!(sends_alerts(Some("t"), Some("c")));
    assert!(!sends_alerts(Some(""), Some("c")) && !sends_alerts(Some("t"), None));
}
