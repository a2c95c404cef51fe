//! Messages of the feeds.

use polymarket_crypto::feeds::binance::{bool_at, int_at, parse_trade, trade_from_json};
use polymarket_crypto::feeds::polymarket::{parse_clob_message, quote_from_json, subscribe_message};
use polymarket_crypto::feeds::{next_backoff, FIRST_BACKOFF_MS};
use polymarket_crypto::json::{parse_json, Json, Member};
use polymarket_crypto::number::Quoted;

fn text(key: &str, value: &str) -> Member {
    Member { key: key.to_string(), value: Json::Text(value.to_string()) }
}

fn number(q: &Option<Quoted>) -> Option<f64> {
    match q {
        Some(Quoted::Text(s)) => Some(s.parse().unwrap()),
        Some(Quoted::Bits(b)) => Some(f64::from_bits(*b)),
        None => None,
    }
}

#[test]
fn waits_double_up_to_ten_seconds() {
    let mut waits = vec![FIRST_BACKOFF_MS];
    for i in 0..5 {
        waits.push(next_backoff(waits[i]));
    }
    assert_eq!(waits, vec![1000, 2000, 4000, 8000, 10_000, 10_000]);
}

#[test]
fn a_trade_message() {
    let t = parse_trade(r#"{"e":"trade","p":"95000.50","q":"0.25","T":1700000000123,"m":false}"#).unwrap();
    assert_eq!((t.exchange_ts_ms, t.price.as_str(), t.qty.as_str(), t.is_buy), (1_700_000_000_123, "95000.50", "0.25", true));
    let t = parse_trade(r#"{"p":"1e3","q":"2","T":5,"m":true}"#).unwrap();
    assert!(!t.is_buy);
}

#[test]
fn no_trade_without_its_members() {
    for broken in [
        "not json",
        r#"{"q":"1","T":5,"m":true}"#,
        r#"{"p":"1","T":5,"m":true}"#,
        r#"{"p":"1","q":"1","m":true}"#,
        r#"{"p":"1","q":"1","T":5}"#,
        r#"{"p":1.0,"q":"1","T":5,"m":true}"#,
        r#"{"p":"x","q":"1","T":5,"m":true}"#,
        r#"{"p":"1","q":"1","T":"5","m":true}"#,
        r#"{"p":"1","q":"1","T":5,"m":"true"}"#,
    ] {
        assert!(parse_trade(broken).is_none(), "{}", broken);
    }
}

#[test]
fn members_of_a_document() {
    let v = parse_json(r#"{"a":7,"b":true,"c":"x"}"#).unwrap();
    assert_eq!((int_at(&v, "a"), int_at(&v, "c"), int_at(&v, "z")), (Some(7), None, None));
    assert_eq!((bool_at(&v, "b"), bool_at(&v, "a")), (Some(true), None));
    let built = Json::Object(vec![text("p", "1"), text("q", "2")]);
    assert!(trade_from_json(&built).is_none());
    assert!(parse_json("{").is_err());
}

#[test]
fn a_quote_of_both_tokens() {
    let q = parse_clob_message(
        r#"[{"event_type":"best_bid_ask","asset_id":"U","best_bid":"0.48","best_ask":"0.52","timestamp":77},
            {"event_type":"price_change","asset_id":"D","price":0.47,"best_ask":"0.51"}]"#,
        5,
        "U",
        "D",
    )
    .unwrap();
    assert_eq!(q.server_ts_ms, 77);
    assert_eq!(number(&q.up_bid), Some(0.48));
    assert_eq!(number(&q.up_ask), Some(0.52));
    assert_eq!(number(&q.down_bid), Some(0.47));
    assert_eq!(number(&q.down_ask), Some(0.51));
}

#[test]
fn a_single_event_is_a_message() {
    let q = parse_clob_message(r#"{"event_type":"book","asset_id":"U","best_ask":"0.52"}"#, 5, "U", "D").unwrap();
    assert_eq!((q.server_ts_ms, number(&q.up_bid), number(&q.up_ask)), (5, None, Some(0.52)));
}

#[test]
fn messages_without_a_quote() {
    for other in [
        "PONG",
        "[]",
        "7",
        r#"[{"event_type":"tick_size_change","asset_id":"U","best_bid":"0.4"}]"#,
        r#"[{"event_type":"book","asset_id":"X","best_bid":"0.4"}]"#,
        r#"[{"asset_id":"U","best_bid":"0.4"}]"#,
    ] {
        assert!(parse_clob_message(other, 5, "U", "D").is_none(), "{}", other);
    }
}

#[test]
fn later_events_win() {
    let event = |bid: &str| {
        Json::Object(vec![text("event_type", "book"), text("asset_id", "U"), text("best_bid", bid)])
    };
    let q = quote_from_json(&Json::List(vec![event("0.1"), event("0.2"), event("bad")]), 5, "U", "D").unwrap();
    assert_eq!(number(&q.up_bid), Some(0.2));
}

#[test]
fn the_subscription() {
    assert_eq!(
        subscribe_message("1\"2", "34"),
        r#"{"assets_ids":["1\"2","34"],"custom_feature_enabled":true,"type":"market"}"#
    );
}
