//! Trades of the Binance stream.

use vstd::prelude::*;

use crate::json::{json_of_text, parse_json, Json, JsonView};
use crate::number::{float_text, is_float_text};

verus! {

/// A trade message. Price and quantity stand as the decimal texts of the message.
#[derive(Debug)]
pub struct TradeMessage {
    pub exchange_ts_ms: i64,
    pub price: String,
    pub qty: String,
    pub is_buy: bool,
}

/// What a `TradeMessage` holds.
pub ghost struct TradeView {
    pub exchange_ts_ms: i64,
    pub price: Seq<char>,
    pub qty: Seq<char>,
    pub is_buy: bool,
}

impl View for TradeMessage {
    type V = TradeView;

    open spec fn view(&self) -> TradeView {
        TradeView {
            exchange_ts_ms: self.exchange_ts_ms,
            price: self.price@,
            qty: self.qty@,
            is_buy: self.is_buy,
        }
    }
}

pub open spec fn opt_trade(t: Option<TradeMessage>) -> Option<TradeView> {
    match t {
        Some(t) => Some(t@),
        None => None,
    }
}

/// The decimal text under a member, where there is one.
pub open spec fn decimal_member(v: JsonView, key: Seq<char>) -> Option<Seq<char>> {
    match v.text_at(key) {
        Some(s) => if is_float_text(s) {
            Some(s)
        } else {
            None
        },
        None => None,
    }
}

/// The integer under a member, where there is one.
pub open spec fn int_member(v: JsonView, key: Seq<char>) -> Option<i64> {
    match v.get(key) {
        Some(x) => x.as_int(),
        None => None,
    }
}

/// The truth value under a member, where there is one.
pub open spec fn bool_member(v: JsonView, key: Seq<char>) -> Option<bool> {
    match v.get(key) {
        Some(x) => x.as_bool(),
        None => None,
    }
}

/// The trade that a message describes: price under `p`, quantity under `q`, time under `T`,
/// and under `m` whether the buyer was the maker.
pub open spec fn trade_of(v: JsonView) -> Option<TradeView> {
    match (
        decimal_member(v, "p"@),
        decimal_member(v, "q"@),
        int_member(v, "T"@),
        bool_member(v, "m"@),
    ) {
        (Some(price), Some(qty), Some(ts), Some(maker)) => Some(
            TradeView { exchange_ts_ms: ts, price, qty, is_buy: !maker },
        ),
        _ => None,
    }
}

fn decimal_at(v: &Json, key: &str) -> (r: Option<String>)
    ensures
        match r {
            Some(s) => decimal_member(v.view(), key@) == Some(s@),
            None => decimal_member(v.view(), key@) is None,
        },
{
    match v.text_at(key) {
        Some(s) => if float_text(s.as_str()) {
            Some(s.clone())
        } else {
            None
        },
        None => None,
    }
}

/// The integer under a member, where there is one.
pub fn int_at(v: &Json, key: &str) -> (r: Option<i64>)
    ensures
        r == int_member(v.view(), key@),
{
    match v.get(key) {
        Some(x) => x.as_int(),
        None => None,
    }
}

/// The truth value under a member, where there is one.
pub fn bool_at(v: &Json, key: &str) -> (r: Option<bool>)
    ensures
        r == bool_member(v.view(), key@),
{
    match v.get(key) {
        Some(x) => x.as_bool(),
        None => None,
    }
}

/// The trade that a message describes, where it describes one.
pub fn trade_from_json(v: &Json) -> (r: Option<TradeMessage>)
    ensures
        opt_trade(r) == trade_of(v.view()),
{
    let price = match decimal_at(v, "p") {
        Some(s) => s,
        None => return None,
    };
    let qty = match decimal_at(v, "q") {
        Some(s) => s,
        None => return None,
    };
    let exchange_ts_ms: i64 = match int_at(v, "T") {
        Some(ts) => ts,
        None => return None,
    };
    // m=true means seller is maker, so buyer is taker
    let is_buy = match bool_at(v, "m") {
        Some(m) => !m,
        None => return None,
    };
    Some(TradeMessage { exchange_ts_ms, price, qty, is_buy })
}

/// Reads the text of a trade message.
pub fn parse_trade(text: &str) -> (r: Option<TradeMessage>)
    ensures
        opt_trade(r) == match json_of_text(text@) {
            Ok(v) => trade_of(v),
            Err(_) => None,
        },
{
    match parse_json(text) {
        Ok(v) => trade_from_json(&v),
        Err(_) => None,
    }
}

/// The price of a trade stands under `p`, its quantity under `q` and its time under `T`; it is
/// a buy exactly where `m` is false. A message without one of them describes no trade, and one
/// with all of them does.
pub proof fn law_trade_members(v: JsonView)
    ensures
        trade_of(v) matches Some(t) ==> {
            &&& v.get("p"@) == Some(JsonView::Text(t.price)) && is_float_text(t.price)
            &&& v.get("q"@) == Some(JsonView::Text(t.qty)) && is_float_text(t.qty)
            &&& v.get("T"@) matches Some(JsonView::Number(n)) && n.int == Some(t.exchange_ts_ms)
            &&& v.get("m"@) == Some(JsonView::Bool(!t.is_buy))
        },
        (v.get("p"@) matches Some(JsonView::Text(p)) && is_float_text(p)) && (v.get(
            "q"@,
        ) matches Some(JsonView::Text(q)) && is_float_text(q)) && (v.get(
            "T"@,
        ) matches Some(JsonView::Number(n)) && n.int is Some) && (v.get("m"@) is Some && v.get("m"@)->0 is Bool) ==> trade_of(v) is Some,
{
}

/// What a trade message holds is what its fields hold.
pub proof fn law_trade_view(t: TradeMessage)
    ensures
        t@.price == t.price@,
        t@.qty == t.qty@,
        t@.exchange_ts_ms == t.exchange_ts_ms,
        t@.is_buy == t.is_buy,
        opt_trade(Some(t)) == Some(t@),
        opt_trade(None) is None,
{
}

} // verus!
