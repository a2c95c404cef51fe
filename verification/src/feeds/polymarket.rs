//! Quotes of the Polymarket order book stream.

use vstd::prelude::*;
use vstd::string::*;

use crate::feeds::binance::{int_at, int_member};
use crate::json::{
    json_of_text, json_string, list_view, parse_json, quote_string, Json, JsonView,
};
use crate::number::{json_number, number_of_json, opt_quoted, Quoted, QuotedView};
use crate::text::str_eq;

verus! {

/// Best prices of both tokens, as far as a message gives them.
#[derive(Debug)]
pub struct QuoteMessage {
    pub server_ts_ms: i64,
    pub up_bid: Option<Quoted>,
    pub up_ask: Option<Quoted>,
    pub down_bid: Option<Quoted>,
    pub down_ask: Option<Quoted>,
}

/// What a `QuoteMessage` holds.
pub ghost struct QuoteView {
    pub server_ts_ms: i64,
    pub up_bid: Option<QuotedView>,
    pub up_ask: Option<QuotedView>,
    pub down_bid: Option<QuotedView>,
    pub down_ask: Option<QuotedView>,
}

impl View for QuoteMessage {
    type V = QuoteView;

    open spec fn view(&self) -> QuoteView {
        QuoteView {
            server_ts_ms: self.server_ts_ms,
            up_bid: opt_quoted(self.up_bid),
            up_ask: opt_quoted(self.up_ask),
            down_bid: opt_quoted(self.down_bid),
            down_ask: opt_quoted(self.down_ask),
        }
    }
}

pub open spec fn opt_quote(q: Option<QuoteMessage>) -> Option<QuoteView> {
    match q {
        Some(q) => Some(q@),
        None => None,
    }
}

/// The first of two optional values that is there.
pub open spec fn either<T>(a: Option<T>, b: Option<T>) -> Option<T> {
    if a is Some {
        a
    } else {
        b
    }
}

fn either_number(a: Option<Quoted>, b: Option<Quoted>) -> (r: Option<Quoted>)
    ensures
        opt_quoted(r) == either(opt_quoted(a), opt_quoted(b)),
{
    match a {
        Some(_) => a,
        None => b,
    }
}

/// The events of a message: the items of a list, or the one object that it is.
pub open spec fn message_events(v: JsonView) -> Option<Seq<JsonView>> {
    match v {
        JsonView::List(events) => Some(events),
        JsonView::Object(_) => Some(seq![v]),
        _ => None,
    }
}

/// Whether an event type carries best prices.
pub open spec fn is_price_event(kind: Seq<char>) -> bool {
    kind == "best_bid_ask"@ || kind == "price_change"@ || kind == "book"@
}

/// The bid of an event: `best_bid`, or `price` where it has no such member.
pub open spec fn event_bid(event: JsonView) -> Option<QuotedView> {
    json_number(either(event.get("best_bid"@), event.get("price"@)))
}

/// A quote after one more event, and whether any event so far spoke of one of the tokens.
pub open spec fn quote_step(
    acc: (QuoteView, bool),
    event: JsonView,
    up: Seq<char>,
    down: Seq<char>,
) -> (QuoteView, bool) {
    let q = acc.0;
    if is_price_event(event.text_or_empty("event_type"@)) {
        let asset = event.text_or_empty("asset_id"@);
        let bid = event_bid(event);
        let ask = json_number(event.get("best_ask"@));
        let ts = match int_member(event, "timestamp"@) {
            Some(t) => t,
            None => q.server_ts_ms,
        };
        if asset == up {
            (
                QuoteView {
                    server_ts_ms: ts,
                    up_bid: either(bid, q.up_bid),
                    up_ask: either(ask, q.up_ask),
                    ..q
                },
                true,
            )
        } else if asset == down {
            (
                QuoteView {
                    server_ts_ms: ts,
                    down_bid: either(bid, q.down_bid),
                    down_ask: either(ask, q.down_ask),
                    ..q
                },
                true,
            )
        } else {
            (QuoteView { server_ts_ms: ts, ..q }, acc.1)
        }
    } else {
        acc
    }
}

pub open spec fn empty_quote(now_ms: i64) -> QuoteView {
    QuoteView {
        server_ts_ms: now_ms,
        up_bid: None,
        up_ask: None,
        down_bid: None,
        down_ask: None,
    }
}

/// The quote that a list of events adds up to, starting at `now_ms` with nothing known.
pub open spec fn quote_of_events(
    events: Seq<JsonView>,
    now_ms: i64,
    up: Seq<char>,
    down: Seq<char>,
) -> (QuoteView, bool)
    decreases events.len(),
{
    if events.len() == 0 {
        (empty_quote(now_ms), false)
    } else {
        quote_step(
            quote_of_events(events.drop_last(), now_ms, up, down),
            events.last(),
            up,
            down,
        )
    }
}

/// The quote of a message, where one of its events speaks of one of the tokens.
pub open spec fn quote_of(
    v: JsonView,
    now_ms: i64,
    up: Seq<char>,
    down: Seq<char>,
) -> Option<QuoteView> {
    match message_events(v) {
        Some(events) => {
            let r = quote_of_events(events, now_ms, up, down);
            if r.1 {
                Some(r.0)
            } else {
                None
            }
        },
        None => None,
    }
}

fn price_event(kind: &str) -> (r: bool)
    ensures
        r == is_price_event(kind@),
{
    str_eq(kind, "best_bid_ask") || str_eq(kind, "price_change") || str_eq(kind, "book")
}

fn apply_event(q: QuoteMessage, found: bool, event: &Json, up: &str, down: &str) -> (r: (
    QuoteMessage,
    bool,
))
    ensures
        (r.0@, r.1) == quote_step((q@, found), event.view(), up@, down@),
{
    let kind = event.text_or_empty("event_type");
    if !price_event(kind.as_str()) {
        return (q, found);
    }
    let asset = event.text_or_empty("asset_id");
    let bid_source = match event.get("best_bid") {
        Some(v) => Some(v),
        None => event.get("price"),
    };
    let bid = number_of_json(bid_source);
    let ask = number_of_json(event.get("best_ask"));
    let ts: i64 = match int_at(event, "timestamp") {
        Some(t) => t,
        None => q.server_ts_ms,
    };
    let QuoteMessage { server_ts_ms: _, up_bid, up_ask, down_bid, down_ask } = q;
    if str_eq(asset.as_str(), up) {
        (
            QuoteMessage {
                server_ts_ms: ts,
                up_bid: either_number(bid, up_bid),
                up_ask: either_number(ask, up_ask),
                down_bid,
                down_ask,
            },
            true,
        )
    } else if str_eq(asset.as_str(), down) {
        (
            QuoteMessage {
                server_ts_ms: ts,
                up_bid,
                up_ask,
                down_bid: either_number(bid, down_bid),
                down_ask: either_number(ask, down_ask),
            },
            true,
        )
    } else {
        (QuoteMessage { server_ts_ms: ts, up_bid, up_ask, down_bid, down_ask }, found)
    }
}

/// The quote of a message, where one of its events speaks of one of the tokens.
pub fn quote_from_json(v: &Json, now_ms: i64, up_token_id: &str, down_token_id: &str) -> (r: Option<
    QuoteMessage,
>)
    ensures
        opt_quote(r) == quote_of(v.view(), now_ms, up_token_id@, down_token_id@),
{
    let mut quote = QuoteMessage {
        server_ts_ms: now_ms,
        up_bid: None,
        up_ask: None,
        down_bid: None,
        down_ask: None,
    };
    let mut found = false;
    if let Some(events) = v.as_list() {
        let ghost m = list_view(events@);
        let mut i: usize = 0;
        assert(m.take(0) =~= Seq::empty());
        while i < events.len()
            invariant
                i <= events.len(),
                m == list_view(events@),
                (quote@, found) == quote_of_events(
                    m.take(i as int),
                    now_ms,
                    up_token_id@,
                    down_token_id@,
                ),
            decreases events.len() - i,
        {
            assert(m.take(i + 1).drop_last() =~= m.take(i as int));
            let step = apply_event(quote, found, &events[i], up_token_id, down_token_id);
            quote = step.0;
            found = step.1;
            i = i + 1;
        }
        assert(m.take(i as int) =~= m);
    } else if let Json::Object(_) = v {
        proof {
            let events = seq![v.view()];
            assert(events.drop_last() =~= Seq::empty());
            assert(quote_of_events(
                events.drop_last(),
                now_ms,
                up_token_id@,
                down_token_id@,
            ) == (empty_quote(now_ms), false));
        }
        let step = apply_event(quote, found, v, up_token_id, down_token_id);
        quote = step.0;
        found = step.1;
    } else {
        return None;
    }
    if found {
        Some(quote)
    } else {
        None
    }
}

/// Reads the text of an order book message. `now_ms` stands where no event gives a time.
pub fn parse_clob_message(
    text: &str,
    now_ms: i64,
    up_token_id: &str,
    down_token_id: &str,
) -> (r: Option<QuoteMessage>)
    ensures
        opt_quote(r) == match json_of_text(text@) {
            Ok(v) => quote_of(v, now_ms, up_token_id@, down_token_id@),
            Err(_) => None,
        },
{
    match parse_json(text) {
        Ok(v) => quote_from_json(&v, now_ms, up_token_id, down_token_id),
        Err(_) => None,
    }
}

/// The message that subscribes to both tokens of a market.
pub fn subscribe_message(up_token_id: &str, down_token_id: &str) -> (r: String)
    ensures
        r@ == "{\"assets_ids\":["@ + json_string(up_token_id@) + ","@ + json_string(down_token_id@)
            + "],\"custom_feature_enabled\":true,\"type\":\"market\"}"@,
{
    String::from_str("{\"assets_ids\":[").concat(quote_string(up_token_id).as_str()).concat(
        ",",
    ).concat(quote_string(down_token_id).as_str()).concat(
        "],\"custom_feature_enabled\":true,\"type\":\"market\"}",
    )
}

/// Whether an event is one of the three kinds that carry best prices, and speaks of a token.
pub open spec fn speaks_of(event: JsonView, token: Seq<char>) -> bool {
    let kind = event.text_or_empty("event_type"@);
    &&& kind == "best_bid_ask"@ || kind == "price_change"@ || kind == "book"@
    &&& event.text_or_empty("asset_id"@) == token
}

/// One more event moves the prices of its own token alone. Where it has a `best_bid`, the bid is
/// the number of that, whatever its `price` says; `price` counts only where `best_bid` is
/// missing. The ask is the number of `best_ask`. A price that it does not give stays, and an
/// event of another kind or token changes no price.
pub proof fn law_event_moves_its_token(
    events: Seq<JsonView>,
    e: JsonView,
    now_ms: i64,
    up: Seq<char>,
    down: Seq<char>,
)
    requires
        up != down,
    ensures
        ({
            let q = quote_of_events(events, now_ms, up, down).0;
            let r = quote_of_events(events.push(e), now_ms, up, down).0;
            let bid = e.get("best_bid"@);
            let ask = json_number(e.get("best_ask"@));
            &&& speaks_of(e, up) ==> r.down_bid == q.down_bid && r.down_ask == q.down_ask
            &&& speaks_of(e, down) ==> r.up_bid == q.up_bid && r.up_ask == q.up_ask
            &&& !speaks_of(e, up) ==> r.up_bid == q.up_bid && r.up_ask == q.up_ask
            &&& !speaks_of(e, down) ==> r.down_bid == q.down_bid && r.down_ask == q.down_ask
            &&& speaks_of(e, up) && bid is Some && json_number(bid) is Some ==> r.up_bid
                == json_number(bid)
            &&& speaks_of(e, down) && bid is Some && json_number(bid) is Some ==> r.down_bid
                == json_number(bid)
            &&& speaks_of(e, up) && bid is None && json_number(e.get("price"@)) is Some
                ==> r.up_bid == json_number(e.get("price"@))
            &&& speaks_of(e, down) && bid is None && json_number(e.get("price"@)) is Some
                ==> r.down_bid == json_number(e.get("price"@))
            &&& bid is Some && json_number(bid) is None ==> r.up_bid == q.up_bid && r.down_bid
                == q.down_bid
            &&& bid is None && json_number(e.get("price"@)) is None ==> r.up_bid == q.up_bid
                && r.down_bid == q.down_bid
            &&& speaks_of(e, up) && ask is Some ==> r.up_ask == ask
            &&& speaks_of(e, down) && ask is Some ==> r.down_ask == ask
            &&& ask is None ==> r.up_ask == q.up_ask && r.down_ask == q.down_ask
        }),
{
    assert(events.push(e).drop_last() =~= events);
}

/// A message of one event gives its token the number of `best_bid` as its bid, whatever `price`
/// says, and the number of `best_ask` as its ask; the other token has no price.
pub proof fn law_single_event(e: JsonView, now_ms: i64, up: Seq<char>, down: Seq<char>)
    requires
        e is Object,
        up != down,
    ensures
        speaks_of(e, up) ==> {
            let q = quote_of(e, now_ms, up, down);
            &&& q is Some
            &&& e.get("best_bid"@) is Some ==> q->0.up_bid == json_number(e.get("best_bid"@))
            &&& e.get("best_bid"@) is None ==> q->0.up_bid == json_number(e.get("price"@))
            &&& q->0.up_ask == json_number(e.get("best_ask"@))
            &&& q->0.down_bid is None && q->0.down_ask is None
        },
        speaks_of(e, down) ==> {
            let q = quote_of(e, now_ms, up, down);
            &&& q is Some
            &&& e.get("best_bid"@) is Some ==> q->0.down_bid == json_number(e.get("best_bid"@))
            &&& e.get("best_bid"@) is None ==> q->0.down_bid == json_number(e.get("price"@))
            &&& q->0.down_ask == json_number(e.get("best_ask"@))
            &&& q->0.up_bid is None && q->0.up_ask is None
        },
        !speaks_of(e, up) && !speaks_of(e, down) ==> quote_of(e, now_ms, up, down) is None,
{
    let events = seq![e];
    assert(events.drop_last() =~= Seq::empty());
    assert(quote_of_events(events.drop_last(), now_ms, up, down) == (empty_quote(now_ms), false));
}

/// A message gives a quote exactly where one of its events speaks of one of the tokens: the
/// items of a list, or the object that it is; any other message gives none.
pub proof fn law_quote_exactly(events: Seq<JsonView>, now_ms: i64, up: Seq<char>, down: Seq<char>)
    ensures
        quote_of(JsonView::List(events), now_ms, up, down) is Some <==> exists|i: int|
            0 <= i < events.len() && (speaks_of(#[trigger] events[i], up) || speaks_of(
                events[i],
                down,
            )),
        quote_of_events(events, now_ms, up, down).1 <==> exists|i: int|
            0 <= i < events.len() && (speaks_of(#[trigger] events[i], up) || speaks_of(
                events[i],
                down,
            )),
        quote_of(JsonView::List(events), now_ms, up, down) matches Some(q) ==> q
            == quote_of_events(events, now_ms, up, down).0,
        quote_of(JsonView::Null, now_ms, up, down) is None,
    decreases events.len(),
{
    if events.len() > 0 {
        let p = events.drop_last();
        law_quote_exactly(p, now_ms, up, down);
        if quote_of_events(p, now_ms, up, down).1 {
            let i = choose|i: int|
                0 <= i < p.len() && (speaks_of(#[trigger] p[i], up) || speaks_of(p[i], down));
            assert(events[i] == p[i]);
        }
        if speaks_of(events.last(), up) || speaks_of(events.last(), down) {
            assert(events[events.len() - 1] == events.last());
        } else if exists|i: int|
            0 <= i < events.len() && (speaks_of(#[trigger] events[i], up) || speaks_of(
                events[i],
                down,
            )) {
            let i = choose|i: int|
                0 <= i < events.len() && (speaks_of(#[trigger] events[i], up) || speaks_of(
                    events[i],
                    down,
                ));
            assert(p[i] == events[i]);
        }
    }
}

/// The time of a quote is that of the last price event that gives one, or the time at which the
/// message came.
pub proof fn law_quote_time(
    events: Seq<JsonView>,
    e: JsonView,
    now_ms: i64,
    up: Seq<char>,
    down: Seq<char>,
)
    ensures
        quote_of_events(Seq::empty(), now_ms, up, down).0.server_ts_ms == now_ms,
        ({
            let q = quote_of_events(events, now_ms, up, down).0;
            let r = quote_of_events(events.push(e), now_ms, up, down).0;
            let priced = speaks_of(e, e.text_or_empty("asset_id"@));
            &&& priced && (e.get("timestamp"@) matches Some(JsonView::Number(n)) && n.int is Some)
                ==> Some(r.server_ts_ms) == e.get("timestamp"@)->0->Number_0.int
            &&& !priced || e.get("timestamp"@) is None ==> r.server_ts_ms == q.server_ts_ms
        }),
{
    assert(events.push(e).drop_last() =~= events);
}

/// What a quote message holds is what its fields hold.
pub proof fn law_quote_view(q: QuoteMessage)
    ensures
        q@.server_ts_ms == q.server_ts_ms,
        q@.up_bid == opt_quoted(q.up_bid),
        q@.up_ask == opt_quoted(q.up_ask),
        q@.down_bid == opt_quoted(q.down_bid),
        q@.down_ask == opt_quoted(q.down_ask),
        opt_quote(Some(q)) == Some(q@),
        opt_quote(None) is None,
{
}

} // verus!
