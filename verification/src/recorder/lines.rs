//! The lines of a record.

use vstd::prelude::*;
use vstd::string::*;

use crate::analyzer::rows::number_text;
use crate::config::opt_text;
use crate::csv::{join, joined, law_split_of_join};
use crate::feeds::binance::{bool_at, bool_member, int_at, int_member};
use crate::history::rows::{level_of_line, quote_of_line, trade_of_line};
use crate::history::rows::{BookSide, LevelTextView, QuoteTextView, TradeTextView};
use crate::json::{json_of_text, parse_json, texts, Json, JsonView};
use crate::number::is_float_text;
use crate::telemetry::lines::unsigned_text;
use crate::telemetry::read_back::{is_cell, lemma_decimal_cell, lemma_nothing_to_trim};
use crate::text::{decimal, i64_to_text, law_decimal_round_trip, lowercase};
use crate::types::{MarketInfo, MarketView};

verus! {

/// The first line of the trades.
pub fn binance_header() -> (r: &'static str)
    ensures
        r@ == "recv_time,recv_ts_ms,trade_ts_ms,price,qty,side"@,
{
    "recv_time,recv_ts_ms,trade_ts_ms,price,qty,side"
}

/// The first line of the quotes.
pub fn polymarket_header() -> (r: &'static str)
    ensures
        r@ == "recv_time,recv_ts_ms,up_price,down_price,up_bid,up_ask,down_bid,down_ask"@,
{
    "recv_time,recv_ts_ms,up_price,down_price,up_bid,up_ask,down_bid,down_ask"
}

/// The first line of the order books.
pub fn book_header() -> (r: &'static str)
    ensures
        r@ == "recv_time,recv_ts_ms,token,side,level,price,size"@,
{
    "recv_time,recv_ts_ms,token,side,level,price,size"
}

// ── Trades ──

pub open spec fn text_or_zero(v: JsonView, key: Seq<char>) -> Seq<char> {
    match v.text_at(key) {
        Some(s) => s,
        None => "0"@,
    }
}

fn or_zero(v: &Json, key: &str) -> (r: String)
    ensures
        r@ == text_or_zero(v.view(), key@),
{
    match v.text_at(key) {
        Some(s) => s.clone(),
        None => String::from_str("0"),
    }
}

pub open spec fn taker_side(v: JsonView) -> Seq<char> {
    if bool_member(v, "m"@) == Some(true) {
        "sell"@
    } else {
        "buy"@
    }
}

/// The cells of a trade: when it was received, its own time, price, quantity and side. Price and
/// quantity stand as they came, "0" where there was none, and so does the time.
pub open spec fn trade_cells(now: Seq<char>, now_ms: i64, v: JsonView) -> Seq<Seq<char>> {
    seq![
        now,
        decimal(now_ms as int),
        decimal(
            match int_member(v, "T"@) {
                Some(t) => t as int,
                None => 0,
            },
        ),
        text_or_zero(v, "p"@),
        text_or_zero(v, "q"@),
        taker_side(v),
    ]
}

/// The line of a trade message.
pub fn trade_line(now: &str, now_ms: i64, v: &Json) -> (r: String)
    ensures
        r@ == joined(trade_cells(now@, now_ms, v.view()), ','),
{
    let ts: i64 = match int_at(v, "T") {
        Some(t) => t,
        None => 0,
    };
    let sells = match bool_at(v, "m") {
        Some(m) => m,
        None => false,
    };
    let cells = vec![
        String::from_str(now),
        i64_to_text(now_ms),
        i64_to_text(ts),
        or_zero(v, "p"),
        or_zero(v, "q"),
        if sells { String::from_str("sell") } else { String::from_str("buy") },
    ];
    assert(texts(cells@) =~= trade_cells(now@, now_ms, v.view()));
    join(&cells, ',')
}

/// The line of a trade, where the message is one that can be read.
pub fn record_trade(now: &str, now_ms: i64, text: &str) -> (r: Option<String>)
    ensures
        opt_text(r) == match json_of_text(text@) {
            Ok(v) => Some(joined(trade_cells(now@, now_ms, v), ',')),
            Err(_) => None,
        },
{
    match parse_json(text) {
        Ok(v) => Some(trade_line(now, now_ms, &v)),
        Err(_) => None,
    }
}

/// A recorded trade with a positive time and a price is read as it was recorded.
pub proof fn law_trade_reads_back(now: Seq<char>, now_ms: i64, v: JsonView)
    requires
        is_cell(now),
        is_cell(text_or_zero(v, "p"@)),
        is_cell(text_or_zero(v, "q"@)),
        is_float_text(text_or_zero(v, "p"@)),
        int_member(v, "T"@) matches Some(t) && t > 0,
    ensures
        trade_of_line(joined(trade_cells(now, now_ms, v), ',')) == Some(
            TradeTextView {
                ts_ms: int_member(v, "T"@)->0,
                price: text_or_zero(v, "p"@),
                qty: number_text(text_or_zero(v, "q"@)),
                is_buy: lowercase(taker_side(v)) != "sell"@,
            },
        ),
{
    let cells = trade_cells(now, now_ms, v);
    let ts = int_member(v, "T"@)->0 as int;
    reveal_strlit("sell");
    reveal_strlit("buy");
    lemma_decimal_cell(now_ms as int);
    lemma_decimal_cell(ts);
    lemma_nothing_to_trim(taker_side(v));
    assert forall|i: int| 0 <= i < cells.len() implies !(#[trigger] cells[i]).contains(',') by {}
    law_split_of_join(cells, ',');
    law_decimal_round_trip(ts, i64::MIN as int, i64::MAX as int);
}

// ── Quotes ──

/// A row of quotes. Prices are decimal texts.
#[derive(Debug)]
pub struct QuoteLine {
    pub up_price: String,
    pub down_price: String,
    pub up_bid: String,
    pub up_ask: String,
    pub down_bid: String,
    pub down_ask: String,
}

impl QuoteLine {
    pub open spec fn cells(self, now: Seq<char>, now_ms: i64) -> Seq<Seq<char>> {
        seq![
            now,
            decimal(now_ms as int),
            self.up_price@,
            self.down_price@,
            self.up_bid@,
            self.up_ask@,
            self.down_bid@,
            self.down_ask@,
        ]
    }

    /// The line of a row of quotes.
    pub fn line(&self, now: &str, now_ms: i64) -> (r: String)
        ensures
            r@ == joined(self.cells(now@, now_ms), ','),
    {
        let cells = vec![
            String::from_str(now),
            i64_to_text(now_ms),
            self.up_price.clone(),
            self.down_price.clone(),
            self.up_bid.clone(),
            self.up_ask.clone(),
            self.down_bid.clone(),
            self.down_ask.clone(),
        ];
        assert(texts(cells@) =~= self.cells(now@, now_ms));
        join(&cells, ',')
    }

    pub open spec fn is_clean(self) -> bool {
        &&& is_cell(self.up_price@)
        &&& is_cell(self.down_price@)
        &&& is_cell(self.up_bid@)
        &&& is_cell(self.up_ask@)
        &&& is_cell(self.down_bid@)
        &&& is_cell(self.down_ask@)
    }
}

/// Recorded quotes with a positive time are read as they were recorded.
pub proof fn law_quotes_read_back(q: QuoteLine, now: Seq<char>, now_ms: i64)
    requires
        is_cell(now),
        q.is_clean(),
        now_ms > 0,
    ensures
        quote_of_line(joined(q.cells(now, now_ms), ',')) == Some(
            QuoteTextView {
                ts_ms: now_ms,
                up_bid: number_text(q.up_bid@),
                up_ask: number_text(q.up_ask@),
                down_bid: number_text(q.down_bid@),
                down_ask: number_text(q.down_ask@),
            },
        ),
{
    let cells = q.cells(now, now_ms);
    lemma_decimal_cell(now_ms as int);
    assert forall|i: int| 0 <= i < cells.len() implies !(#[trigger] cells[i]).contains(',') by {}
    law_split_of_join(cells, ',');
    law_decimal_round_trip(now_ms as int, i64::MIN as int, i64::MAX as int);
}

// ── Order books ──

pub open spec fn token_name(is_up: bool) -> Seq<char> {
    if is_up {
        "up"@
    } else {
        "down"@
    }
}

pub open spec fn level_side(is_bid: bool) -> Seq<char> {
    if is_bid {
        "bid"@
    } else {
        "ask"@
    }
}

/// The cells of a level of the order book.
pub open spec fn level_cells(
    now: Seq<char>,
    now_ms: i64,
    is_up: bool,
    is_bid: bool,
    level: int,
    price: Seq<char>,
    size: Seq<char>,
) -> Seq<Seq<char>> {
    seq![
        now,
        decimal(now_ms as int),
        token_name(is_up),
        level_side(is_bid),
        decimal(level),
        price,
        size,
    ]
}

/// The line of a level of the order book. Price and size are decimal texts.
pub fn level_line(
    now: &str,
    now_ms: i64,
    is_up: bool,
    is_bid: bool,
    level: u64,
    price: &str,
    size: &str,
) -> (r: String)
    ensures
        r@ == joined(
            level_cells(now@, now_ms, is_up, is_bid, level as int, price@, size@),
            ',',
        ),
{
    let cells = vec![
        String::from_str(now),
        i64_to_text(now_ms),
        if is_up { String::from_str("up") } else { String::from_str("down") },
        if is_bid { String::from_str("bid") } else { String::from_str("ask") },
        unsigned_text(level),
        String::from_str(price),
        String::from_str(size),
    ];
    assert(texts(cells@) =~= level_cells(
        now@,
        now_ms,
        is_up,
        is_bid,
        level as int,
        price@,
        size@,
    ));
    join(&cells, ',')
}

/// A recorded level with a positive time is read as it was recorded.
pub proof fn law_level_reads_back(
    now: Seq<char>,
    now_ms: i64,
    is_up: bool,
    is_bid: bool,
    level: int,
    price: Seq<char>,
    size: Seq<char>,
)
    requires
        is_cell(now),
        is_cell(price),
        is_cell(size),
        is_float_text(price),
        is_float_text(size),
        now_ms > 0,
    ensures
        level_of_line(
            joined(level_cells(now, now_ms, is_up, is_bid, level, price, size), ','),
        ) == Some(
            LevelTextView {
                ts_ms: now_ms,
                is_up,
                side: if is_bid {
                    BookSide::Bid
                } else {
                    BookSide::Ask
                },
                price,
                size,
            },
        ),
{
    let cells = level_cells(now, now_ms, is_up, is_bid, level, price, size);
    reveal_strlit("up");
    reveal_strlit("down");
    reveal_strlit("bid");
    reveal_strlit("ask");
    assert("bid"@[0] != "ask"@[0]);
    lemma_decimal_cell(now_ms as int);
    lemma_decimal_cell(level);
    lemma_nothing_to_trim(token_name(is_up));
    lemma_nothing_to_trim(level_side(is_bid));
    assert forall|i: int| 0 <= i < cells.len() implies !(#[trigger] cells[i]).contains(',') by {}
    law_split_of_join(cells, ',');
    law_decimal_round_trip(now_ms as int, i64::MIN as int, i64::MAX as int);
}

// ── The market ──

/// The lines of a market that is recorded.
pub open spec fn info_entries(m: MarketView, strike: Seq<char>) -> Seq<Seq<char>> {
    seq![
        "slug="@ + m.slug,
        "start_ms="@ + decimal(m.start_ms as int),
        "end_ms="@ + decimal(m.end_ms as int),
        "up_token_id="@ + m.up_token_id,
        "down_token_id="@ + m.down_token_id,
        "strike="@ + strike,
    ]
}

/// The lines of a market that is recorded. The strike is a decimal text.
pub fn info_lines(m: &MarketInfo, strike: &str) -> (r: Vec<String>)
    ensures
        texts(r@) == info_entries(m@, strike@),
{
    let lines = vec![
        String::from_str("slug=").concat(m.slug.as_str()),
        String::from_str("start_ms=").concat(i64_to_text(m.start_ms).as_str()),
        String::from_str("end_ms=").concat(i64_to_text(m.end_ms).as_str()),
        String::from_str("up_token_id=").concat(m.up_token_id.as_str()),
        String::from_str("down_token_id=").concat(m.down_token_id.as_str()),
        String::from_str("strike=").concat(strike),
    ];
    assert(texts(lines@) =~= info_entries(m@, strike@));
    lines
}

/// A recorded trade holds the time when it was received and its own, its price before its
/// quantity, and "sell" exactly where the buyer was the maker.
pub proof fn law_trade_cells(now: Seq<char>, now_ms: i64, v: JsonView)
    ensures
        ({
            let c = trade_cells(now, now_ms, v);
            &&& c.len() == 6
            &&& c[0] == now
            &&& c[1] == decimal(now_ms as int)
            &&& int_member(v, "T"@) matches Some(t) ==> c[2] == decimal(t as int)
            &&& int_member(v, "T"@) is None ==> c[2] == decimal(0)
            &&& v.text_at("p"@) matches Some(p) ==> c[3] == p
            &&& v.text_at("p"@) is None ==> c[3] == "0"@
            &&& v.text_at("q"@) matches Some(q) ==> c[4] == q
            &&& v.text_at("q"@) is None ==> c[4] == "0"@
            &&& bool_member(v, "m"@) == Some(true) ==> c[5] == "sell"@
            &&& bool_member(v, "m"@) != Some(true) ==> c[5] == "buy"@
        }),
{
}

/// A row of quotes holds the up price and the down price, then bid and ask of the up token, then
/// bid and ask of the down token.
pub proof fn law_quote_cells(q: QuoteLine, now: Seq<char>, now_ms: i64)
    ensures
        ({
            let c = q.cells(now, now_ms);
            &&& c.len() == 8
            &&& c[0] == now
            &&& c[1] == decimal(now_ms as int)
            &&& c[2] == q.up_price@
            &&& c[3] == q.down_price@
            &&& c[4] == q.up_bid@
            &&& c[5] == q.up_ask@
            &&& c[6] == q.down_bid@
            &&& c[7] == q.down_ask@
        }),
{
}

/// A row of a book names its token and its side, then the level, then price and size.
pub proof fn law_level_cells(
    now: Seq<char>,
    now_ms: i64,
    is_up: bool,
    is_bid: bool,
    level: int,
    price: Seq<char>,
    size: Seq<char>,
)
    ensures
        ({
            let c = level_cells(now, now_ms, is_up, is_bid, level, price, size);
            &&& c.len() == 7
            &&& c[0] == now
            &&& c[1] == decimal(now_ms as int)
            &&& is_up ==> c[2] == "up"@
            &&& !is_up ==> c[2] == "down"@
            &&& is_bid ==> c[3] == "bid"@
            &&& !is_bid ==> c[3] == "ask"@
            &&& c[4] == decimal(level)
            &&& c[5] == price
            &&& c[6] == size
        }),
{
}

/// A recorded market tells its slug, its times, its tokens and its strike, each under its name.
pub proof fn law_info_entry_lines(m: MarketView, strike: Seq<char>)
    ensures
        info_entries(m, strike).len() == 6,
        info_entries(m, strike)[0] == "slug="@ + m.slug,
        info_entries(m, strike)[1] == "start_ms="@ + decimal(m.start_ms as int),
        info_entries(m, strike)[2] == "end_ms="@ + decimal(m.end_ms as int),
        info_entries(m, strike)[3] == "up_token_id="@ + m.up_token_id,
        info_entries(m, strike)[4] == "down_token_id="@ + m.down_token_id,
        info_entries(m, strike)[5] == "strike="@ + strike,
{
}

} // verus!
