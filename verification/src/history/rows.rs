//! Rows of a recorded market. Decimal numbers stand as the texts of the record; what depends on
//! their values takes the values.

use vstd::prelude::*;
use vstd::string::*;

use crate::analyzer::rows::{accepted, i64_text, number_or_none, number_text};
use crate::config::opt_text;
use crate::csv::{lines, lines_of, split, split_text, trim, trimmed};
use crate::json::texts;
use crate::number::{float_text, is_float_text, Real};
use crate::text::{lowercase, parse_i64, str_eq};

verus! {

/// The lines below the first one.
pub open spec fn body_lines(content: Seq<char>) -> Seq<Seq<char>> {
    let all = lines_of(content);
    if all.len() == 0 {
        all
    } else {
        all.skip(1)
    }
}

fn body(content: &str) -> (r: Vec<String>)
    ensures
        texts(r@) == body_lines(content@),
{
    let mut all = lines(content);
    if all.len() > 0 {
        let ghost before = texts(all@);
        let _ = all.remove(0);
        assert(texts(all@) =~= before.skip(1));
    }
    all
}

// ── Trades ──

/// A trade of the record.
#[derive(Debug)]
pub struct TradeText {
    pub ts_ms: i64,
    pub price: String,
    /// None where it is not readable.
    pub qty: Option<String>,
    pub is_buy: bool,
}

/// What a `TradeText` holds.
pub ghost struct TradeTextView {
    pub ts_ms: i64,
    pub price: Seq<char>,
    pub qty: Option<Seq<char>>,
    pub is_buy: bool,
}

impl View for TradeText {
    type V = TradeTextView;

    open spec fn view(&self) -> TradeTextView {
        TradeTextView {
            ts_ms: self.ts_ms,
            price: self.price@,
            qty: opt_text(self.qty),
            is_buy: self.is_buy,
        }
    }
}

pub open spec fn trade_views(v: Seq<TradeText>) -> Seq<TradeTextView> {
    v.map_values(|t: TradeText| t@)
}

/// Whether a side in lowercase stands for a buy: all but "sell" do.
pub fn buys(lowered: &str) -> (r: bool)
    ensures
        r == (lowered@ != "sell"@),
{
    !str_eq(lowered, "sell")
}

/// The trade of a line: at least six columns, a positive time in the third and a number in the
/// fourth.
pub open spec fn trade_of_line(line: Seq<char>) -> Option<TradeTextView> {
    let f = split_text(line, ',');
    if f.len() < 6 {
        None
    } else {
        match i64_text(f[2]) {
            Some(ts_ms) => if ts_ms <= 0 || !is_float_text(f[3]) {
                None
            } else {
                Some(
                    TradeTextView {
                        ts_ms,
                        price: f[3],
                        qty: number_text(f[4]),
                        is_buy: lowercase(trimmed(f[5])) != "sell"@,
                    },
                )
            },
            None => None,
        }
    }
}

fn read_trade(line: &str) -> (r: Option<TradeText>)
    ensures
        match r {
            Some(t) => trade_of_line(line@) == Some(t@),
            None => trade_of_line(line@) is None,
        },
{
    let f = split(line, ',');
    let ghost all = texts(f@);
    if f.len() < 6 {
        return None;
    }
    assert(all[2] == f@[2]@ && all[3] == f@[3]@ && all[4] == f@[4]@ && all[5] == f@[5]@);
    match parse_i64(f[2].as_str()) {
        Some(ts_ms) => if ts_ms <= 0 || !float_text(f[3].as_str()) {
            None
        } else {
            let side = trim(f[5].as_str());
            let lowered = side.as_str().to_lowercase();
            Some(
                TradeText {
                    ts_ms,
                    price: f[3].clone(),
                    qty: number_or_none(f[4].clone()),
                    is_buy: buys(lowered.as_str()),
                },
            )
        },
        None => None,
    }
}

/// The trades of a record; lines that lack something are left out.
pub fn load_binance_csv(content: &str) -> (r: Vec<TradeText>)
    ensures
        trade_views(r@) == accepted(
            body_lines(content@),
            |line: Seq<char>| trade_of_line(line),
        ),
{
    let ls = body(content);
    let ghost all = body_lines(content@);
    let ghost f = |line: Seq<char>| trade_of_line(line);
    let mut out: Vec<TradeText> = Vec::new();
    let mut i: usize = 0;
    assert(all.take(0) =~= Seq::empty());
    assert(trade_views(out@) =~= Seq::empty());
    while i < ls.len()
        invariant
            i <= ls.len(),
            all == texts(ls@),
            f == (|line: Seq<char>| trade_of_line(line)),
            trade_views(out@) == accepted(all.take(i as int), f),
        decreases ls.len() - i,
    {
        assert(all.take(i + 1).drop_last() =~= all.take(i as int));
        assert(all[i as int] == ls@[i as int]@);
        let ghost before = trade_views(out@);
        if let Some(t) = read_trade(ls[i].as_str()) {
            out.push(t);
            assert(trade_views(out@) =~= before.push(t@));
        }
        i = i + 1;
    }
    assert(all.take(i as int) =~= all);
    out
}

/// A recorded trade with its values.
#[derive(Clone, Copy, Debug)]
pub struct BinanceCsvRow {
    pub ts_ms: i64,
    pub price: Real,
    pub qty: Real,
    pub is_buy: bool,
}

/// A recorded trade with the values of its texts.
pub open spec fn row_of(t: TradeTextView, price: Real, qty: Real) -> Option<BinanceCsvRow> {
    if price.le(Real { bits: 0 }) {
        None
    } else {
        Some(BinanceCsvRow { ts_ms: t.ts_ms, price, qty, is_buy: t.is_buy })
    }
}

/// A trade keeps its time and direction, and takes the price as its price and the quantity as
/// its quantity; it is left out exactly at a price of zero or below.
pub proof fn law_trade_values(t: TradeTextView, price: Real, qty: Real)
    ensures
        row_of(t, price, qty) is None <==> price.le(Real { bits: 0 }),
        row_of(t, price, qty) matches Some(r) ==> r.ts_ms == t.ts_ms && r.price == price && r.qty
            == qty && r.is_buy == t.is_buy,
{
}

/// A recorded trade with the values of its texts; there is none at a price of zero or below.
pub fn binance_row(t: &TradeText, price: Real, qty: Real) -> (r: Option<BinanceCsvRow>)
    ensures
        r == (if price.le(Real { bits: 0 }) {
            None
        } else {
            Some(BinanceCsvRow { ts_ms: t.ts_ms, price, qty, is_buy: t.is_buy })
        }),
        r == row_of(t@, price, qty),
{
    if price.at_most(Real::zero()) {
        None
    } else {
        Some(BinanceCsvRow { ts_ms: t.ts_ms, price, qty, is_buy: t.is_buy })
    }
}

// ── Quotes ──

/// A quote of the record. A price that is not readable is None.
#[derive(Debug)]
pub struct QuoteText {
    pub ts_ms: i64,
    pub up_bid: Option<String>,
    pub up_ask: Option<String>,
    pub down_bid: Option<String>,
    pub down_ask: Option<String>,
}

/// What a `QuoteText` holds.
pub ghost struct QuoteTextView {
    pub ts_ms: i64,
    pub up_bid: Option<Seq<char>>,
    pub up_ask: Option<Seq<char>>,
    pub down_bid: Option<Seq<char>>,
    pub down_ask: Option<Seq<char>>,
}

impl View for QuoteText {
    type V = QuoteTextView;

    open spec fn view(&self) -> QuoteTextView {
        QuoteTextView {
            ts_ms: self.ts_ms,
            up_bid: opt_text(self.up_bid),
            up_ask: opt_text(self.up_ask),
            down_bid: opt_text(self.down_bid),
            down_ask: opt_text(self.down_ask),
        }
    }
}

pub open spec fn quote_views(v: Seq<QuoteText>) -> Seq<QuoteTextView> {
    v.map_values(|t: QuoteText| t@)
}

/// The quote of a line: at least eight columns and a positive time in the second.
pub open spec fn quote_of_line(line: Seq<char>) -> Option<QuoteTextView> {
    let f = split_text(line, ',');
    if f.len() < 8 {
        None
    } else {
        match i64_text(f[1]) {
            Some(ts_ms) => if ts_ms <= 0 {
                None
            } else {
                Some(
                    QuoteTextView {
                        ts_ms,
                        up_bid: number_text(f[4]),
                        up_ask: number_text(f[5]),
                        down_bid: number_text(f[6]),
                        down_ask: number_text(f[7]),
                    },
                )
            },
            None => None,
        }
    }
}

fn read_quote(line: &str) -> (r: Option<QuoteText>)
    ensures
        match r {
            Some(t) => quote_of_line(line@) == Some(t@),
            None => quote_of_line(line@) is None,
        },
{
    let f = split(line, ',');
    let ghost all = texts(f@);
    if f.len() < 8 {
        return None;
    }
    assert(all[1] == f@[1]@ && all[4] == f@[4]@ && all[5] == f@[5]@);
    assert(all[6] == f@[6]@ && all[7] == f@[7]@);
    match parse_i64(f[1].as_str()) {
        Some(ts_ms) => if ts_ms <= 0 {
            None
        } else {
            Some(
                QuoteText {
                    ts_ms,
                    up_bid: number_or_none(f[4].clone()),
                    up_ask: number_or_none(f[5].clone()),
                    down_bid: number_or_none(f[6].clone()),
                    down_ask: number_or_none(f[7].clone()),
                },
            )
        },
        None => None,
    }
}

/// The quotes of a record; lines that lack something are left out.
pub fn load_polymarket_csv(content: &str) -> (r: Vec<QuoteText>)
    ensures
        quote_views(r@) == accepted(
            body_lines(content@),
            |line: Seq<char>| quote_of_line(line),
        ),
{
    let ls = body(content);
    let ghost all = body_lines(content@);
    let ghost f = |line: Seq<char>| quote_of_line(line);
    let mut out: Vec<QuoteText> = Vec::new();
    let mut i: usize = 0;
    assert(all.take(0) =~= Seq::empty());
    assert(quote_views(out@) =~= Seq::empty());
    while i < ls.len()
        invariant
            i <= ls.len(),
            all == texts(ls@),
            f == (|line: Seq<char>| quote_of_line(line)),
            quote_views(out@) == accepted(all.take(i as int), f),
        decreases ls.len() - i,
    {
        assert(all.take(i + 1).drop_last() =~= all.take(i as int));
        assert(all[i as int] == ls@[i as int]@);
        let ghost before = quote_views(out@);
        if let Some(t) = read_quote(ls[i].as_str()) {
            out.push(t);
            assert(quote_views(out@) =~= before.push(t@));
        }
        i = i + 1;
    }
    assert(all.take(i as int) =~= all);
    out
}

/// A recorded quote with its values, zero where the record had none.
#[derive(Clone, Copy, Debug)]
pub struct PmCsvRow {
    pub ts_ms: i64,
    pub up_bid: Real,
    pub up_ask: Real,
    pub down_bid: Real,
    pub down_ask: Real,
}

// ── Order book levels ──

/// The side of the book that a level stands on.
#[derive(Clone, Copy, Debug, PartialEq, Eq, Structural)]
pub enum BookSide {
    Bid,
    Ask,
    /// Neither: the level counts for no side.
    Other,
}

/// A level of the record.
#[derive(Debug)]
pub struct LevelText {
    pub ts_ms: i64,
    pub is_up: bool,
    pub side: BookSide,
    pub price: String,
    pub size: String,
}

/// What a `LevelText` holds.
pub ghost struct LevelTextView {
    pub ts_ms: i64,
    pub is_up: bool,
    pub side: BookSide,
    pub price: Seq<char>,
    pub size: Seq<char>,
}

impl View for LevelText {
    type V = LevelTextView;

    open spec fn view(&self) -> LevelTextView {
        LevelTextView {
            ts_ms: self.ts_ms,
            is_up: self.is_up,
            side: self.side,
            price: self.price@,
            size: self.size@,
        }
    }
}

pub open spec fn level_views(v: Seq<LevelText>) -> Seq<LevelTextView> {
    v.map_values(|t: LevelText| t@)
}

pub open spec fn book_side(s: Seq<char>) -> BookSide {
    if s == "bid"@ {
        BookSide::Bid
    } else if s == "ask"@ {
        BookSide::Ask
    } else {
        BookSide::Other
    }
}

/// The level of a line: at least seven columns, a positive time in the second, numbers in the
/// sixth and the seventh.
pub open spec fn level_of_line(line: Seq<char>) -> Option<LevelTextView> {
    let f = split_text(line, ',');
    if f.len() < 7 {
        None
    } else {
        match i64_text(f[1]) {
            Some(ts_ms) => if ts_ms <= 0 || !is_float_text(f[5]) || !is_float_text(f[6]) {
                None
            } else {
                Some(
                    LevelTextView {
                        ts_ms,
                        is_up: trimmed(f[2]) == "up"@,
                        side: book_side(trimmed(f[3])),
                        price: f[5],
                        size: f[6],
                    },
                )
            },
            None => None,
        }
    }
}

fn read_level(line: &str) -> (r: Option<LevelText>)
    ensures
        match r {
            Some(t) => level_of_line(line@) == Some(t@),
            None => level_of_line(line@) is None,
        },
{
    let f = split(line, ',');
    let ghost all = texts(f@);
    if f.len() < 7 {
        return None;
    }
    assert(all[1] == f@[1]@ && all[2] == f@[2]@ && all[3] == f@[3]@);
    assert(all[5] == f@[5]@ && all[6] == f@[6]@);
    match parse_i64(f[1].as_str()) {
        Some(ts_ms) => if ts_ms <= 0 || !float_text(f[5].as_str()) || !float_text(f[6].as_str()) {
            None
        } else {
            let token = trim(f[2].as_str());
            let side = trim(f[3].as_str());
            proof {
                reveal_strlit("bid");
                reveal_strlit("ask");
            }
            Some(
                LevelText {
                    ts_ms,
                    is_up: str_eq(token.as_str(), "up"),
                    side: if str_eq(side.as_str(), "bid") {
                        BookSide::Bid
                    } else if str_eq(side.as_str(), "ask") {
                        BookSide::Ask
                    } else {
                        BookSide::Other
                    },
                    price: f[5].clone(),
                    size: f[6].clone(),
                },
            )
        },
        None => None,
    }
}

/// The levels of a record; lines that lack something are left out.
pub fn load_book_csv(content: &str) -> (r: Vec<LevelText>)
    ensures
        level_views(r@) == accepted(
            body_lines(content@),
            |line: Seq<char>| level_of_line(line),
        ),
{
    let ls = body(content);
    let ghost all = body_lines(content@);
    let ghost f = |line: Seq<char>| level_of_line(line);
    let mut out: Vec<LevelText> = Vec::new();
    let mut i: usize = 0;
    assert(all.take(0) =~= Seq::empty());
    assert(level_views(out@) =~= Seq::empty());
    while i < ls.len()
        invariant
            i <= ls.len(),
            all == texts(ls@),
            f == (|line: Seq<char>| level_of_line(line)),
            level_views(out@) == accepted(all.take(i as int), f),
        decreases ls.len() - i,
    {
        assert(all.take(i + 1).drop_last() =~= all.take(i as int));
        assert(all[i as int] == ls@[i as int]@);
        let ghost before = level_views(out@);
        if let Some(t) = read_level(ls[i].as_str()) {
            out.push(t);
            assert(level_views(out@) =~= before.push(t@));
        }
        i = i + 1;
    }
    assert(all.take(i as int) =~= all);
    out
}

/// A recorded level with its values.
#[derive(Clone, Copy, Debug)]
pub struct LevelRow {
    pub ts_ms: i64,
    pub is_up: bool,
    pub side: BookSide,
    pub price: Real,
    pub size: Real,
}

/// The order book of one token at one time.
#[derive(Debug)]
pub struct BookSnapshot {
    pub ts_ms: i64,
    pub is_up: bool,
    pub bids: Vec<(Real, Real)>,
    pub asks: Vec<(Real, Real)>,
}

/// Price and size are above zero.
pub open spec fn counts(r: LevelRow) -> bool {
    r.price.pos() && r.size.pos()
}

/// Whether the second time and token come after the first: by time, and at one time the "up"
/// token after the other.
pub open spec fn later_book(ts_a: i64, up_a: bool, ts_b: i64, up_b: bool) -> bool {
    ts_a < ts_b || (ts_a == ts_b && !up_a && up_b)
}

/// Price and size of the levels of one token at one time on one side, in their order.
pub open spec fn levels_of(rows: Seq<LevelRow>, ts_ms: i64, is_up: bool, side: BookSide) -> Seq<
    (Real, Real),
>
    decreases rows.len(),
{
    if rows.len() == 0 {
        Seq::empty()
    } else {
        let r = rows.last();
        let before = levels_of(rows.drop_last(), ts_ms, is_up, side);
        if counts(r) && r.ts_ms == ts_ms && r.is_up == is_up && r.side == side {
            before.push((r.price, r.size))
        } else {
            before
        }
    }
}

/// Whether a level that counts stands in the rows for that time and token.
pub open spec fn has_book(rows: Seq<LevelRow>, ts_ms: i64, is_up: bool) -> bool {
    exists|i: int|
        0 <= i < rows.len() && counts(#[trigger] rows[i]) && rows[i].ts_ms == ts_ms
            && rows[i].is_up == is_up
}

/// Whether `books` are the order books of the rows: one for each time and token that has a level
/// which counts, in the order of `later_book`, each with its levels in the order of the rows.
pub open spec fn are_books(rows: Seq<LevelRow>, books: Seq<BookSnapshot>) -> bool {
    &&& forall|i: int, j: int|
        0 <= i < j < books.len() ==> later_book(
            (#[trigger] books[i]).ts_ms,
            books[i].is_up,
            (#[trigger] books[j]).ts_ms,
            books[j].is_up,
        )
    &&& forall|i: int|
        0 <= i < books.len() ==> {
            let b = #[trigger] books[i];
            &&& has_book(rows, b.ts_ms, b.is_up)
            &&& b.bids@ == levels_of(rows, b.ts_ms, b.is_up, BookSide::Bid)
            &&& b.asks@ == levels_of(rows, b.ts_ms, b.is_up, BookSide::Ask)
        }
    &&& forall|ts_ms: i64, is_up: bool| #[trigger]
        has_book(rows, ts_ms, is_up) ==> is_listed(books, ts_ms, is_up)
}

/// Whether a time and token has an order book among these.
pub open spec fn is_listed(books: Seq<BookSnapshot>, ts_ms: i64, is_up: bool) -> bool {
    exists|i: int|
        0 <= i < books.len() && (#[trigger] books[i]).ts_ms == ts_ms && books[i].is_up == is_up
}

pub open spec fn listed_at(books: Seq<BookSnapshot>, ts_ms: i64, is_up: bool) -> int {
    choose|i: int|
        0 <= i < books.len() && (#[trigger] books[i]).ts_ms == ts_ms && books[i].is_up == is_up
}

fn is_later(ts_a: i64, up_a: bool, ts_b: i64, up_b: bool) -> (r: bool)
    ensures
        r == later_book(ts_a, up_a, ts_b, up_b),
{
    ts_a < ts_b || (ts_a == ts_b && !up_a && up_b)
}

proof fn lemma_levels_grow(rows: Seq<LevelRow>, k: int, ts_ms: i64, is_up: bool)
    requires
        0 <= k < rows.len(),
    ensures
        !counts(rows[k]) || rows[k].ts_ms != ts_ms || rows[k].is_up != is_up ==> {
            &&& levels_of(rows.take(k + 1), ts_ms, is_up, BookSide::Bid) == levels_of(
                rows.take(k),
                ts_ms,
                is_up,
                BookSide::Bid,
            )
            &&& levels_of(rows.take(k + 1), ts_ms, is_up, BookSide::Ask) == levels_of(
                rows.take(k),
                ts_ms,
                is_up,
                BookSide::Ask,
            )
            &&& has_book(rows.take(k + 1), ts_ms, is_up) == has_book(rows.take(k), ts_ms, is_up)
        },
        has_book(rows.take(k), ts_ms, is_up) ==> has_book(rows.take(k + 1), ts_ms, is_up),
{
    let a = rows.take(k);
    let b = rows.take(k + 1);
    assert(b.drop_last() =~= a);
    if has_book(a, ts_ms, is_up) {
        let i = choose|i: int|
            0 <= i < a.len() && counts(#[trigger] a[i]) && a[i].ts_ms == ts_ms && a[i].is_up
                == is_up;
        assert(b[i] == a[i]);
    }
    if has_book(b, ts_ms, is_up) {
        let i = choose|i: int|
            0 <= i < b.len() && counts(#[trigger] b[i]) && b[i].ts_ms == ts_ms && b[i].is_up
                == is_up;
        if i < k {
            assert(a[i] == b[i]);
        }
    }
}

proof fn lemma_no_levels(rows: Seq<LevelRow>, ts_ms: i64, is_up: bool, side: BookSide)
    requires
        !has_book(rows, ts_ms, is_up),
    ensures
        levels_of(rows, ts_ms, is_up, side) == Seq::<(Real, Real)>::empty(),
    decreases rows.len(),
{
    if rows.len() > 0 {
        let a = rows.drop_last();
        assert(rows.last() == rows[rows.len() - 1]);
        if has_book(a, ts_ms, is_up) {
            let i = choose|i: int|
                0 <= i < a.len() && counts(#[trigger] a[i]) && a[i].ts_ms == ts_ms && a[i].is_up
                    == is_up;
            assert(rows[i] == a[i]);
        }
        lemma_no_levels(a, ts_ms, is_up, side);
    }
}

/// The levels of a side of the book after one more row of that time and token.
pub open spec fn with_level(levels: Seq<(Real, Real)>, r: LevelRow, side: BookSide) -> Seq<
    (Real, Real),
> {
    if r.side == side {
        levels.push((r.price, r.size))
    } else {
        levels
    }
}

proof fn lemma_level_kept(
    rows: Seq<LevelRow>,
    k: int,
    before: Seq<BookSnapshot>,
    after: Seq<BookSnapshot>,
    at: int,
)
    requires
        0 <= k < rows.len(),
        counts(rows[k]),
        are_books(rows.take(k), before),
        0 <= at < before.len(),
        before[at].ts_ms == rows[k].ts_ms,
        before[at].is_up == rows[k].is_up,
        after =~= before.update(at, after[at]),
        after[at].ts_ms == rows[k].ts_ms,
        after[at].is_up == rows[k].is_up,
        after[at].bids@ == with_level(before[at].bids@, rows[k], BookSide::Bid),
        after[at].asks@ == with_level(before[at].asks@, rows[k], BookSide::Ask),
    ensures
        are_books(rows.take(k + 1), after),
{
    let r = rows[k];
    assert(rows.take(k + 1).drop_last() =~= rows.take(k));
    assert forall|i: int| 0 <= i < after.len() implies {
        let b = #[trigger] after[i];
        &&& has_book(rows.take(k + 1), b.ts_ms, b.is_up)
        &&& b.bids@ == levels_of(rows.take(k + 1), b.ts_ms, b.is_up, BookSide::Bid)
        &&& b.asks@ == levels_of(rows.take(k + 1), b.ts_ms, b.is_up, BookSide::Ask)
    } by {
        let x = before[i];
        lemma_levels_grow(rows, k, x.ts_ms, x.is_up);
        if i < at {
            assert(later_book(x.ts_ms, x.is_up, before[at].ts_ms, before[at].is_up));
        } else if at < i {
            assert(later_book(before[at].ts_ms, before[at].is_up, x.ts_ms, x.is_up));
        }
    }
    assert forall|ts_ms: i64, is_up: bool| #[trigger]
        has_book(rows.take(k + 1), ts_ms, is_up) implies is_listed(after, ts_ms, is_up) by {
        if ts_ms == r.ts_ms && is_up == r.is_up {
            assert(after[at].ts_ms == ts_ms);
        } else {
            lemma_levels_grow(rows, k, ts_ms, is_up);
            assert(is_listed(before, ts_ms, is_up));
            let i = listed_at(before, ts_ms, is_up);
            assert(after[i].ts_ms == before[i].ts_ms);
        }
    }
    assert forall|i: int, j: int| 0 <= i < j < after.len() implies later_book(
        (#[trigger] after[i]).ts_ms,
        after[i].is_up,
        (#[trigger] after[j]).ts_ms,
        after[j].is_up,
    ) by {
        assert(later_book(before[i].ts_ms, before[i].is_up, before[j].ts_ms, before[j].is_up));
    }
}

proof fn lemma_level_new(
    rows: Seq<LevelRow>,
    k: int,
    before: Seq<BookSnapshot>,
    after: Seq<BookSnapshot>,
    at: int,
)
    requires
        0 <= k < rows.len(),
        counts(rows[k]),
        are_books(rows.take(k), before),
        0 <= at <= before.len(),
        forall|i: int|
            at <= i < before.len() ==> later_book(
                rows[k].ts_ms,
                rows[k].is_up,
                (#[trigger] before[i]).ts_ms,
                before[i].is_up,
            ),
        at > 0 ==> later_book(
            before[at - 1].ts_ms,
            before[at - 1].is_up,
            rows[k].ts_ms,
            rows[k].is_up,
        ),
        after =~= before.insert(at, after[at]),
        after[at].ts_ms == rows[k].ts_ms,
        after[at].is_up == rows[k].is_up,
        after[at].bids@ == with_level(Seq::empty(), rows[k], BookSide::Bid),
        after[at].asks@ == with_level(Seq::empty(), rows[k], BookSide::Ask),
    ensures
        are_books(rows.take(k + 1), after),
{
    let r = rows[k];
    assert(rows.take(k + 1).drop_last() =~= rows.take(k));
    assert forall|i: int| 0 <= i < at implies later_book(
        (#[trigger] before[i]).ts_ms,
        before[i].is_up,
        r.ts_ms,
        r.is_up,
    ) by {
        if i < at - 1 {
            assert(later_book(
                before[i].ts_ms,
                before[i].is_up,
                before[at - 1].ts_ms,
                before[at - 1].is_up,
            ));
        }
    }
    if has_book(rows.take(k), r.ts_ms, r.is_up) {
        assert(is_listed(before, r.ts_ms, r.is_up));
        let i = listed_at(before, r.ts_ms, r.is_up);
        assert(before[i].ts_ms == r.ts_ms);
        assert(false);
    }
    lemma_no_levels(rows.take(k), r.ts_ms, r.is_up, BookSide::Bid);
    lemma_no_levels(rows.take(k), r.ts_ms, r.is_up, BookSide::Ask);
    assert(rows.take(k + 1)[k] == r);
    assert(has_book(rows.take(k + 1), r.ts_ms, r.is_up));
    assert forall|i: int| 0 <= i < after.len() implies {
        let b = #[trigger] after[i];
        &&& has_book(rows.take(k + 1), b.ts_ms, b.is_up)
        &&& b.bids@ == levels_of(rows.take(k + 1), b.ts_ms, b.is_up, BookSide::Bid)
        &&& b.asks@ == levels_of(rows.take(k + 1), b.ts_ms, b.is_up, BookSide::Ask)
    } by {
        if i != at {
            let x = before[if i < at { i } else { i - 1 }];
            assert(after[i] == x);
            lemma_levels_grow(rows, k, x.ts_ms, x.is_up);
        }
    }
    assert forall|ts_ms: i64, is_up: bool| #[trigger]
        has_book(rows.take(k + 1), ts_ms, is_up) implies is_listed(after, ts_ms, is_up) by {
        if ts_ms == r.ts_ms && is_up == r.is_up {
            assert(after[at].ts_ms == ts_ms);
        } else {
            lemma_levels_grow(rows, k, ts_ms, is_up);
            assert(is_listed(before, ts_ms, is_up));
            let i = listed_at(before, ts_ms, is_up);
            let j = if i < at { i } else { i + 1 };
            assert(after[j] == before[i]);
        }
    }
    assert forall|i: int, j: int| 0 <= i < j < after.len() implies later_book(
        (#[trigger] after[i]).ts_ms,
        after[i].is_up,
        (#[trigger] after[j]).ts_ms,
        after[j].is_up,
    ) by {
        let x = before[if i < at { i } else { i - 1 }];
        let y = before[if j < at { j } else { j - 1 }];
        if i != at {
            assert(after[i] == x);
        }
        if j != at {
            assert(after[j] == y);
        }
    }
}

fn add_level(books: &mut Vec<BookSnapshot>, r: &LevelRow, rows: Ghost<Seq<LevelRow>>, k: Ghost<int>)
    requires
        0 <= k@ < rows@.len(),
        rows@[k@] == *r,
        counts(*r),
        are_books(rows@.take(k@), old(books)@),
    ensures
        are_books(rows@.take(k@ + 1), final(books)@),
{
    let ghost before = books@;
    let mut p: usize = books.len();
    while p > 0 && is_later(r.ts_ms, r.is_up, books[p - 1].ts_ms, books[p - 1].is_up)
        invariant
            p <= books@.len(),
            books@ == before,
            forall|i: int|
                p <= i < before.len() ==> later_book(
                    r.ts_ms,
                    r.is_up,
                    (#[trigger] before[i]).ts_ms,
                    before[i].is_up,
                ),
        decreases p,
    {
        p = p - 1;
    }
    let mut bids: Vec<(Real, Real)> = Vec::new();
    let mut asks: Vec<(Real, Real)> = Vec::new();
    if p > 0 && books[p - 1].ts_ms == r.ts_ms && books[p - 1].is_up == r.is_up {
        let at: usize = p - 1;
        let b = books.remove(at);
        bids = b.bids;
        asks = b.asks;
        push_level(&mut bids, &mut asks, r);
        books.insert(at, BookSnapshot { ts_ms: r.ts_ms, is_up: r.is_up, bids, asks });
        proof {
            lemma_level_kept(rows@, k@, before, books@, at as int);
        }
    } else {
        push_level(&mut bids, &mut asks, r);
        books.insert(p, BookSnapshot { ts_ms: r.ts_ms, is_up: r.is_up, bids, asks });
        proof {
            lemma_level_new(rows@, k@, before, books@, p as int);
        }
    }
}

fn push_level(bids: &mut Vec<(Real, Real)>, asks: &mut Vec<(Real, Real)>, r: &LevelRow)
    ensures
        final(bids)@ == with_level(old(bids)@, *r, BookSide::Bid),
        final(asks)@ == with_level(old(asks)@, *r, BookSide::Ask),
{
    match r.side {
        BookSide::Bid => bids.push((r.price, r.size)),
        BookSide::Ask => asks.push((r.price, r.size)),
        BookSide::Other => {},
    }
}

/// The order books of recorded levels. Levels without a positive price and size do not count.
pub fn group_books(rows: &Vec<LevelRow>) -> (books: Vec<BookSnapshot>)
    ensures
        are_books(rows@, books@),
{
    let mut books: Vec<BookSnapshot> = Vec::new();
    let mut k: usize = 0;
    while k < rows.len()
        invariant
            k <= rows.len(),
            are_books(rows@.take(k as int), books@),
        decreases rows.len() - k,
    {
        let r = rows[k];
        if r.price.is_positive() && r.size.is_positive() {
            add_level(&mut books, &r, Ghost(rows@), Ghost(k as int));
        } else {
            proof {
                let a = rows@.take(k as int);
                let b = rows@.take(k + 1);
                assert forall|i: int| 0 <= i < books@.len() implies {
                    let x = #[trigger] books@[i];
                    &&& has_book(b, x.ts_ms, x.is_up)
                    &&& x.bids@ == levels_of(b, x.ts_ms, x.is_up, BookSide::Bid)
                    &&& x.asks@ == levels_of(b, x.ts_ms, x.is_up, BookSide::Ask)
                } by {
                    lemma_levels_grow(rows@, k as int, books@[i].ts_ms, books@[i].is_up);
                }
                assert forall|ts_ms: i64, is_up: bool| #[trigger]
                    has_book(b, ts_ms, is_up) implies is_listed(books@, ts_ms, is_up) by {
                    lemma_levels_grow(rows@, k as int, ts_ms, is_up);
                    assert(has_book(a, ts_ms, is_up));
                }
            }
        }
        k = k + 1;
    }
    assert(rows@.take(k as int) =~= rows@);
    books
}

proof fn lemma_same_place(rows: Seq<LevelRow>, a: Seq<BookSnapshot>, b: Seq<BookSnapshot>, i: int)
    requires
        are_books(rows, a),
        are_books(rows, b),
        0 <= i < a.len(),
    ensures
        i < b.len() ==> a[i].ts_ms == b[i].ts_ms && a[i].is_up == b[i].is_up,
    decreases i,
{
    if i < b.len() && !(a[i].ts_ms == b[i].ts_ms && a[i].is_up == b[i].is_up) {
        assert(has_book(rows, a[i].ts_ms, a[i].is_up));
        assert(has_book(rows, b[i].ts_ms, b[i].is_up));
        assert(is_listed(b, a[i].ts_ms, a[i].is_up));
        assert(is_listed(a, b[i].ts_ms, b[i].is_up));
        let jb = listed_at(b, a[i].ts_ms, a[i].is_up);
        let ja = listed_at(a, b[i].ts_ms, b[i].is_up);
        if jb < i {
            lemma_same_place(rows, a, b, jb);
            assert(later_book(a[jb].ts_ms, a[jb].is_up, a[i].ts_ms, a[i].is_up));
        }
        if ja < i {
            lemma_same_place(rows, a, b, ja);
            assert(later_book(b[ja].ts_ms, b[ja].is_up, b[i].ts_ms, b[i].is_up));
        }
        assert(later_book(b[i].ts_ms, b[i].is_up, b[jb].ts_ms, b[jb].is_up));
        assert(later_book(a[i].ts_ms, a[i].is_up, a[ja].ts_ms, a[ja].is_up));
        assert(false);
    }
}

proof fn lemma_no_more_books(rows: Seq<LevelRow>, a: Seq<BookSnapshot>, b: Seq<BookSnapshot>)
    requires
        are_books(rows, a),
        are_books(rows, b),
    ensures
        b.len() <= a.len(),
{
    if a.len() < b.len() {
        let x = b[a.len() as int];
        assert(has_book(rows, x.ts_ms, x.is_up));
        assert(is_listed(a, x.ts_ms, x.is_up));
        let j = listed_at(a, x.ts_ms, x.is_up);
        lemma_same_place(rows, a, b, j);
        assert(later_book(b[j].ts_ms, b[j].is_up, x.ts_ms, x.is_up));
        assert(false);
    }
}

/// Recorded levels give one list of order books only.
pub proof fn law_books_are_determined(
    rows: Seq<LevelRow>,
    a: Seq<BookSnapshot>,
    b: Seq<BookSnapshot>,
)
    requires
        are_books(rows, a),
        are_books(rows, b),
    ensures
        a.len() == b.len(),
        forall|i: int|
            0 <= i < a.len() ==> {
                &&& (#[trigger] a[i]).ts_ms == (#[trigger] b[i]).ts_ms
                &&& a[i].is_up == b[i].is_up
                &&& a[i].bids@ == b[i].bids@
                &&& a[i].asks@ == b[i].asks@
            },
{
    lemma_no_more_books(rows, a, b);
    lemma_no_more_books(rows, b, a);
    assert forall|i: int| 0 <= i < a.len() implies {
        &&& (#[trigger] a[i]).ts_ms == (#[trigger] b[i]).ts_ms
        &&& a[i].is_up == b[i].is_up
        &&& a[i].bids@ == b[i].bids@
        &&& a[i].asks@ == b[i].asks@
    } by {
        lemma_same_place(rows, a, b, i);
    }
}

/// A line of trades has its time in the third column, the price in the fourth, the quantity in
/// the fifth and the direction in the sixth, where all but "sell" is a buy. It counts exactly
/// where it has six columns, a positive time and a price that is a number.
pub proof fn law_trade_line(line: Seq<char>)
    ensures
        ({
            let f = split_text(line, ',');
            let r = trade_of_line(line);
            &&& r is Some <==> f.len() >= 6 && is_float_text(f[3]) && (i64_text(f[2]) matches Some(
                t,
            ) && t > 0)
            &&& r is Some ==> {
                &&& Some(r->0.ts_ms) == i64_text(f[2])
                &&& r->0.price == f[3]
                &&& r->0.qty is Some <==> is_float_text(f[4])
                &&& r->0.qty is Some ==> r->0.qty == Some(f[4])
                &&& !r->0.is_buy <==> lowercase(trimmed(f[5])) == "sell"@
            }
        }),
{
}

/// A line of quotes has its time in the second column and from the fifth on the bid and the ask
/// of the up token and the bid and the ask of the down token. It counts exactly where it has
/// eight columns and a positive time.
pub proof fn law_quote_line(line: Seq<char>)
    ensures
        ({
            let f = split_text(line, ',');
            let r = quote_of_line(line);
            &&& r is Some <==> f.len() >= 8 && (i64_text(f[1]) matches Some(t) && t > 0)
            &&& r is Some ==> {
                &&& Some(r->0.ts_ms) == i64_text(f[1])
                &&& r->0.up_bid == number_text(f[4])
                &&& r->0.up_ask == number_text(f[5])
                &&& r->0.down_bid == number_text(f[6])
                &&& r->0.down_ask == number_text(f[7])
            }
        }),
{
}

/// A line of levels has its time in the second column, the token in the third, the side in the
/// fourth, the price in the sixth and the size in the seventh. It counts exactly where it has
/// seven columns, a positive time and numbers for price and size.
pub proof fn law_level_line(line: Seq<char>)
    ensures
        ({
            let f = split_text(line, ',');
            let r = level_of_line(line);
            &&& r is Some <==> f.len() >= 7 && is_float_text(f[5]) && is_float_text(f[6]) && (
            i64_text(f[1]) matches Some(t) && t > 0)
            &&& r is Some ==> {
                &&& Some(r->0.ts_ms) == i64_text(f[1])
                &&& r->0.is_up <==> trimmed(f[2]) == "up"@
                &&& r->0.side == BookSide::Bid <==> trimmed(f[3]) == "bid"@
                &&& trimmed(f[3]) != "bid"@ ==> (r->0.side == BookSide::Ask <==> trimmed(f[3])
                    == "ask"@)
                &&& r->0.price == f[5]
                &&& r->0.size == f[6]
            }
        }),
{
}

/// The levels of a book are those of its time, token and side that have a price and a size, each
/// with its price first; one more row adds its level to its own book and side alone.
pub proof fn law_level_joins_its_book(
    rows: Seq<LevelRow>,
    r: LevelRow,
    ts_ms: i64,
    is_up: bool,
    side: BookSide,
)
    ensures
        levels_of(Seq::empty(), ts_ms, is_up, side) == Seq::<(Real, Real)>::empty(),
        r.price.pos() && r.size.pos() && r.ts_ms == ts_ms && r.is_up == is_up && r.side == side
            ==> levels_of(rows.push(r), ts_ms, is_up, side) == levels_of(
            rows,
            ts_ms,
            is_up,
            side,
        ).push((r.price, r.size)),
        !(r.price.pos() && r.size.pos() && r.ts_ms == ts_ms && r.is_up == is_up && r.side == side)
            ==> levels_of(rows.push(r), ts_ms, is_up, side) == levels_of(rows, ts_ms, is_up, side),
{
    assert(rows.push(r).drop_last() =~= rows);
}

/// Of the books of recorded levels, each has the bids and asks of its own time and token, books
/// come by time and at one time the down token first, and every level that counts is in one.
pub proof fn law_books_hold_levels(
    rows: Seq<LevelRow>,
    books: Seq<BookSnapshot>,
    k: int,
    i: int,
    j: int,
)
    requires
        are_books(rows, books),
    ensures
        0 <= i < j < books.len() ==> books[i].ts_ms <= books[j].ts_ms && (books[i].ts_ms
            == books[j].ts_ms ==> !books[i].is_up && books[j].is_up),
        0 <= i < books.len() ==> books[i].bids@ == levels_of(
            rows,
            books[i].ts_ms,
            books[i].is_up,
            BookSide::Bid,
        ) && books[i].asks@ == levels_of(rows, books[i].ts_ms, books[i].is_up, BookSide::Ask),
        0 <= k < rows.len() && rows[k].price.pos() && rows[k].size.pos() ==> exists|b: int|
            0 <= b < books.len() && (#[trigger] books[b]).ts_ms == rows[k].ts_ms && books[b].is_up
                == rows[k].is_up,
{
    if 0 <= i < j < books.len() {
        assert(later_book(books[i].ts_ms, books[i].is_up, books[j].ts_ms, books[j].is_up));
    }
    if 0 <= k < rows.len() && rows[k].price.pos() && rows[k].size.pos() {
        assert(counts(rows[k]));
        assert(has_book(rows, rows[k].ts_ms, rows[k].is_up));
        assert(is_listed(books, rows[k].ts_ms, rows[k].is_up));
    }
}

/// The first line of a record is its heading.
pub proof fn law_heading_is_skipped(content: Seq<char>)
    ensures
        lines_of(content).len() > 0 ==> lines_of(content) == seq![lines_of(content)[0]]
            + body_lines(content),
        lines_of(content).len() == 0 ==> body_lines(content).len() == 0,
{
    let all = lines_of(content);
    if all.len() > 0 {
        assert(all =~= seq![all[0]] + all.skip(1));
    }
}

/// What a row holds is what its fields hold.
pub proof fn law_record_views(t: TradeText, q: QuoteText, l: LevelText)
    ensures
        t@.ts_ms == t.ts_ms && t@.price == t.price@ && t@.qty == opt_text(t.qty) && t@.is_buy
            == t.is_buy,
        q@.ts_ms == q.ts_ms && q@.up_bid == opt_text(q.up_bid) && q@.up_ask == opt_text(q.up_ask),
        q@.down_bid == opt_text(q.down_bid) && q@.down_ask == opt_text(q.down_ask),
        l@.ts_ms == l.ts_ms && l@.is_up == l.is_up && l@.side == l.side && l@.price == l.price@
            && l@.size == l.size@,
{
}

} // verus!
