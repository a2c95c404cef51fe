//! The lines of the logs of a market.

use vstd::prelude::*;
use vstd::string::*;

use crate::csv::{join, joined};
use crate::json::texts;
use crate::text::{after_last, decimal, i64_to_text, law_after_last_of_join, push_decimal};
use crate::types::Side;

verus! {

// ── Files ──

/// The directory of the logs of a market.
pub fn log_dir(interval_label: &str, slug: &str) -> (r: String)
    ensures
        r@ == log_path(interval_label@, slug@),
        r@ == "logs/"@ + interval_label@ + "/"@ + slug@,
{
    let s = String::from_str("logs/");
    let s = s.concat(interval_label);
    let s = s.concat("/");
    s.concat(slug)
}

/// The address that messages are sent to.
pub fn message_url(bot_token: &str) -> (r: String)
    ensures
        r@ == "https://api.telegram.org/bot"@ + bot_token@ + "/sendMessage"@,
{
    let s = String::from_str("https://api.telegram.org/bot");
    let s = s.concat(bot_token);
    s.concat("/sendMessage")
}

fn names_of(list: &Vec<&'static str>) -> (r: Vec<String>)
    ensures
        r@.len() == list@.len(),
        forall|i: int| 0 <= i < list@.len() ==> (#[trigger] r@[i])@ == list@[i]@,
{
    let mut out: Vec<String> = Vec::new();
    let mut i: usize = 0;
    while i < list.len()
        invariant
            i <= list@.len(),
            out@.len() == i,
            forall|j: int| 0 <= j < i ==> (#[trigger] out@[j])@ == list@[j]@,
        decreases list@.len() - i,
    {
        out.push(String::from_str(list[i]));
        i = i + 1;
    }
    out
}

/// A decimal number without a sign.
pub(crate) fn unsigned_text(n: u64) -> (s: String)
    ensures
        s@ == decimal(n as int),
{
    let mut s = String::new();
    push_decimal(&mut s, n);
    assert(s@ =~= decimal(n as int));
    s
}

pub open spec fn side_name(side: Side) -> Seq<char> {
    match side {
        Side::Up => "Up"@,
        Side::Down => "Down"@,
    }
}

pub(crate) fn side_text(side: Side) -> (r: String)
    ensures
        r@ == side_name(side),
{
    match side {
        Side::Up => String::from_str("Up"),
        Side::Down => String::from_str("Down"),
    }
}

// ── Signals ──

/// The columns of the signal log; the price stands under the name of its asset.
pub open spec fn signal_columns(asset: Seq<char>) -> Seq<Seq<char>> {
    seq![
        "ts_ms"@,
        "strategy"@,
        "side"@,
        "edge"@,
        "fair"@,
        "mkt"@,
        "conf"@,
        "size_frac"@,
        asset,
        "dist"@,
        "time_left_s"@,
        "eval_us"@,
        "selected"@,
    ]
}

/// The first line of the signal log.
pub fn signals_header(asset: &str) -> (r: String)
    ensures
        r@ == joined(signal_columns(asset@), ','),
{
    let first = vec!["ts_ms", "strategy", "side", "edge", "fair", "mkt", "conf", "size_frac"];
    let rest = vec!["dist", "time_left_s", "eval_us", "selected"];
    let mut cells = names_of(&first);
    cells.push(String::from_str(asset));
    let mut more = names_of(&rest);
    cells.append(&mut more);
    assert(texts(cells@) =~= signal_columns(asset@));
    join(&cells, ',')
}

/// A signal as it is logged. Amounts are decimal texts.
#[derive(Debug)]
pub struct SignalLine {
    pub ts_ms: i64,
    pub strategy: String,
    pub side: Side,
    pub edge: String,
    pub fair_value: String,
    pub market_price: String,
    pub confidence: String,
    pub size_frac: String,
    pub binance_price: String,
    pub distance: String,
    pub time_left_s: String,
    pub eval_latency_us: u64,
    pub selected: bool,
}

impl SignalLine {
    pub open spec fn cells(self) -> Seq<Seq<char>> {
        seq![
            decimal(self.ts_ms as int),
            self.strategy@,
            side_name(self.side),
            self.edge@,
            self.fair_value@,
            self.market_price@,
            self.confidence@,
            self.size_frac@,
            self.binance_price@,
            self.distance@,
            self.time_left_s@,
            decimal(self.eval_latency_us as int),
            if self.selected {
                "1"@
            } else {
                "0"@
            },
        ]
    }

    /// The line of a signal.
    pub fn line(&self) -> (r: String)
        ensures
            r@ == joined(self.cells(), ','),
    {
        let cells = vec![
            i64_to_text(self.ts_ms),
            self.strategy.clone(),
            side_text(self.side),
            self.edge.clone(),
            self.fair_value.clone(),
            self.market_price.clone(),
            self.confidence.clone(),
            self.size_frac.clone(),
            self.binance_price.clone(),
            self.distance.clone(),
            self.time_left_s.clone(),
            unsigned_text(self.eval_latency_us),
            if self.selected { String::from_str("1") } else { String::from_str("0") },
        ];
        assert(texts(cells@) =~= self.cells());
        join(&cells, ',')
    }
}

// ── Latencies ──

/// The first line of the latency log.
pub fn latency_header() -> (r: &'static str)
    ensures
        r@ == "ts_ms,event,latency_us"@,
{
    "ts_ms,event,latency_us"
}

/// The cells of a latency.
pub open spec fn latency_cells(ts_ms: i64, event: Seq<char>, latency_us: u64) -> Seq<Seq<char>> {
    seq![decimal(ts_ms as int), event, decimal(latency_us as int)]
}

/// A latency comes after its event, and the event after its time.
pub proof fn law_latency_cells(ts_ms: i64, event: Seq<char>, latency_us: u64)
    ensures
        latency_cells(ts_ms, event, latency_us).len() == 3,
        latency_cells(ts_ms, event, latency_us)[0] == decimal(ts_ms as int),
        latency_cells(ts_ms, event, latency_us)[1] == event,
        latency_cells(ts_ms, event, latency_us)[2] == decimal(latency_us as int),
{
}

/// The line of a latency.
pub fn latency_line(ts_ms: i64, event: &str, latency_us: u64) -> (r: String)
    ensures
        r@ == joined(seq![decimal(ts_ms as int), event@, decimal(latency_us as int)], ','),
        r@ == joined(latency_cells(ts_ms, event@, latency_us), ','),
{
    let cells = vec![i64_to_text(ts_ms), String::from_str(event), unsigned_text(latency_us)];
    assert(texts(cells@) =~= seq![decimal(ts_ms as int), event@, decimal(latency_us as int)]);
    join(&cells, ',')
}

// ── Orders ──

/// The columns of the order log.
pub open spec fn order_columns() -> Seq<Seq<char>> {
    seq![
        "ts_ms"@,
        "order_id"@,
        "side"@,
        "price"@,
        "size"@,
        "strategy"@,
        "edge"@,
        "btc"@,
        "time_left_s"@,
    ]
}

/// The first line of the order log.
pub fn orders_header() -> (r: String)
    ensures
        r@ == joined(order_columns(), ','),
{
    let names = vec![
        "ts_ms",
        "order_id",
        "side",
        "price",
        "size",
        "strategy",
        "edge",
        "btc",
        "time_left_s",
    ];
    let cells = names_of(&names);
    assert(texts(cells@) =~= order_columns());
    join(&cells, ',')
}

/// An order as it is logged. Amounts are decimal texts.
#[derive(Debug)]
pub struct OrderLine {
    pub ts_ms: i64,
    pub order_id: u64,
    pub side: Side,
    pub price: String,
    pub size: String,
    pub strategy: String,
    pub edge: String,
    pub binance_price: String,
    pub time_left_s: String,
}

impl OrderLine {
    pub open spec fn cells(self) -> Seq<Seq<char>> {
        seq![
            decimal(self.ts_ms as int),
            decimal(self.order_id as int),
            side_name(self.side),
            self.price@,
            self.size@,
            self.strategy@,
            self.edge@,
            self.binance_price@,
            self.time_left_s@,
        ]
    }

    /// The line of an order.
    pub fn line(&self) -> (r: String)
        ensures
            r@ == joined(self.cells(), ','),
    {
        let cells = vec![
            i64_to_text(self.ts_ms),
            unsigned_text(self.order_id),
            side_text(self.side),
            self.price.clone(),
            self.size.clone(),
            self.strategy.clone(),
            self.edge.clone(),
            self.binance_price.clone(),
            self.time_left_s.clone(),
        ];
        assert(texts(cells@) =~= self.cells());
        join(&cells, ',')
    }
}

// ── Fills ──

/// The columns of the fill log.
pub open spec fn fill_columns() -> Seq<Seq<char>> {
    seq![
        "ts_ms"@,
        "order_id"@,
        "strategy"@,
        "status"@,
        "filled_price"@,
        "filled_size"@,
        "submit_to_ack_ms"@,
        "pnl_if_correct"@,
    ]
}

/// The first line of the fill log.
pub fn fills_header() -> (r: String)
    ensures
        r@ == joined(fill_columns(), ','),
{
    let names = vec![
        "ts_ms",
        "order_id",
        "strategy",
        "status",
        "filled_price",
        "filled_size",
        "submit_to_ack_ms",
        "pnl_if_correct",
    ];
    let cells = names_of(&names);
    assert(texts(cells@) =~= fill_columns());
    join(&cells, ',')
}

/// An answer as it is logged. Amounts are decimal texts; a missing one leaves its cell empty.
#[derive(Debug)]
pub struct FillLine {
    pub ts_ms: i64,
    pub order_id: u64,
    pub strategy: String,
    pub status: String,
    pub filled_price: Option<String>,
    pub filled_size: Option<String>,
    pub submit_to_ack_ms: String,
    pub pnl_if_correct: Option<String>,
}

pub open spec fn text_or_blank(o: Option<String>) -> Seq<char> {
    match o {
        Some(s) => s@,
        None => Seq::empty(),
    }
}

fn or_blank(o: &Option<String>) -> (r: String)
    ensures
        r@ == text_or_blank(*o),
{
    match o {
        Some(s) => s.clone(),
        None => {
            let s = String::new();
            assert(s@ =~= Seq::empty());
            s
        },
    }
}

impl FillLine {
    pub open spec fn cells(self) -> Seq<Seq<char>> {
        seq![
            decimal(self.ts_ms as int),
            decimal(self.order_id as int),
            self.strategy@,
            self.status@,
            text_or_blank(self.filled_price),
            text_or_blank(self.filled_size),
            self.submit_to_ack_ms@,
            text_or_blank(self.pnl_if_correct),
        ]
    }

    /// The line of an answer.
    pub fn line(&self) -> (r: String)
        ensures
            r@ == joined(self.cells(), ','),
    {
        let cells = vec![
            i64_to_text(self.ts_ms),
            unsigned_text(self.order_id),
            self.strategy.clone(),
            self.status.clone(),
            or_blank(&self.filled_price),
            or_blank(&self.filled_size),
            self.submit_to_ack_ms.clone(),
            or_blank(&self.pnl_if_correct),
        ];
        assert(texts(cells@) =~= self.cells());
        join(&cells, ',')
    }
}

/// The names of the sides in the logs.
pub proof fn law_side_names()
    ensures
        side_name(Side::Up) == "Up"@,
        side_name(Side::Down) == "Down"@,
{
}

/// A missing text leaves its cell empty; one that is there fills it.
pub proof fn law_text_or_blank(s: String)
    ensures
        text_or_blank(Some(s)) == s@,
        text_or_blank(None).len() == 0,
{
}

/// Each column of the signal log holds what its name says.
pub proof fn law_signal_cells(asset: Seq<char>, s: SignalLine)
    ensures
        signal_columns(asset).len() == 13,
        s.cells().len() == 13,
        signal_columns(asset)[0] == "ts_ms"@ && s.cells()[0] == decimal(s.ts_ms as int),
        signal_columns(asset)[1] == "strategy"@ && s.cells()[1] == s.strategy@,
        signal_columns(asset)[2] == "side"@ && s.cells()[2] == side_name(s.side),
        signal_columns(asset)[3] == "edge"@ && s.cells()[3] == s.edge@,
        signal_columns(asset)[4] == "fair"@ && s.cells()[4] == s.fair_value@,
        signal_columns(asset)[5] == "mkt"@ && s.cells()[5] == s.market_price@,
        signal_columns(asset)[6] == "conf"@ && s.cells()[6] == s.confidence@,
        signal_columns(asset)[7] == "size_frac"@ && s.cells()[7] == s.size_frac@,
        signal_columns(asset)[8] == asset && s.cells()[8] == s.binance_price@,
        signal_columns(asset)[9] == "dist"@ && s.cells()[9] == s.distance@,
        signal_columns(asset)[10] == "time_left_s"@ && s.cells()[10] == s.time_left_s@,
        signal_columns(asset)[11] == "eval_us"@ && s.cells()[11] == decimal(s.eval_latency_us as int),
        signal_columns(asset)[12] == "selected"@ && s.cells()[12] == (if s.selected { "1"@ } else { "0"@ }),
{
}

/// Each column of the order log holds what its name says.
pub proof fn law_order_cells(o: OrderLine)
    ensures
        order_columns().len() == 9,
        o.cells().len() == 9,
        order_columns()[0] == "ts_ms"@ && o.cells()[0] == decimal(o.ts_ms as int),
        order_columns()[1] == "order_id"@ && o.cells()[1] == decimal(o.order_id as int),
        order_columns()[2] == "side"@ && o.cells()[2] == side_name(o.side),
        order_columns()[3] == "price"@ && o.cells()[3] == o.price@,
        order_columns()[4] == "size"@ && o.cells()[4] == o.size@,
        order_columns()[5] == "strategy"@ && o.cells()[5] == o.strategy@,
        order_columns()[6] == "edge"@ && o.cells()[6] == o.edge@,
        order_columns()[7] == "btc"@ && o.cells()[7] == o.binance_price@,
        order_columns()[8] == "time_left_s"@ && o.cells()[8] == o.time_left_s@,
{
}

/// Each column of the fill log holds what its name says.
pub proof fn law_fill_cells(f: FillLine)
    ensures
        fill_columns().len() == 8,
        f.cells().len() == 8,
        fill_columns()[0] == "ts_ms"@ && f.cells()[0] == decimal(f.ts_ms as int),
        fill_columns()[1] == "order_id"@ && f.cells()[1] == decimal(f.order_id as int),
        fill_columns()[2] == "strategy"@ && f.cells()[2] == f.strategy@,
        fill_columns()[3] == "status"@ && f.cells()[3] == f.status@,
        fill_columns()[4] == "filled_price"@ && f.cells()[4] == text_or_blank(f.filled_price),
        fill_columns()[5] == "filled_size"@ && f.cells()[5] == text_or_blank(f.filled_size),
        fill_columns()[6] == "submit_to_ack_ms"@ && f.cells()[6] == f.submit_to_ack_ms@,
        fill_columns()[7] == "pnl_if_correct"@ && f.cells()[7] == text_or_blank(f.pnl_if_correct),
{
}

/// The directory of the logs of a market.
pub open spec fn log_path(interval_label: Seq<char>, slug: Seq<char>) -> Seq<char> {
    "logs/"@ + interval_label + "/"@ + slug
}

/// The logs of a market lie under its interval, in a directory named by its slug.
pub proof fn law_log_path(interval_label: Seq<char>, slug: Seq<char>)
    requires
        !slug.contains('/'),
    ensures
        after_last(log_path(interval_label, slug), '/') == slug,
        log_path(interval_label, slug).take(
            ("logs/"@ + interval_label).len() as int,
        ) == "logs/"@ + interval_label,
{
    reveal_strlit("/");
    let a = "logs/"@ + interval_label;
    assert(log_path(interval_label, slug) =~= a.push('/') + slug);
    law_after_last_of_join(a, '/', slug);
    assert(log_path(interval_label, slug).take(a.len() as int) =~= a);
}

} // verus!
