//! Rows of the logs of a market.

use vstd::prelude::*;
use vstd::string::*;

use crate::config::opt_text;
use crate::csv::{after_prefix, cell, cell_at, col_index, column_of, lines, lines_of, opt_int};
use crate::csv::{law_column_of, read_csv, split, split_text, strip_prefix, table_of, trim, trimmed};
use crate::csv::TableView;
use crate::json::texts;
use crate::number::{float_text, is_float_text, is_word, word_text};
use crate::text::{integer_within, parse_i64, parse_unsigned, str_eq};

verus! {

/// What the log of a market says of it. Amounts stand as the decimal texts of the log.
#[derive(Debug)]
pub struct MarketMeta {
    pub slug: String,
    pub strike: Option<String>,
    pub start_ms: Option<i64>,
    pub end_ms: Option<i64>,
    pub outcome: Option<String>,
    pub gross_pnl: Option<String>,
}

/// What a `MarketMeta` holds.
pub ghost struct MetaView {
    pub slug: Seq<char>,
    pub strike: Option<Seq<char>>,
    pub start_ms: Option<i64>,
    pub end_ms: Option<i64>,
    pub outcome: Option<Seq<char>>,
    pub gross_pnl: Option<Seq<char>>,
}

impl View for MarketMeta {
    type V = MetaView;

    open spec fn view(&self) -> MetaView {
        MetaView {
            slug: self.slug@,
            strike: opt_text(self.strike),
            start_ms: self.start_ms,
            end_ms: self.end_ms,
            outcome: opt_text(self.outcome),
            gross_pnl: opt_text(self.gross_pnl),
        }
    }
}

/// A text, where it is the decimal form of a number.
pub open spec fn number_text(s: Seq<char>) -> Option<Seq<char>> {
    if is_float_text(s) {
        Some(s)
    } else {
        None
    }
}

pub(crate) fn number_or_none(s: String) -> (r: Option<String>)
    ensures
        opt_text(r) == number_text(s@),
{
    if float_text(s.as_str()) {
        Some(s)
    } else {
        None
    }
}

/// A 64-bit integer, where the text is one.
pub open spec fn i64_text(s: Seq<char>) -> Option<i64> {
    match integer_within(s, true, i64::MIN as int, i64::MAX as int) {
        Some(v) => Some(v as i64),
        None => None,
    }
}

/// What is known of a market after one more line of its log.
pub open spec fn meta_step(m: MetaView, raw: Seq<char>) -> MetaView {
    let line = trimmed(raw);
    if after_prefix(line, "strike="@) is Some {
        MetaView { strike: number_text(after_prefix(line, "strike="@)->0), ..m }
    } else if after_prefix(line, "start_ms="@) is Some {
        MetaView { start_ms: i64_text(after_prefix(line, "start_ms="@)->0), ..m }
    } else if after_prefix(line, "end_ms="@) is Some {
        MetaView { end_ms: i64_text(after_prefix(line, "end_ms="@)->0), ..m }
    } else if after_prefix(line, "outcome="@) is Some {
        MetaView { outcome: after_prefix(line, "outcome="@), ..m }
    } else if after_prefix(line, "gross_pnl="@) is Some {
        MetaView { gross_pnl: number_text(after_prefix(line, "gross_pnl="@)->0), ..m }
    } else {
        m
    }
}

pub open spec fn meta_of_lines(slug: Seq<char>, ls: Seq<Seq<char>>) -> MetaView
    decreases ls.len(),
{
    if ls.len() == 0 {
        MetaView {
            slug,
            strike: None,
            start_ms: None,
            end_ms: None,
            outcome: None,
            gross_pnl: None,
        }
    } else {
        meta_step(meta_of_lines(slug, ls.drop_last()), ls.last())
    }
}

/// What is known of a market: its slug, and what the lines of its log say, a later line over an
/// earlier one. `content` is there where the log could be read.
pub fn parse_market_info(slug: &str, content: Option<&str>) -> (meta: MarketMeta)
    ensures
        meta@ == meta_of_lines(
            slug@,
            match content {
                Some(c) => lines_of(c@),
                None => Seq::empty(),
            },
        ),
{
    let mut meta = MarketMeta {
        slug: String::from_str(slug),
        strike: None,
        start_ms: None,
        end_ms: None,
        outcome: None,
        gross_pnl: None,
    };
    if let Some(c) = content {
        let ls = lines(c);
        let ghost all = texts(ls@);
        let mut i: usize = 0;
        assert(all.take(0) =~= Seq::empty());
        while i < ls.len()
            invariant
                i <= ls.len(),
                all == texts(ls@),
                meta@ == meta_of_lines(slug@, all.take(i as int)),
            decreases ls.len() - i,
        {
            assert(all.take(i + 1).drop_last() =~= all.take(i as int));
            assert(all[i as int] == ls@[i as int]@);
            let line = trim(ls[i].as_str());
            if let Some(v) = strip_prefix(line.as_str(), "strike=") {
                meta.strike = number_or_none(v);
            } else if let Some(v) = strip_prefix(line.as_str(), "start_ms=") {
                meta.start_ms = parse_i64(v.as_str());
            } else if let Some(v) = strip_prefix(line.as_str(), "end_ms=") {
                meta.end_ms = parse_i64(v.as_str());
            } else if let Some(v) = strip_prefix(line.as_str(), "outcome=") {
                meta.outcome = Some(v);
            } else if let Some(v) = strip_prefix(line.as_str(), "gross_pnl=") {
                meta.gross_pnl = number_or_none(v);
            }
            i = i + 1;
        }
        assert(all.take(i as int) =~= all);
    }
    meta
}

/// An order of the log.
#[derive(Debug)]
pub struct OrderRow {
    pub order_id: u64,
    pub side: String,
    pub price: String,
    pub size: String,
    pub strategy: String,
    /// Where the log has no readable edge there is none.
    pub edge: Option<String>,
}

/// What an `OrderRow` holds.
pub ghost struct OrderRowView {
    pub order_id: u64,
    pub side: Seq<char>,
    pub price: Seq<char>,
    pub size: Seq<char>,
    pub strategy: Seq<char>,
    pub edge: Option<Seq<char>>,
}

impl View for OrderRow {
    type V = OrderRowView;

    open spec fn view(&self) -> OrderRowView {
        OrderRowView {
            order_id: self.order_id,
            side: self.side@,
            price: self.price@,
            size: self.size@,
            strategy: self.strategy@,
            edge: opt_text(self.edge),
        }
    }
}

/// The cell of a named column in a row of a table.
pub open spec fn named_cell(t: TableView, row: Seq<char>, name: Seq<char>) -> Option<Seq<char>> {
    cell(split_text(row, ','), column_of(t.headers, name))
}

/// The cell of a named column, where it is the decimal form of a number.
pub open spec fn number_cell(t: TableView, row: Seq<char>, name: Seq<char>) -> Option<Seq<char>> {
    match named_cell(t, row, name) {
        Some(s) => number_text(s),
        None => None,
    }
}

/// The cell of a named column, where it is an unsigned 64-bit integer.
pub open spec fn id_cell(t: TableView, row: Seq<char>, name: Seq<char>) -> Option<u64> {
    match named_cell(t, row, name) {
        Some(s) => match integer_within(s, false, 0, u64::MAX as int) {
            Some(v) => Some(v as u64),
            None => None,
        },
        None => None,
    }
}

fn number_at(columns: &Vec<String>, at: Option<usize>) -> (r: Option<String>)
    ensures
        opt_text(r) == (match cell(texts(columns@), opt_int(at)) {
            Some(s) => number_text(s),
            None => None,
        }),
{
    match cell_at(columns, at) {
        Some(s) => number_or_none(s),
        None => None,
    }
}

fn id_at(columns: &Vec<String>, at: Option<usize>) -> (r: Option<u64>)
    ensures
        r == (match cell(texts(columns@), opt_int(at)) {
            Some(s) => match integer_within(s, false, 0, u64::MAX as int) {
                Some(v) => Some(v as u64),
                None => None,
            },
            None => None,
        }),
{
    match cell_at(columns, at) {
        Some(s) => parse_unsigned(s.as_str(), u64::MAX),
        None => None,
    }
}

/// The order of a row, where number, side, price, size, strategy and a cell for the edge are there.
pub open spec fn order_row(t: TableView, row: Seq<char>) -> Option<OrderRowView> {
    match (
        id_cell(t, row, "order_id"@),
        named_cell(t, row, "side"@),
        number_cell(t, row, "price"@),
        number_cell(t, row, "size"@),
        named_cell(t, row, "strategy"@),
        named_cell(t, row, "edge"@),
    ) {
        (Some(order_id), Some(side), Some(price), Some(size), Some(strategy), Some(edge)) => Some(
            OrderRowView { order_id, side, price, size, strategy, edge: number_text(edge) },
        ),
        _ => None,
    }
}

/// What a function makes of the rows that it accepts, in their order.
pub open spec fn accepted<T>(rows: Seq<Seq<char>>, f: spec_fn(Seq<char>) -> Option<T>) -> Seq<T>
    decreases rows.len(),
{
    if rows.len() == 0 {
        Seq::empty()
    } else {
        match f(rows.last()) {
            Some(x) => accepted(rows.drop_last(), f).push(x),
            None => accepted(rows.drop_last(), f),
        }
    }
}

/// The table of a log, where it could be read and is not empty.
pub open spec fn log_table(content: Option<Seq<char>>) -> Option<TableView> {
    match content {
        Some(c) => table_of(c),
        None => None,
    }
}

pub open spec fn opt_str(s: Option<&str>) -> Option<Seq<char>> {
    match s {
        Some(s) => Some(s@),
        None => None,
    }
}

pub open spec fn order_views(v: Seq<OrderRow>) -> Seq<OrderRowView> {
    v.map_values(|o: OrderRow| o@)
}

/// The orders of a log.
pub open spec fn orders_of(content: Option<Seq<char>>) -> Seq<OrderRowView> {
    match log_table(content) {
        Some(t) => accepted(t.rows, |row: Seq<char>| order_row(t, row)),
        None => Seq::empty(),
    }
}

/// The orders of a log; rows that lack something are left out.
pub fn parse_orders(content: Option<&str>) -> (r: Vec<OrderRow>)
    ensures
        order_views(r@) == orders_of(opt_str(content)),
{
    let mut out: Vec<OrderRow> = Vec::new();
    assert(order_views(out@) =~= Seq::empty());
    let table = match content {
        Some(c) => match read_csv(c) {
            Some(t) => t,
            None => return out,
        },
        None => return out,
    };
    let ghost t = table@;
    let ghost f = |row: Seq<char>| order_row(t, row);
    let i_id = col_index(&table.headers, "order_id");
    let i_side = col_index(&table.headers, "side");
    let i_price = col_index(&table.headers, "price");
    let i_size = col_index(&table.headers, "size");
    let i_strat = col_index(&table.headers, "strategy");
    let i_edge = col_index(&table.headers, "edge");
    let mut i: usize = 0;
    assert(t.rows.take(0) =~= Seq::empty());
    while i < table.rows.len()
        invariant
            i <= table.rows.len(),
            t == table@,
            f == (|row: Seq<char>| order_row(t, row)),
            opt_int(i_id) == column_of(t.headers, "order_id"@),
            opt_int(i_side) == column_of(t.headers, "side"@),
            opt_int(i_price) == column_of(t.headers, "price"@),
            opt_int(i_size) == column_of(t.headers, "size"@),
            opt_int(i_strat) == column_of(t.headers, "strategy"@),
            opt_int(i_edge) == column_of(t.headers, "edge"@),
            order_views(out@) == accepted(t.rows.take(i as int), f),
        decreases table.rows.len() - i,
    {
        assert(t.rows.take(i + 1).drop_last() =~= t.rows.take(i as int));
        assert(t.rows[i as int] == table.rows@[i as int]@);
        let ghost row = t.rows[i as int];
        let cols = split(table.rows[i].as_str(), ',');
        let order_id = id_at(&cols, i_id);
        let side = cell_at(&cols, i_side);
        let price = number_at(&cols, i_price);
        let size = number_at(&cols, i_size);
        let strategy = cell_at(&cols, i_strat);
        let edge = cell_at(&cols, i_edge);
        let ghost before = order_views(out@);
        if let (
            Some(order_id),
            Some(side),
            Some(price),
            Some(size),
            Some(strategy),
            Some(edge),
        ) = (order_id, side, price, size, strategy, edge) {
            let o = OrderRow {
                order_id,
                side,
                price,
                size,
                strategy,
                edge: number_or_none(edge),
            };
            assert(order_row(t, row) == Some(o@));
            out.push(o);
            assert(order_views(out@) =~= before.push(o@));
        } else {
            assert(order_row(t, row) is None);
        }
        i = i + 1;
    }
    assert(t.rows.take(i as int) =~= t.rows);
    out
}

/// An answer of the log.
#[derive(Debug)]
pub struct FillRow {
    pub order_id: u64,
    /// Empty where the log has no such column.
    pub strategy: String,
    pub status: String,
    pub filled_price: Option<String>,
    pub filled_size: Option<String>,
    pub pnl_if_correct: Option<String>,
}

/// What a `FillRow` holds.
pub ghost struct FillRowView {
    pub order_id: u64,
    pub strategy: Seq<char>,
    pub status: Seq<char>,
    pub filled_price: Option<Seq<char>>,
    pub filled_size: Option<Seq<char>>,
    pub pnl_if_correct: Option<Seq<char>>,
}

impl View for FillRow {
    type V = FillRowView;

    open spec fn view(&self) -> FillRowView {
        FillRowView {
            order_id: self.order_id,
            strategy: self.strategy@,
            status: self.status@,
            filled_price: opt_text(self.filled_price),
            filled_size: opt_text(self.filled_size),
            pnl_if_correct: opt_text(self.pnl_if_correct),
        }
    }
}

pub open spec fn fill_views(v: Seq<FillRow>) -> Seq<FillRowView> {
    v.map_values(|o: FillRow| o@)
}

/// The answer of a row, where number and status are there.
pub open spec fn fill_row(t: TableView, row: Seq<char>) -> Option<FillRowView> {
    match (id_cell(t, row, "order_id"@), named_cell(t, row, "status"@)) {
        (Some(order_id), Some(status)) => Some(
            FillRowView {
                order_id,
                strategy: match named_cell(t, row, "strategy"@) {
                    Some(s) => s,
                    None => Seq::empty(),
                },
                status,
                filled_price: number_cell(t, row, "filled_price"@),
                filled_size: number_cell(t, row, "filled_size"@),
                pnl_if_correct: number_cell(t, row, "pnl_if_correct"@),
            },
        ),
        _ => None,
    }
}

/// The answers of a log.
pub open spec fn fills_of(content: Option<Seq<char>>) -> Seq<FillRowView> {
    match log_table(content) {
        Some(t) => accepted(t.rows, |row: Seq<char>| fill_row(t, row)),
        None => Seq::empty(),
    }
}

/// The answers of a log; rows that lack something are left out.
pub fn parse_fills(content: Option<&str>) -> (r: Vec<FillRow>)
    ensures
        fill_views(r@) == fills_of(opt_str(content)),
{
    let mut out: Vec<FillRow> = Vec::new();
    assert(fill_views(out@) =~= Seq::empty());
    let table = match content {
        Some(c) => match read_csv(c) {
            Some(t) => t,
            None => return out,
        },
        None => return out,
    };
    let ghost t = table@;
    let ghost f = |row: Seq<char>| fill_row(t, row);
    let i_id = col_index(&table.headers, "order_id");
    let i_strat = col_index(&table.headers, "strategy");
    let i_status = col_index(&table.headers, "status");
    let i_fprice = col_index(&table.headers, "filled_price");
    let i_fsize = col_index(&table.headers, "filled_size");
    let i_pnl = col_index(&table.headers, "pnl_if_correct");
    let mut i: usize = 0;
    assert(t.rows.take(0) =~= Seq::empty());
    while i < table.rows.len()
        invariant
            i <= table.rows.len(),
            t == table@,
            f == (|row: Seq<char>| fill_row(t, row)),
            opt_int(i_id) == column_of(t.headers, "order_id"@),
            opt_int(i_strat) == column_of(t.headers, "strategy"@),
            opt_int(i_status) == column_of(t.headers, "status"@),
            opt_int(i_fprice) == column_of(t.headers, "filled_price"@),
            opt_int(i_fsize) == column_of(t.headers, "filled_size"@),
            opt_int(i_pnl) == column_of(t.headers, "pnl_if_correct"@),
            fill_views(out@) == accepted(t.rows.take(i as int), f),
        decreases table.rows.len() - i,
    {
        assert(t.rows.take(i + 1).drop_last() =~= t.rows.take(i as int));
        assert(t.rows[i as int] == table.rows@[i as int]@);
        let ghost row = t.rows[i as int];
        let cols = split(table.rows[i].as_str(), ',');
        let order_id = id_at(&cols, i_id);
        let status = cell_at(&cols, i_status);
        let ghost before = fill_views(out@);
        if let (Some(order_id), Some(status)) = (order_id, status) {
            let o = FillRow {
                order_id,
                strategy: match cell_at(&cols, i_strat) {
                    Some(s) => s,
                    None => String::new(),
                },
                status,
                filled_price: number_at(&cols, i_fprice),
                filled_size: number_at(&cols, i_fsize),
                pnl_if_correct: number_at(&cols, i_pnl),
            };
            assert(fill_row(t, row) == Some(o@));
            out.push(o);
            assert(fill_views(out@) =~= before.push(o@));
        } else {
            assert(fill_row(t, row) is None);
        }
        i = i + 1;
    }
    assert(t.rows.take(i as int) =~= t.rows);
    out
}

/// A signal of the log.
#[derive(Debug)]
pub struct SignalRow {
    pub strategy: String,
    /// None where the log has no such column.
    pub selected: Option<bool>,
}

/// What a `SignalRow` holds.
pub ghost struct SignalRowView {
    pub strategy: Seq<char>,
    pub selected: Option<bool>,
}

impl View for SignalRow {
    type V = SignalRowView;

    open spec fn view(&self) -> SignalRowView {
        SignalRowView { strategy: self.strategy@, selected: self.selected }
    }
}

pub open spec fn signal_views(v: Seq<SignalRow>) -> Seq<SignalRowView> {
    v.map_values(|o: SignalRow| o@)
}

/// Whether a cell says yes: "1" or, in any case of letters, "true".
pub open spec fn says_yes(s: Seq<char>) -> bool {
    trimmed(s) == "1"@ || is_word(trimmed(s), "true"@)
}

fn yes(s: &str) -> (r: bool)
    ensures
        r == says_yes(s@),
{
    let t = trim(s);
    str_eq(t.as_str(), "1") || word_text(t.as_str(), "true")
}

/// The signal of a row, where the strategy is there.
pub open spec fn signal_row(t: TableView, row: Seq<char>) -> Option<SignalRowView> {
    match named_cell(t, row, "strategy"@) {
        Some(strategy) => Some(
            SignalRowView {
                strategy,
                selected: match named_cell(t, row, "selected"@) {
                    Some(s) => Some(says_yes(s)),
                    None => None,
                },
            },
        ),
        None => None,
    }
}

/// The signals of a log.
pub open spec fn signals_of(content: Option<Seq<char>>) -> Seq<SignalRowView> {
    match log_table(content) {
        Some(t) => accepted(t.rows, |row: Seq<char>| signal_row(t, row)),
        None => Seq::empty(),
    }
}

/// The signals of a log; rows that lack the strategy are left out.
pub fn parse_signals(content: Option<&str>) -> (r: Vec<SignalRow>)
    ensures
        signal_views(r@) == signals_of(opt_str(content)),
{
    let mut out: Vec<SignalRow> = Vec::new();
    assert(signal_views(out@) =~= Seq::empty());
    let table = match content {
        Some(c) => match read_csv(c) {
            Some(t) => t,
            None => return out,
        },
        None => return out,
    };
    let ghost t = table@;
    let ghost f = |row: Seq<char>| signal_row(t, row);
    let i_strat = col_index(&table.headers, "strategy");
    let i_selected = col_index(&table.headers, "selected");
    let mut i: usize = 0;
    assert(t.rows.take(0) =~= Seq::empty());
    while i < table.rows.len()
        invariant
            i <= table.rows.len(),
            t == table@,
            f == (|row: Seq<char>| signal_row(t, row)),
            opt_int(i_strat) == column_of(t.headers, "strategy"@),
            opt_int(i_selected) == column_of(t.headers, "selected"@),
            signal_views(out@) == accepted(t.rows.take(i as int), f),
        decreases table.rows.len() - i,
    {
        assert(t.rows.take(i + 1).drop_last() =~= t.rows.take(i as int));
        assert(t.rows[i as int] == table.rows@[i as int]@);
        let ghost row = t.rows[i as int];
        let cols = split(table.rows[i].as_str(), ',');
        let ghost before = signal_views(out@);
        if let Some(strategy) = cell_at(&cols, i_strat) {
            let selected = match cell_at(&cols, i_selected) {
                Some(s) => Some(yes(s.as_str())),
                None => None,
            };
            let o = SignalRow { strategy, selected };
            assert(signal_row(t, row) == Some(o@));
            out.push(o);
            assert(signal_views(out@) =~= before.push(o@));
        } else {
            assert(signal_row(t, row) is None);
        }
        i = i + 1;
    }
    assert(t.rows.take(i as int) =~= t.rows);
    out
}

/// The cell of a named column is that of the first column of that name.
pub proof fn law_named_cell(t: TableView, row: Seq<char>, name: Seq<char>)
    ensures
        named_cell(t, row, name) matches Some(s) ==> exists|i: int|
            0 <= i < t.headers.len() && i < split_text(row, ',').len() && #[trigger] t.headers[i]
                == name && split_text(row, ',')[i] == s && forall|j: int|
                0 <= j < i ==> #[trigger] t.headers[j] != name,
        (forall|i: int| 0 <= i < t.headers.len() ==> #[trigger] t.headers[i] != name) ==> named_cell(
            t,
            row,
            name,
        ) is None,
{
    law_column_of(t.headers, name);
    let at = column_of(t.headers, name);
    if at is Some {
        assert(t.headers[at->0] == name);
    }
}

/// The order of a row has each value from the column of its name; a row that lacks one of them
/// gives none.
pub proof fn law_order_columns(t: TableView, row: Seq<char>)
    ensures
        order_row(t, row) matches Some(o) ==> {
            &&& id_cell(t, row, "order_id"@) == Some(o.order_id)
            &&& named_cell(t, row, "side"@) == Some(o.side)
            &&& named_cell(t, row, "price"@) == Some(o.price) && is_float_text(o.price)
            &&& named_cell(t, row, "size"@) == Some(o.size) && is_float_text(o.size)
            &&& named_cell(t, row, "strategy"@) == Some(o.strategy)
            &&& o.edge is Some ==> named_cell(t, row, "edge"@) == o.edge
        },
        id_cell(t, row, "order_id"@) is Some && named_cell(t, row, "side"@) is Some && number_cell(
            t,
            row,
            "price"@,
        ) is Some && number_cell(t, row, "size"@) is Some && named_cell(t, row, "strategy"@) is Some
            && named_cell(t, row, "edge"@) is Some <==> order_row(t, row) is Some,
{
}

/// The answer of a row has each value from the column of its name; one without a number or a
/// status gives none.
pub proof fn law_fill_columns(t: TableView, row: Seq<char>)
    ensures
        fill_row(t, row) matches Some(f) ==> {
            &&& id_cell(t, row, "order_id"@) == Some(f.order_id)
            &&& named_cell(t, row, "status"@) == Some(f.status)
            &&& named_cell(t, row, "strategy"@) matches Some(s) ==> f.strategy == s
            &&& named_cell(t, row, "strategy"@) is None ==> f.strategy.len() == 0
            &&& f.filled_price == number_cell(t, row, "filled_price"@)
            &&& f.filled_size == number_cell(t, row, "filled_size"@)
            &&& f.pnl_if_correct == number_cell(t, row, "pnl_if_correct"@)
        },
        fill_row(t, row) is Some <==> id_cell(t, row, "order_id"@) is Some && named_cell(
            t,
            row,
            "status"@,
        ) is Some,
{
}

/// The signal of a row has the strategy of its column, and was selected where its column says
/// "1" or "true".
pub proof fn law_signal_columns(t: TableView, row: Seq<char>)
    ensures
        signal_row(t, row) is Some <==> named_cell(t, row, "strategy"@) is Some,
        signal_row(t, row) matches Some(s) ==> {
            &&& named_cell(t, row, "strategy"@) == Some(s.strategy)
            &&& s.selected is None <==> named_cell(t, row, "selected"@) is None
            &&& s.selected == Some(true) <==> (named_cell(t, row, "selected"@) matches Some(x) && (
            trimmed(x) == "1"@ || is_word(trimmed(x), "true"@)))
        },
{
}

/// A cell counts as a number where it is the decimal form of one, as it stands, and as a number
/// of an order where it is an unsigned integer.
pub proof fn law_number_cells(t: TableView, row: Seq<char>, name: Seq<char>)
    ensures
        number_cell(t, row, name) matches Some(s) ==> named_cell(t, row, name) == Some(s)
            && is_float_text(s),
        named_cell(t, row, name) matches Some(s) ==> is_float_text(s) ==> number_cell(t, row, name)
            == Some(s),
        id_cell(t, row, name) matches Some(n) ==> named_cell(t, row, name) matches Some(s)
            && integer_within(s, false, 0, u64::MAX as int) == Some(n as int),
        named_cell(t, row, name) matches Some(s) ==> integer_within(
            s,
            false,
            0,
            u64::MAX as int,
        ) is Some ==> id_cell(t, row, name) is Some,
{
}

/// What is accepted of two lists is what is accepted of the first and then what is accepted of
/// the second; of one row it is what the function makes of it.
pub proof fn law_accepted<T>(
    a: Seq<Seq<char>>,
    b: Seq<Seq<char>>,
    row: Seq<char>,
    f: spec_fn(Seq<char>) -> Option<T>,
)
    ensures
        accepted(a + b, f) == accepted(a, f) + accepted(b, f),
        accepted(Seq::empty(), f) == Seq::<T>::empty(),
        f(row) matches Some(x) ==> accepted(seq![row], f) == seq![x],
        f(row) is None ==> accepted(seq![row], f) == Seq::<T>::empty(),
    decreases b.len(),
{
    assert(seq![row].drop_last() =~= Seq::empty());
    assert(accepted(Seq::empty(), f) =~= Seq::<T>::empty());
    assert(f(row) is Some ==> accepted(seq![row], f) =~= seq![f(row)->0]);
    if b.len() == 0 {
        assert(a + b =~= a);
        assert(accepted(a, f) + accepted(b, f) =~= accepted(a, f));
    } else {
        law_accepted(a, b.drop_last(), row, f);
        assert((a + b).drop_last() =~= a + b.drop_last());
        assert(accepted(a + b, f) =~= accepted(a, f) + accepted(b, f));
    }
}

/// A line of the log of a market sets what stands before its `=`, and nothing else; the last
/// line of a kind counts.
pub proof fn law_meta_lines(m: MetaView, raw: Seq<char>)
    ensures
        meta_step(m, raw).slug == m.slug,
        ({
            let line = trimmed(raw);
            let r = meta_step(m, raw);
            let strike = after_prefix(line, "strike="@);
            let start = after_prefix(line, "start_ms="@);
            let end = after_prefix(line, "end_ms="@);
            let outcome = after_prefix(line, "outcome="@);
            let pnl = after_prefix(line, "gross_pnl="@);
            &&& strike is Some ==> r == (MetaView { strike: number_text(strike->0), ..m })
            &&& strike is None && start is Some ==> r == (MetaView {
                start_ms: i64_text(start->0),
                ..m
            })
            &&& strike is None && start is None && end is Some ==> r == (MetaView {
                end_ms: i64_text(end->0),
                ..m
            })
            &&& r.outcome != m.outcome ==> r.outcome == outcome
            &&& r.gross_pnl != m.gross_pnl ==> pnl is Some && r.gross_pnl == number_text(pnl->0)
            &&& strike is None && start is None && end is None && outcome is Some ==> r.outcome
                == outcome
            &&& strike is None && start is None && end is None && outcome is None && pnl is Some
                ==> r.gross_pnl == number_text(pnl->0)
            &&& r.strike != m.strike ==> strike is Some
            &&& r.start_ms != m.start_ms ==> start is Some
            &&& r.end_ms != m.end_ms ==> end is Some
        }),
{
}

/// What a row holds is what its fields hold.
pub proof fn law_row_views(o: OrderRow, f: FillRow, s: SignalRow, m: MarketMeta)
    ensures
        o@.order_id == o.order_id && o@.side == o.side@ && o@.price == o.price@ && o@.size
            == o.size@ && o@.strategy == o.strategy@ && o@.edge == opt_text(o.edge),
        f@.order_id == f.order_id && f@.strategy == f.strategy@ && f@.status == f.status@,
        f@.filled_price == opt_text(f.filled_price) && f@.filled_size == opt_text(f.filled_size),
        f@.pnl_if_correct == opt_text(f.pnl_if_correct),
        s@.strategy == s.strategy@ && s@.selected == s.selected,
        m@.slug == m.slug@ && m@.strike == opt_text(m.strike) && m@.start_ms == m.start_ms,
        m@.end_ms == m.end_ms && m@.outcome == opt_text(m.outcome) && m@.gross_pnl == opt_text(
            m.gross_pnl,
        ),
{
}

} // verus!
