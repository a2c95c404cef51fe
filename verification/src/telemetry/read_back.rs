//! What the analyzer reads of the logs is what was logged.

use vstd::prelude::*;
use vstd::string::*;

use crate::analyzer::rows::{accepted, fill_row, fills_of, number_text, order_row, orders_of};
use crate::analyzer::rows::{meta_of_lines, meta_step, MetaView};
use crate::analyzer::rows::{says_yes, signal_row, signals_of, FillRowView, OrderRowView, SignalRowView};
use crate::csv::{after_prefix, column_of, is_white, joined, law_split_of_join, lemma_index_is};
use crate::csv::{lines_of, split_text, table_of, trim_end, trim_start, trimmed};
use crate::csv::{without_blank_end, without_return, TableView};
use crate::number::is_float_text;
use crate::telemetry::lines::{fill_columns, order_columns, side_name, signal_columns, text_or_blank};
use crate::telemetry::lines::{FillLine, OrderLine, SignalLine};
use crate::telemetry::market::{outcome_name, start_entries, MarketEnd, StrategyEntry};
use crate::text::{occurs_at, decimal, law_decimal_has_only_digits, law_decimal_round_trip};

verus! {

// ── Lines ──

/// The text of a file of lines, each with its end.
pub open spec fn file_text(ls: Seq<Seq<char>>) -> Seq<char>
    decreases ls.len(),
{
    if ls.len() == 0 {
        Seq::empty()
    } else {
        ls[0].push('\n') + file_text(ls.skip(1))
    }
}

/// Whether a text has no end of a line in it.
pub open spec fn one_line(s: Seq<char>) -> bool {
    !s.contains('\n') && !s.contains('\r')
}

/// The lines of a file are the lines that were written to it.
pub proof fn law_lines_read_back(ls: Seq<Seq<char>>)
    requires
        forall|i: int| 0 <= i < ls.len() ==> one_line(#[trigger] ls[i]),
    ensures
        lines_of(file_text(ls)) == ls,
    decreases ls.len(),
{
    let s = file_text(ls);
    if ls.len() == 0 {
        assert(lines_of(s) =~= ls);
    } else {
        let first = ls[0];
        let rest = ls.skip(1);
        assert(one_line(first));
        assert forall|i: int| 0 <= i < rest.len() implies one_line(#[trigger] rest[i]) by {
            assert(rest[i] == ls[i + 1]);
        }
        law_lines_read_back(rest);
        let k = first.len() as int;
        assert forall|i: int| 0 <= i < k implies s[i] != '\n' by {
            assert(s[i] == first[i]);
        }
        assert(s[k] == '\n');
        lemma_index_is(s, '\n', k);
        assert(s.take(k) =~= first);
        if first.len() > 0 {
            assert(first.contains(first.last()));
        }
        assert(without_return(first) == first);
        assert(s.skip(k + 1) =~= file_text(rest));
        assert(seq![first] + rest =~= ls);
    }
}

// ── Tables ──

/// Whether a text can be the cell of a table.
pub open spec fn is_cell(s: Seq<char>) -> bool {
    one_line(s) && !s.contains(',')
}

/// Whether texts can be the cells of a row.
pub open spec fn are_cells(cells: Seq<Seq<char>>) -> bool {
    cells.len() >= 2 && forall|i: int| 0 <= i < cells.len() ==> is_cell(#[trigger] cells[i])
}

/// The text of a table: the line of its columns and the lines of its rows.
pub open spec fn table_text(columns: Seq<Seq<char>>, rows: Seq<Seq<Seq<char>>>) -> Seq<char> {
    file_text(
        seq![joined(columns, ',')] + rows.map_values(|cells: Seq<Seq<char>>| joined(cells, ',')),
    )
}

proof fn lemma_joined_holds(parts: Seq<Seq<char>>, x: char)
    requires
        joined(parts, ',').contains(x),
        x != ',',
    ensures
        exists|i: int| 0 <= i < parts.len() && (#[trigger] parts[i]).contains(x),
    decreases parts.len(),
{
    let s = joined(parts, ',');
    let k = choose|k: int| 0 <= k < s.len() && s[k] == x;
    if parts.len() == 1 {
        assert(parts[0][k] == x);
    } else if parts.len() > 1 {
        let first = parts[0];
        if k < first.len() {
            assert(first[k] == x);
        } else {
            let rest = parts.skip(1);
            assert(k != first.len());
            assert(joined(rest, ',')[k - first.len() - 1] == x);
            lemma_joined_holds(rest, x);
            let i = choose|i: int| 0 <= i < rest.len() && (#[trigger] rest[i]).contains(x);
            assert(parts[i + 1].contains(x));
        }
    }
}

proof fn lemma_row_line(cells: Seq<Seq<char>>)
    requires
        are_cells(cells),
    ensures
        one_line(joined(cells, ',')),
        joined(cells, ',').contains(','),
        split_text(joined(cells, ','), ',') == cells,
{
    let s = joined(cells, ',');
    if s.contains('\n') {
        lemma_joined_holds(cells, '\n');
        let i = choose|i: int| 0 <= i < cells.len() && (#[trigger] cells[i]).contains('\n');
        assert(is_cell(cells[i]));
    }
    if s.contains('\r') {
        lemma_joined_holds(cells, '\r');
        let i = choose|i: int| 0 <= i < cells.len() && (#[trigger] cells[i]).contains('\r');
        assert(is_cell(cells[i]));
    }
    assert(s[cells[0].len() as int] == ',');
    assert forall|i: int| 0 <= i < cells.len() implies !(#[trigger] cells[i]).contains(',') by {
        assert(is_cell(cells[i]));
    }
    law_split_of_join(cells, ',');
}

proof fn lemma_trim_keeps(s: Seq<char>, c: char)
    requires
        s.contains(c),
        !is_white(c),
    ensures
        trimmed(s).contains(c),
{
    lemma_trim_start_keeps(s, c);
    lemma_trim_end_keeps(trim_start(s), c);
}

proof fn lemma_trim_start_keeps(s: Seq<char>, c: char)
    requires
        s.contains(c),
        !is_white(c),
    ensures
        trim_start(s).contains(c),
    decreases s.len(),
{
    if s.len() > 0 && is_white(s[0]) {
        let k = choose|k: int| 0 <= k < s.len() && s[k] == c;
        assert(s.skip(1)[k - 1] == c);
        lemma_trim_start_keeps(s.skip(1), c);
    }
}

proof fn lemma_trim_end_keeps(s: Seq<char>, c: char)
    requires
        s.contains(c),
        !is_white(c),
    ensures
        trim_end(s).contains(c),
    decreases s.len(),
{
    if s.len() > 0 && is_white(s.last()) {
        let k = choose|k: int| 0 <= k < s.len() && s[k] == c;
        assert(s.drop_last()[k] == c);
        lemma_trim_end_keeps(s.drop_last(), c);
    }
}

proof fn lemma_table(columns: Seq<Seq<char>>, rows: Seq<Seq<Seq<char>>>)
    requires
        are_cells(columns),
        forall|i: int| 0 <= i < rows.len() ==> are_cells(#[trigger] rows[i]),
    ensures
        table_of(table_text(columns, rows)) == Some(
            TableView {
                headers: columns.map_values(|h: Seq<char>| trimmed(h)),
                rows: rows.map_values(|cells: Seq<Seq<char>>| joined(cells, ',')),
            },
        ),
{
    let head = joined(columns, ',');
    let body = rows.map_values(|cells: Seq<Seq<char>>| joined(cells, ','));
    let ls = seq![head] + body;
    lemma_row_line(columns);
    assert forall|i: int| 0 <= i < ls.len() implies one_line(#[trigger] ls[i]) by {
        if i > 0 {
            assert(ls[i] == body[i - 1]);
            assert(are_cells(rows[i - 1]));
            lemma_row_line(rows[i - 1]);
        }
    }
    law_lines_read_back(ls);
    assert(ls.skip(1) =~= body);
    if body.len() > 0 {
        assert(are_cells(rows[rows.len() - 1]));
        lemma_row_line(rows[rows.len() - 1]);
        lemma_trim_keeps(body.last(), ',');
        assert(trimmed(body.last()).len() > 0);
    }
    assert(without_blank_end(body) == body);
}

proof fn lemma_accepted<T>(
    rows: Seq<Seq<char>>,
    f: spec_fn(Seq<char>) -> Option<T>,
    out: Seq<T>,
)
    requires
        rows.len() == out.len(),
        forall|i: int| 0 <= i < rows.len() ==> f(#[trigger] rows[i]) == Some(out[i]),
    ensures
        accepted(rows, f) == out,
    decreases rows.len(),
{
    if rows.len() == 0 {
        assert(out =~= Seq::empty());
    } else {
        let r = rows.drop_last();
        let o = out.drop_last();
        assert forall|i: int| 0 <= i < r.len() implies f(#[trigger] r[i]) == Some(o[i]) by {
            assert(r[i] == rows[i]);
        }
        lemma_accepted(r, f, o);
        assert(f(rows[rows.len() - 1]) == Some(out.last()));
        assert(o.push(out.last()) =~= out);
    }
}

proof fn lemma_column(headers: Seq<Seq<char>>, name: Seq<char>, k: int)
    requires
        0 <= k < headers.len(),
        headers[k] == name,
        forall|i: int| 0 <= i < k ==> #[trigger] headers[i] != name,
    ensures
        column_of(headers, name) == Some(k),
    decreases k,
{
    if k > 0 {
        assert(headers[0] != name);
        let rest = headers.skip(1);
        assert forall|i: int| 0 <= i < k - 1 implies #[trigger] rest[i] != name by {
            assert(rest[i] == headers[i + 1]);
        }
        lemma_column(rest, name, k - 1);
    }
}

pub(crate) proof fn lemma_nothing_to_trim(s: Seq<char>)
    requires
        s.len() == 0 || (!is_white(s[0]) && !is_white(s.last())),
    ensures
        trimmed(s) == s,
{
}

pub(crate) proof fn lemma_decimal_cell(i: int)
    ensures
        is_cell(decimal(i)),
{
    if i >= 0 {
        law_decimal_has_only_digits(i);
    } else {
        law_decimal_has_only_digits(-i);
        let s = decimal(i);
        assert forall|k: int| 0 <= k < s.len() implies s[k] == '-' || s[k] == decimal(-i)[k - 1] by {}
        assert forall|k: int| 1 <= k < s.len() implies crate::text::is_digit(s[k]) by {
            assert(s[k] == decimal(-i)[k - 1]);
        }
    }
}

proof fn lemma_side_cell(side: crate::types::Side)
    ensures
        is_cell(side_name(side)),
{
    reveal_strlit("Up");
    reveal_strlit("Down");
}

// ── Orders ──

proof fn lemma_order_columns()
    ensures
        are_cells(order_columns()),
        order_columns().map_values(|h: Seq<char>| trimmed(h)) == order_columns(),
        column_of(order_columns(), "order_id"@) == Some(1int),
        column_of(order_columns(), "side"@) == Some(2int),
        column_of(order_columns(), "price"@) == Some(3int),
        column_of(order_columns(), "size"@) == Some(4int),
        column_of(order_columns(), "strategy"@) == Some(5int),
        column_of(order_columns(), "edge"@) == Some(6int),
{
    let c = order_columns();
    reveal_strlit("ts_ms");
    reveal_strlit("order_id");
    reveal_strlit("side");
    reveal_strlit("price");
    reveal_strlit("size");
    reveal_strlit("strategy");
    reveal_strlit("edge");
    reveal_strlit("btc");
    reveal_strlit("time_left_s");
    assert forall|i: int| 0 <= i < c.len() implies is_cell(#[trigger] c[i]) && trimmed(c[i])
        == c[i] by {
        lemma_nothing_to_trim(c[i]);
    }
    assert(c.map_values(|h: Seq<char>| trimmed(h)) =~= c);
    assert("side"@[2] != "size"@[2]);
    assert("price"@[0] != "ts_ms"@[0]);
    assert("order_id"@[0] != "strategy"@[0]);
    assert("edge"@[0] != "side"@[0] && "edge"@[0] != "size"@[0]);
    lemma_column(c, "order_id"@, 1);
    lemma_column(c, "side"@, 2);
    lemma_column(c, "price"@, 3);
    lemma_column(c, "size"@, 4);
    lemma_column(c, "strategy"@, 5);
    lemma_column(c, "edge"@, 6);
}

/// Whether the texts of an order can stand in a table and its price and size are numbers.
pub open spec fn order_is_clean(o: OrderLine) -> bool {
    &&& is_cell(o.price@)
    &&& is_cell(o.size@)
    &&& is_cell(o.strategy@)
    &&& is_cell(o.edge@)
    &&& is_cell(o.binance_price@)
    &&& is_cell(o.time_left_s@)
    &&& is_float_text(o.price@)
    &&& is_float_text(o.size@)
}

/// The text of an order log.
pub open spec fn order_log(orders: Seq<OrderLine>) -> Seq<char> {
    table_text(order_columns(), orders.map_values(|o: OrderLine| o.cells()))
}

/// An order as the analyzer reads it.
pub open spec fn order_read(o: OrderLine) -> OrderRowView {
    OrderRowView {
        order_id: o.order_id,
        side: side_name(o.side),
        price: o.price@,
        size: o.size@,
        strategy: o.strategy@,
        edge: number_text(o.edge@),
    }
}

proof fn lemma_order_cells(o: OrderLine)
    requires
        order_is_clean(o),
    ensures
        are_cells(o.cells()),
{
    lemma_decimal_cell(o.ts_ms as int);
    lemma_decimal_cell(o.order_id as int);
    lemma_side_cell(o.side);
}

/// The analyzer reads the orders of a log as they were logged.
pub proof fn law_orders_read_back(orders: Seq<OrderLine>)
    requires
        forall|i: int| 0 <= i < orders.len() ==> order_is_clean(#[trigger] orders[i]),
    ensures
        orders_of(Some(order_log(orders))) == orders.map_values(|o: OrderLine| order_read(o)),
{
    let columns = order_columns();
    let rows = orders.map_values(|o: OrderLine| o.cells());
    lemma_order_columns();
    assert forall|i: int| 0 <= i < rows.len() implies are_cells(#[trigger] rows[i]) by {
        assert(order_is_clean(orders[i]));
        lemma_order_cells(orders[i]);
    }
    lemma_table(columns, rows);
    let t = TableView {
        headers: columns,
        rows: rows.map_values(|cells: Seq<Seq<char>>| joined(cells, ',')),
    };
    let f = |row: Seq<char>| order_row(t, row);
    let out = orders.map_values(|o: OrderLine| order_read(o));
    assert forall|i: int| 0 <= i < t.rows.len() implies f(#[trigger] t.rows[i]) == Some(out[i]) by {
        let o = orders[i];
        assert(order_is_clean(o));
        lemma_order_cells(o);
        lemma_row_line(o.cells());
        assert(t.rows[i] == joined(o.cells(), ','));
        law_decimal_round_trip(o.order_id as int, 0, u64::MAX as int);
    }
    lemma_accepted(t.rows, f, out);
}

// ── Fills ──

proof fn lemma_fill_columns()
    ensures
        are_cells(fill_columns()),
        fill_columns().map_values(|h: Seq<char>| trimmed(h)) == fill_columns(),
        column_of(fill_columns(), "order_id"@) == Some(1int),
        column_of(fill_columns(), "strategy"@) == Some(2int),
        column_of(fill_columns(), "status"@) == Some(3int),
        column_of(fill_columns(), "filled_price"@) == Some(4int),
        column_of(fill_columns(), "filled_size"@) == Some(5int),
        column_of(fill_columns(), "pnl_if_correct"@) == Some(7int),
{
    let c = fill_columns();
    reveal_strlit("ts_ms");
    reveal_strlit("order_id");
    reveal_strlit("strategy");
    reveal_strlit("status");
    reveal_strlit("filled_price");
    reveal_strlit("filled_size");
    reveal_strlit("submit_to_ack_ms");
    reveal_strlit("pnl_if_correct");
    assert forall|i: int| 0 <= i < c.len() implies is_cell(#[trigger] c[i]) && trimmed(c[i])
        == c[i] by {
        lemma_nothing_to_trim(c[i]);
    }
    assert(c.map_values(|h: Seq<char>| trimmed(h)) =~= c);
    assert("order_id"@[0] != "strategy"@[0]);
    lemma_column(c, "order_id"@, 1);
    lemma_column(c, "strategy"@, 2);
    lemma_column(c, "status"@, 3);
    lemma_column(c, "filled_price"@, 4);
    lemma_column(c, "filled_size"@, 5);
    lemma_column(c, "pnl_if_correct"@, 7);
}

/// Whether the texts of an answer can stand in a table.
pub open spec fn fill_is_clean(f: FillLine) -> bool {
    &&& is_cell(f.strategy@)
    &&& is_cell(f.status@)
    &&& is_cell(text_or_blank(f.filled_price))
    &&& is_cell(text_or_blank(f.filled_size))
    &&& is_cell(f.submit_to_ack_ms@)
    &&& is_cell(text_or_blank(f.pnl_if_correct))
}

/// The text of a fill log.
pub open spec fn fill_log(fills: Seq<FillLine>) -> Seq<char> {
    table_text(fill_columns(), fills.map_values(|f: FillLine| f.cells()))
}

/// A number as it is read; a missing one, and what is no number, is none.
pub open spec fn amount_read(o: Option<String>) -> Option<Seq<char>> {
    match o {
        Some(s) => number_text(s@),
        None => None,
    }
}

/// An answer as the analyzer reads it.
pub open spec fn fill_read(f: FillLine) -> FillRowView {
    FillRowView {
        order_id: f.order_id,
        strategy: f.strategy@,
        status: f.status@,
        filled_price: amount_read(f.filled_price),
        filled_size: amount_read(f.filled_size),
        pnl_if_correct: amount_read(f.pnl_if_correct),
    }
}

proof fn lemma_fill_cells(f: FillLine)
    requires
        fill_is_clean(f),
    ensures
        are_cells(f.cells()),
{
    lemma_decimal_cell(f.ts_ms as int);
    lemma_decimal_cell(f.order_id as int);
}

proof fn lemma_blank_is_no_number()
    ensures
        number_text(Seq::empty()) is None,
{
    reveal_strlit("inf");
    reveal_strlit("infinity");
    reveal_strlit("nan");
    let e = Seq::<char>::empty();
    assert(crate::number::unsigned_part(e) == e);
    assert(e.take(0) =~= e);
    assert(!crate::number::is_mantissa(e));
    assert(e.map_values(|c: char| crate::text::ascii_lower(c)).len() == 0);
}

/// The analyzer reads the answers of a log as they were logged.
pub proof fn law_fills_read_back(fills: Seq<FillLine>)
    requires
        forall|i: int| 0 <= i < fills.len() ==> fill_is_clean(#[trigger] fills[i]),
    ensures
        fills_of(Some(fill_log(fills))) == fills.map_values(|f: FillLine| fill_read(f)),
{
    let columns = fill_columns();
    let rows = fills.map_values(|f: FillLine| f.cells());
    lemma_fill_columns();
    lemma_blank_is_no_number();
    assert forall|i: int| 0 <= i < rows.len() implies are_cells(#[trigger] rows[i]) by {
        assert(fill_is_clean(fills[i]));
        lemma_fill_cells(fills[i]);
    }
    lemma_table(columns, rows);
    let t = TableView {
        headers: columns,
        rows: rows.map_values(|cells: Seq<Seq<char>>| joined(cells, ',')),
    };
    let g = |row: Seq<char>| fill_row(t, row);
    let out = fills.map_values(|f: FillLine| fill_read(f));
    assert forall|i: int| 0 <= i < t.rows.len() implies g(#[trigger] t.rows[i]) == Some(out[i]) by {
        let f = fills[i];
        assert(fill_is_clean(f));
        lemma_fill_cells(f);
        lemma_row_line(f.cells());
        assert(t.rows[i] == joined(f.cells(), ','));
        law_decimal_round_trip(f.order_id as int, 0, u64::MAX as int);
    }
    lemma_accepted(t.rows, g, out);
}

// ── Signals ──

proof fn lemma_signal_columns(asset: Seq<char>)
    requires
        is_cell(asset),
        trimmed(asset) != "selected"@,
    ensures
        are_cells(signal_columns(asset)),
        ({
            let headers = signal_columns(asset).map_values(|h: Seq<char>| trimmed(h));
            column_of(headers, "strategy"@) == Some(1int) && column_of(headers, "selected"@)
                == Some(12int)
        }),
{
    let c = signal_columns(asset);
    reveal_strlit("ts_ms");
    reveal_strlit("strategy");
    reveal_strlit("side");
    reveal_strlit("edge");
    reveal_strlit("fair");
    reveal_strlit("mkt");
    reveal_strlit("conf");
    reveal_strlit("size_frac");
    reveal_strlit("dist");
    reveal_strlit("time_left_s");
    reveal_strlit("eval_us");
    reveal_strlit("selected");
    assert forall|i: int| 0 <= i < c.len() implies is_cell(#[trigger] c[i]) && (i == 8 || trimmed(
        c[i],
    ) == c[i]) by {
        if i != 8 {
            lemma_nothing_to_trim(c[i]);
        }
    }
    let headers = c.map_values(|h: Seq<char>| trimmed(h));
    assert("strategy"@[1] != "selected"@[1]);
    lemma_column(headers, "strategy"@, 1);
    lemma_column(headers, "selected"@, 12);
}

/// Whether the texts of a signal can stand in a table.
pub open spec fn signal_is_clean(s: SignalLine) -> bool {
    &&& is_cell(s.strategy@)
    &&& is_cell(s.edge@)
    &&& is_cell(s.fair_value@)
    &&& is_cell(s.market_price@)
    &&& is_cell(s.confidence@)
    &&& is_cell(s.size_frac@)
    &&& is_cell(s.binance_price@)
    &&& is_cell(s.distance@)
    &&& is_cell(s.time_left_s@)
}

/// The text of a signal log.
pub open spec fn signal_log(asset: Seq<char>, signals: Seq<SignalLine>) -> Seq<char> {
    table_text(signal_columns(asset), signals.map_values(|s: SignalLine| s.cells()))
}

/// A signal as the analyzer reads it.
pub open spec fn signal_read(s: SignalLine) -> SignalRowView {
    SignalRowView { strategy: s.strategy@, selected: Some(s.selected) }
}

proof fn lemma_signal_cells(s: SignalLine)
    requires
        signal_is_clean(s),
    ensures
        are_cells(s.cells()),
        says_yes(
            if s.selected {
                "1"@
            } else {
                "0"@
            },
        ) == s.selected,
{
    lemma_decimal_cell(s.ts_ms as int);
    lemma_decimal_cell(s.eval_latency_us as int);
    lemma_side_cell(s.side);
    reveal_strlit("1");
    reveal_strlit("0");
    reveal_strlit("true");
    lemma_nothing_to_trim("1"@);
    lemma_nothing_to_trim("0"@);
    assert("0"@[0] != "1"@[0]);
    assert("0"@.map_values(|c: char| crate::text::ascii_lower(c)).len() == 1);
}

/// The analyzer reads the signals of a log as they were logged.
pub proof fn law_signals_read_back(asset: Seq<char>, signals: Seq<SignalLine>)
    requires
        is_cell(asset),
        trimmed(asset) != "selected"@,
        forall|i: int| 0 <= i < signals.len() ==> signal_is_clean(#[trigger] signals[i]),
    ensures
        signals_of(Some(signal_log(asset, signals))) == signals.map_values(
            |s: SignalLine| signal_read(s),
        ),
{
    let columns = signal_columns(asset);
    let rows = signals.map_values(|s: SignalLine| s.cells());
    lemma_signal_columns(asset);
    assert forall|i: int| 0 <= i < rows.len() implies are_cells(#[trigger] rows[i]) by {
        assert(signal_is_clean(signals[i]));
        lemma_signal_cells(signals[i]);
    }
    lemma_table(columns, rows);
    let t = TableView {
        headers: columns.map_values(|h: Seq<char>| trimmed(h)),
        rows: rows.map_values(|cells: Seq<Seq<char>>| joined(cells, ',')),
    };
    let g = |row: Seq<char>| signal_row(t, row);
    let out = signals.map_values(|s: SignalLine| signal_read(s));
    assert forall|i: int| 0 <= i < t.rows.len() implies g(#[trigger] t.rows[i]) == Some(out[i]) by {
        let s = signals[i];
        assert(signal_is_clean(s));
        lemma_signal_cells(s);
        lemma_row_line(s.cells());
        assert(t.rows[i] == joined(s.cells(), ','));
    }
    lemma_accepted(t.rows, g, out);
}

// ── The market ──

/// Whether a text can stand at the end of a line.
pub open spec fn is_value(s: Seq<char>) -> bool {
    one_line(s) && s.len() > 0 && !is_white(s.last())
}

/// The lines of a market that has ended.
pub open spec fn market_lines(
    slug: Seq<char>,
    strike: Seq<char>,
    start_ms: i64,
    end_ms: i64,
    end: MarketEnd,
) -> Seq<Seq<char>> {
    start_entries(slug, strike, start_ms, end_ms) + end.entries()
}

proof fn lemma_entry(m: MetaView, key: Seq<char>, value: Seq<char>)
    requires
        key.len() > 0,
        !is_white(key[0]),
        !is_white(key.last()),
        value.len() == 0 || !is_white(value.last()),
    ensures
        trimmed(key + value) == key + value,
        after_prefix(key + value, key) == Some(value),
{
    let s = key + value;
    if value.len() > 0 {
        assert(s.last() == value.last());
    } else {
        assert(s.last() == key.last());
    }
    lemma_nothing_to_trim(s);
    assert(s.subrange(0, key.len() as int) =~= key);
    assert(s.skip(key.len() as int) =~= value);
}

proof fn lemma_other_line(m: MetaView, line: Seq<char>)
    requires
        line.len() > 3,
        line[0] != 's' || line[1] != 't' || (line[2] == 'r' && line[3] == 'a'),
        line[0] != 'e',
        line[0] != 'o',
        line[0] != 'g',
        !is_white(line[0]),
    ensures
        meta_step(m, line) == m,
{
    reveal_strlit("strike=");
    reveal_strlit("start_ms=");
    reveal_strlit("end_ms=");
    reveal_strlit("outcome=");
    reveal_strlit("gross_pnl=");
    lemma_trim_from_start(line);
    let t = trimmed(line);
    let k = choose|k: int| 0 <= k <= line.len() && #[trigger] line.take(k) == t;
    if occurs_at(t, "strike="@, 0) {
        assert(t.subrange(0, 7)[0] == 's' && t.subrange(0, 7)[1] == 't' && t.subrange(0, 7)[2]
            == 'r' && t.subrange(0, 7)[3] == 'i');
    }
    if occurs_at(t, "start_ms="@, 0) {
        assert(t.subrange(0, 9)[0] == 's' && t.subrange(0, 9)[1] == 't' && t.subrange(0, 9)[2]
            == 'a');
    }
    if occurs_at(t, "end_ms="@, 0) {
        assert(t.subrange(0, 7)[0] == 'e');
    }
    if occurs_at(t, "outcome="@, 0) {
        assert(t.subrange(0, 8)[0] == 'o');
    }
    if occurs_at(t, "gross_pnl="@, 0) {
        assert(t.subrange(0, 10)[0] == 'g');
    }
}

proof fn lemma_trim_from_start(s: Seq<char>)
    requires
        s.len() > 0,
        !is_white(s[0]),
    ensures
        exists|k: int| 0 <= k <= s.len() && #[trigger] s.take(k) == trimmed(s),
{
    assert(trim_start(s) == s);
    lemma_trim_end_is_prefix(s);
}

proof fn lemma_trim_end_is_prefix(s: Seq<char>)
    ensures
        exists|k: int| 0 <= k <= s.len() && #[trigger] s.take(k) == trim_end(s),
    decreases s.len(),
{
    if s.len() > 0 && is_white(s.last()) {
        let d = s.drop_last();
        lemma_trim_end_is_prefix(d);
        let k = choose|k: int| 0 <= k <= d.len() && #[trigger] d.take(k) == trim_end(d);
        assert(s.take(k) =~= d.take(k));
    } else {
        assert(s.take(s.len() as int) =~= s);
    }
}

proof fn lemma_other_lines(slug: Seq<char>, ls: Seq<Seq<char>>, more: Seq<Seq<char>>)
    requires
        forall|i: int|
            0 <= i < more.len() ==> forall|m: MetaView| #[trigger] meta_step(m, #[trigger] more[i])
                == m,
    ensures
        meta_of_lines(slug, ls + more) == meta_of_lines(slug, ls),
    decreases more.len(),
{
    if more.len() == 0 {
        assert(ls + more =~= ls);
    } else {
        let d = more.drop_last();
        assert forall|i: int| 0 <= i < d.len() implies forall|m: MetaView| #[trigger]
            meta_step(m, #[trigger] d[i]) == m by {
            assert(d[i] == more[i]);
        }
        lemma_other_lines(slug, ls, d);
        assert((ls + more).drop_last() =~= ls + d);
        assert((ls + more).last() == more[more.len() - 1]);
        let m = meta_of_lines(slug, ls + d);
        assert(meta_step(m, more[more.len() - 1]) == m);
    }
}

proof fn lemma_one_more_line(slug: Seq<char>, ls: Seq<Seq<char>>, line: Seq<char>)
    ensures
        meta_of_lines(slug, ls.push(line)) == meta_step(meta_of_lines(slug, ls), line),
{
    assert(ls.push(line).drop_last() =~= ls);
}

proof fn lemma_market_lines(
    slug: Seq<char>,
    strike: Seq<char>,
    start_ms: i64,
    end_ms: i64,
    end: MarketEnd,
)
    requires
        is_value(strike),
        is_value(end.gross_pnl@),
    ensures
        meta_of_lines(slug, market_lines(slug, strike, start_ms, end_ms, end)) == (MetaView {
            slug,
            strike: number_text(strike),
            start_ms: Some(start_ms),
            end_ms: Some(end_ms),
            outcome: Some(outcome_name(end.outcome)),
            gross_pnl: number_text(end.gross_pnl@),
        }),
{
    reveal_strlit("slug=");
    reveal_strlit("strike=");
    reveal_strlit("start_ms=");
    reveal_strlit("end_ms=");
    reveal_strlit("outcome=");
    reveal_strlit("gross_pnl=");
    reveal_strlit("final_binance_price=");
    reveal_strlit("final_distance=");
    reveal_strlit("total_signals=");
    reveal_strlit("total_orders=");
    reveal_strlit("total_filled=");
    reveal_strlit("strat_");
    reveal_strlit("UP");
    reveal_strlit("DOWN");
    let empty = Seq::<Seq<char>>::empty();
    let m0 = meta_of_lines(slug, empty);
    let first = start_entries(slug, strike, start_ms, end_ms);
    let totals = end.totals();
    let strategies = end.per_strategy@.map_values(|e: StrategyEntry| e.text());

    let l1 = empty.push(first[0]);
    lemma_one_more_line(slug, empty, first[0]);
    lemma_other_line(m0, first[0]);

    let l2 = l1.push(first[1]);
    lemma_one_more_line(slug, l1, first[1]);
    lemma_entry(m0, "strike="@, strike);

    let l3 = l2.push(first[2]);
    lemma_one_more_line(slug, l2, first[2]);
    lemma_decimal_end(start_ms as int);
    lemma_entry(m0, "start_ms="@, decimal(start_ms as int));
    law_decimal_round_trip(start_ms as int, i64::MIN as int, i64::MAX as int);
    lemma_not_prefix(first[2], "strike="@, 2);

    let l4 = l3.push(first[3]);
    lemma_one_more_line(slug, l3, first[3]);
    lemma_decimal_end(end_ms as int);
    lemma_entry(m0, "end_ms="@, decimal(end_ms as int));
    law_decimal_round_trip(end_ms as int, i64::MIN as int, i64::MAX as int);
    lemma_not_prefix(first[3], "strike="@, 0);
    lemma_not_prefix(first[3], "start_ms="@, 0);

    let l5 = l4.push(totals[0]);
    lemma_one_more_line(slug, l4, totals[0]);
    lemma_other_line(meta_of_lines(slug, l4), totals[0]);
    let l6 = l5.push(totals[1]);
    lemma_one_more_line(slug, l5, totals[1]);
    lemma_other_line(meta_of_lines(slug, l5), totals[1]);

    let l7 = l6.push(totals[2]);
    lemma_one_more_line(slug, l6, totals[2]);
    lemma_entry(m0, "outcome="@, outcome_name(end.outcome));
    lemma_not_prefix(totals[2], "strike="@, 0);
    lemma_not_prefix(totals[2], "start_ms="@, 0);
    lemma_not_prefix(totals[2], "end_ms="@, 0);

    let l8 = l7.push(totals[3]);
    lemma_one_more_line(slug, l7, totals[3]);
    lemma_other_line(meta_of_lines(slug, l7), totals[3]);
    let l9 = l8.push(totals[4]);
    lemma_one_more_line(slug, l8, totals[4]);
    lemma_other_line(meta_of_lines(slug, l8), totals[4]);
    let l10 = l9.push(totals[5]);
    lemma_one_more_line(slug, l9, totals[5]);
    lemma_other_line(meta_of_lines(slug, l9), totals[5]);

    let l11 = l10.push(totals[6]);
    lemma_one_more_line(slug, l10, totals[6]);
    lemma_entry(m0, "gross_pnl="@, end.gross_pnl@);
    lemma_not_prefix(totals[6], "strike="@, 0);
    lemma_not_prefix(totals[6], "start_ms="@, 0);
    lemma_not_prefix(totals[6], "end_ms="@, 0);
    lemma_not_prefix(totals[6], "outcome="@, 0);

    assert(l11 =~= first + totals);
    assert forall|i: int| 0 <= i < strategies.len() implies forall|m: MetaView| #[trigger]
        meta_step(m, #[trigger] strategies[i]) == m by {
        assert forall|m: MetaView| #[trigger] meta_step(m, strategies[i]) == m by {
            let e = end.per_strategy@[i];
            let t = e.text();
            assert(t[0] == 's' && t[1] == 't' && t[2] == 'r' && t[3] == 'a');
            lemma_other_line(m, strategies[i]);
        }
    }
    lemma_other_lines(slug, first + totals, strategies);
    assert(first + totals + strategies =~= market_lines(slug, strike, start_ms, end_ms, end));
}

proof fn lemma_not_prefix(line: Seq<char>, prefix: Seq<char>, i: int)
    requires
        0 <= i < prefix.len(),
        i < line.len() ==> line[i] != prefix[i],
    ensures
        after_prefix(line, prefix) is None,
{
    if occurs_at(line, prefix, 0) {
        assert(line.subrange(0, prefix.len() as int)[i] == prefix[i]);
    }
}

proof fn lemma_decimal_end(i: int)
    ensures
        decimal(i).len() > 0,
        !is_white(decimal(i).last()),
{
    let n = if i < 0 { -i } else { i };
    law_decimal_has_only_digits(n);
    let d = decimal(n);
    assert(crate::text::is_digit(d[d.len() - 1]));
    assert(decimal(i).last() == d.last());
}

/// The analyzer reads the log of a market as it was logged. Texts of amounts that are no
/// numbers are none.
pub proof fn law_market_read_back(
    slug: Seq<char>,
    strike: Seq<char>,
    start_ms: i64,
    end_ms: i64,
    end: MarketEnd,
)
    requires
        is_value(strike),
        is_value(end.gross_pnl@),
        forall|i: int|
            0 <= i < market_lines(slug, strike, start_ms, end_ms, end).len() ==> one_line(
                #[trigger] market_lines(slug, strike, start_ms, end_ms, end)[i],
            ),
    ensures
        meta_of_lines(
            slug,
            lines_of(file_text(market_lines(slug, strike, start_ms, end_ms, end))),
        ) == (MetaView {
            slug,
            strike: number_text(strike),
            start_ms: Some(start_ms),
            end_ms: Some(end_ms),
            outcome: Some(outcome_name(end.outcome)),
            gross_pnl: number_text(end.gross_pnl@),
        }),
{
    law_lines_read_back(market_lines(slug, strike, start_ms, end_ms, end));
    lemma_market_lines(slug, strike, start_ms, end_ms, end);
}

} // verus!
