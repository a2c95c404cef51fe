//! The texts of alerts. Numbers come as the texts that are shown.

use vstd::prelude::*;
use vstd::string::*;

use crate::telemetry::lines::unsigned_text;
use crate::telemetry::market::StrategyEntry;
use crate::text::{contains_text, decimal, has_text, i64_to_text, occurs_at};
use crate::types::Side;

verus! {

pub open spec fn side_mark(side: Side) -> Seq<char> {
    match side {
        Side::Up => "🟢 UP"@,
        Side::Down => "🔴 DOWN"@,
    }
}

/// How a side is shown.
pub fn side_mark_text(side: Side) -> (r: &'static str)
    ensures
        r@ == side_mark(side),
{
    match side {
        Side::Up => "🟢 UP",
        Side::Down => "🔴 DOWN",
    }
}

/// A signal.
pub struct SignalAlert {
    pub strategy: String,
    pub side: Side,
    pub edge_cents: String,
    pub fair_value: String,
    pub market_price: String,
    pub asset_label: String,
    pub binance_price: String,
    pub distance: String,
    pub time_left_s: String,
    pub eval_latency_us: u64,
}

impl SignalAlert {
    pub open spec fn shown(&self) -> Seq<char> {
        "⚡ "@ + self.strategy@ + " signal: "@ + side_mark(self.side) + "\nEdge: "@ + self.edge_cents@
            + "¢ | Fair: "@ + self.fair_value@ + " | Mkt: "@ + self.market_price@ + "\n"@
            + self.asset_label@ + ": $"@ + self.binance_price@ + " | Dist: $"@ + self.distance@
            + "\nTime: "@ + self.time_left_s@ + "s left | eval: "@ + decimal(
            self.eval_latency_us as int,
        ) + "μs"@
    }

    pub fn text(&self) -> (r: String)
        ensures
            r@ == self.shown(),
    {
        String::from_str("⚡ ").concat(self.strategy.as_str()).concat(" signal: ").concat(
            side_mark_text(self.side),
        ).concat("\nEdge: ").concat(self.edge_cents.as_str()).concat("¢ | Fair: ").concat(
            self.fair_value.as_str(),
        ).concat(" | Mkt: ").concat(self.market_price.as_str()).concat("\n").concat(
            self.asset_label.as_str(),
        ).concat(": $").concat(self.binance_price.as_str()).concat(" | Dist: $").concat(
            self.distance.as_str(),
        ).concat("\nTime: ").concat(self.time_left_s.as_str()).concat("s left | eval: ").concat(
            unsigned_text(self.eval_latency_us).as_str(),
        ).concat("μs")
    }
}

/// An order that is sent.
pub struct OrderAlert {
    pub order_id: u64,
    pub side: Side,
    pub price: String,
    pub size: String,
    pub strategy: String,
    pub edge_cents: String,
    pub asset_label: String,
    pub binance_price: String,
    pub time_left_s: String,
}

impl OrderAlert {
    pub open spec fn shown(&self) -> Seq<char> {
        "📦 ORDER #"@ + decimal(self.order_id as int) + ": "@ + side_mark(self.side) + " @ $"@
            + self.price@ + " x $"@ + self.size@ + "\nStrategy: "@ + self.strategy@ + " | Edge: "@
            + self.edge_cents@ + "¢\n"@ + self.asset_label@ + ": $"@ + self.binance_price@
            + " | Time: "@ + self.time_left_s@ + "s left"@
    }

    pub fn text(&self) -> (r: String)
        ensures
            r@ == self.shown(),
    {
        String::from_str("📦 ORDER #").concat(unsigned_text(self.order_id).as_str()).concat(
            ": ",
        ).concat(side_mark_text(self.side)).concat(" @ $").concat(self.price.as_str()).concat(
            " x $",
        ).concat(self.size.as_str()).concat("\nStrategy: ").concat(self.strategy.as_str()).concat(
            " | Edge: ",
        ).concat(self.edge_cents.as_str()).concat("¢\n").concat(
            self.asset_label.as_str(),
        ).concat(": $").concat(self.binance_price.as_str()).concat(" | Time: ").concat(
            self.time_left_s.as_str(),
        ).concat("s left")
    }
}

/// The answer to an order.
pub struct FillAlert {
    pub order_id: u64,
    pub side: Side,
    pub status: String,
    pub filled_price: Option<String>,
    pub filled_size: Option<String>,
    pub submit_to_ack_ms: String,
    pub strategy: String,
    pub pnl_if_correct: Option<String>,
}

/// An amount in dollars, where it is known.
pub open spec fn dollars(amount: Option<String>) -> Seq<char> {
    match amount {
        Some(a) => "$"@ + a@,
        None => "n/a"@,
    }
}

fn dollars_text(amount: &Option<String>) -> (r: String)
    ensures
        r@ == dollars(*amount),
{
    match amount {
        Some(a) => String::from_str("$").concat(a.as_str()),
        None => String::from_str("n/a"),
    }
}

/// Whether an answer is good news.
pub open spec fn status_mark(status: Seq<char>) -> Seq<char> {
    if has_text(status, "Filled"@) {
        "✅"@
    } else {
        "❌"@
    }
}

impl FillAlert {
    pub open spec fn shown(&self) -> Seq<char> {
        status_mark(self.status@) + " FILL #"@ + decimal(self.order_id as int) + ": "@ + side_mark(
            self.side,
        ) + " "@ + self.status@ + " price="@ + dollars(self.filled_price) + " size="@ + dollars(
            self.filled_size,
        ) + " ("@ + self.submit_to_ack_ms@ + "ms)\nStrategy: "@ + self.strategy@
            + " | PnL if correct: "@ + dollars(self.pnl_if_correct)
    }

    pub fn text(&self) -> (r: String)
        ensures
            r@ == self.shown(),
    {
        let mark = if contains_text(self.status.as_str(), "Filled") {
            "✅"
        } else {
            "❌"
        };
        String::from_str(mark).concat(" FILL #").concat(
            unsigned_text(self.order_id).as_str(),
        ).concat(": ").concat(side_mark_text(self.side)).concat(" ").concat(
            self.status.as_str(),
        ).concat(" price=").concat(dollars_text(&self.filled_price).as_str()).concat(
            " size=",
        ).concat(dollars_text(&self.filled_size).as_str()).concat(" (").concat(
            self.submit_to_ack_ms.as_str(),
        ).concat("ms)\nStrategy: ").concat(self.strategy.as_str()).concat(
            " | PnL if correct: ",
        ).concat(dollars_text(&self.pnl_if_correct).as_str())
    }
}

/// A market that starts, with its length in whole seconds.
pub fn market_start_text(slug: &str, strike: &str, window_s: i64) -> (r: String)
    ensures
        r@ == market_start(slug@, strike@, window_s),
        r@ == "🏁 Market started: <code>"@ + slug@ + "</code>\nStrike: $"@ + strike@
            + " | Window: "@ + decimal(window_s as int) + "s"@,
{
    String::from_str("🏁 Market started: <code>").concat(slug).concat(
        "</code>\nStrike: $",
    ).concat(strike).concat(" | Window: ").concat(i64_to_text(window_s).as_str()).concat("s")
}

/// How well a strategy does.
pub struct MetricsAlert {
    pub strategy: String,
    pub fill_count: u64,
    pub fill_rate_pct: String,
    pub win_rate_pct: String,
    pub adverse_selection: String,
    pub avg_edge: String,
}

impl MetricsAlert {
    pub open spec fn shown(&self) -> Seq<char> {
        "📊 Strategy: "@ + self.strategy@ + "\nFills: "@ + decimal(self.fill_count as int)
            + " | Rate: "@ + self.fill_rate_pct@ + "% | WR: "@ + self.win_rate_pct@
            + "%\nAdv sel: "@ + self.adverse_selection@ + " | Avg edge: "@ + self.avg_edge@
    }

    pub fn text(&self) -> (r: String)
        ensures
            r@ == self.shown(),
    {
        String::from_str("📊 Strategy: ").concat(self.strategy.as_str()).concat(
            "\nFills: ",
        ).concat(unsigned_text(self.fill_count).as_str()).concat(" | Rate: ").concat(
            self.fill_rate_pct.as_str(),
        ).concat("% | WR: ").concat(self.win_rate_pct.as_str()).concat("%\nAdv sel: ").concat(
            self.adverse_selection.as_str(),
        ).concat(" | Avg edge: ").concat(self.avg_edge.as_str())
    }
}

/// An order that was not sent.
pub fn rejection_text(order_id: u64, strategy: &str, reason: &str) -> (r: String)
    ensures
        r@ == rejection(order_id, strategy@, reason@),
        r@ == "⛔ ORDER #"@ + decimal(order_id as int) + " REJECTED (local)\nStrategy: "@ + strategy@
            + " | Reason: "@ + reason@,
{
    String::from_str("⛔ ORDER #").concat(unsigned_text(order_id).as_str()).concat(
        " REJECTED (local)\nStrategy: ",
    ).concat(strategy).concat(" | Reason: ").concat(reason)
}

/// A market that has ended.
pub struct SummaryAlert {
    pub slug: String,
    pub outcome: Side,
    pub final_distance: String,
    pub total_signals: u32,
    pub total_orders: u32,
    pub total_filled: u32,
    pub gross_pnl: String,
    pub per_strategy: Vec<StrategyEntry>,
}

/// The line of a strategy.
pub open spec fn strategy_line(e: StrategyEntry) -> Seq<char> {
    "\n  <code>"@ + e.strategy@ + "</code>: sig="@ + decimal(e.signals as int) + " ord="@ + decimal(
        e.orders as int,
    ) + " fill="@ + decimal(e.filled as int) + " pnl=$"@ + e.gross_pnl@
}

/// The lines of strategies, one after the other.
pub open spec fn strategy_lines(all: Seq<StrategyEntry>) -> Seq<char>
    decreases all.len(),
{
    if all.len() == 0 {
        Seq::empty()
    } else {
        strategy_lines(all.drop_last()) + strategy_line(all.last())
    }
}

impl SummaryAlert {
    pub open spec fn totals(&self) -> Seq<char> {
        "🏆 Market ended: <code>"@ + self.slug@ + "</code>\nOutcome: "@ + side_mark(self.outcome)
            + " | Final dist: $"@ + self.final_distance@ + "\nSignals: "@ + decimal(
            self.total_signals as int,
        ) + " | Orders: "@ + decimal(self.total_orders as int) + " | Filled: "@ + decimal(
            self.total_filled as int,
        ) + "\nGross PnL: $"@ + self.gross_pnl@
    }

    pub open spec fn shown(&self) -> Seq<char> {
        if self.per_strategy@.len() == 0 {
            self.totals()
        } else {
            self.totals() + "\n\n📊 <b>Per Strategy:</b>"@ + strategy_lines(self.per_strategy@)
        }
    }

    fn totals_text(&self) -> (r: String)
        ensures
            r@ == self.totals(),
    {
        String::from_str("🏆 Market ended: <code>").concat(self.slug.as_str()).concat(
            "</code>\nOutcome: ",
        ).concat(side_mark_text(self.outcome)).concat(" | Final dist: $").concat(
            self.final_distance.as_str(),
        ).concat("\nSignals: ").concat(unsigned_text(self.total_signals as u64).as_str()).concat(
            " | Orders: ",
        ).concat(unsigned_text(self.total_orders as u64).as_str()).concat(" | Filled: ").concat(
            unsigned_text(self.total_filled as u64).as_str(),
        ).concat("\nGross PnL: $").concat(self.gross_pnl.as_str())
    }

    /// The text of the alert; strategies follow where there are any.
    pub fn text(&self) -> (r: String)
        ensures
            r@ == self.shown(),
    {
        let mut out = self.totals_text();
        if self.per_strategy.len() == 0 {
            return out;
        }
        out = out.concat("\n\n📊 <b>Per Strategy:</b>");
        let ghost head = out@;
        let ghost all = self.per_strategy@;
        let mut i: usize = 0;
        assert(all.take(0) =~= Seq::empty());
        assert(out@ =~= head + strategy_lines(all.take(0)));
        while i < self.per_strategy.len()
            invariant
                i <= self.per_strategy@.len(),
                all == self.per_strategy@,
                out@ == head + strategy_lines(all.take(i as int)),
            decreases self.per_strategy@.len() - i,
        {
            let e = &self.per_strategy[i];
            let line = String::from_str("\n  <code>").concat(e.strategy.as_str()).concat(
                "</code>: sig=",
            ).concat(unsigned_text(e.signals as u64).as_str()).concat(" ord=").concat(
                unsigned_text(e.orders as u64).as_str(),
            ).concat(" fill=").concat(unsigned_text(e.filled as u64).as_str()).concat(
                " pnl=$",
            ).concat(e.gross_pnl.as_str());
            let ghost before = out@;
            out = out.concat(line.as_str());
            proof {
                assert(line@ == strategy_line(all[i as int]));
                assert(all.take(i + 1).drop_last() =~= all.take(i as int));
                assert(out@ =~= head + strategy_lines(all.take(i + 1)));
            }
            i = i + 1;
        }
        assert(all.take(i as int) =~= all);
        out
    }
}

proof fn lemma_part(s: Seq<char>, before: Seq<char>, part: Seq<char>, after: Seq<char>)
    requires
        s == before + part + after,
    ensures
        has_text(s, part),
{
    assert(s.subrange(before.len() as int, (before.len() + part.len()) as int) =~= part);
    assert(occurs_at(s, part, before.len() as int));
}

/// The marks of the sides.
pub proof fn law_side_marks()
    ensures
        side_mark(Side::Up) == "🟢 UP"@,
        side_mark(Side::Down) == "🔴 DOWN"@,
{
}

/// An answer is good news exactly where its status says that it filled.
pub proof fn law_status_mark(status: Seq<char>)
    ensures
        has_text(status, "Filled"@) ==> status_mark(status) == "✅"@,
        !has_text(status, "Filled"@) ==> status_mark(status) == "❌"@,
{
}

/// The alert of an order tells its price as the price and its size as the size, behind its side;
/// and its edge behind its strategy.
pub proof fn law_order_alert(a: OrderAlert)
    ensures
        has_text(a.shown(), side_mark(a.side) + " @ $"@ + a.price@ + " x $"@ + a.size@),
        has_text(a.shown(), "ORDER #"@ + decimal(a.order_id as int) + ": "@),
        has_text(a.shown(), "Strategy: "@ + a.strategy@ + " | Edge: "@ + a.edge_cents@),
        has_text(a.shown(), a.asset_label@ + ": $"@ + a.binance_price@),
        has_text(a.shown(), " | Time: "@ + a.time_left_s@ + "s left"@),
{
    reveal_strlit("📦 ORDER #");
    reveal_strlit("ORDER #");
    reveal_strlit("\nStrategy: ");
    reveal_strlit("Strategy: ");
    let no = Seq::<char>::empty();
    let id = decimal(a.order_id as int);
    let p1 = "📦 ORDER #"@ + id + ": "@;
    let m1 = side_mark(a.side) + " @ $"@ + a.price@ + " x $"@ + a.size@;
    let m2 = "Strategy: "@ + a.strategy@ + " | Edge: "@ + a.edge_cents@;
    let m3 = a.asset_label@ + ": $"@ + a.binance_price@;
    let m4 = " | Time: "@ + a.time_left_s@ + "s left"@;
    let nl = seq!['\n'];
    assert("\nStrategy: "@ =~= nl + "Strategy: "@);
    let s = p1 + m1 + nl + m2 + "¢\n"@ + m3 + m4;
    assert(a.shown() =~= s);
    let icon = "📦 ORDER #"@.take(2);
    assert("📦 ORDER #"@ =~= icon + "ORDER #"@);
    let m0 = "ORDER #"@ + id + ": "@;
    let r0 = m1 + nl + m2 + "¢\n"@ + m3 + m4;
    assert(s =~= icon + m0 + r0);
    lemma_part(s, icon, m0, r0);
    let r1 = nl + m2 + "¢\n"@ + m3 + m4;
    assert(s =~= p1 + m1 + r1);
    lemma_part(s, p1, m1, r1);
    let r2 = "¢\n"@ + m3 + m4;
    assert(s =~= p1 + m1 + nl + m2 + r2);
    lemma_part(s, p1 + m1 + nl, m2, r2);
    lemma_part(s, p1 + m1 + nl + m2 + "¢\n"@, m3, m4);
    assert(s =~= p1 + m1 + nl + m2 + "¢\n"@ + m3 + m4 + no);
    lemma_part(s, p1 + m1 + nl + m2 + "¢\n"@ + m3, m4, no);
}

/// The alert of an answer tells the filled price as the price and the filled size as the size, in
/// dollars where they are known.
pub proof fn law_fill_alert(a: FillAlert)
    ensures
        has_text(
            a.shown(),
            " price="@ + (if a.filled_price is Some {
                "$"@ + a.filled_price->0@
            } else {
                "n/a"@
            }) + " size="@ + if a.filled_size is Some {
                "$"@ + a.filled_size->0@
            } else {
                "n/a"@
            },
        ),
        has_text(
            a.shown(),
            " FILL #"@ + decimal(a.order_id as int) + ": "@ + side_mark(a.side) + " "@ + a.status@,
        ),
        has_text(
            a.shown(),
            " | PnL if correct: "@ + if a.pnl_if_correct is Some {
                "$"@ + a.pnl_if_correct->0@
            } else {
                "n/a"@
            },
        ),
        has_text(a.shown(), " ("@ + a.submit_to_ack_ms@ + "ms)"@),
{
    reveal_strlit("ms)\nStrategy: ");
    reveal_strlit("ms)");
    let id = decimal(a.order_id as int);
    let rest = "ms)\nStrategy: "@.skip(3);
    assert("ms)\nStrategy: "@ =~= "ms)"@ + rest);
    lemma_answer_parts(
        status_mark(a.status@),
        seq![" FILL #"@, id, ": "@, side_mark(a.side), " "@, a.status@],
        seq![" price="@, dollars(a.filled_price), " size="@, dollars(a.filled_size)],
        seq![" ("@, a.submit_to_ack_ms@, "ms)"@],
        seq![rest, a.strategy@],
        seq![" | PnL if correct: "@, dollars(a.pnl_if_correct)],
    );
}

/// The parts of the alert of an answer, one after the other.
proof fn lemma_answer_parts(
    mark: Seq<char>,
    x: Seq<Seq<char>>,
    y: Seq<Seq<char>>,
    z: Seq<Seq<char>>,
    u: Seq<Seq<char>>,
    v: Seq<Seq<char>>,
)
    requires
        x.len() == 6,
        y.len() == 4,
        z.len() == 3,
        u.len() == 2,
        v.len() == 2,
    ensures
        ({
            let s = mark + x[0] + x[1] + x[2] + x[3] + x[4] + x[5] + y[0] + y[1] + y[2] + y[3]
                + z[0] + z[1] + (z[2] + u[0]) + u[1] + v[0] + v[1];
            &&& has_text(s, x[0] + x[1] + x[2] + x[3] + x[4] + x[5])
            &&& has_text(s, y[0] + y[1] + y[2] + y[3])
            &&& has_text(s, z[0] + z[1] + z[2])
            &&& has_text(s, v[0] + v[1])
        }),
{
    let m0 = x[0] + x[1] + x[2] + x[3] + x[4] + x[5];
    let m1 = y[0] + y[1] + y[2] + y[3];
    let m2 = z[0] + z[1] + z[2];
    let mid = u[0] + u[1];
    let m3 = v[0] + v[1];
    let s0 = mark + x[0] + x[1] + x[2] + x[3] + x[4] + x[5];
    let s1 = s0 + y[0] + y[1] + y[2] + y[3];
    let s2 = s1 + z[0] + z[1] + (z[2] + u[0]) + u[1];
    let s = s2 + v[0] + v[1];
    assert(s0 =~= mark + m0);
    assert(s1 =~= s0 + m1);
    assert(s2 =~= s1 + m2 + mid);
    assert(s =~= s2 + m3);
    assert(s =~= mark + m0 + (m1 + m2 + mid + m3));
    lemma_part(s, mark, m0, m1 + m2 + mid + m3);
    assert(s =~= s0 + m1 + (m2 + mid + m3));
    lemma_part(s, s0, m1, m2 + mid + m3);
    assert(s =~= s1 + m2 + (mid + m3));
    lemma_part(s, s1, m2, mid + m3);
    assert(s =~= s2 + m3 + Seq::empty());
    lemma_part(s, s2, m3, Seq::empty());
}

/// The alert of a signal tells its fair value as fair and the price of the market as that of the
/// market, behind its edge.
pub proof fn law_signal_alert(a: SignalAlert)
    ensures
        has_text(
            a.shown(),
            "Edge: "@ + a.edge_cents@ + "¢ | Fair: "@ + a.fair_value@ + " | Mkt: "@
                + a.market_price@,
        ),
        has_text(a.shown(), a.strategy@ + " signal: "@ + side_mark(a.side)),
        has_text(
            a.shown(),
            a.asset_label@ + ": $"@ + a.binance_price@ + " | Dist: $"@ + a.distance@,
        ),
        has_text(
            a.shown(),
            a.time_left_s@ + "s left | eval: "@ + decimal(a.eval_latency_us as int),
        ),
{
    reveal_strlit("\nEdge: ");
    reveal_strlit("Edge: ");
    let nl = seq!['\n'];
    assert("\nEdge: "@ =~= nl + "Edge: "@);
    let m0 = a.strategy@ + " signal: "@ + side_mark(a.side);
    let m1 = "Edge: "@ + a.edge_cents@ + "¢ | Fair: "@ + a.fair_value@ + " | Mkt: "@
        + a.market_price@;
    let m2 = a.asset_label@ + ": $"@ + a.binance_price@ + " | Dist: $"@ + a.distance@;
    let m3 = a.time_left_s@ + "s left | eval: "@ + decimal(a.eval_latency_us as int);
    let s = "⚡ "@ + m0 + nl + m1 + "\n"@ + m2 + "\nTime: "@ + m3 + "μs"@;
    assert(a.shown() =~= s);
    let r0 = nl + m1 + "\n"@ + m2 + "\nTime: "@ + m3 + "μs"@;
    assert(s =~= "⚡ "@ + m0 + r0);
    lemma_part(s, "⚡ "@, m0, r0);
    let r1 = "\n"@ + m2 + "\nTime: "@ + m3 + "μs"@;
    assert(s =~= "⚡ "@ + m0 + nl + m1 + r1);
    lemma_part(s, "⚡ "@ + m0 + nl, m1, r1);
    let r2 = "\nTime: "@ + m3 + "μs"@;
    assert(s =~= "⚡ "@ + m0 + nl + m1 + "\n"@ + m2 + r2);
    lemma_part(s, "⚡ "@ + m0 + nl + m1 + "\n"@, m2, r2);
    lemma_part(s, "⚡ "@ + m0 + nl + m1 + "\n"@ + m2 + "\nTime: "@, m3, "μs"@);
}

/// The alert of a market that has ended tells its signals as signals, its orders as orders and
/// its fills as filled.
pub proof fn law_summary_alert(a: SummaryAlert)
    ensures
        has_text(
            a.shown(),
            "Signals: "@ + decimal(a.total_signals as int) + " | Orders: "@ + decimal(
                a.total_orders as int,
            ) + " | Filled: "@ + decimal(a.total_filled as int),
        ),
        has_text(a.shown(), "</code>\nOutcome: "@ + side_mark(a.outcome)),
        has_text(a.shown(), "Gross PnL: $"@ + a.gross_pnl@),
{
    reveal_strlit("\nSignals: ");
    reveal_strlit("Signals: ");
    reveal_strlit("\nGross PnL: $");
    reveal_strlit("Gross PnL: $");
    let nl = seq!['\n'];
    assert("\nSignals: "@ =~= nl + "Signals: "@);
    assert("\nGross PnL: $"@ =~= nl + "Gross PnL: $"@);
    let head = "🏆 Market ended: <code>"@ + a.slug@;
    let m0 = "</code>\nOutcome: "@ + side_mark(a.outcome);
    let x = " | Final dist: $"@ + a.final_distance@ + nl;
    let m1 = "Signals: "@ + decimal(a.total_signals as int) + " | Orders: "@ + decimal(
        a.total_orders as int,
    ) + " | Filled: "@ + decimal(a.total_filled as int);
    let m2 = "Gross PnL: $"@ + a.gross_pnl@;
    let t = head + m0 + x + m1 + nl + m2;
    assert(a.totals() =~= t);
    let rest = if a.per_strategy@.len() == 0 {
        Seq::<char>::empty()
    } else {
        "\n\n📊 <b>Per Strategy:</b>"@ + strategy_lines(a.per_strategy@)
    };
    let s = t + rest;
    assert(a.shown() =~= s);
    assert(s =~= head + m0 + (x + m1 + nl + m2 + rest));
    lemma_part(s, head, m0, x + m1 + nl + m2 + rest);
    assert(s =~= head + m0 + x + m1 + (nl + m2 + rest));
    lemma_part(s, head + m0 + x, m1, nl + m2 + rest);
    assert(s =~= head + m0 + x + m1 + nl + m2 + rest);
    lemma_part(s, head + m0 + x + m1 + nl, m2, rest);
}

/// One more strategy adds its line at the end: its signals, orders, fills and what it made.
pub proof fn law_strategy_lines(all: Seq<StrategyEntry>, e: StrategyEntry)
    ensures
        strategy_lines(all.push(e)) == strategy_lines(all) + ("\n  <code>"@ + e.strategy@
            + "</code>: sig="@ + decimal(e.signals as int) + " ord="@ + decimal(e.orders as int)
            + " fill="@ + decimal(e.filled as int) + " pnl=$"@ + e.gross_pnl@),
        strategy_lines(Seq::empty()).len() == 0,
{
    assert(all.push(e).drop_last() =~= all);
}

/// How well a strategy does: its fills, the rate of fills, the rate of wins, what it loses to
/// those who know more, and its average edge, each behind its name.
pub proof fn law_metrics_alert(a: MetricsAlert)
    ensures
        has_text(
            a.shown(),
            decimal(a.fill_count as int) + " | Rate: "@ + a.fill_rate_pct@ + "% | WR: "@
                + a.win_rate_pct@,
        ),
        has_text(a.shown(), a.adverse_selection@ + " | Avg edge: "@ + a.avg_edge@),
{
    let no = Seq::<char>::empty();
    let p = "📊 Strategy: "@ + a.strategy@ + "\nFills: "@;
    let m0 = decimal(a.fill_count as int) + " | Rate: "@ + a.fill_rate_pct@ + "% | WR: "@
        + a.win_rate_pct@;
    let x = "%\nAdv sel: "@;
    let m1 = a.adverse_selection@ + " | Avg edge: "@ + a.avg_edge@;
    let s = p + m0 + x + m1;
    assert(a.shown() =~= s);
    assert(s =~= p + m0 + (x + m1));
    lemma_part(s, p, m0, x + m1);
    assert(s =~= p + m0 + x + m1 + no);
    lemma_part(s, p + m0 + x, m1, no);
}

pub open spec fn rejection(order_id: u64, strategy: Seq<char>, reason: Seq<char>) -> Seq<char> {
    "⛔ ORDER #"@ + decimal(order_id as int) + " REJECTED (local)\nStrategy: "@ + strategy
        + " | Reason: "@ + reason
}

pub open spec fn market_start(slug: Seq<char>, strike: Seq<char>, window_s: i64) -> Seq<char> {
    "🏁 Market started: <code>"@ + slug + "</code>\nStrike: $"@ + strike + " | Window: "@ + decimal(
        window_s as int,
    ) + "s"@
}

/// The alert of an order that was not sent tells its number, its strategy and the reason; that of
/// a market that starts tells its slug, its strike and its length.
pub proof fn law_short_alerts(
    order_id: u64,
    strategy: Seq<char>,
    reason: Seq<char>,
    slug: Seq<char>,
    strike: Seq<char>,
    window_s: i64,
)
    ensures
        has_text(rejection(order_id, strategy, reason), strategy + " | Reason: "@ + reason),
        has_text(
            rejection(order_id, strategy, reason),
            decimal(order_id as int) + " REJECTED (local)"@,
        ),
        has_text(market_start(slug, strike, window_s), slug + "</code>\nStrike: $"@ + strike),
        has_text(
            market_start(slug, strike, window_s),
            " | Window: "@ + decimal(window_s as int) + "s"@,
        ),
{
    reveal_strlit(" REJECTED (local)\nStrategy: ");
    reveal_strlit(" REJECTED (local)");
    let no = Seq::<char>::empty();
    let id = decimal(order_id as int);
    let r = rejection(order_id, strategy, reason);
    let cut = " REJECTED (local)\nStrategy: "@.skip(17);
    assert(" REJECTED (local)\nStrategy: "@ =~= " REJECTED (local)"@ + cut);
    let m0 = id + " REJECTED (local)"@;
    let m1 = strategy + " | Reason: "@ + reason;
    assert(r =~= "⛔ ORDER #"@ + m0 + (cut + m1));
    lemma_part(r, "⛔ ORDER #"@, m0, cut + m1);
    assert(r =~= "⛔ ORDER #"@ + m0 + cut + m1 + no);
    lemma_part(r, "⛔ ORDER #"@ + m0 + cut, m1, no);
    let s = market_start(slug, strike, window_s);
    let n0 = slug + "</code>\nStrike: $"@ + strike;
    let n1 = " | Window: "@ + decimal(window_s as int) + "s"@;
    assert(s =~= "🏁 Market started: <code>"@ + n0 + n1);
    lemma_part(s, "🏁 Market started: <code>"@, n0, n1);
    assert(s =~= "🏁 Market started: <code>"@ + n0 + n1 + no);
    lemma_part(s, "🏁 Market started: <code>"@ + n0, n1, no);
}

} // verus!
