//! What the log of a market says of the market itself.

use vstd::prelude::*;
use vstd::string::*;

use crate::json::texts;
use crate::telemetry::lines::unsigned_text;
use crate::text::{decimal, i64_to_text};
use crate::types::Side;

verus! {

pub open spec fn outcome_name(side: Side) -> Seq<char> {
    match side {
        Side::Up => "UP"@,
        Side::Down => "DOWN"@,
    }
}

/// A side as it is shown.
pub fn outcome_text(side: Side) -> (r: &'static str)
    ensures
        r@ == outcome_name(side),
{
    match side {
        Side::Up => "UP",
        Side::Down => "DOWN",
    }
}

fn entry(key: &str, value: &str) -> (r: String)
    ensures
        r@ == key@ + value@,
{
    let s = String::from_str(key);
    s.concat(value)
}

/// The lines of a market that starts.
pub open spec fn start_entries(slug: Seq<char>, strike: Seq<char>, start_ms: i64, end_ms: i64) -> Seq<
    Seq<char>,
> {
    seq![
        "slug="@ + slug,
        "strike="@ + strike,
        "start_ms="@ + decimal(start_ms as int),
        "end_ms="@ + decimal(end_ms as int),
    ]
}

/// The lines of a market that starts.
pub fn start_lines(slug: &str, strike: &str, start_ms: i64, end_ms: i64) -> (r: Vec<String>)
    ensures
        texts(r@) == start_entries(slug@, strike@, start_ms, end_ms),
{
    let start = i64_to_text(start_ms);
    let end = i64_to_text(end_ms);
    let lines = vec![
        entry("slug=", slug),
        entry("strike=", strike),
        entry("start_ms=", start.as_str()),
        entry("end_ms=", end.as_str()),
    ];
    assert(texts(lines@) =~= start_entries(slug@, strike@, start_ms, end_ms));
    lines
}

/// What one strategy did in a market. Amounts are decimal texts.
#[derive(Debug)]
pub struct StrategyEntry {
    pub strategy: String,
    pub signals: u32,
    pub orders: u32,
    pub filled: u32,
    pub gross_pnl: String,
    pub avg_edge: String,
}

impl StrategyEntry {
    pub open spec fn text(self) -> Seq<char> {
        "strat_"@ + self.strategy@ + "=sig:"@ + decimal(self.signals as int) + ",ord:"@ + decimal(
            self.orders as int,
        ) + ",fill:"@ + decimal(self.filled as int) + ",pnl:"@ + self.gross_pnl@ + ",avg_edge:"@
            + self.avg_edge@
    }

    fn line(&self) -> (r: String)
        ensures
            r@ == self.text(),
    {
        let s = String::from_str("strat_");
        let s = s.concat(self.strategy.as_str());
        let s = s.concat("=sig:");
        let s = s.concat(unsigned_text(self.signals as u64).as_str());
        let s = s.concat(",ord:");
        let s = s.concat(unsigned_text(self.orders as u64).as_str());
        let s = s.concat(",fill:");
        let s = s.concat(unsigned_text(self.filled as u64).as_str());
        let s = s.concat(",pnl:");
        let s = s.concat(self.gross_pnl.as_str());
        let s = s.concat(",avg_edge:");
        s.concat(self.avg_edge.as_str())
    }
}

/// How a market ended. Amounts are decimal texts.
#[derive(Debug)]
pub struct MarketEnd {
    pub final_binance_price: String,
    pub final_distance: String,
    pub outcome: Side,
    pub total_signals: u32,
    pub total_orders: u32,
    pub total_filled: u32,
    pub gross_pnl: String,
    pub per_strategy: Vec<StrategyEntry>,
}

impl MarketEnd {
    /// The lines of the market itself.
    pub open spec fn totals(self) -> Seq<Seq<char>> {
        seq![
            "final_binance_price="@ + self.final_binance_price@,
            "final_distance="@ + self.final_distance@,
            "outcome="@ + outcome_name(self.outcome),
            "total_signals="@ + decimal(self.total_signals as int),
            "total_orders="@ + decimal(self.total_orders as int),
            "total_filled="@ + decimal(self.total_filled as int),
            "gross_pnl="@ + self.gross_pnl@,
        ]
    }

    pub open spec fn entries(self) -> Seq<Seq<char>> {
        self.totals() + self.per_strategy@.map_values(|e: StrategyEntry| e.text())
    }

    /// The lines of a market that has ended: the market itself, then its strategies.
    pub fn lines(&self) -> (r: Vec<String>)
        ensures
            texts(r@) == self.entries(),
    {
        let mut lines = vec![
            entry("final_binance_price=", self.final_binance_price.as_str()),
            entry("final_distance=", self.final_distance.as_str()),
            entry("outcome=", outcome_text(self.outcome)),
            entry("total_signals=", unsigned_text(self.total_signals as u64).as_str()),
            entry("total_orders=", unsigned_text(self.total_orders as u64).as_str()),
            entry("total_filled=", unsigned_text(self.total_filled as u64).as_str()),
            entry("gross_pnl=", self.gross_pnl.as_str()),
        ];
        assert(texts(lines@) =~= self.totals());
        let ghost strategies = self.per_strategy@.map_values(|e: StrategyEntry| e.text());
        let mut i: usize = 0;
        assert(texts(lines@) =~= self.totals() + strategies.take(0));
        while i < self.per_strategy.len()
            invariant
                i <= self.per_strategy@.len(),
                strategies == self.per_strategy@.map_values(|e: StrategyEntry| e.text()),
                texts(lines@) == self.totals() + strategies.take(i as int),
            decreases self.per_strategy@.len() - i,
        {
            let ghost before = texts(lines@);
            let line = self.per_strategy[i].line();
            lines.push(line);
            proof {
                assert(texts(lines@) =~= before.push(line@));
                assert(strategies.take(i + 1) =~= strategies.take(i as int).push(line@));
                assert(texts(lines@) =~= self.totals() + strategies.take(i + 1));
            }
            i = i + 1;
        }
        assert(strategies.take(i as int) =~= strategies);
        lines
    }
}

/// The names of the outcomes.
pub proof fn law_outcome_names()
    ensures
        outcome_name(Side::Up) == "UP"@,
        outcome_name(Side::Down) == "DOWN"@,
{
}

/// A market that starts tells its slug, its strike, its start and its end, each under its name.
pub proof fn law_start_entries(slug: Seq<char>, strike: Seq<char>, start_ms: i64, end_ms: i64)
    ensures
        start_entries(slug, strike, start_ms, end_ms).len() == 4,
        start_entries(slug, strike, start_ms, end_ms)[0] == "slug="@ + slug,
        start_entries(slug, strike, start_ms, end_ms)[1] == "strike="@ + strike,
        start_entries(slug, strike, start_ms, end_ms)[2] == "start_ms="@ + decimal(start_ms as int),
        start_entries(slug, strike, start_ms, end_ms)[3] == "end_ms="@ + decimal(end_ms as int),
{
}

/// A market that has ended tells its totals, each under its name, and then one line for each
/// strategy.
pub proof fn law_end_entries(end: MarketEnd, i: int)
    ensures
        end.entries().len() == 7 + end.per_strategy@.len(),
        end.entries()[0] == "final_binance_price="@ + end.final_binance_price@,
        end.entries()[1] == "final_distance="@ + end.final_distance@,
        end.entries()[2] == "outcome="@ + if end.outcome == Side::Up {
            "UP"@
        } else {
            "DOWN"@
        },
        end.entries()[3] == "total_signals="@ + decimal(end.total_signals as int),
        end.entries()[4] == "total_orders="@ + decimal(end.total_orders as int),
        end.entries()[5] == "total_filled="@ + decimal(end.total_filled as int),
        end.entries()[6] == "gross_pnl="@ + end.gross_pnl@,
        0 <= i < end.per_strategy@.len() ==> end.entries()[7 + i] == end.per_strategy@[i].text(),
{
}

/// The line of a strategy tells its name, then its signals, orders and fills, then what it made
/// and its average edge.
pub proof fn law_strategy_text(e: StrategyEntry)
    ensures
        e.text() == "strat_"@ + e.strategy@ + ("=sig:"@ + decimal(e.signals as int)) + (",ord:"@
            + decimal(e.orders as int)) + (",fill:"@ + decimal(e.filled as int)) + (",pnl:"@
            + e.gross_pnl@) + (",avg_edge:"@ + e.avg_edge@),
{
    assert(e.text() =~= "strat_"@ + e.strategy@ + ("=sig:"@ + decimal(e.signals as int)) + (",ord:"@
        + decimal(e.orders as int)) + (",fill:"@ + decimal(e.filled as int)) + (",pnl:"@
        + e.gross_pnl@) + (",avg_edge:"@ + e.avg_edge@));
}

} // verus!
