//! The report over all markets.

use vstd::prelude::*;
use vstd::string::*;

use crate::analyzer::rows::{fill_views, order_views, FillRow, FillRowView, OrderRow, OrderRowView};
use crate::analyzer::tally::StrategyCounts;
use crate::backtest::mix::{count_strategies, count_views, name_counts};
use crate::json::texts;
use crate::names::{increasing, sorted_names};
use crate::table::NameTable;
use crate::text::str_eq;

verus! {

/// Sums over the strategies of a report.
#[derive(Clone, Copy, Debug, PartialEq, Eq, Structural)]
pub struct Totals {
    pub signals: u64,
    pub selected: u64,
    pub orders: u64,
    pub fills: u64,
    pub wins: u64,
}

/// What a report shows.
#[derive(Debug)]
pub struct Report {
    /// The strategies, in the order of their characters.
    pub names: Vec<String>,
    pub totals: Totals,
    /// Fills that belong to no known strategy.
    pub unattributed: u32,
}

/// The sum of a count over strategies.
pub open spec fn sum_over(
    names: Seq<Seq<char>>,
    counts: Map<Seq<char>, StrategyCounts>,
    f: spec_fn(StrategyCounts) -> u32,
) -> nat
    decreases names.len(),
{
    if names.len() == 0 {
        0
    } else {
        sum_over(names.drop_last(), counts, f) + f(counts[names.last()]) as nat
    }
}

proof fn lemma_sum_bound(
    names: Seq<Seq<char>>,
    counts: Map<Seq<char>, StrategyCounts>,
    f: spec_fn(StrategyCounts) -> u32,
)
    ensures
        sum_over(names, counts, f) <= names.len() * u32::MAX,
    decreases names.len(),
{
    if names.len() > 0 {
        lemma_sum_bound(names.drop_last(), counts, f);
        assert(names.len() * u32::MAX == (names.len() - 1) * u32::MAX + u32::MAX)
            by (nonlinear_arith);
    }
}

/// Whether totals are the sums over the strategies.
pub open spec fn are_totals(
    t: Totals,
    names: Seq<Seq<char>>,
    counts: Map<Seq<char>, StrategyCounts>,
) -> bool {
    &&& t.signals == sum_over(names, counts, |c: StrategyCounts| c.signals_total)
    &&& t.selected == sum_over(names, counts, |c: StrategyCounts| c.signals_selected)
    &&& t.orders == sum_over(names, counts, |c: StrategyCounts| c.orders)
    &&& t.fills == sum_over(names, counts, |c: StrategyCounts| c.fills)
    &&& t.wins == sum_over(names, counts, |c: StrategyCounts| c.wins)
}

fn known_names(table: &NameTable<StrategyCounts>) -> (names: Vec<String>)
    requires
        table.wf(),
    ensures
        increasing(texts(names@)),
        forall|t: Seq<char>| #[trigger]
            texts(names@).contains(t) <==> table@.contains_key(t) && t != "unknown"@,
{
    let rows = table.rows();
    let mut list: Vec<String> = Vec::new();
    let mut i: usize = 0;
    while i < rows.len()
        invariant
            i <= rows@.len(),
            forall|t: Seq<char>| #[trigger]
                texts(list@).contains(t) <==> t != "unknown"@ && exists|k: int|
                    0 <= k < i && (#[trigger] rows@[k]).0@ == t,
        decreases rows@.len() - i,
    {
        let ghost before = texts(list@);
        if !str_eq(rows[i].0.as_str(), "unknown") {
            list.push(rows[i].0.clone());
            assert(texts(list@) =~= before.push(rows@[i as int].0@));
        }
        proof {
            assert forall|t: Seq<char>| #[trigger] texts(list@).contains(t) <==> t != "unknown"@
                && exists|k: int| 0 <= k < i + 1 && (#[trigger] rows@[k]).0@ == t by {
                let after = texts(list@);
                if before.contains(t) {
                    let p = choose|p: int| 0 <= p < before.len() && before[p] == t;
                    assert(after[p] == t);
                    let k = choose|k: int| 0 <= k < i && (#[trigger] rows@[k]).0@ == t;
                    assert(rows@[k].0@ == t);
                }
                if after.contains(t) && !before.contains(t) {
                    let p = choose|p: int| 0 <= p < after.len() && after[p] == t;
                    assert(p == before.len());
                    assert(rows@[i as int].0@ == t);
                }
                if t != "unknown"@ && exists|k: int|
                    0 <= k < i + 1 && (#[trigger] rows@[k]).0@ == t {
                    let k = choose|k: int| 0 <= k < i + 1 && (#[trigger] rows@[k]).0@ == t;
                    if k == i {
                        assert(after[before.len() as int] == t);
                    } else {
                        assert(before.contains(t));
                    }
                }
            }
        }
        i = i + 1;
    }
    let names = sorted_names(&list);
    proof {
        assert forall|t: Seq<char>| #[trigger] texts(names@).contains(t) <==> table@.contains_key(t)
            && t != "unknown"@ by {
            assert(texts(list@).contains(t) <==> texts(names@).contains(t));
        }
    }
    names
}

/// The report over all markets: strategies without the unknown one, and the sums over them.
pub fn report(table: &NameTable<StrategyCounts>) -> (r: Report)
    requires
        table.wf(),
    ensures
        r.unattributed == unknown_fills(table@),
        increasing(texts(r.names@)),
        forall|t: Seq<char>| #[trigger]
            texts(r.names@).contains(t) <==> table@.contains_key(t) && t != "unknown"@,
        r.names@.len() <= u32::MAX ==> are_totals(r.totals, texts(r.names@), table@),
        r.unattributed == (if table@.contains_key("unknown"@) {
            table@["unknown"@].fills
        } else {
            0
        }),
{
    let names = known_names(table);
    let ghost all = texts(names@);
    let ghost f1 = |c: StrategyCounts| c.signals_total;
    let ghost f2 = |c: StrategyCounts| c.signals_selected;
    let ghost f3 = |c: StrategyCounts| c.orders;
    let ghost f4 = |c: StrategyCounts| c.fills;
    let ghost f5 = |c: StrategyCounts| c.wins;
    let mut t = Totals { signals: 0, selected: 0, orders: 0, fills: 0, wins: 0 };
    let mut i: usize = 0;
    assert(all.take(0) =~= Seq::empty());
    while i < names.len() && i < u32::MAX as usize
        invariant
            i <= names@.len(),
            i <= u32::MAX,
            table.wf(),
            all == texts(names@),
            forall|t: Seq<char>| #[trigger]
                all.contains(t) <==> table@.contains_key(t) && t != "unknown"@,
            f1 == (|c: StrategyCounts| c.signals_total),
            f2 == (|c: StrategyCounts| c.signals_selected),
            f3 == (|c: StrategyCounts| c.orders),
            f4 == (|c: StrategyCounts| c.fills),
            f5 == (|c: StrategyCounts| c.wins),
            t.signals == sum_over(all.take(i as int), table@, f1),
            t.selected == sum_over(all.take(i as int), table@, f2),
            t.orders == sum_over(all.take(i as int), table@, f3),
            t.fills == sum_over(all.take(i as int), table@, f4),
            t.wins == sum_over(all.take(i as int), table@, f5),
        decreases names@.len() - i,
    {
        proof {
            let s = all.take(i as int);
            assert(all.take(i + 1).drop_last() =~= s);
            assert(all[i as int] == names@[i as int]@);
            assert(all.contains(all[i as int]));
            lemma_sum_bound(s, table@, f1);
            lemma_sum_bound(s, table@, f2);
            lemma_sum_bound(s, table@, f3);
            lemma_sum_bound(s, table@, f4);
            lemma_sum_bound(s, table@, f5);
            assert(s.len() * u32::MAX + u32::MAX <= u64::MAX) by (nonlinear_arith)
                requires
                    s.len() < u32::MAX,
            ;
        }
        if let Some(c) = table.get(names[i].as_str()) {
            t.signals = t.signals + c.signals_total as u64;
            t.selected = t.selected + c.signals_selected as u64;
            t.orders = t.orders + c.orders as u64;
            t.fills = t.fills + c.fills as u64;
            t.wins = t.wins + c.wins as u64;
        }
        i = i + 1;
    }
    proof {
        if names@.len() <= u32::MAX {
            assert(all.take(i as int) =~= all);
        }
    }
    let unattributed: u32 = match table.get("unknown") {
        Some(c) => c.fills,
        None => 0,
    };
    Report { names, totals: t, unattributed }
}

// ── One market ──

/// How many answers name a strategy.
pub open spec fn fills_for(fills: Seq<FillRowView>, strategy: Seq<char>) -> nat
    decreases fills.len(),
{
    if fills.len() == 0 {
        0
    } else {
        fills_for(fills.drop_last(), strategy) + if fills.last().strategy.len() > 0
            && fills.last().strategy == strategy {
            1nat
        } else {
            0
        }
    }
}

pub open spec fn order_strategies(orders: Seq<OrderRowView>) -> Seq<Seq<char>> {
    orders.map_values(|o: OrderRowView| o.strategy)
}

/// What a strategy did in a market.
#[derive(Debug)]
pub struct StrategyDetail {
    pub strategy: String,
    pub orders: u64,
    pub fills: usize,
}

fn count_fills(fills: &Vec<FillRow>, strategy: &str) -> (n: usize)
    ensures
        n == fills_for(fill_views(fills@), strategy@),
{
    let ghost all = fill_views(fills@);
    let mut n: usize = 0;
    let mut i: usize = 0;
    assert(all.take(0) =~= Seq::empty());
    while i < fills.len()
        invariant
            i <= fills@.len(),
            n <= i,
            all == fill_views(fills@),
            n == fills_for(all.take(i as int), strategy@),
        decreases fills@.len() - i,
    {
        assert(all.take(i + 1).drop_last() =~= all.take(i as int));
        assert(all[i as int] == fills@[i as int]@);
        let s = fills[i].strategy.as_str();
        if !s.is_empty() && str_eq(s, strategy) {
            n = n + 1;
        }
        i = i + 1;
    }
    assert(all.take(i as int) =~= all);
    n
}

/// The strategies that had orders in a market, in the order in which they first had one, with
/// how many orders and how many answers they had.
pub fn market_detail(orders: &Vec<OrderRow>, fills: &Vec<FillRow>) -> (r: Vec<StrategyDetail>)
    ensures
        ({
            let counts = name_counts(order_strategies(order_views(orders@)));
            &&& r@.len() == counts.len()
            &&& forall|i: int|
                0 <= i < r@.len() ==> {
                    &&& (#[trigger] r@[i]).strategy@ == counts[i].0
                    &&& r@[i].orders == counts[i].1
                    &&& r@[i].fills == fills_for(fill_views(fills@), counts[i].0)
                }
        }),
{
    let mut names: Vec<String> = Vec::new();
    let mut i: usize = 0;
    while i < orders.len()
        invariant
            i <= orders@.len(),
            names@.len() == i,
            forall|k: int| 0 <= k < i ==> (#[trigger] names@[k])@ == orders@[k].strategy@,
        decreases orders@.len() - i,
    {
        names.push(orders[i].strategy.clone());
        i = i + 1;
    }
    assert(texts(names@) =~= order_strategies(order_views(orders@)));
    let counts = count_strategies(&names);
    let ghost want = name_counts(texts(names@));
    let mut out: Vec<StrategyDetail> = Vec::new();
    let mut k: usize = 0;
    while k < counts.len()
        invariant
            k <= counts@.len(),
            count_views(counts@) == want,
            out@.len() == k,
            forall|j: int|
                0 <= j < k ==> {
                    &&& (#[trigger] out@[j]).strategy@ == want[j].0
                    &&& out@[j].orders == want[j].1
                    &&& out@[j].fills == fills_for(fill_views(fills@), want[j].0)
                },
        decreases counts@.len() - k,
    {
        assert(count_views(counts@)[k as int] == (counts@[k as int].0@, counts@[k as int].1 as int));
        let n: usize = count_fills(fills, counts[k].0.as_str());
        out.push(
            StrategyDetail { strategy: counts[k].0.clone(), orders: counts[k].1, fills: n },
        );
        k = k + 1;
    }
    out
}

/// The totals count every strategy of the report once: one more strategy adds its own counts,
/// each to its own total.
pub proof fn law_totals_add_up(
    t: Totals,
    u: Totals,
    names: Seq<Seq<char>>,
    name: Seq<char>,
    counts: Map<Seq<char>, StrategyCounts>,
)
    requires
        are_totals(t, names, counts),
        are_totals(u, names.push(name), counts),
    ensures
        u.signals == t.signals + counts[name].signals_total,
        u.selected == t.selected + counts[name].signals_selected,
        u.orders == t.orders + counts[name].orders,
        u.fills == t.fills + counts[name].fills,
        u.wins == t.wins + counts[name].wins,
        names.len() == 0 ==> t.signals == 0 && t.selected == 0 && t.orders == 0 && t.fills == 0
            && t.wins == 0,
{
    assert(names.push(name).drop_last() =~= names);
}

/// An answer counts for the strategy that it names, and for no other.
pub proof fn law_fills_for(fills: Seq<FillRowView>, f: FillRowView, strategy: Seq<char>)
    ensures
        fills_for(Seq::empty(), strategy) == 0,
        strategy.len() > 0 && f.strategy == strategy ==> fills_for(fills.push(f), strategy)
            == fills_for(fills, strategy) + 1,
        f.strategy != strategy ==> fills_for(fills.push(f), strategy) == fills_for(fills, strategy),
        f.strategy.len() == 0 ==> fills_for(fills.push(f), strategy) == fills_for(fills, strategy),
{
    assert(fills.push(f).drop_last() =~= fills);
}

/// The strategies of orders are theirs, in their order.
pub proof fn law_order_strategies(orders: Seq<OrderRowView>, i: int)
    requires
        0 <= i < orders.len(),
    ensures
        order_strategies(orders).len() == orders.len(),
        order_strategies(orders)[i] == orders[i].strategy,
{
}

/// The fills of orders that are not known.
pub open spec fn unknown_fills(table: Map<Seq<char>, StrategyCounts>) -> u32 {
    if table.contains_key("unknown"@) {
        table["unknown"@].fills
    } else {
        0
    }
}

/// What is not attributed are the fills under "unknown", not the orders, and none where there is
/// no such entry.
pub proof fn law_unknown_fills(table: Map<Seq<char>, StrategyCounts>, c: StrategyCounts)
    ensures
        unknown_fills(table.insert("unknown"@, c)) == c.fills,
        unknown_fills(table.remove("unknown"@)) == 0,
{
}

} // verus!
