//! Adding markets up, strategy by strategy.

use vstd::prelude::*;
use vstd::string::*;

use crate::analyzer::rows::{fill_views, order_views, signal_views, FillRow, FillRowView, MarketMeta};
use crate::analyzer::rows::{OrderRow, OrderRowView, SignalRow, SignalRowView};
use crate::config::opt_text;
use crate::table::NameTable;
use crate::text::{chars_of, contains_text, has_text, str_eq, uppercase};

verus! {

/// Counts of one strategy over all markets.
#[derive(Clone, Copy, Debug, PartialEq, Eq, Structural)]
pub struct StrategyCounts {
    /// Markets in which the strategy had an order or a fill.
    pub markets: u32,
    /// The last such market, by its number.
    pub last_market: Option<u32>,
    pub signals_total: u32,
    pub signals_selected: u32,
    pub orders: u32,
    pub fills: u32,
    pub wins: u32,
}

impl StrategyCounts {
    pub open spec fn fresh() -> StrategyCounts {
        StrategyCounts {
            markets: 0,
            last_market: None,
            signals_total: 0,
            signals_selected: 0,
            orders: 0,
            fills: 0,
            wins: 0,
        }
    }

    pub fn new() -> (c: Self)
        ensures
            c == Self::fresh(),
    {
        StrategyCounts {
            markets: 0,
            last_market: None,
            signals_total: 0,
            signals_selected: 0,
            orders: 0,
            fills: 0,
            wins: 0,
        }
    }

    /// Whether every count can go up by `n`.
    pub open spec fn room(self, n: int) -> bool {
        &&& self.markets + n <= u32::MAX
        &&& self.signals_total + n <= u32::MAX
        &&& self.signals_selected + n <= u32::MAX
        &&& self.orders + n <= u32::MAX
        &&& self.fills + n <= u32::MAX
        &&& self.wins + n <= u32::MAX
    }

    /// The counts with a market noted, once however often.
    pub open spec fn in_market(self, no: u32) -> StrategyCounts {
        if self.last_market == Some(no) {
            self
        } else {
            StrategyCounts {
                markets: (self.markets + 1) as u32,
                last_market: Some(no),
                ..self
            }
        }
    }

    fn note_market(&mut self, no: u32)
        requires
            old(self).room(1),
        ensures
            *final(self) == old(self).in_market(no),
    {
        let seen = match self.last_market {
            Some(last) => last == no,
            None => false,
        };
        if !seen {
            self.markets = self.markets + 1;
            self.last_market = Some(no);
        }
    }
}

/// The counts of a strategy, or fresh ones.
pub open spec fn counts_or_fresh(m: Map<Seq<char>, StrategyCounts>, name: Seq<char>)
    -> StrategyCounts {
    if m.contains_key(name) {
        m[name]
    } else {
        StrategyCounts::fresh()
    }
}

/// Whether every count of every strategy can go up by `n`.
pub open spec fn room_for(m: Map<Seq<char>, StrategyCounts>, n: int) -> bool {
    n <= u32::MAX && forall|name: Seq<char>| #[trigger] m.contains_key(name) ==> m[name].room(n)
}

fn counts_of(table: &NameTable<StrategyCounts>, name: &str) -> (c: StrategyCounts)
    requires
        table.wf(),
    ensures
        c == counts_or_fresh(table@, name@),
{
    match table.get(name) {
        Some(c) => *c,
        None => StrategyCounts::new(),
    }
}

/// The counts with one signal added. A signal of a log that does not say counts as selected.
pub open spec fn with_signal(
    m: Map<Seq<char>, StrategyCounts>,
    s: SignalRowView,
) -> Map<Seq<char>, StrategyCounts> {
    let c = counts_or_fresh(m, s.strategy);
    m.insert(
        s.strategy,
        StrategyCounts {
            signals_total: (c.signals_total + 1) as u32,
            signals_selected: if s.selected == Some(false) {
                c.signals_selected
            } else {
                (c.signals_selected + 1) as u32
            },
            ..c
        },
    )
}

pub open spec fn with_signals(
    m: Map<Seq<char>, StrategyCounts>,
    s: Seq<SignalRowView>,
) -> Map<Seq<char>, StrategyCounts>
    decreases s.len(),
{
    if s.len() == 0 {
        m
    } else {
        with_signal(with_signals(m, s.drop_last()), s.last())
    }
}

/// The counts with one order added.
pub open spec fn with_order(
    m: Map<Seq<char>, StrategyCounts>,
    o: OrderRowView,
    no: u32,
) -> Map<Seq<char>, StrategyCounts> {
    let c = counts_or_fresh(m, o.strategy);
    m.insert(
        o.strategy,
        StrategyCounts { orders: (c.orders + 1) as u32, ..c }.in_market(no),
    )
}

pub open spec fn with_orders(
    m: Map<Seq<char>, StrategyCounts>,
    o: Seq<OrderRowView>,
    no: u32,
) -> Map<Seq<char>, StrategyCounts>
    decreases o.len(),
{
    if o.len() == 0 {
        m
    } else {
        with_order(with_orders(m, o.drop_last(), no), o.last(), no)
    }
}

/// The last order of a number, where there is one.
pub open spec fn order_of(orders: Seq<OrderRowView>, id: u64) -> Option<OrderRowView>
    decreases orders.len(),
{
    if orders.len() == 0 {
        None
    } else if orders.last().order_id == id {
        Some(orders.last())
    } else {
        order_of(orders.drop_last(), id)
    }
}

fn find_order(orders: &Vec<OrderRow>, id: u64) -> (r: Option<usize>)
    ensures
        match r {
            Some(i) => i < orders@.len() && order_of(order_views(orders@), id) == Some(
                orders@[i as int]@,
            ),
            None => order_of(order_views(orders@), id) is None,
        },
{
    let ghost all = order_views(orders@);
    let mut i: usize = orders.len();
    assert(all.take(i as int) =~= all);
    while i > 0
        invariant
            i <= orders.len(),
            all == order_views(orders@),
            order_of(all, id) == order_of(all.take(i as int), id),
        decreases i,
    {
        assert(all.take(i as int).drop_last() =~= all.take(i - 1));
        assert(all.take(i as int).last() == orders@[i - 1]@);
        if orders[i - 1].order_id == id {
            return Some(i - 1);
        }
        i = i - 1;
    }
    None
}

/// The characters of a text that are not quotation marks.
pub open spec fn without_quotes(s: Seq<char>) -> Seq<char>
    decreases s.len(),
{
    if s.len() == 0 {
        s
    } else if s.last() == '"' {
        without_quotes(s.drop_last())
    } else {
        without_quotes(s.drop_last()).push(s.last())
    }
}

fn strip_quotes(s: &str) -> (r: String)
    ensures
        r@ == without_quotes(s@),
{
    let v = chars_of(s);
    let mut out = String::new();
    let mut i: usize = 0;
    assert(v@.take(0) =~= Seq::empty());
    while i < v.len()
        invariant
            i <= v.len(),
            v@ == s@,
            out@ == without_quotes(v@.take(i as int)),
        decreases v.len() - i,
    {
        assert(v@.take(i + 1).drop_last() =~= v@.take(i as int));
        if v[i] != '"' {
            out.push(v[i]);
        }
        i = i + 1;
    }
    assert(v@.take(i as int) =~= v@);
    out
}

/// Whether the side of an order is the outcome of its market, without regard to the case of
/// letters and to quotation marks round the side.
pub open spec fn sides_match(side: Seq<char>, outcome: Seq<char>) -> bool {
    without_quotes(uppercase(side)) == uppercase(outcome)
}

/// Check if an order side matches the market outcome.
/// Side in CSV can be "Up", "Down", "UP", "DOWN", or Debug format.
pub fn side_matches(side_str: &str, outcome: &str) -> (r: bool)
    ensures
        r == sides_match(side_str@, outcome@),
{
    let s = strip_quotes(side_str.to_uppercase().as_str());
    let o = outcome.to_uppercase();
    str_eq(s.as_str(), o.as_str())
}

/// The strategy of an answer: its own column, or that of its order, or "unknown".
pub open spec fn fill_strategy(f: FillRowView, orders: Seq<OrderRowView>) -> Seq<char> {
    if f.strategy.len() > 0 {
        f.strategy
    } else {
        match order_of(orders, f.order_id) {
            Some(o) => o.strategy,
            None => "unknown"@,
        }
    }
}

/// Whether an answer is a fill.
pub open spec fn is_filled(status: Seq<char>) -> bool {
    has_text(status, "Filled"@) || has_text(status, "PartialFill"@)
}

/// Whether a status is a fill.
pub fn status_is_filled(status: &str) -> (r: bool)
    ensures
        r == is_filled(status@),
{
    contains_text(status, "Filled") || contains_text(status, "PartialFill")
}

/// Whether a fill won: unknown without an outcome of the market.
pub open spec fn fill_won(
    f: FillRowView,
    orders: Seq<OrderRowView>,
    outcome: Option<Seq<char>>,
) -> Option<bool> {
    match outcome {
        Some(o) => Some(
            sides_match(
                match order_of(orders, f.order_id) {
                    Some(order) => order.side,
                    None => Seq::empty(),
                },
                o,
            ),
        ),
        None => None,
    }
}

/// What a fill puts into the sums: price and size, and whether it won.
pub struct Trade {
    pub strategy: String,
    pub price: String,
    pub size: String,
    pub won: Option<bool>,
}

/// What a `Trade` holds.
pub ghost struct TradeView {
    pub strategy: Seq<char>,
    pub price: Seq<char>,
    pub size: Seq<char>,
    pub won: Option<bool>,
}

impl View for Trade {
    type V = TradeView;

    open spec fn view(&self) -> TradeView {
        TradeView {
            strategy: self.strategy@,
            price: self.price@,
            size: self.size@,
            won: self.won,
        }
    }
}

pub open spec fn trade_views(v: Seq<Trade>) -> Seq<TradeView> {
    v.map_values(|t: Trade| t@)
}

/// What an answer puts into the sums, where it is a fill with price and size.
pub open spec fn trade_of_fill(
    f: FillRowView,
    orders: Seq<OrderRowView>,
    outcome: Option<Seq<char>>,
) -> Option<TradeView> {
    match (f.filled_price, f.filled_size) {
        (Some(price), Some(size)) => if is_filled(f.status) {
            Some(
                TradeView {
                    strategy: fill_strategy(f, orders),
                    price,
                    size,
                    won: fill_won(f, orders, outcome),
                },
            )
        } else {
            None
        },
        _ => None,
    }
}

/// The counts with one answer added. A strategy that only had answers that are no fills is
/// listed all the same.
pub open spec fn with_fill(
    m: Map<Seq<char>, StrategyCounts>,
    f: FillRowView,
    orders: Seq<OrderRowView>,
    outcome: Option<Seq<char>>,
    no: u32,
) -> Map<Seq<char>, StrategyCounts> {
    let name = fill_strategy(f, orders);
    let c = counts_or_fresh(m, name);
    if is_filled(f.status) {
        let won = trade_of_fill(f, orders, outcome) matches Some(t) && t.won == Some(true);
        m.insert(
            name,
            StrategyCounts {
                fills: (c.fills + 1) as u32,
                wins: if won {
                    (c.wins + 1) as u32
                } else {
                    c.wins
                },
                ..c
            }.in_market(no),
        )
    } else {
        m.insert(name, c)
    }
}

pub open spec fn with_fills(
    m: Map<Seq<char>, StrategyCounts>,
    f: Seq<FillRowView>,
    orders: Seq<OrderRowView>,
    outcome: Option<Seq<char>>,
    no: u32,
) -> Map<Seq<char>, StrategyCounts>
    decreases f.len(),
{
    if f.len() == 0 {
        m
    } else {
        with_fill(with_fills(m, f.drop_last(), orders, outcome, no), f.last(), orders, outcome, no)
    }
}

/// What the answers put into the sums, in their order.
pub open spec fn trades_of(
    f: Seq<FillRowView>,
    orders: Seq<OrderRowView>,
    outcome: Option<Seq<char>>,
) -> Seq<TradeView>
    decreases f.len(),
{
    if f.len() == 0 {
        Seq::empty()
    } else {
        match trade_of_fill(f.last(), orders, outcome) {
            Some(t) => trades_of(f.drop_last(), orders, outcome).push(t),
            None => trades_of(f.drop_last(), orders, outcome),
        }
    }
}

fn add_signal(table: &mut NameTable<StrategyCounts>, s: &SignalRow, Ghost(n): Ghost<int>)
    requires
        old(table).wf(),
        n >= 1,
        room_for(old(table)@, n),
    ensures
        final(table).wf(),
        final(table)@ == with_signal(old(table)@, s@),
        room_for(final(table)@, n - 1),
{
    let mut c = counts_of(table, s.strategy.as_str());
    c.signals_total = c.signals_total + 1;
    let dropped = match s.selected {
        Some(yes) => !yes,
        None => false,
    };
    if !dropped {
        c.signals_selected = c.signals_selected + 1;
    }
    table.set(s.strategy.as_str(), c);
}

fn add_order(table: &mut NameTable<StrategyCounts>, o: &OrderRow, no: u32, Ghost(n): Ghost<int>)
    requires
        old(table).wf(),
        n >= 1,
        room_for(old(table)@, n),
    ensures
        final(table).wf(),
        final(table)@ == with_order(old(table)@, o@, no),
        room_for(final(table)@, n - 1),
{
    let mut c = counts_of(table, o.strategy.as_str());
    c.note_market(no);
    c.orders = c.orders + 1;
    table.set(o.strategy.as_str(), c);
}

fn add_fill(
    table: &mut NameTable<StrategyCounts>,
    f: &FillRow,
    orders: &Vec<OrderRow>,
    outcome: &Option<String>,
    no: u32,
    Ghost(n): Ghost<int>,
) -> (r: Option<Trade>)
    requires
        old(table).wf(),
        n >= 1,
        room_for(old(table)@, n),
    ensures
        final(table).wf(),
        final(table)@ == with_fill(
            old(table)@,
            f@,
            order_views(orders@),
            opt_text(*outcome),
            no,
        ),
        room_for(final(table)@, n - 1),
        match r {
            Some(t) => trade_of_fill(f@, order_views(orders@), opt_text(*outcome)) == Some(t@),
            None => trade_of_fill(f@, order_views(orders@), opt_text(*outcome)) is None,
        },
{
    let order = find_order(orders, f.order_id);
    let strategy = if !f.strategy.as_str().is_empty() {
        f.strategy.clone()
    } else {
        match order {
            Some(i) => orders[i].strategy.clone(),
            None => String::from_str("unknown"),
        }
    };
    let mut c = counts_of(table, strategy.as_str());
    if !status_is_filled(f.status.as_str()) {
        table.set(strategy.as_str(), c);
        return None;
    }
    let won = match outcome {
        Some(o) => {
            let side = match order {
                Some(i) => orders[i].side.clone(),
                None => String::new(),
            };
            Some(side_matches(side.as_str(), o.as_str()))
        },
        None => None,
    };
    c.note_market(no);
    c.fills = c.fills + 1;
    match (&f.filled_price, &f.filled_size) {
        (Some(price), Some(size)) => {
            if let Some(true) = won {
                c.wins = c.wins + 1;
            }
            table.set(strategy.as_str(), c);
            Some(Trade { strategy, price: price.clone(), size: size.clone(), won })
        },
        _ => {
            table.set(strategy.as_str(), c);
            None
        },
    }
}

/// What the log of one market holds. `no` is the number of the market.
pub ghost struct MarketRows {
    pub no: u32,
    pub signals: Seq<SignalRowView>,
    pub orders: Seq<OrderRowView>,
    pub fills: Seq<FillRowView>,
    pub outcome: Option<Seq<char>>,
}

/// The counts with one market added: its signals, its orders and the answers to them.
pub open spec fn with_market(m: Map<Seq<char>, StrategyCounts>, rows: MarketRows) -> Map<
    Seq<char>,
    StrategyCounts,
> {
    with_fills(
        with_orders(with_signals(m, rows.signals), rows.orders, rows.no),
        rows.fills,
        rows.orders,
        rows.outcome,
        rows.no,
    )
}

/// The counts of a series of markets.
pub open spec fn with_markets(markets: Seq<MarketRows>) -> Map<Seq<char>, StrategyCounts>
    decreases markets.len(),
{
    if markets.len() == 0 {
        Map::empty()
    } else {
        with_market(with_markets(markets.drop_last()), markets.last())
    }
}

/// Whether a strategy has an order among some.
pub open spec fn has_order(orders: Seq<OrderRowView>, name: Seq<char>) -> bool {
    exists|i: int| 0 <= i < orders.len() && (#[trigger] orders[i]).strategy == name
}

/// Whether a strategy has a fill among some answers.
pub open spec fn has_fill(
    fills: Seq<FillRowView>,
    orders: Seq<OrderRowView>,
    name: Seq<char>,
) -> bool {
    exists|i: int|
        0 <= i < fills.len() && is_filled((#[trigger] fills[i]).status) && fill_strategy(
            fills[i],
            orders,
        ) == name
}

/// Whether a strategy has an order or a fill in a market.
pub open spec fn takes_part(rows: MarketRows, name: Seq<char>) -> bool {
    has_order(rows.orders, name) || has_fill(rows.fills, rows.orders, name)
}

/// In how many markets a strategy has an order or a fill.
pub open spec fn markets_of(markets: Seq<MarketRows>, name: Seq<char>) -> nat
    decreases markets.len(),
{
    if markets.len() == 0 {
        0
    } else {
        markets_of(markets.drop_last(), name) + if takes_part(markets.last(), name) {
            1nat
        } else {
            0
        }
    }
}

/// Whether no two markets have the same number.
pub open spec fn numbers_differ(markets: Seq<MarketRows>) -> bool {
    forall|i: int, j: int|
        0 <= i < j < markets.len() ==> (#[trigger] markets[i]).no != (#[trigger] markets[j]).no
}

/// Whether counts note the same markets.
pub open spec fn same_markets(a: StrategyCounts, b: StrategyCounts) -> bool {
    a.markets == b.markets && a.last_market == b.last_market
}

proof fn lemma_signals_note_nothing(
    m: Map<Seq<char>, StrategyCounts>,
    s: Seq<SignalRowView>,
    name: Seq<char>,
)
    ensures
        same_markets(counts_or_fresh(with_signals(m, s), name), counts_or_fresh(m, name)),
    decreases s.len(),
{
    if s.len() > 0 {
        lemma_signals_note_nothing(m, s.drop_last(), name);
    }
}

proof fn lemma_orders_note(
    m: Map<Seq<char>, StrategyCounts>,
    o: Seq<OrderRowView>,
    no: u32,
    name: Seq<char>,
)
    ensures
        same_markets(
            counts_or_fresh(with_orders(m, o, no), name),
            if has_order(o, name) {
                counts_or_fresh(m, name).in_market(no)
            } else {
                counts_or_fresh(m, name)
            },
        ),
    decreases o.len(),
{
    if o.len() > 0 {
        let p = o.drop_last();
        lemma_orders_note(m, p, no, name);
        if has_order(p, name) {
            let i = choose|i: int| 0 <= i < p.len() && (#[trigger] p[i]).strategy == name;
            assert(o[i].strategy == name);
        }
        if o.last().strategy == name {
            assert(o[o.len() - 1].strategy == name);
        } else if has_order(o, name) {
            let i = choose|i: int| 0 <= i < o.len() && (#[trigger] o[i]).strategy == name;
            assert(p[i].strategy == name);
        }
    }
}

proof fn lemma_fills_note(
    m: Map<Seq<char>, StrategyCounts>,
    f: Seq<FillRowView>,
    orders: Seq<OrderRowView>,
    outcome: Option<Seq<char>>,
    no: u32,
    name: Seq<char>,
)
    ensures
        same_markets(
            counts_or_fresh(with_fills(m, f, orders, outcome, no), name),
            if has_fill(f, orders, name) {
                counts_or_fresh(m, name).in_market(no)
            } else {
                counts_or_fresh(m, name)
            },
        ),
    decreases f.len(),
{
    if f.len() > 0 {
        let p = f.drop_last();
        lemma_fills_note(m, p, orders, outcome, no, name);
        if has_fill(p, orders, name) {
            let i = choose|i: int|
                0 <= i < p.len() && is_filled((#[trigger] p[i]).status) && fill_strategy(
                    p[i],
                    orders,
                ) == name;
            assert(f[i] == p[i]);
        }
        if is_filled(f.last().status) && fill_strategy(f.last(), orders) == name {
            assert(f[f.len() - 1] == f.last());
        } else if has_fill(f, orders, name) {
            let i = choose|i: int|
                0 <= i < f.len() && is_filled((#[trigger] f[i]).status) && fill_strategy(
                    f[i],
                    orders,
                ) == name;
            assert(p[i] == f[i]);
        }
    }
}

proof fn lemma_markets_noted(markets: Seq<MarketRows>, name: Seq<char>)
    requires
        markets.len() <= u32::MAX,
        numbers_differ(markets),
    ensures
        counts_or_fresh(with_markets(markets), name).markets == markets_of(markets, name),
        markets_of(markets, name) <= markets.len(),
        counts_or_fresh(with_markets(markets), name).last_market matches Some(no) ==> exists|k: int|
            0 <= k < markets.len() && (#[trigger] markets[k]).no == no,
    decreases markets.len(),
{
    if markets.len() > 0 {
        let p = markets.drop_last();
        let rows = markets.last();
        let n = markets.len() - 1;
        assert forall|i: int, j: int| 0 <= i < j < p.len() implies (#[trigger] p[i]).no != (
        #[trigger] p[j]).no by {
            assert(markets[i].no != markets[j].no);
        }
        lemma_markets_noted(p, name);
        let m = with_markets(p);
        let m1 = with_signals(m, rows.signals);
        let m2 = with_orders(m1, rows.orders, rows.no);
        lemma_signals_note_nothing(m, rows.signals, name);
        lemma_orders_note(m1, rows.orders, rows.no, name);
        lemma_fills_note(m2, rows.fills, rows.orders, rows.outcome, rows.no, name);
        let c = counts_or_fresh(m, name);
        if c.last_market is Some {
            let k = choose|k: int| 0 <= k < p.len() && Some((#[trigger] p[k]).no) == c.last_market;
            assert(markets[k].no != markets[n].no);
            assert(Some(markets[k].no) == c.last_market);
        }
        assert(markets[n].no == rows.no);
    }
}

/// Over markets without repeated numbers, a strategy is counted once in each market in which it
/// has an order or a fill, and in no other.
pub proof fn law_markets_counted(markets: Seq<MarketRows>, name: Seq<char>)
    requires
        markets.len() <= u32::MAX,
        numbers_differ(markets),
    ensures
        counts_or_fresh(with_markets(markets), name).markets == markets_of(markets, name),
{
    lemma_markets_noted(markets, name);
}

/// Adds a market to the counts, and returns what its fills put into the sums. `no` is the
/// number of the market; no two markets have the same, so that each is counted once.
pub fn analyze_market(
    table: &mut NameTable<StrategyCounts>,
    meta: &MarketMeta,
    signals: &Vec<SignalRow>,
    orders: &Vec<OrderRow>,
    fills: &Vec<FillRow>,
    no: u32,
) -> (trades: Vec<Trade>)
    requires
        old(table).wf(),
        room_for(old(table)@, (signals@.len() + orders@.len() + fills@.len()) as int),
    ensures
        final(table).wf(),
        final(table)@ == with_market(
            old(table)@,
            MarketRows {
                no,
                signals: signal_views(signals@),
                orders: order_views(orders@),
                fills: fill_views(fills@),
                outcome: opt_text(meta.outcome),
            },
        ),
        trade_views(trades@) == trades_of(
            fill_views(fills@),
            order_views(orders@),
            opt_text(meta.outcome),
        ),
{
    let ghost sv = signal_views(signals@);
    let ghost ov = order_views(orders@);
    let ghost fv = fill_views(fills@);
    let ghost outcome = opt_text(meta.outcome);
    let ghost total = (signals@.len() + orders@.len() + fills@.len()) as int;
    let mut i: usize = 0;
    assert(sv.take(0) =~= Seq::empty());
    while i < signals.len()
        invariant
            i <= signals.len(),
            sv == signal_views(signals@),
            total == signals@.len() + orders@.len() + fills@.len(),
            table.wf(),
            table@ == with_signals(old(table)@, sv.take(i as int)),
            room_for(table@, total - i),
        decreases signals.len() - i,
    {
        assert(sv.take(i + 1).drop_last() =~= sv.take(i as int));
        assert(sv[i as int] == signals@[i as int]@);
        add_signal(table, &signals[i], Ghost(total - i));
        i = i + 1;
    }
    assert(sv.take(i as int) =~= sv);
    let ghost m1 = table@;
    let mut j: usize = 0;
    assert(ov.take(0) =~= Seq::empty());
    while j < orders.len()
        invariant
            j <= orders.len(),
            ov == order_views(orders@),
            total == signals@.len() + orders@.len() + fills@.len(),
            table.wf(),
            table@ == with_orders(m1, ov.take(j as int), no),
            room_for(table@, total - signals@.len() - j),
        decreases orders.len() - j,
    {
        assert(ov.take(j + 1).drop_last() =~= ov.take(j as int));
        assert(ov[j as int] == orders@[j as int]@);
        add_order(table, &orders[j], no, Ghost(total - signals@.len() - j));
        j = j + 1;
    }
    assert(ov.take(j as int) =~= ov);
    let ghost m2 = table@;
    let mut trades: Vec<Trade> = Vec::new();
    let mut k: usize = 0;
    assert(fv.take(0) =~= Seq::empty());
    assert(trade_views(trades@) =~= Seq::empty());
    while k < fills.len()
        invariant
            k <= fills.len(),
            fv == fill_views(fills@),
            ov == order_views(orders@),
            outcome == opt_text(meta.outcome),
            table.wf(),
            table@ == with_fills(m2, fv.take(k as int), ov, outcome, no),
            room_for(table@, fills@.len() - k),
            trade_views(trades@) == trades_of(fv.take(k as int), ov, outcome),
        decreases fills.len() - k,
    {
        assert(fv.take(k + 1).drop_last() =~= fv.take(k as int));
        assert(fv[k as int] == fills@[k as int]@);
        let ghost before = trade_views(trades@);
        if let Some(t) = add_fill(
            table,
            &fills[k],
            orders,
            &meta.outcome,
            no,
            Ghost(fills@.len() - k),
        ) {
            trades.push(t);
            assert(trade_views(trades@) =~= before.push(t@));
        }
        k = k + 1;
    }
    assert(fv.take(k as int) =~= fv);
    trades
}

/// The earlier of the earliest start so far and one more.
pub fn earlier(so_far: Option<i64>, start: i64) -> (r: i64)
    ensures
        r == earlier_of(so_far, start),
        r == (match so_far {
            Some(e) => if e <= start {
                e
            } else {
                start
            },
            None => start,
        }),
{
    match so_far {
        Some(e) => if e <= start {
            e
        } else {
            start
        },
        None => start,
    }
}

/// The later of the latest start so far and one more.
pub fn later(so_far: Option<i64>, start: i64) -> (r: i64)
    ensures
        r == later_of(so_far, start),
        r == (match so_far {
            Some(l) => if l >= start {
                l
            } else {
                start
            },
            None => start,
        }),
{
    match so_far {
        Some(l) => if l >= start {
            l
        } else {
            start
        },
        None => start,
    }
}

/// A fill puts a trade into the sums exactly where it is one and has a price and a size: with
/// the filled price as its price, the filled size as its size, the strategy of the fill or else
/// that of its order, and won exactly where the side of its order is the outcome.
pub proof fn law_trade_columns(
    f: FillRowView,
    orders: Seq<OrderRowView>,
    outcome: Option<Seq<char>>,
)
    ensures
        trade_of_fill(f, orders, outcome) is Some <==> f.filled_price is Some && f.filled_size is Some
            && (has_text(f.status, "Filled"@) || has_text(f.status, "PartialFill"@)),
        trade_of_fill(f, orders, outcome) matches Some(t) ==> {
            &&& f.filled_price == Some(t.price)
            &&& f.filled_size == Some(t.size)
            &&& f.strategy.len() > 0 ==> t.strategy == f.strategy
            &&& f.strategy.len() == 0 && order_of(orders, f.order_id) is Some ==> t.strategy
                == order_of(orders, f.order_id)->0.strategy
            &&& f.strategy.len() == 0 && order_of(orders, f.order_id) is None ==> t.strategy
                == "unknown"@
            &&& outcome is None <==> t.won is None
            &&& outcome is Some && order_of(orders, f.order_id) is Some ==> t.won == Some(
                without_quotes(uppercase(order_of(orders, f.order_id)->0.side)) == uppercase(
                    outcome->0,
                ),
            )
        },
{
}

/// Every trade of a market has the price and the size of one of its fills, in the columns of
/// those names.
pub proof fn law_trades_have_fills(
    f: Seq<FillRowView>,
    orders: Seq<OrderRowView>,
    outcome: Option<Seq<char>>,
    i: int,
)
    requires
        0 <= i < trades_of(f, orders, outcome).len(),
    ensures
        exists|k: int|
            0 <= k < f.len() && (#[trigger] f[k]).filled_price == Some(
                trades_of(f, orders, outcome)[i].price,
            ) && f[k].filled_size == Some(trades_of(f, orders, outcome)[i].size)
                && trade_of_fill(f[k], orders, outcome) == Some(trades_of(f, orders, outcome)[i]),
    decreases f.len(),
{
    if f.len() > 0 {
        let p = f.drop_last();
        let before = trades_of(p, orders, outcome);
        law_trade_columns(f.last(), orders, outcome);
        if i < before.len() {
            law_trades_have_fills(p, orders, outcome, i);
            let k = choose|k: int|
                0 <= k < p.len() && (#[trigger] p[k]).filled_price == Some(before[i].price)
                    && p[k].filled_size == Some(before[i].size) && trade_of_fill(
                    p[k],
                    orders,
                    outcome,
                ) == Some(before[i]);
            assert(f[k] == p[k]);
        } else {
            assert(f[f.len() - 1] == f.last());
        }
    }
}

/// One more answer adds its trade at the end, or nothing where it has none.
pub proof fn law_trades_in_order(
    f: Seq<FillRowView>,
    x: FillRowView,
    orders: Seq<OrderRowView>,
    outcome: Option<Seq<char>>,
)
    ensures
        trades_of(Seq::empty(), orders, outcome).len() == 0,
        trade_of_fill(x, orders, outcome) matches Some(t) ==> trades_of(f.push(x), orders, outcome)
            == trades_of(f, orders, outcome).push(t),
        trade_of_fill(x, orders, outcome) is None ==> trades_of(f.push(x), orders, outcome)
            == trades_of(f, orders, outcome),
{
    assert(f.push(x).drop_last() =~= f);
}

/// The order of a number is the last one that has it.
pub proof fn law_order_of(orders: Seq<OrderRowView>, id: u64)
    ensures
        order_of(orders, id) is None <==> forall|i: int|
            0 <= i < orders.len() ==> (#[trigger] orders[i]).order_id != id,
        order_of(orders, id) matches Some(o) ==> o.order_id == id && exists|i: int|
            0 <= i < orders.len() && #[trigger] orders[i] == o && forall|j: int|
                i < j < orders.len() ==> (#[trigger] orders[j]).order_id != id,
    decreases orders.len(),
{
    if orders.len() > 0 {
        let p = orders.drop_last();
        let n = orders.len() - 1;
        law_order_of(p, id);
        if orders.last().order_id == id {
            assert(orders[n] == orders.last());
        } else if order_of(p, id) is Some {
            let o = order_of(p, id)->0;
            let i = choose|i: int|
                0 <= i < p.len() && #[trigger] p[i] == o && forall|j: int|
                    i < j < p.len() ==> (#[trigger] p[j]).order_id != id;
            assert(orders[i] == o);
            assert forall|j: int| i < j < orders.len() implies (#[trigger] orders[j]).order_id
                != id by {
                if j < n {
                    assert(p[j] == orders[j]);
                }
            }
        } else {
            assert forall|i: int| 0 <= i < orders.len() implies (#[trigger] orders[i]).order_id
                != id by {
                if i < n {
                    assert(p[i] == orders[i]);
                }
            }
        }
    }
}

/// Quotation marks are dropped, and nothing else.
pub proof fn law_without_quotes(s: Seq<char>, c: char)
    ensures
        without_quotes(Seq::empty()) == Seq::<char>::empty(),
        c == '"' ==> without_quotes(s.push(c)) == without_quotes(s),
        c != '"' ==> without_quotes(s.push(c)) == without_quotes(s).push(c),
{
    assert(s.push(c).drop_last() =~= s);
}

/// A signal counts once for its own strategy, and as selected unless its log says that it was
/// not; an order counts once for its own strategy; neither touches another strategy or another
/// count.
pub proof fn law_signals_and_orders_count(
    m: Map<Seq<char>, StrategyCounts>,
    s: SignalRowView,
    o: OrderRowView,
    no: u32,
    other: Seq<char>,
)
    requires
        counts_or_fresh(m, s.strategy).room(1),
        counts_or_fresh(m, o.strategy).room(1),
    ensures
        ({
            let a = counts_or_fresh(m, s.strategy);
            let b = counts_or_fresh(with_signal(m, s), s.strategy);
            &&& b.signals_total == a.signals_total + 1
            &&& s.selected == Some(false) ==> b.signals_selected == a.signals_selected
            &&& s.selected != Some(false) ==> b.signals_selected == a.signals_selected + 1
            &&& b.orders == a.orders && b.fills == a.fills && b.wins == a.wins
            &&& b.markets == a.markets && b.last_market == a.last_market
            &&& other != s.strategy ==> counts_or_fresh(with_signal(m, s), other)
                == counts_or_fresh(m, other)
        }),
        ({
            let a = counts_or_fresh(m, o.strategy);
            let b = counts_or_fresh(with_order(m, o, no), o.strategy);
            &&& b.orders == a.orders + 1
            &&& b.fills == a.fills && b.wins == a.wins
            &&& b.signals_total == a.signals_total && b.signals_selected == a.signals_selected
            &&& a.last_market == Some(no) ==> b.markets == a.markets
            &&& a.last_market != Some(no) ==> b.markets == a.markets + 1
            &&& b.last_market == Some(no)
            &&& other != o.strategy ==> counts_or_fresh(with_order(m, o, no), other)
                == counts_or_fresh(m, other)
        }),
{
}

/// An answer that is a fill counts once for its own strategy, as a win exactly where its trade
/// won; one that is none counts for nothing; neither touches another strategy or another count.
pub proof fn law_fills_count(
    m: Map<Seq<char>, StrategyCounts>,
    f: FillRowView,
    orders: Seq<OrderRowView>,
    outcome: Option<Seq<char>>,
    no: u32,
    other: Seq<char>,
)
    requires
        counts_or_fresh(m, fill_strategy(f, orders)).room(1),
    ensures
        ({
            let name = fill_strategy(f, orders);
            let a = counts_or_fresh(m, name);
            let after = with_fill(m, f, orders, outcome, no);
            let b = counts_or_fresh(after, name);
            let filled = has_text(f.status, "Filled"@) || has_text(f.status, "PartialFill"@);
            let won = trade_of_fill(f, orders, outcome) matches Some(t) && t.won == Some(true);
            &&& filled ==> b.fills == a.fills + 1
            &&& filled && won ==> b.wins == a.wins + 1
            &&& !won ==> b.wins == a.wins
            &&& !filled ==> b == a
            &&& b.orders == a.orders
            &&& b.signals_total == a.signals_total && b.signals_selected == a.signals_selected
            &&& filled ==> b.last_market == Some(no)
            &&& after.contains_key(name)
            &&& other != name ==> counts_or_fresh(after, other) == counts_or_fresh(m, other)
        }),
{
}

/// Fresh counts are all zero, and a strategy that is not listed has fresh ones.
pub proof fn law_fresh_counts(m: Map<Seq<char>, StrategyCounts>, name: Seq<char>)
    ensures
        !m.contains_key(name) ==> ({
            let c = counts_or_fresh(m, name);
            c.markets == 0 && c.last_market is None && c.signals_total == 0 && c.signals_selected
                == 0 && c.orders == 0 && c.fills == 0 && c.wins == 0
        }),
        m.contains_key(name) ==> counts_or_fresh(m, name) == m[name],
{
}

/// What a trade holds is what its fields hold.
pub proof fn law_trade_view(t: Trade)
    ensures
        t@.strategy == t.strategy@,
        t@.price == t.price@,
        t@.size == t.size@,
        t@.won == t.won,
{
}

pub open spec fn earlier_of(so_far: Option<i64>, start: i64) -> i64 {
    match so_far {
        Some(e) => if e <= start {
            e
        } else {
            start
        },
        None => start,
    }
}

pub open spec fn later_of(so_far: Option<i64>, start: i64) -> i64 {
    match so_far {
        Some(l) => if l >= start {
            l
        } else {
            start
        },
        None => start,
    }
}

/// The earlier of two starts is one of them and no later than either, the later one no earlier;
/// the first start is both.
pub proof fn law_earlier_and_later(e: i64, start: i64)
    ensures
        earlier_of(Some(e), start) <= e && earlier_of(Some(e), start) <= start,
        earlier_of(Some(e), start) == e || earlier_of(Some(e), start) == start,
        later_of(Some(e), start) >= e && later_of(Some(e), start) >= start,
        later_of(Some(e), start) == e || later_of(Some(e), start) == start,
        earlier_of(None, start) == start,
        later_of(None, start) == start,
{
}

} // verus!
