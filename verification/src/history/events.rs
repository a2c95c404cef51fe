//! The timeline of a recorded market.

use vstd::prelude::*;

use crate::engine::book::{
    law_best_prices, law_best_prices_are_there, picked, prices_are_numbers,
};
use crate::engine::runner::StrategyKind;
use crate::engine::state::{book_taken, trade_taken, MarketState, TradeEffects};
use crate::history::rows::{
    are_books, levels_of, BinanceCsvRow, BookSide, BookSnapshot, LevelRow, PmCsvRow,
};
use crate::number::Real;
use crate::sort::{is_stable_order, law_stable_order_is_permutation, stable_order};
use crate::types::{BinanceTrade, PolymarketBook, PolymarketQuote};

verus! {

/// An event of the timeline.
#[derive(Debug)]
pub enum ReplayEvent {
    Binance { ts_ms: i64, price: Real, qty: Real, is_buy: bool },
    Polymarket { ts_ms: i64, up_bid: Real, up_ask: Real, down_bid: Real, down_ask: Real },
    Book { ts_ms: i64, is_up: bool, bids: Vec<(Real, Real)>, asks: Vec<(Real, Real)> },
}

/// What a `ReplayEvent` holds.
pub ghost enum EventView {
    Binance { ts_ms: i64, price: Real, qty: Real, is_buy: bool },
    Polymarket { ts_ms: i64, up_bid: Real, up_ask: Real, down_bid: Real, down_ask: Real },
    Book { ts_ms: i64, is_up: bool, bids: Seq<(Real, Real)>, asks: Seq<(Real, Real)> },
}

impl View for ReplayEvent {
    type V = EventView;

    open spec fn view(&self) -> EventView {
        match *self {
            ReplayEvent::Binance { ts_ms, price, qty, is_buy } => EventView::Binance {
                ts_ms,
                price,
                qty,
                is_buy,
            },
            ReplayEvent::Polymarket { ts_ms, up_bid, up_ask, down_bid, down_ask } =>
                EventView::Polymarket { ts_ms, up_bid, up_ask, down_bid, down_ask },
            ReplayEvent::Book { ts_ms, is_up, bids, asks } => EventView::Book {
                ts_ms,
                is_up,
                bids: bids@,
                asks: asks@,
            },
        }
    }
}

impl EventView {
    pub open spec fn time(self) -> i64 {
        match self {
            EventView::Binance { ts_ms, .. } => ts_ms,
            EventView::Polymarket { ts_ms, .. } => ts_ms,
            EventView::Book { ts_ms, .. } => ts_ms,
        }
    }

    /// The place of the event among those of the same time: trades, books, quotes. A
    /// quote is looked at with the depth of its time in place.
    pub open spec fn rank(self) -> int {
        match self {
            EventView::Binance { .. } => 0,
            EventView::Book { .. } => 1,
            EventView::Polymarket { .. } => 2,
        }
    }

    pub open spec fn label(self) -> Seq<char> {
        match self {
            EventView::Binance { .. } => "BN Trade"@,
            EventView::Polymarket { .. } => "PM Quote"@,
            EventView::Book { .. } => "PM Book"@,
        }
    }
}

impl ReplayEvent {
    pub fn ts_ms(&self) -> (r: i64)
        ensures
            r == self@.time(),
    {
        match self {
            ReplayEvent::Binance { ts_ms, .. } => *ts_ms,
            ReplayEvent::Polymarket { ts_ms, .. } => *ts_ms,
            ReplayEvent::Book { ts_ms, .. } => *ts_ms,
        }
    }

    pub fn type_label(&self) -> (r: &'static str)
        ensures
            r@ == self@.label(),
    {
        match self {
            ReplayEvent::Binance { .. } => "BN Trade",
            ReplayEvent::Polymarket { .. } => "PM Quote",
            ReplayEvent::Book { .. } => "PM Book",
        }
    }
}

pub open spec fn event_views(v: Seq<ReplayEvent>) -> Seq<EventView> {
    v.map_values(|e: ReplayEvent| e@)
}

pub open spec fn trade_event(t: BinanceCsvRow) -> EventView {
    EventView::Binance { ts_ms: t.ts_ms, price: t.price, qty: t.qty, is_buy: t.is_buy }
}

pub open spec fn quote_event(q: PmCsvRow) -> EventView {
    EventView::Polymarket {
        ts_ms: q.ts_ms,
        up_bid: q.up_bid,
        up_ask: q.up_ask,
        down_bid: q.down_bid,
        down_ask: q.down_ask,
    }
}

pub open spec fn book_event(b: BookSnapshot) -> EventView {
    EventView::Book { ts_ms: b.ts_ms, is_up: b.is_up, bids: b.bids@, asks: b.asks@ }
}

/// The events of all three records, one record after the other.
pub open spec fn all_events(
    trades: Seq<BinanceCsvRow>,
    quotes: Seq<PmCsvRow>,
    books: Seq<BookSnapshot>,
) -> Seq<EventView> {
    trades.map_values(|t: BinanceCsvRow| trade_event(t)) + quotes.map_values(
        |q: PmCsvRow| quote_event(q),
    ) + books.map_values(|b: BookSnapshot| book_event(b))
}

/// A number that orders events by time, and at one time by rank.
pub open spec fn event_key(e: EventView) -> int {
    e.time() * 4 + e.rank()
}

pub open spec fn event_keys(all: Seq<EventView>) -> Seq<i128> {
    all.map_values(|e: EventView| event_key(e) as i128)
}

/// Whether `merged` holds all events by time, at one time trades before books before quotes,
/// and otherwise in the order of the records.
pub open spec fn is_timeline(all: Seq<EventView>, merged: Seq<EventView>) -> bool {
    exists|order: Seq<usize>| #[trigger]
        is_stable_order(event_keys(all), order) && merged == picked(all, order)
}

fn copy_levels(v: &Vec<(Real, Real)>) -> (r: Vec<(Real, Real)>)
    ensures
        r@ == v@,
{
    let mut r: Vec<(Real, Real)> = Vec::new();
    let mut i: usize = 0;
    while i < v.len()
        invariant
            i <= v.len(),
            r@ == v@.take(i as int),
        decreases v.len() - i,
    {
        r.push(v[i]);
        assert(v@.take(i + 1) =~= v@.take(i as int).push(v@[i as int]));
        i = i + 1;
    }
    assert(v@.take(i as int) =~= v@);
    r
}

fn key_of(ts_ms: i64, rank: u8) -> (r: i128)
    requires
        rank <= 2,
    ensures
        r == ts_ms * 4 + rank,
{
    ts_ms as i128 * 4 + rank as i128
}

fn collect_keys(
    trades: &Vec<BinanceCsvRow>,
    quotes: &Vec<PmCsvRow>,
    books: &Vec<BookSnapshot>,
) -> (keys: Vec<i128>)
    ensures
        keys@ == event_keys(all_events(trades@, quotes@, books@)),
{
    let ghost all = all_events(trades@, quotes@, books@);
    let ghost want = event_keys(all);
    let mut keys: Vec<i128> = Vec::new();
    let mut i: usize = 0;
    while i < trades.len()
        invariant
            i <= trades.len(),
            all == all_events(trades@, quotes@, books@),
            want == event_keys(all),
            keys@.len() == i,
            forall|j: int| 0 <= j < i ==> keys@[j] == want[j],
        decreases trades.len() - i,
    {
        assert(all[i as int] == trade_event(trades@[i as int]));
        keys.push(key_of(trades[i].ts_ms, 0));
        i = i + 1;
    }
    i = 0;
    while i < quotes.len()
        invariant
            i <= quotes.len(),
            all == all_events(trades@, quotes@, books@),
            want == event_keys(all),
            keys@.len() == trades@.len() + i,
            forall|j: int| 0 <= j < keys@.len() ==> keys@[j] == want[j],
        decreases quotes.len() - i,
    {
        assert(all[trades@.len() + i] == quote_event(quotes@[i as int]));
        keys.push(key_of(quotes[i].ts_ms, 2));
        i = i + 1;
    }
    i = 0;
    while i < books.len()
        invariant
            i <= books.len(),
            all == all_events(trades@, quotes@, books@),
            want == event_keys(all),
            keys@.len() == trades@.len() + quotes@.len() + i,
            forall|j: int| 0 <= j < keys@.len() ==> keys@[j] == want[j],
        decreases books.len() - i,
    {
        assert(all[trades@.len() + quotes@.len() + i] == book_event(books@[i as int]));
        keys.push(key_of(books[i].ts_ms, 1));
        i = i + 1;
    }
    assert(keys@ =~= want);
    keys
}

fn event_at(
    trades: &Vec<BinanceCsvRow>,
    quotes: &Vec<PmCsvRow>,
    books: &Vec<BookSnapshot>,
    at: usize,
) -> (e: ReplayEvent)
    requires
        at < trades@.len() + quotes@.len() + books@.len(),
    ensures
        e@ == all_events(trades@, quotes@, books@)[at as int],
{
    if at < trades.len() {
        let t = trades[at];
        ReplayEvent::Binance { ts_ms: t.ts_ms, price: t.price, qty: t.qty, is_buy: t.is_buy }
    } else if at - trades.len() < quotes.len() {
        let q = quotes[at - trades.len()];
        ReplayEvent::Polymarket {
            ts_ms: q.ts_ms,
            up_bid: q.up_bid,
            up_ask: q.up_ask,
            down_bid: q.down_bid,
            down_ask: q.down_ask,
        }
    } else {
        let b = &books[at - trades.len() - quotes.len()];
        ReplayEvent::Book {
            ts_ms: b.ts_ms,
            is_up: b.is_up,
            bids: copy_levels(&b.bids),
            asks: copy_levels(&b.asks),
        }
    }
}

/// The timeline of a recorded market.
pub fn merge_events(
    trades: &Vec<BinanceCsvRow>,
    quotes: &Vec<PmCsvRow>,
    books: &Vec<BookSnapshot>,
) -> (r: Vec<ReplayEvent>)
    ensures
        is_timeline(all_events(trades@, quotes@, books@), event_views(r@)),
{
    let keys = collect_keys(trades, quotes, books);
    let order = stable_order(&keys);
    let ghost all = all_events(trades@, quotes@, books@);
    let mut out: Vec<ReplayEvent> = Vec::new();
    let mut i: usize = 0;
    while i < order.len()
        invariant
            i <= order.len(),
            all == all_events(trades@, quotes@, books@),
            all.len() == trades@.len() + quotes@.len() + books@.len(),
            keys@ == event_keys(all),
            is_stable_order(keys@, order@),
            out@.len() == i,
            forall|j: int|
                0 <= j < i ==> (#[trigger] out@[j])@ == all[order@[j] as int],
        decreases order.len() - i,
    {
        let at: usize = order[i];
        out.push(event_at(trades, quotes, books, at));
        i = i + 1;
    }
    assert(event_views(out@) =~= picked(all, order@));
    out
}

/// In a timeline no event comes before an earlier one, nor, at one time, before one of a
/// smaller rank; and every event is there.
pub proof fn law_timeline_is_ordered(all: Seq<EventView>, merged: Seq<EventView>, i: int, j: int)
    requires
        is_timeline(all, merged),
        all.len() <= usize::MAX,
        0 <= i < j < merged.len(),
    ensures
        merged.len() == all.len(),
        merged[i].time() <= merged[j].time(),
        merged[i].time() == merged[j].time() ==> merged[i].rank() <= merged[j].rank(),
        forall|k: int| 0 <= k < all.len() ==> merged.contains(#[trigger] all[k]),
{
    let keys = event_keys(all);
    let order = choose|order: Seq<usize>| #[trigger]
        is_stable_order(keys, order) && merged == picked(all, order);
    let a = order[i] as int;
    let b = order[j] as int;
    assert(crate::sort::comes_before(keys, a, b));
    assert(merged[i] == all[a] && merged[j] == all[b]);
    assert(keys[a] == event_key(all[a]) && keys[b] == event_key(all[b]));
    assert forall|k: int| 0 <= k < all.len() implies merged.contains(#[trigger] all[k]) by {
        law_stable_order_is_permutation(keys, order, k as usize);
        let p = choose|p: int| 0 <= p < order.len() && order[p] == k as usize;
        assert(merged[p] == all[k]);
    }
}

// ── What an event asks for ──

/// A bid up to this is no real one: 0.02.
pub const LEAST_BID: u64 = 0x3F947AE147AE147B;

/// An ask from this on is no real one: 0.98.
pub const MOST_ASK: u64 = 0x3FEF5C28F5C28F5C;

pub open spec fn real_bid(v: Real) -> Option<Real> {
    if (Real { bits: LEAST_BID }).lt(v) {
        Some(v)
    } else {
        None
    }
}

pub open spec fn real_ask(v: Real) -> Option<Real> {
    if v.pos() && v.lt(Real { bits: MOST_ASK }) {
        Some(v)
    } else {
        None
    }
}

fn bid_if_real(v: Real) -> (r: Option<Real>)
    ensures
        r == real_bid(v),
{
    let least = Real { bits: LEAST_BID };
    if least.less(v) {
        Some(v)
    } else {
        None
    }
}

fn ask_if_real(v: Real) -> (r: Option<Real>)
    ensures
        r == real_ask(v),
{
    if v.is_positive() && v.less(Real { bits: MOST_ASK }) {
        Some(v)
    } else {
        None
    }
}

/// What the market state takes in for an event.
#[derive(Debug)]
pub enum MarketInput {
    Trade(BinanceTrade),
    Quote(PolymarketQuote),
    Book(PolymarketBook),
}

/// Whether `r` is what an event brings to the market.
pub open spec fn plays(e: EventView, r: MarketInput) -> bool {
    match e {
        EventView::Binance { ts_ms, price, qty, is_buy } => r == MarketInput::Trade(
            BinanceTrade { exchange_ts_ms: ts_ms, price, qty, is_buy },
        ),
        EventView::Polymarket { ts_ms, up_bid, up_ask, down_bid, down_ask } => r
            == MarketInput::Quote(
            PolymarketQuote {
                server_ts_ms: ts_ms,
                up_bid: real_bid(up_bid),
                up_ask: real_ask(up_ask),
                down_bid: real_bid(down_bid),
                down_ask: real_ask(down_ask),
            },
        ),
        EventView::Book { ts_ms, is_up, bids, asks } => r matches MarketInput::Book(b)
            && b.is_up_token == is_up && b.bids@ == bids && b.asks@ == asks,
    }
}

/// A trade brings its own time, price, quantity and side; quotes bring the bid and the ask of each
/// token as its bid and its ask, those that are real; a book brings its bids as bids and its asks
/// as asks, to its own token.
pub proof fn law_event_plays(e: EventView, r: MarketInput)
    requires
        plays(e, r),
    ensures
        e is Binance <==> r is Trade,
        e is Polymarket <==> r is Quote,
        e is Book <==> r is Book,
        e matches EventView::Binance { ts_ms, price, qty, is_buy } ==> (r matches MarketInput::Trade(t)
            && t.exchange_ts_ms == ts_ms && t.price == price && t.qty == qty && t.is_buy == is_buy),
        e matches EventView::Polymarket { ts_ms, up_bid, up_ask, down_bid, down_ask } ==> (r
            matches MarketInput::Quote(q) && q.server_ts_ms == ts_ms && (q.up_bid matches Some(p)
            ==> p == up_bid) && (q.up_ask matches Some(p) ==> p == up_ask) && (q.down_bid matches Some(
            p,
        ) ==> p == down_bid) && (q.down_ask matches Some(p) ==> p == down_ask) && (q.up_bid is Some
            <==> real_bid(up_bid) is Some) && (q.up_ask is Some <==> real_ask(up_ask) is Some) && (
        q.down_bid is Some <==> real_bid(down_bid) is Some) && (q.down_ask is Some <==> real_ask(
            down_ask,
        ) is Some)),
        e matches EventView::Book { ts_ms, is_up, bids, asks } ==> (r matches MarketInput::Book(b)
            && b.is_up_token == is_up && b.bids@ == bids && b.asks@ == asks),
{
}

/// What the market state takes in for an event: a trade, a quote without the prices that are no
/// real ones, or a book.
pub fn apply_event(event: &ReplayEvent) -> (r: MarketInput)
    ensures
        plays(event@, r),
        match event@ {
            EventView::Binance { ts_ms, price, qty, is_buy } => r == MarketInput::Trade(
                BinanceTrade { exchange_ts_ms: ts_ms, price, qty, is_buy },
            ),
            EventView::Polymarket { ts_ms, up_bid, up_ask, down_bid, down_ask } => r
                == MarketInput::Quote(
                PolymarketQuote {
                    server_ts_ms: ts_ms,
                    up_bid: real_bid(up_bid),
                    up_ask: real_ask(up_ask),
                    down_bid: real_bid(down_bid),
                    down_ask: real_ask(down_ask),
                },
            ),
            EventView::Book { ts_ms, is_up, bids, asks } => r matches MarketInput::Book(b)
                && b.is_up_token == is_up && b.bids@ == bids && b.asks@ == asks,
        },
{
    match event {
        ReplayEvent::Binance { ts_ms, price, qty, is_buy } => MarketInput::Trade(
            BinanceTrade { exchange_ts_ms: *ts_ms, price: *price, qty: *qty, is_buy: *is_buy },
        ),
        ReplayEvent::Polymarket { ts_ms, up_bid, up_ask, down_bid, down_ask } =>
            MarketInput::Quote(
            PolymarketQuote {
                server_ts_ms: *ts_ms,
                up_bid: bid_if_real(*up_bid),
                up_ask: ask_if_real(*up_ask),
                down_bid: bid_if_real(*down_bid),
                down_ask: ask_if_real(*down_ask),
            },
        ),
        ReplayEvent::Book { is_up, bids, asks, .. } => MarketInput::Book(
            PolymarketBook {
                is_up_token: *is_up,
                bids: copy_levels(bids),
                asks: copy_levels(asks),
            },
        ),
    }
}

/// Takes a recorded event into the state of a market. A trade asks for what it asks for live.
pub fn advance(state: &mut MarketState, event: &ReplayEvent) -> (r: Option<TradeEffects>)
    requires
        old(state).wf(),
        old(state).bn.ewma_vol.n_samples < u32::MAX,
        old(state).bn.regime@.len() < u32::MAX,
        event@ matches EventView::Book { bids, asks, .. } ==> prices_are_numbers(bids)
            && prices_are_numbers(asks),
    ensures
        final(state).wf(),
        r is Some <==> event@ is Binance,
        match event@ {
            EventView::Binance { ts_ms, price, qty, is_buy } => {
                &&& trade_taken(
                    old(state).bn,
                    BinanceTrade { exchange_ts_ms: ts_ms, price, qty, is_buy },
                    final(state).bn,
                    r->0,
                )
                &&& *final(state) == (MarketState { bn: final(state).bn, ..*old(state) })
            },
            EventView::Polymarket { ts_ms, up_bid, up_ask, down_bid, down_ask } => *final(state)
                == old(state).after_quote(
                PolymarketQuote {
                    server_ts_ms: ts_ms,
                    up_bid: real_bid(up_bid),
                    up_ask: real_ask(up_ask),
                    down_bid: real_bid(down_bid),
                    down_ask: real_ask(down_ask),
                },
            ),
            EventView::Book { is_up, bids, asks, .. } => book_taken(
                *old(state),
                is_up,
                bids,
                asks,
                *final(state),
            ),
        },
{
    match apply_event(event) {
        MarketInput::Trade(t) => Some(state.on_binance_trade(t)),
        MarketInput::Quote(q) => {
            state.on_polymarket_quote(q);
            None
        },
        MarketInput::Book(b) => {
            state.on_book_update(b);
            None
        },
    }
}

proof fn lemma_counted_levels(rows: Seq<LevelRow>, ts_ms: i64, is_up: bool, side: BookSide)
    ensures
        prices_are_numbers(levels_of(rows, ts_ms, is_up, side)),
    decreases rows.len(),
{
    if rows.len() > 0 {
        lemma_counted_levels(rows.drop_last(), ts_ms, is_up, side);
    }
}

/// Every event of the timeline of a record can be played: the prices of its books are numbers.
pub proof fn law_timeline_can_be_played(
    trades: Seq<BinanceCsvRow>,
    quotes: Seq<PmCsvRow>,
    rows: Seq<LevelRow>,
    books: Seq<BookSnapshot>,
    merged: Seq<EventView>,
    i: int,
)
    requires
        are_books(rows, books),
        is_timeline(all_events(trades, quotes, books), merged),
        0 <= i < merged.len(),
    ensures
        merged[i] matches EventView::Book { bids, asks, .. } ==> prices_are_numbers(bids)
            && prices_are_numbers(asks),
{
    let all = all_events(trades, quotes, books);
    let order = choose|order: Seq<usize>| #[trigger]
        is_stable_order(event_keys(all), order) && merged == picked(all, order);
    let k = order[i] as int;
    assert(merged[i] == all[k]);
    if merged[i] is Book {
        let j = k - trades.len() - quotes.len();
        assert(all[k] == book_event(books[j]));
        let b = books[j];
        lemma_counted_levels(rows, b.ts_ms, b.is_up, BookSide::Bid);
        lemma_counted_levels(rows, b.ts_ms, b.is_up, BookSide::Ask);
    }
}

/// How long a market counts as opening, in milliseconds: a twentieth of its length, at least
/// 15 seconds and at most 300.
pub open spec fn opening_ms(start_ms: int, end_ms: int) -> int {
    let part = (end_ms - start_ms) / 20;
    if part < 15_000 {
        15_000
    } else if part > 300_000 {
        300_000
    } else {
        part
    }
}

/// Whether a market is opening.
pub open spec fn is_opening(start_ms: i64, end_ms: i64, now_ms: i64) -> bool {
    0 <= now_ms - start_ms <= opening_ms(start_ms as int, end_ms as int)
}

/// Whether a market is opening.
pub fn in_opening(start_ms: i64, end_ms: i64, now_ms: i64) -> (r: bool)
    ensures
        r == is_opening(start_ms, end_ms, now_ms),
{
    let length: i128 = end_ms as i128 - start_ms as i128;
    let part: i128 = if length < 300_000 {
        15_000
    } else if length > 6_000_000 {
        300_000
    } else {
        length / 20
    };
    let elapsed: i128 = now_ms as i128 - start_ms as i128;
    0 <= elapsed && elapsed <= part
}

/// The strategies that look at an event: two after a trade, four after a quote or a book, and
/// one more while the market is opening.
pub open spec fn strategies_for(e: EventView, opening: bool) -> Seq<StrategyKind> {
    let first = if e is Binance {
        seq![StrategyKind::LatencyArb, StrategyKind::LpExtreme]
    } else {
        seq![
            StrategyKind::CertaintyCapture,
            StrategyKind::ConvexityFade,
            StrategyKind::CrossTimeframe,
            StrategyKind::LpExtreme,
        ]
    };
    if opening {
        first.push(StrategyKind::StrikeMisalign)
    } else {
        first
    }
}

/// The strategies that look at an event of a market; none before the market has data.
pub fn evaluate_event(event: &ReplayEvent, has_data: bool, start_ms: i64, end_ms: i64) -> (r: Vec<
    StrategyKind,
>)
    ensures
        r@ == (if has_data {
            strategies_for(event@, is_opening(start_ms, end_ms, event@.time()))
        } else {
            Seq::empty()
        }),
{
    let mut out: Vec<StrategyKind> = Vec::new();
    if !has_data {
        return out;
    }
    match event {
        ReplayEvent::Binance { .. } => {
            out.push(StrategyKind::LatencyArb);
            out.push(StrategyKind::LpExtreme);
        },
        _ => {
            out.push(StrategyKind::CertaintyCapture);
            out.push(StrategyKind::ConvexityFade);
            out.push(StrategyKind::CrossTimeframe);
            out.push(StrategyKind::LpExtreme);
        },
    }
    let opening = in_opening(start_ms, end_ms, event.ts_ms());
    if opening {
        out.push(StrategyKind::StrikeMisalign);
    }
    assert(out@ =~= strategies_for(event@, opening));
    out
}

/// Every event of a timeline is that of one record, as it was recorded: a trade with its price,
/// quantity and direction, a quote with its four prices, a book with the bids of the record as
/// its bids and the asks of the record as its asks.
pub proof fn law_events_are_records(
    trades: Seq<BinanceCsvRow>,
    quotes: Seq<PmCsvRow>,
    books: Seq<BookSnapshot>,
    merged: Seq<EventView>,
    i: int,
)
    requires
        is_timeline(all_events(trades, quotes, books), merged),
        0 <= i < merged.len(),
    ensures
        merged[i] matches EventView::Binance { ts_ms, price, qty, is_buy } ==> exists|k: int|
            0 <= k < trades.len() && (#[trigger] trades[k]).ts_ms == ts_ms && trades[k].price
                == price && trades[k].qty == qty && trades[k].is_buy == is_buy,
        merged[i] matches EventView::Polymarket { ts_ms, up_bid, up_ask, down_bid, down_ask }
            ==> exists|k: int|
            0 <= k < quotes.len() && (#[trigger] quotes[k]).ts_ms == ts_ms && quotes[k].up_bid
                == up_bid && quotes[k].up_ask == up_ask && quotes[k].down_bid == down_bid
                && quotes[k].down_ask == down_ask,
        merged[i] matches EventView::Book { ts_ms, is_up, bids, asks } ==> exists|k: int|
            0 <= k < books.len() && (#[trigger] books[k]).ts_ms == ts_ms && books[k].is_up == is_up
                && books[k].bids@ == bids && books[k].asks@ == asks,
{
    let all = all_events(trades, quotes, books);
    let order = choose|order: Seq<usize>| #[trigger]
        is_stable_order(event_keys(all), order) && merged == picked(all, order);
    let k = order[i] as int;
    assert(merged[i] == all[k]);
    if k < trades.len() {
        assert(all[k] == trade_event(trades[k]));
        assert(trades[k].ts_ms == merged[i]->Binance_ts_ms);
    } else if k < trades.len() + quotes.len() {
        let j = k - trades.len();
        assert(all[k] == quote_event(quotes[j]));
        assert(quotes[j].ts_ms == merged[i]->Polymarket_ts_ms);
    } else {
        let j = k - trades.len() - quotes.len();
        assert(all[k] == book_event(books[j]));
        assert(books[j].ts_ms == merged[i]->Book_ts_ms);
    }
}

/// Every record is played: each trade, quote and book has its event in the timeline, and there
/// are no more events than records.
pub proof fn law_records_are_played(
    trades: Seq<BinanceCsvRow>,
    quotes: Seq<PmCsvRow>,
    books: Seq<BookSnapshot>,
    merged: Seq<EventView>,
    k: int,
)
    requires
        is_timeline(all_events(trades, quotes, books), merged),
        trades.len() + quotes.len() + books.len() <= usize::MAX,
    ensures
        merged.len() == trades.len() + quotes.len() + books.len(),
        0 <= k < trades.len() ==> merged.contains(
            EventView::Binance {
                ts_ms: trades[k].ts_ms,
                price: trades[k].price,
                qty: trades[k].qty,
                is_buy: trades[k].is_buy,
            },
        ),
        0 <= k < quotes.len() ==> merged.contains(
            EventView::Polymarket {
                ts_ms: quotes[k].ts_ms,
                up_bid: quotes[k].up_bid,
                up_ask: quotes[k].up_ask,
                down_bid: quotes[k].down_bid,
                down_ask: quotes[k].down_ask,
            },
        ),
        0 <= k < books.len() ==> merged.contains(
            EventView::Book {
                ts_ms: books[k].ts_ms,
                is_up: books[k].is_up,
                bids: books[k].bids@,
                asks: books[k].asks@,
            },
        ),
{
    let all = all_events(trades, quotes, books);
    let keys = event_keys(all);
    let order = choose|order: Seq<usize>| #[trigger]
        is_stable_order(keys, order) && merged == picked(all, order);
    if 0 <= k < trades.len() {
        lemma_event_is_there(all, order, merged, k);
        assert(all[k] == trade_event(trades[k]));
    }
    if 0 <= k < quotes.len() {
        let a = trades.len() + k;
        lemma_event_is_there(all, order, merged, a);
        assert(all[a] == quote_event(quotes[k]));
    }
    if 0 <= k < books.len() {
        let a = trades.len() + quotes.len() + k;
        lemma_event_is_there(all, order, merged, a);
        assert(all[a] == book_event(books[k]));
    }
}

proof fn lemma_event_is_there(
    all: Seq<EventView>,
    order: Seq<usize>,
    merged: Seq<EventView>,
    k: int,
)
    requires
        is_stable_order(event_keys(all), order),
        merged == picked(all, order),
        0 <= k < all.len() <= usize::MAX,
    ensures
        merged.contains(all[k]),
{
    law_stable_order_is_permutation(event_keys(all), order, k as usize);
    let p = choose|p: int| 0 <= p < order.len() && order[p] == k as usize;
    assert(merged[p] == all[k]);
}

/// At one time trades come before books and books before quotes; otherwise events of one kind
/// keep the order of their record.
pub proof fn law_kinds_at_one_time(
    all: Seq<EventView>,
    merged: Seq<EventView>,
    i: int,
    j: int,
)
    requires
        is_timeline(all, merged),
        all.len() <= usize::MAX,
        0 <= i < j < merged.len(),
        merged[i].time() == merged[j].time(),
    ensures
        merged[j] is Binance ==> merged[i] is Binance,
        merged[j] is Book ==> !(merged[i] is Polymarket),
{
    law_timeline_is_ordered(all, merged, i, j);
}

/// The time and the name of an event.
pub proof fn law_event_label(e: EventView)
    ensures
        e matches EventView::Binance { ts_ms, .. } ==> e.time() == ts_ms && e.label() == "BN Trade"@,
        e matches EventView::Polymarket { ts_ms, .. } ==> e.time() == ts_ms && e.label()
            == "PM Quote"@,
        e matches EventView::Book { ts_ms, .. } ==> e.time() == ts_ms && e.label() == "PM Book"@,
{
}

/// What an event holds is what its fields hold.
pub proof fn law_event_view(e: ReplayEvent)
    ensures
        e matches ReplayEvent::Binance { ts_ms, price, qty, is_buy } ==> e@ == (EventView::Binance {
            ts_ms,
            price,
            qty,
            is_buy,
        }),
        e matches ReplayEvent::Polymarket { ts_ms, up_bid, up_ask, down_bid, down_ask } ==> e@ == (
        EventView::Polymarket { ts_ms, up_bid, up_ask, down_bid, down_ask }),
        e matches ReplayEvent::Book { ts_ms, is_up, bids, asks } ==> e@ == (EventView::Book {
            ts_ms,
            is_up,
            bids: bids@,
            asks: asks@,
        }),
{
}

/// A bid counts above 0.02, an ask above zero and below 0.98, each as it is.
pub proof fn law_real_prices(v: Real)
    ensures
        real_bid(v) is Some <==> (Real { bits: 0x3F947AE147AE147B }).lt(v),
        real_ask(v) is Some <==> (Real { bits: 0x0000000000000000 }).lt(v) && v.lt(Real { bits: 0x3FEF5C28F5C28F5C }),
        real_bid(v) matches Some(x) ==> x == v,
        real_ask(v) matches Some(x) ==> x == v,
{
}

/// After the event of a recorded book is played, the best bid of its token is the highest
/// recorded bid and the best ask the lowest recorded ask, and the prices of the other token are
/// as they were.
pub proof fn law_played_book(before: MarketState, after: MarketState, b: BookSnapshot)
    requires
        book_event(b) matches EventView::Book { is_up, bids, asks, .. } && book_taken(
            before,
            is_up,
            bids,
            asks,
            after,
        ),
        b.bids@.len() <= usize::MAX,
        b.asks@.len() <= usize::MAX,
    ensures
        b.is_up ==> is_best(b, after.up_bid, after.up_ask) && after.down_bid == before.down_bid
            && after.down_ask == before.down_ask,
        !b.is_up ==> is_best(b, after.down_bid, after.down_ask) && after.up_bid == before.up_bid
            && after.up_ask == before.up_ask,
        after.strike == before.strike && after.bn == before.bn,
{
    let book = if b.is_up {
        after.up_book
    } else {
        after.down_book
    };
    law_best_prices(book, b.bids@, b.asks@);
    law_best_prices_are_there(book, b.bids@, b.asks@);
}

/// Whether a bid is the highest bid of a recorded book and an ask its lowest ask; zero stands
/// where there is none.
pub open spec fn is_best(b: BookSnapshot, bid: Real, ask: Real) -> bool {
    &&& forall|k: int| 0 <= k < b.bids@.len() ==> (#[trigger] b.bids@[k]).0.key() <= bid.key()
    &&& forall|k: int| 0 <= k < b.asks@.len() ==> ask.key() <= (#[trigger] b.asks@[k]).0.key()
    &&& b.bids@.len() > 0 ==> exists|k: int|
        0 <= k < b.bids@.len() && (#[trigger] b.bids@[k]).0 == bid
    &&& b.asks@.len() > 0 ==> exists|k: int|
        0 <= k < b.asks@.len() && (#[trigger] b.asks@[k]).0 == ask
    &&& b.bids@.len() == 0 ==> bid.bits == 0
    &&& b.asks@.len() == 0 ==> ask.bits == 0
}

/// The opening of a market lasts from 15 to 300 seconds, a twentieth of its length in between;
/// the market opens at its start.
pub proof fn law_opening(start_ms: i64, end_ms: i64, now_ms: i64)
    ensures
        15_000 <= opening_ms(start_ms as int, end_ms as int) <= 300_000,
        300_000 <= end_ms - start_ms <= 6_000_000 ==> 20 * opening_ms(start_ms as int, end_ms as int)
            <= end_ms - start_ms < 20 * opening_ms(start_ms as int, end_ms as int) + 20,
        is_opening(start_ms, end_ms, start_ms),
        now_ms < start_ms ==> !is_opening(start_ms, end_ms, now_ms),
        now_ms > start_ms + 300_000 ==> !is_opening(start_ms, end_ms, now_ms),
        start_ms <= now_ms <= start_ms + 15_000 ==> is_opening(start_ms, end_ms, now_ms),
        300_000 <= end_ms - start_ms <= 6_000_000 ==> (is_opening(start_ms, end_ms, now_ms)
            <==> start_ms <= now_ms && 20 * (now_ms - start_ms) <= end_ms - start_ms),
        end_ms - start_ms < 300_000 ==> (is_opening(start_ms, end_ms, now_ms) <==> start_ms <= now_ms
            && now_ms <= start_ms + 15_000),
        end_ms - start_ms > 6_000_000 ==> (is_opening(start_ms, end_ms, now_ms) <==> start_ms
            <= now_ms && now_ms <= start_ms + 300_000),
{
}

/// Which strategies look at an event: the latency race at trades alone; certainty, fades and
/// volatility at quotes and books alone; liquidity at all; the strike while the market opens.
pub proof fn law_strategies_for(e: EventView, opening: bool)
    ensures
        strategies_for(e, opening).contains(StrategyKind::LatencyArb) <==> e is Binance,
        strategies_for(e, opening).contains(StrategyKind::CertaintyCapture) <==> !(e is Binance),
        strategies_for(e, opening).contains(StrategyKind::ConvexityFade) <==> !(e is Binance),
        strategies_for(e, opening).contains(StrategyKind::CrossTimeframe) <==> !(e is Binance),
        strategies_for(e, opening).contains(StrategyKind::LpExtreme),
        strategies_for(e, opening).contains(StrategyKind::StrikeMisalign) <==> opening,
{
    let s = strategies_for(e, opening);
    if e is Binance {
        assert(s[0] == StrategyKind::LatencyArb);
        assert(s[1] == StrategyKind::LpExtreme);
    } else {
        assert(s[0] == StrategyKind::CertaintyCapture);
        assert(s[1] == StrategyKind::ConvexityFade);
        assert(s[2] == StrategyKind::CrossTimeframe);
        assert(s[3] == StrategyKind::LpExtreme);
    }
    if opening {
        assert(s.last() == StrategyKind::StrikeMisalign);
    }
}

} // verus!
