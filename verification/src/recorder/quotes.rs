//! What a record keeps of the order book stream.

use vstd::prelude::*;
use vstd::string::*;

use crate::engine::state::quoted;
use crate::feeds::polymarket::{either, message_events};
use crate::json::{json_of_text, list_view, parse_json, Json, JsonView};
use crate::number::{json_number, number_of_json, opt_quoted, Quoted, QuotedView, Real};
use crate::text::str_eq;

verus! {

/// A level of a book message: price and size, as far as they can be read.
#[derive(Debug)]
pub struct LevelMessage {
    pub price: Option<Quoted>,
    pub size: Option<Quoted>,
}

/// What a `LevelMessage` holds.
pub ghost struct LevelMessageView {
    pub price: Option<QuotedView>,
    pub size: Option<QuotedView>,
}

impl View for LevelMessage {
    type V = LevelMessageView;

    open spec fn view(&self) -> LevelMessageView {
        LevelMessageView { price: opt_quoted(self.price), size: opt_quoted(self.size) }
    }
}

pub open spec fn level_messages(v: Seq<LevelMessage>) -> Seq<LevelMessageView> {
    v.map_values(|l: LevelMessage| l@)
}

/// An event of the stream that is recorded.
#[derive(Debug)]
pub enum RecordedEvent {
    Quote { is_up: bool, bid: Option<Quoted>, ask: Option<Quoted> },
    Book { is_up: bool, bids: Vec<LevelMessage>, asks: Vec<LevelMessage> },
}

/// What a `RecordedEvent` holds.
pub ghost enum RecordedView {
    Quote { is_up: bool, bid: Option<QuotedView>, ask: Option<QuotedView> },
    Book { is_up: bool, bids: Seq<LevelMessageView>, asks: Seq<LevelMessageView> },
}

impl View for RecordedEvent {
    type V = RecordedView;

    open spec fn view(&self) -> RecordedView {
        match *self {
            RecordedEvent::Quote { is_up, bid, ask } => RecordedView::Quote {
                is_up,
                bid: opt_quoted(bid),
                ask: opt_quoted(ask),
            },
            RecordedEvent::Book { is_up, bids, asks } => RecordedView::Book {
                is_up,
                bids: level_messages(bids@),
                asks: level_messages(asks@),
            },
        }
    }
}

pub open spec fn recorded_views(v: Seq<RecordedEvent>) -> Seq<RecordedView> {
    v.map_values(|e: RecordedEvent| e@)
}

/// The levels under a member; none where it is no list.
pub open spec fn levels_at(event: JsonView, key: Seq<char>) -> Seq<LevelMessageView> {
    match event.get(key) {
        Some(v) => match v.as_list() {
            Some(items) => items.map_values(
                |l: JsonView|
                    LevelMessageView {
                        price: json_number(l.get("price"@)),
                        size: json_number(l.get("size"@)),
                    },
            ),
            None => Seq::empty(),
        },
        None => Seq::empty(),
    }
}

/// What is recorded of an event: quotes and books of either token.
pub open spec fn recorded_of(event: JsonView, up: Seq<char>, down: Seq<char>) -> Option<
    RecordedView,
> {
    let kind = event.text_or_empty("event_type"@);
    let asset = event.text_or_empty("asset_id"@);
    if asset != up && asset != down {
        None
    } else if kind == "best_bid_ask"@ || kind == "price_change"@ {
        Some(
            RecordedView::Quote {
                is_up: asset == up,
                bid: either(json_number(event.get("best_bid"@)), json_number(event.get("price"@))),
                ask: json_number(event.get("best_ask"@)),
            },
        )
    } else if kind == "book"@ {
        Some(
            RecordedView::Book {
                is_up: asset == up,
                bids: levels_at(event, "bids"@),
                asks: levels_at(event, "asks"@),
            },
        )
    } else {
        None
    }
}

/// What is recorded of events, in their order.
pub open spec fn recorded_all(events: Seq<JsonView>, up: Seq<char>, down: Seq<char>) -> Seq<
    RecordedView,
>
    decreases events.len(),
{
    if events.len() == 0 {
        Seq::empty()
    } else {
        let before = recorded_all(events.drop_last(), up, down);
        match recorded_of(events.last(), up, down) {
            Some(e) => before.push(e),
            None => before,
        }
    }
}

/// What is recorded of a message.
pub open spec fn recorded_message(v: JsonView, up: Seq<char>, down: Seq<char>) -> Seq<
    RecordedView,
> {
    match message_events(v) {
        Some(events) => recorded_all(events, up, down),
        None => Seq::empty(),
    }
}

fn read_levels(event: &Json, key: &str) -> (r: Vec<LevelMessage>)
    ensures
        level_messages(r@) == levels_at(event.view(), key@),
{
    let mut out: Vec<LevelMessage> = Vec::new();
    assert(level_messages(out@) =~= Seq::empty());
    if let Some(v) = event.get(key) {
        if let Some(items) = v.as_list() {
            let ghost want = levels_at(event.view(), key@);
            let ghost views = list_view(items@);
            let mut i: usize = 0;
            assert(level_messages(out@) =~= want.take(0));
            while i < items.len()
                invariant
                    i <= items@.len(),
                    views == list_view(items@),
                    want == views.map_values(
                        |l: JsonView|
                            LevelMessageView {
                                price: json_number(l.get("price"@)),
                                size: json_number(l.get("size"@)),
                            },
                    ),
                    level_messages(out@) == want.take(i as int),
                decreases items@.len() - i,
            {
                let ghost before = level_messages(out@);
                let l = LevelMessage {
                    price: number_of_json(items[i].get("price")),
                    size: number_of_json(items[i].get("size")),
                };
                out.push(l);
                proof {
                    assert(views[i as int] == items@[i as int].view());
                    assert(want[i as int] == l@);
                    assert(level_messages(out@) =~= before.push(l@));
                    assert(want.take(i + 1) =~= want.take(i as int).push(l@));
                }
                i = i + 1;
            }
            assert(want.take(i as int) =~= want);
        }
    }
    out
}

fn record_event(event: &Json, up: &str, down: &str) -> (r: Option<RecordedEvent>)
    ensures
        match r {
            Some(e) => recorded_of(event.view(), up@, down@) == Some(e@),
            None => recorded_of(event.view(), up@, down@) is None,
        },
{
    let kind = event.text_or_empty("event_type");
    let asset = event.text_or_empty("asset_id");
    let is_up = str_eq(asset.as_str(), up);
    if !is_up && !str_eq(asset.as_str(), down) {
        return None;
    }
    if str_eq(kind.as_str(), "best_bid_ask") || str_eq(kind.as_str(), "price_change") {
        let bid = match number_of_json(event.get("best_bid")) {
            Some(b) => Some(b),
            None => number_of_json(event.get("price")),
        };
        Some(RecordedEvent::Quote { is_up, bid, ask: number_of_json(event.get("best_ask")) })
    } else if str_eq(kind.as_str(), "book") {
        Some(
            RecordedEvent::Book {
                is_up,
                bids: read_levels(event, "bids"),
                asks: read_levels(event, "asks"),
            },
        )
    } else {
        None
    }
}

/// What is recorded of a message.
pub fn events_from_json(v: &Json, up_token: &str, down_token: &str) -> (r: Vec<RecordedEvent>)
    ensures
        recorded_views(r@) == recorded_message(v.view(), up_token@, down_token@),
{
    let mut out: Vec<RecordedEvent> = Vec::new();
    assert(recorded_views(out@) =~= Seq::empty());
    if let Some(events) = v.as_list() {
        let ghost all = list_view(events@);
        let mut i: usize = 0;
        assert(all.take(0) =~= Seq::empty());
        while i < events.len()
            invariant
                i <= events@.len(),
                all == list_view(events@),
                recorded_views(out@) == recorded_all(
                    all.take(i as int),
                    up_token@,
                    down_token@,
                ),
            decreases events@.len() - i,
        {
            assert(all.take(i + 1).drop_last() =~= all.take(i as int));
            assert(all[i as int] == events@[i as int].view());
            let ghost before = recorded_views(out@);
            if let Some(e) = record_event(&events[i], up_token, down_token) {
                out.push(e);
                assert(recorded_views(out@) =~= before.push(e@));
            }
            i = i + 1;
        }
        assert(all.take(i as int) =~= all);
    } else if let Json::Object(_) = v {
        let ghost one = seq![v.view()];
        assert(one.drop_last() =~= Seq::empty());
        assert(recorded_all(one.drop_last(), up_token@, down_token@) =~= Seq::empty());
        if let Some(e) = record_event(v, up_token, down_token) {
            out.push(e);
            assert(recorded_views(out@) =~= Seq::empty().push(e@));
        }
    }
    out
}

/// What is recorded of the text of a message; nothing where it cannot be read.
pub fn record_message(text: &str, up_token: &str, down_token: &str) -> (r: Vec<RecordedEvent>)
    ensures
        recorded_views(r@) == match json_of_text(text@) {
            Ok(v) => recorded_message(v, up_token@, down_token@),
            Err(_) => Seq::empty(),
        },
{
    match parse_json(text) {
        Ok(v) => events_from_json(&v, up_token, down_token),
        Err(_) => {
            let out: Vec<RecordedEvent> = Vec::new();
            assert(recorded_views(out@) =~= Seq::empty());
            out
        },
    }
}

// ── The best prices ──

/// The best prices of both tokens so far, zero where none is known.
#[derive(Clone, Copy, Debug, PartialEq, Eq, Structural)]
pub struct QuoteBoard {
    pub up_bid: Real,
    pub up_ask: Real,
    pub down_bid: Real,
    pub down_ask: Real,
}

/// The price of the first level, where it is above zero.
pub open spec fn top_price(levels: Seq<(Real, Real)>) -> Option<Real> {
    if levels.len() > 0 && levels[0].0.pos() {
        Some(levels[0].0)
    } else {
        None
    }
}

fn top(levels: &Vec<(Real, Real)>) -> (r: Option<Real>)
    ensures
        r == top_price(levels@),
{
    if levels.len() > 0 && levels[0].0.is_positive() {
        Some(levels[0].0)
    } else {
        None
    }
}

impl QuoteBoard {
    pub fn new() -> (b: Self)
        ensures
            b == (QuoteBoard {
                up_bid: Real { bits: 0 },
                up_ask: Real { bits: 0 },
                down_bid: Real { bits: 0 },
                down_ask: Real { bits: 0 },
            }),
    {
        QuoteBoard {
            up_bid: Real::zero(),
            up_ask: Real::zero(),
            down_bid: Real::zero(),
            down_ask: Real::zero(),
        }
    }

    pub open spec fn after(self, is_up: bool, bid: Option<Real>, ask: Option<Real>) -> QuoteBoard {
        if is_up {
            QuoteBoard {
                up_bid: quoted(bid, self.up_bid),
                up_ask: quoted(ask, self.up_ask),
                ..self
            }
        } else {
            QuoteBoard {
                down_bid: quoted(bid, self.down_bid),
                down_ask: quoted(ask, self.down_ask),
                ..self
            }
        }
    }

    /// Takes a quote in: each price that it gives replaces the one before.
    pub fn on_quote(&mut self, is_up: bool, bid: Option<Real>, ask: Option<Real>)
        ensures
            *final(self) == old(self).after(is_up, bid, ask),
    {
        if is_up {
            if let Some(b) = bid {
                self.up_bid = b;
            }
            if let Some(a) = ask {
                self.up_ask = a;
            }
        } else {
            if let Some(b) = bid {
                self.down_bid = b;
            }
            if let Some(a) = ask {
                self.down_ask = a;
            }
        }
    }

    /// Takes a book in: the price of the first level of each side, where it is above zero,
    /// replaces the one before.
    pub fn on_book(&mut self, is_up: bool, bids: &Vec<(Real, Real)>, asks: &Vec<(Real, Real)>)
        ensures
            *final(self) == old(self).after(is_up, top_price(bids@), top_price(asks@)),
    {
        self.on_quote(is_up, top(bids), top(asks));
    }
}

/// The levels that are written down: those with a price and a size above zero.
pub open spec fn written_levels(levels: Seq<(Real, Real)>) -> Seq<usize>
    decreases levels.len(),
{
    if levels.len() == 0 {
        Seq::empty()
    } else {
        let before = written_levels(levels.drop_last());
        if levels.last().0.pos() && levels.last().1.pos() {
            before.push((levels.len() - 1) as usize)
        } else {
            before
        }
    }
}

/// The positions of the levels that are written down: those with a price and a size above zero.
pub fn recorded_levels(levels: &Vec<(Real, Real)>) -> (r: Vec<usize>)
    ensures
        r@ == written_levels(levels@),
{
    let mut out: Vec<usize> = Vec::new();
    let mut i: usize = 0;
    assert(levels@.take(0) =~= Seq::empty());
    while i < levels.len()
        invariant
            i <= levels@.len(),
            out@ == written_levels(levels@.take(i as int)),
        decreases levels@.len() - i,
    {
        assert(levels@.take(i + 1).drop_last() =~= levels@.take(i as int));
        if levels[i].0.is_positive() && levels[i].1.is_positive() {
            out.push(i);
        }
        i = i + 1;
    }
    assert(levels@.take(i as int) =~= levels@);
    out
}

/// The price of a token between bid and ask.
#[derive(Clone, Copy, Debug, PartialEq, Eq, Structural)]
pub enum Mid {
    /// Half of the sum of both.
    Average,
    /// One of them.
    Price(Real),
}

/// The price of a token.
pub open spec fn mid_taken(bid: Real, ask: Real) -> Mid {
    if bid.pos() && ask.pos() {
        Mid::Average
    } else {
        Mid::Price(bid.greater(ask))
    }
}

/// The middle is taken exactly where both prices are above zero; with one of them missing the
/// price is the other one.
pub proof fn law_mid(bid: Real, ask: Real)
    ensures
        mid_taken(bid, ask) == Mid::Average <==> (Real { bits: 0 }).lt(bid) && (Real { bits: 0 }).lt(
            ask,
        ),
        (Real { bits: 0 }).lt(bid) ==> mid_taken(bid, Real { bits: 0 }) == Mid::Price(bid),
        (Real { bits: 0 }).lt(ask) ==> mid_taken(Real { bits: 0 }, ask) == Mid::Price(ask),
        mid_taken(bid, ask) matches Mid::Price(p) ==> (p == bid || p == ask) && (bid.le(ask)
            ==> p.same(ask)) && (ask.le(bid) ==> p.same(bid)),
{
}

/// The price of a token: the middle, where both prices are above zero, or else the larger one.
pub fn mid_of(bid: Real, ask: Real) -> (r: Mid)
    ensures
        r == mid_taken(bid, ask),
        r == (if bid.pos() && ask.pos() {
            Mid::Average
        } else {
            Mid::Price(bid.greater(ask))
        }),
{
    if bid.is_positive() && ask.is_positive() {
        Mid::Average
    } else {
        Mid::Price(bid.max(ask))
    }
}

/// An event of another token is not recorded, and one of either token is only where it quotes
/// prices or brings a book; a recorded one is of the up token exactly where it names that.
pub proof fn law_what_is_recorded(event: JsonView, up: Seq<char>, down: Seq<char>)
    ensures
        ({
            let kind = event.text_or_empty("event_type"@);
            let asset = event.text_or_empty("asset_id"@);
            let r = recorded_of(event, up, down);
            &&& asset != up && asset != down ==> r is None
            &&& (asset == up || asset == down) && (kind == "best_bid_ask"@ || kind
                == "price_change"@) ==> r is Some && r->0 is Quote
            &&& (asset == up || asset == down) && kind == "book"@ ==> r is Some && r->0 is Book
            &&& r is Some ==> kind == "best_bid_ask"@ || kind == "price_change"@ || kind == "book"@
            &&& r matches Some(RecordedView::Quote { is_up, bid, ask }) ==> {
                &&& is_up <==> asset == up
                &&& ask == json_number(event.get("best_ask"@))
                &&& json_number(event.get("best_bid"@)) is Some ==> bid == json_number(
                    event.get("best_bid"@),
                )
                &&& json_number(event.get("best_bid"@)) is None ==> bid == json_number(
                    event.get("price"@),
                )
            }
            &&& r matches Some(RecordedView::Book { is_up, bids, asks }) ==> {
                &&& is_up <==> asset == up
                &&& bids == levels_at(event, "bids"@)
                &&& asks == levels_at(event, "asks"@)
            }
        }),
{
    reveal_strlit("best_bid_ask");
    reveal_strlit("price_change");
    reveal_strlit("book");
    assert("book"@.len() == 4 && "best_bid_ask"@.len() == 12 && "price_change"@.len() == 12);
}

/// A level has the price under `price` and the size under `size`, and levels stay in their order.
pub proof fn law_levels_at(event: JsonView, key: Seq<char>, items: Seq<JsonView>, i: int)
    requires
        event.get(key) == Some(JsonView::List(items)),
        0 <= i < items.len(),
    ensures
        levels_at(event, key).len() == items.len(),
        levels_at(event, key)[i].price == json_number(items[i].get("price"@)),
        levels_at(event, key)[i].size == json_number(items[i].get("size"@)),
{
}

/// One more event is recorded at the end, where it is one that is recorded.
pub proof fn law_recorded_in_order(
    events: Seq<JsonView>,
    e: JsonView,
    up: Seq<char>,
    down: Seq<char>,
)
    ensures
        recorded_of(e, up, down) matches Some(r) ==> recorded_all(events.push(e), up, down)
            == recorded_all(events, up, down).push(r),
        recorded_of(e, up, down) is None ==> recorded_all(events.push(e), up, down) == recorded_all(
            events,
            up,
            down,
        ),
        recorded_all(Seq::empty(), up, down).len() == 0,
        recorded_message(JsonView::List(events), up, down) == recorded_all(events, up, down),
{
    assert(events.push(e).drop_last() =~= events);
}

/// What a recorded event holds is what its fields hold.
pub proof fn law_recorded_view(is_up: bool, p: Option<Quoted>, q: Option<Quoted>)
    ensures
        (RecordedEvent::Quote { is_up, bid: p, ask: q })@ == (RecordedView::Quote {
            is_up,
            bid: opt_quoted(p),
            ask: opt_quoted(q),
        }),
        (LevelMessage { price: p, size: q })@.price == opt_quoted(p),
        (LevelMessage { price: p, size: q })@.size == opt_quoted(q),
{
}

/// A book that is recorded holds its bids as bids and its asks as asks.
pub proof fn law_recorded_book_view(is_up: bool, b: Vec<LevelMessage>, a: Vec<LevelMessage>, i: int)
    ensures
        (RecordedEvent::Book { is_up, bids: b, asks: a })@ == (RecordedView::Book {
            is_up,
            bids: level_messages(b@),
            asks: level_messages(a@),
        }),
        level_messages(b@).len() == b@.len(),
        0 <= i < b@.len() ==> level_messages(b@)[i] == b@[i]@,
{
}

/// A quote moves the prices of its own token, each that it gives, bid by bid and ask by ask, and
/// nothing else.
pub proof fn law_board_moves(b: QuoteBoard, is_up: bool, bid: Option<Real>, ask: Option<Real>)
    ensures
        ({
            let z = b.after(is_up, bid, ask);
            &&& is_up ==> z.down_bid == b.down_bid && z.down_ask == b.down_ask
            &&& !is_up ==> z.up_bid == b.up_bid && z.up_ask == b.up_ask
            &&& is_up && bid is Some ==> z.up_bid == bid->0
            &&& is_up && bid is None ==> z.up_bid == b.up_bid
            &&& is_up && ask is Some ==> z.up_ask == ask->0
            &&& is_up && ask is None ==> z.up_ask == b.up_ask
            &&& !is_up && bid is Some ==> z.down_bid == bid->0
            &&& !is_up && bid is None ==> z.down_bid == b.down_bid
            &&& !is_up && ask is Some ==> z.down_ask == ask->0
            &&& !is_up && ask is None ==> z.down_ask == b.down_ask
        }),
{
}

/// The top price is that of the first level, and only where it is above zero.
pub proof fn law_top_price(levels: Seq<(Real, Real)>, p: Real, s: Real)
    ensures
        (Real { bits: 0 }).lt(p) ==> top_price(seq![(p, s)] + levels) == Some(p),
        !(Real { bits: 0 }).lt(p) ==> top_price(seq![(p, s)] + levels) is None,
        top_price(Seq::empty()) is None,
{
    assert((seq![(p, s)] + levels)[0] == (p, s));
}

/// A level is written down exactly where its price and its size are above zero, and levels keep
/// their order.
pub proof fn law_written_levels(levels: Seq<(Real, Real)>, p: Real, s: Real)
    ensures
        (Real { bits: 0 }).lt(p) && (Real { bits: 0 }).lt(s) ==> written_levels(levels.push((p, s)))
            == written_levels(levels).push(levels.len() as usize),
        !(Real { bits: 0 }).lt(p) || !(Real { bits: 0 }).lt(s) ==> written_levels(
            levels.push((p, s)),
        ) == written_levels(levels),
        written_levels(Seq::empty()).len() == 0,
{
    assert(levels.push((p, s)).drop_last() =~= levels);
}

} // verus!
