//! Plain data shared by the modules.

use vstd::prelude::*;

use crate::number::Real;

verus! {

/// Which way a contract pays.
#[derive(Clone, Copy, Debug, PartialEq, Eq, Hash, Structural)]
pub enum Side {
    Up,
    Down,
}

impl Side {
    pub open spec fn other(self) -> Side {
        match self {
            Side::Up => Side::Down,
            Side::Down => Side::Up,
        }
    }
}

/// A market as it is discovered.
#[derive(Clone, Debug)]
pub struct MarketInfo {
    pub slug: String,
    pub start_ms: i64,
    pub end_ms: i64,
    pub up_token_id: String,
    pub down_token_id: String,
}

/// What a `MarketInfo` holds.
pub ghost struct MarketView {
    pub slug: Seq<char>,
    pub start_ms: i64,
    pub end_ms: i64,
    pub up_token_id: Seq<char>,
    pub down_token_id: Seq<char>,
}

impl View for MarketInfo {
    type V = MarketView;

    open spec fn view(&self) -> MarketView {
        MarketView {
            slug: self.slug@,
            start_ms: self.start_ms,
            end_ms: self.end_ms,
            up_token_id: self.up_token_id@,
            down_token_id: self.down_token_id@,
        }
    }
}

/// How long an order may rest.
#[derive(Clone, Copy, Debug, PartialEq, Eq, Hash, Structural)]
pub enum OrderType {
    /// Good until cancelled.
    GTC,
    /// Good until a date.
    GTD,
    /// Fill or kill.
    FOK,
}

/// What became of an order.
#[derive(Debug)]
pub enum OrderStatus {
    Filled,
    PartialFill,
    Live,
    Unmatched,
    Rejected(String),
}

/// Which event makes a strategy look at the market.
#[derive(Clone, Copy, Debug, PartialEq, Eq, Hash, Structural)]
pub enum EvalTrigger {
    BinanceTrade,
    PolymarketQuote,
    Both,
    MarketOpen,
}

/// A trade on Binance.
#[derive(Clone, Copy, Debug, PartialEq, Eq, Structural)]
pub struct BinanceTrade {
    pub exchange_ts_ms: i64,
    pub price: Real,
    pub qty: Real,
    pub is_buy: bool,
}

/// Best prices of both tokens, as far as an update gives them.
#[derive(Clone, Copy, Debug, PartialEq, Eq, Structural)]
pub struct PolymarketQuote {
    pub server_ts_ms: i64,
    pub up_bid: Option<Real>,
    pub up_ask: Option<Real>,
    pub down_bid: Option<Real>,
    pub down_ask: Option<Real>,
}

/// A full order book of one token: prices with sizes.
#[derive(Debug)]
pub struct PolymarketBook {
    pub is_up_token: bool,
    pub bids: Vec<(Real, Real)>,
    pub asks: Vec<(Real, Real)>,
}

/// What a strategy wants to do.
#[derive(Clone, Copy, Debug)]
pub struct Signal {
    pub strategy: &'static str,
    pub side: Side,
    pub edge: Real,
    pub fair_value: Real,
    pub market_price: Real,
    pub confidence: Real,
    pub size_frac: Real,
    /// Rests in the book instead of taking a price.
    pub is_passive: bool,
    /// Is posted at the bid.
    pub use_bid: bool,
}

/// An order as it leaves the risk gates.
#[derive(Clone, Copy, Debug)]
pub struct Order {
    pub id: u64,
    pub side: Side,
    pub price: Real,
    pub size: Real,
    pub strategy: &'static str,
    pub signal_edge: Real,
    pub is_passive: bool,
    pub order_type: OrderType,
    pub post_only: bool,
    pub expiration_ms: Option<i64>,
}

/// The answer to an order.
#[derive(Debug)]
pub struct OrderAck {
    pub order_id: u64,
    pub status: OrderStatus,
    pub filled_price: Option<Real>,
    pub filled_size: Option<Real>,
}

impl OrderAck {
    /// Whether the order was filled, wholly or in part.
    pub open spec fn fills(self) -> bool {
        self.status is Filled || self.status is PartialFill
    }

    /// Whether the order was filled, wholly or in part.
    pub fn is_fill(&self) -> (r: bool)
        ensures
            r == self.fills(),
    {
        match self.status {
            OrderStatus::Filled => true,
            OrderStatus::PartialFill => true,
            _ => false,
        }
    }
}

/// A filled order, kept for settlement.
#[derive(Clone, Copy, Debug)]
pub struct Fill {
    pub order_id: u64,
    pub strategy: &'static str,
    pub side: Side,
    pub price: Real,
    pub size: Real,
}

/// What a market holds is what its fields hold.
pub proof fn law_market_view(m: MarketInfo)
    ensures
        m@.slug == m.slug@,
        m@.start_ms == m.start_ms,
        m@.end_ms == m.end_ms,
        m@.up_token_id == m.up_token_id@,
        m@.down_token_id == m.down_token_id@,
        opt_market(Some(m)) == Some(m@),
        opt_market(None) is None,
{
}

/// An order is filled where it is filled wholly or in part, and not where it rests, found no
/// match or was rejected.
pub proof fn law_fills(a: OrderAck)
    ensures
        a.status is Filled ==> a.fills(),
        a.status is PartialFill ==> a.fills(),
        a.status is Live || a.status is Unmatched || a.status is Rejected ==> !a.fills(),
{
}

/// The other side is not the side, and the other one of the other one is.
pub proof fn law_other_side(s: Side)
    ensures
        s.other() != s,
        s.other().other() == s,
{
}

/// An optional market, taken by its view.
pub open spec fn opt_market(m: Option<MarketInfo>) -> Option<MarketView> {
    match m {
        Some(m) => Some(m@),
        None => None,
    }
}

} // verus!
