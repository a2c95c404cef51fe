//! Buying what the order book has not caught up with.

use vstd::prelude::*;

use crate::number::Real;
use crate::strategies::{is_tradable, pick, pick_of, tradable, Pick, TokenView, Underlying, ONE};
use crate::strategies::{keep_between, kelly, kelly_share, kept_between, signal_on, taking_signal};
use crate::types::{EvalTrigger, Side, Signal};

verus! {

/// Microstructure latency arbitrage: Polymarket quotes lag Binance. When the price moves, the
/// fair probability is computed from Binance and stale quotes are hit.
pub struct LatencyArb;

/// 0.02, the largest share of the bankroll in a trade
pub const MAX_SIZE_FRAC: u64 = 0x3F947AE147AE147B;

/// 0.03, three cents after fees
pub const MIN_EDGE: u64 = 0x3F9EB851EB851EB8;

/// 0.3
pub const MIN_CONFIDENCE: u64 = 0x3FD3333333333333;

/// 1.0
pub const MAX_CONFIDENCE: u64 = 0x3FF0000000000000;

impl LatencyArb {
    pub fn name(&self) -> (r: &'static str)
        ensures
            r@ == "latency_arb"@,
    {
        "latency_arb"
    }

    /// Whether `s` is the signal of a pick.
    pub open spec fn gives(s: Signal, p: Pick, raw: Real, half: Real) -> bool {
        &&& s.strategy@ == "latency_arb"@
        &&& s == signal_on(
            s.strategy,
            p,
            kept_between(raw, MIN_CONFIDENCE, MAX_CONFIDENCE),
            kelly_share(p.edge, p.price, half).lesser(Real { bits: MAX_SIZE_FRAC }),
            false,
            false,
        )
    }

    /// The signal of a pick. `raw` is the edge over 0.10, and
    /// counts between the bounds of the confidence; `half` is what `kelly` takes.
    pub fn signal(&self, p: &Pick, raw: Real, half: Real) -> (s: Signal)
        ensures
            s.strategy@ == "latency_arb"@,
            s == signal_on(
                s.strategy,
                *p,
                kept_between(raw, MIN_CONFIDENCE, MAX_CONFIDENCE),
                kelly_share(p.edge, p.price, half).lesser(Real { bits: MAX_SIZE_FRAC }),
                false,
                false,
            ),
            Self::gives(s, *p, raw, half),
    {
        taking_signal(
            "latency_arb",
            p,
            keep_between(raw, MIN_CONFIDENCE, MAX_CONFIDENCE),
            kelly(p.edge, p.price, half).min(Real { bits: MAX_SIZE_FRAC }),
        )
    }

    pub fn trigger(&self) -> (r: EvalTrigger)
        ensures
            r == EvalTrigger::BinanceTrade,
    {
        EvalTrigger::BinanceTrade
    }

    /// The token with the greater positive edge; the up token where neither is greater.
    pub open spec fn best(up: TokenView, down: TokenView) -> Option<Pick> {
        let up_ok = tradable(up.price) && up.edge.pos();
        let down_ok = tradable(down.price) && if up_ok {
            up.edge.lt(down.edge)
        } else {
            down.edge.pos()
        };
        if down_ok {
            Some(pick_of(Side::Down, down))
        } else if up_ok {
            Some(pick_of(Side::Up, up))
        } else {
            None
        }
    }

    pub open spec fn decision(u: Underlying, up: TokenView, down: TokenView) -> Option<Pick> {
        if u.unfit(ONE) {
            None
        } else {
            match Self::best(up, down) {
                Some(p) => if p.edge.lt(Real { bits: MIN_EDGE }) {
                    None
                } else {
                    Some(p)
                },
                None => None,
            }
        }
    }

    pub fn evaluate(&self, u: &Underlying, up: &TokenView, down: &TokenView) -> (r: Option<Pick>)
        ensures
            r == Self::decision(*u, *up, *down),
    {
        if u.is_unfit(ONE) {
            return None;
        }
        let mut best: Option<Pick> = None;
        let mut best_edge = Real::zero();
        if is_tradable(up.price) && best_edge.less(up.edge) {
            best_edge = up.edge;
            best = Some(pick(Side::Up, up));
        }
        if is_tradable(down.price) && best_edge.less(down.edge) {
            best_edge = down.edge;
            best = Some(pick(Side::Down, down));
        }
        if best_edge.less(Real { bits: MIN_EDGE }) {
            return None;
        }
        best
    }
}

/// A pick has at least the least edge, and no tradable token has a greater one.
pub proof fn law_latency_pick(u: Underlying, up: TokenView, down: TokenView)
    requires
        LatencyArb::decision(u, up, down) is Some,
    ensures
        ({
            let p = LatencyArb::decision(u, up, down)->0;
            &&& (Real { bits: MIN_EDGE }).le(p.edge)
            &&& tradable(p.price)
            &&& tradable(up.price) ==> !p.edge.lt(up.edge)
            &&& tradable(down.price) ==> !p.edge.lt(down.edge)
        }),
{
}

/// A signal buys what was picked, on its side and at its price, which it takes; its confidence is kept between 0.3 and 1.0, and its
/// share of the bankroll is half-Kelly, nothing without an edge and never above 0.02.
pub proof fn law_signal_of_pick(s: Signal, p: Pick, raw: Real, half: Real)
    requires
        LatencyArb::gives(s, p, raw, half),
    ensures
        s.strategy@ == "latency_arb"@,
        s.side == p.side,
        s.market_price == p.price,
        s.fair_value == p.fair,
        s.edge == p.edge,
        !s.is_passive,
        !s.use_bid,
        !s.confidence.lt(Real { bits: 0x3FD3333333333333 }),
        !(Real { bits: 0x3FF0000000000000 }).lt(s.confidence),
        !raw.lt(Real { bits: 0x3FD3333333333333 }) && !(Real { bits: 0x3FF0000000000000 }).lt(raw) ==> s.confidence == raw,
        raw.lt(Real { bits: 0x3FD3333333333333 }) ==> s.confidence == (Real { bits: 0x3FD3333333333333 }),
        (Real { bits: 0x3FF0000000000000 }).lt(raw) ==> s.confidence == (Real { bits: 0x3FF0000000000000 }),
        !s.size_frac.lt(Real { bits: 0x0000000000000000 }),
        !(Real { bits: 0x3F947AE147AE147B }).lt(s.size_frac),
        p.edge.le(Real { bits: 0x0000000000000000 }) || (Real { bits: 0x3FF0000000000000 }).le(p.price) ==> s.size_frac == (Real { bits: 0x0000000000000000 }),
        !p.edge.le(Real { bits: 0x0000000000000000 }) && !(Real { bits: 0x3FF0000000000000 }).le(p.price) && (Real { bits: 0x0000000000000000 }).le(half) && half.le(
            Real { bits: 0x3F947AE147AE147B },
        ) ==> s.size_frac == half,
        !p.edge.le(Real { bits: 0x0000000000000000 }) && !(Real { bits: 0x3FF0000000000000 }).le(p.price) && (Real { bits: 0x3F947AE147AE147B }).lt(half) ==> s.size_frac == (Real { bits: 0x3F947AE147AE147B }),
{
}

/// A pick is on a side with the price, fair value and edge of the token of that very side: the
/// tradable token with the greater edge, the up token where both are equal. It is made where
/// there is volatility, a second left, a price and a strike, with an edge of at least 0.03; and
/// where a tradable token has that edge, it is made.
pub proof fn law_latency_side(u: Underlying, up: TokenView, down: TokenView)
    ensures
        ({
            let r = LatencyArb::decision(u, up, down);
            &&& r is Some ==> {
                &&& r->0.side == Side::Up ==> r->0.price == up.price && r->0.fair == up.fair
                    && r->0.edge == up.edge
                &&& r->0.side == Side::Down ==> r->0.price == down.price && r->0.fair == down.fair
                    && r->0.edge == down.edge
                &&& r->0.side == Side::Down && up.price.pos() && up.price.lt(
                    Real { bits: 0x3FF0000000000000 },
                ) && up.edge.pos() ==> up.edge.lt(down.edge)
                &&& r->0.side == Side::Up && down.price.pos() && down.price.lt(
                    Real { bits: 0x3FF0000000000000 },
                ) ==> !up.edge.lt(down.edge)
                &&& r->0.price.pos() && r->0.price.lt(Real { bits: 0x3FF0000000000000 })
                &&& (Real { bits: 0x3F9EB851EB851EB8 }).le(r->0.edge)
                &&& !u.sigma.le(Real { bits: 0x0000000000000000 }) && !u.s.le(Real { bits: 0x0000000000000000 }) && !u.k.le(Real { bits: 0x0000000000000000 })
                &&& !u.tau.lt(Real { bits: 0x3FF0000000000000 })
            }
            &&& u.sigma.pos() && u.s.pos() && u.k.pos() && (Real { bits: 0x3FF0000000000000 }).le(u.tau) && ((up.price.pos()
                && up.price.lt(Real { bits: 0x3FF0000000000000 }) && (Real { bits: 0x3F9EB851EB851EB8 }).le(up.edge)) || (down.price.pos()
                && down.price.lt(Real { bits: 0x3FF0000000000000 }) && (Real { bits: 0x3F9EB851EB851EB8 }).le(down.edge))) ==> r is Some
        }),
{
}

} // verus!
