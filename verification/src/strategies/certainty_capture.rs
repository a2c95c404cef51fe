//! Buying the side that is all but certain.

use vstd::prelude::*;

use crate::number::Real;
use crate::strategies::{is_unusable, pick, pick_of, unusable, Pick, TokenView, Underlying, ONE};
use crate::strategies::{keep_between, kelly, kelly_share, kept_between, signal_on, taking_signal};
use crate::types::{EvalTrigger, Side, Signal};

verus! {

/// Certainty capture (settlement convergence): near expiry, if the price is far from the
/// strike, the outcome is near-deterministic. Buy the near-certain side if it is still
/// mispriced.
pub struct CertaintyCapture;

/// 1.5
pub const Z_MIN: u64 = 0x3FF8000000000000;

/// 0.02
pub const MIN_EDGE: u64 = 0x3F947AE147AE147B;

/// 30.0
pub const MIN_TAU: u64 = 0x403E000000000000;

/// 0.375
pub const MIN_CONFIDENCE: u64 = 0x3FD8000000000000;

/// 0.99
pub const MAX_CONFIDENCE: u64 = 0x3FEFAE147AE147AE;

impl CertaintyCapture {
    pub fn name(&self) -> (r: &'static str)
        ensures
            r@ == "certainty_capture"@,
    {
        "certainty_capture"
    }

    /// Whether `s` is the signal of a pick.
    pub open spec fn gives(s: Signal, p: Pick, raw: Real, half: Real) -> bool {
        &&& s.strategy@ == "certainty_capture"@
        &&& s == signal_on(
            s.strategy,
            p,
            kept_between(raw, MIN_CONFIDENCE, MAX_CONFIDENCE),
            kelly_share(p.edge, p.price, half),
            false,
            false,
        )
    }

    /// The signal of a pick. `raw` is a third of the z-score, without its sign, and
    /// counts between the bounds of the confidence; `half` is what `kelly` takes.
    pub fn signal(&self, p: &Pick, raw: Real, half: Real) -> (s: Signal)
        ensures
            s.strategy@ == "certainty_capture"@,
            s == signal_on(
                s.strategy,
                *p,
                kept_between(raw, MIN_CONFIDENCE, MAX_CONFIDENCE),
                kelly_share(p.edge, p.price, half),
                false,
                false,
            ),
            Self::gives(s, *p, raw, half),
    {
        taking_signal(
            "certainty_capture",
            p,
            keep_between(raw, MIN_CONFIDENCE, MAX_CONFIDENCE),
            kelly(p.edge, p.price, half),
        )
    }

    pub fn trigger(&self) -> (r: EvalTrigger)
        ensures
            r == EvalTrigger::PolymarketQuote,
    {
        EvalTrigger::PolymarketQuote
    }

    /// The decision on a z-score: the side that it points to, where it is far enough out and
    /// the token is cheap enough.
    pub open spec fn decision(u: Underlying, z: Real, up: TokenView, down: TokenView) -> Option<
        Pick,
    > {
        let side = if z.pos() {
            Side::Up
        } else {
            Side::Down
        };
        let t = if z.pos() {
            up
        } else {
            down
        };
        if u.unfit(MIN_TAU) || z.magnitude().lt(Real { bits: Z_MIN }) || unusable(t.price, ONE)
            || t.edge.lt(Real { bits: MIN_EDGE }) {
            None
        } else {
            Some(pick_of(side, t))
        }
    }

    pub fn evaluate(&self, u: &Underlying, z: Real, up: &TokenView, down: &TokenView) -> (r: Option<
        Pick,
    >)
        ensures
            r == Self::decision(*u, z, *up, *down),
    {
        if u.is_unfit(MIN_TAU) {
            return None;
        }
        if z.abs().less(Real { bits: Z_MIN }) {
            return None;
        }
        // S > K: UP is near-certain; otherwise DOWN is
        let (side, t) = if z.is_positive() {
            (Side::Up, up)
        } else {
            (Side::Down, down)
        };
        if is_unusable(t.price, ONE) {
            return None;
        }
        if t.edge.less(Real { bits: MIN_EDGE }) {
            return None;
        }
        Some(pick(side, t))
    }
}

/// A signal buys what was picked, on its side and at its price, which it takes; its confidence is kept between 0.375 and 0.99, and its
/// share of the bankroll is half-Kelly, nothing without an edge and never above 0.15.
pub proof fn law_signal_of_pick(s: Signal, p: Pick, raw: Real, half: Real)
    requires
        CertaintyCapture::gives(s, p, raw, half),
    ensures
        s.strategy@ == "certainty_capture"@,
        s.side == p.side,
        s.market_price == p.price,
        s.fair_value == p.fair,
        s.edge == p.edge,
        !s.is_passive,
        !s.use_bid,
        !s.confidence.lt(Real { bits: 0x3FD8000000000000 }),
        !(Real { bits: 0x3FEFAE147AE147AE }).lt(s.confidence),
        !raw.lt(Real { bits: 0x3FD8000000000000 }) && !(Real { bits: 0x3FEFAE147AE147AE }).lt(raw) ==> s.confidence == raw,
        raw.lt(Real { bits: 0x3FD8000000000000 }) ==> s.confidence == (Real { bits: 0x3FD8000000000000 }),
        (Real { bits: 0x3FEFAE147AE147AE }).lt(raw) ==> s.confidence == (Real { bits: 0x3FEFAE147AE147AE }),
        !s.size_frac.lt(Real { bits: 0x0000000000000000 }),
        !(Real { bits: 0x3FC3333333333333 }).lt(s.size_frac),
        p.edge.le(Real { bits: 0x0000000000000000 }) || (Real { bits: 0x3FF0000000000000 }).le(p.price) ==> s.size_frac == (Real { bits: 0x0000000000000000 }),
        !p.edge.le(Real { bits: 0x0000000000000000 }) && !(Real { bits: 0x3FF0000000000000 }).le(p.price) && (Real { bits: 0x0000000000000000 }).le(half) && half.le(
            Real { bits: 0x3FC3333333333333 },
        ) ==> s.size_frac == half,
        !p.edge.le(Real { bits: 0x0000000000000000 }) && !(Real { bits: 0x3FF0000000000000 }).le(p.price) && (Real { bits: 0x3FC3333333333333 }).lt(half) ==> s.size_frac == (Real { bits: 0x3FC3333333333333 }),
{
}

/// A pick is on the side that the z-score points to, with the price, fair value and edge of the
/// token of that very side. It is made at thirty seconds or more, on a score of at least 1.5,
/// at a price between zero and one and with an edge of at least 0.02; and where all of this
/// holds, it is made.
pub proof fn law_certain_side(
    u: Underlying,
    z: Real,
    up: TokenView,
    down: TokenView,
)
    ensures
        ({
            let r = CertaintyCapture::decision(u, z, up, down);
            let t = if z.pos() {
                up
            } else {
                down
            };
            &&& r is Some ==> {
                &&& r->0.side == Side::Up <==> z.pos()
                &&& r->0.side == Side::Up ==> r->0.price == up.price && r->0.fair == up.fair
                    && r->0.edge == up.edge
                &&& r->0.side == Side::Down ==> r->0.price == down.price && r->0.fair == down.fair
                    && r->0.edge == down.edge
                &&& !u.sigma.le(Real { bits: 0x0000000000000000 }) && !u.s.le(Real { bits: 0x0000000000000000 }) && !u.k.le(Real { bits: 0x0000000000000000 })
                &&& !u.tau.lt(Real { bits: 0x403E000000000000 })
                &&& !z.magnitude().lt(Real { bits: 0x3FF8000000000000 })
                &&& !t.price.le(Real { bits: 0x0000000000000000 }) && !(Real { bits: 0x3FF0000000000000 }).le(t.price)
                &&& !t.edge.lt(Real { bits: 0x3F947AE147AE147B })
            }
            &&& (u.sigma.pos() && u.s.pos() && u.k.pos()
                && (Real { bits: 0x403E000000000000 }).le(u.tau)
                && (Real { bits: 0x3FF8000000000000 }).le(z.magnitude())
                && t.price.pos() && t.price.lt(Real { bits: 0x3FF0000000000000 })
                && (Real { bits: 0x3F947AE147AE147B }).le(t.edge)) ==> r is Some
        }),
{
}

} // verus!
