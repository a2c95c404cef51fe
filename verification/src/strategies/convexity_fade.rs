//! Fading swings near the strike.

use vstd::prelude::*;

use crate::engine::pipeline::House;
use crate::math::regime::Regime;
use crate::number::Real;
use crate::strategies::{is_tradable, pick, pick_of, tradable, Pick, TokenView, Underlying};
use crate::strategies::{kelly, kelly_share, signal_on, taking_signal};
use crate::types::{EvalTrigger, Side, Signal};

verus! {

/// Convexity fading (near-strike oscillation trading): near the strike and near expiry, small
/// oscillations become large probability swings. Fade them unless the price trends.
pub struct ConvexityFade;

/// 0.005, the largest share of the bankroll in a trade
pub const MAX_SIZE_FRAC: u64 = 0x3F747AE147AE147B;

/// 0.003, within 0.3% of strike
pub const MAX_DIST_FRAC: u64 = 0x3F689374BC6A7EFA;

/// 30.0
pub const MIN_TAU: u64 = 0x403E000000000000;

/// 0.02
pub const MIN_EDGE: u64 = 0x3F947AE147AE147B;

/// 0.08, beyond which the spread is blown out
pub const MAX_SPREAD: u64 = 0x3FB47AE147AE147B;

/// 0.25, below which bids are too thin
pub const IMBALANCE_SKIP: u64 = 0x3FD0000000000000;

/// 0.4
pub const CONFIDENCE: u64 = 0x3FD999999999999A;

impl ConvexityFade {
    pub fn name(&self) -> (r: &'static str)
        ensures
            r@ == "convexity_fade"@,
    {
        "convexity_fade"
    }

    /// Whether `s` is the signal of a pick.
    pub open spec fn gives(s: Signal, p: Pick, half: Real) -> bool {
        &&& s.strategy@ == "convexity_fade"@
        &&& s == signal_on(
            s.strategy,
            p,
            Real { bits: CONFIDENCE },
            kelly_share(p.edge, p.price, half).lesser(Real { bits: MAX_SIZE_FRAC }),
            false,
            false,
        )
    }

    /// The signal of a pick, always of the same confidence. `half` is what `kelly` takes.
    pub fn signal(&self, p: &Pick, half: Real) -> (s: Signal)
        ensures
            s.strategy@ == "convexity_fade"@,
            s == signal_on(
                s.strategy,
                *p,
                Real { bits: CONFIDENCE },
                kelly_share(p.edge, p.price, half).lesser(Real { bits: MAX_SIZE_FRAC }),
                false,
                false,
            ),
            Self::gives(s, *p, half),
    {
        taking_signal(
            "convexity_fade",
            p,
            Real { bits: CONFIDENCE },
            kelly(p.edge, p.price, half).min(Real { bits: MAX_SIZE_FRAC }),
        )
    }

    pub fn trigger(&self) -> (r: EvalTrigger)
        ensures
            r == EvalTrigger::PolymarketQuote,
    {
        EvalTrigger::PolymarketQuote
    }

    /// The token to fade with: the up token where its edge is the greater one and large
    /// enough, otherwise the down token where its edge is large enough.
    pub open spec fn choice(up: TokenView, down: TokenView) -> Option<(Side, TokenView)> {
        let least = Real { bits: MIN_EDGE };
        if tradable(up.price) && down.edge.lt(up.edge) && least.lt(up.edge) {
            Some((Side::Up, up))
        } else if tradable(down.price) && least.lt(down.edge) {
            Some((Side::Down, down))
        } else {
            None
        }
    }

    pub open spec fn decision(
        u: Underlying,
        regime: Regime,
        dist_frac: Real,
        up: TokenView,
        down: TokenView,
    ) -> Option<Pick> {
        if regime == Regime::Trend || u.unfit(MIN_TAU) || (Real { bits: MAX_DIST_FRAC }).lt(
            dist_frac.magnitude(),
        ) {
            None
        } else {
            match Self::choice(up, down) {
                Some((side, t)) => if (Real { bits: MAX_SPREAD }).lt(t.spread) || t.imbalance.lt(
                    Real { bits: IMBALANCE_SKIP },
                ) {
                    None
                } else {
                    Some(pick_of(side, t))
                },
                None => None,
            }
        }
    }

    /// `dist_frac` is the distance of the price from the strike as a fraction of the strike.
    pub fn evaluate(
        &self,
        u: &Underlying,
        regime: Regime,
        dist_frac: Real,
        up: &TokenView,
        down: &TokenView,
    ) -> (r: Option<Pick>)
        ensures
            r == Self::decision(*u, regime, dist_frac, *up, *down),
    {
        // Range or Ambiguous ok, Trend blocked
        if regime == Regime::Trend {
            return None;
        }
        if u.is_unfit(MIN_TAU) {
            return None;
        }
        if (Real { bits: MAX_DIST_FRAC }).less(dist_frac.abs()) {
            return None;
        }
        let least = Real { bits: MIN_EDGE };
        let (side, t) = if is_tradable(up.price) && down.edge.less(up.edge) && least.less(
            up.edge,
        ) {
            (Side::Up, up)
        } else if is_tradable(down.price) && least.less(down.edge) {
            (Side::Down, down)
        } else {
            return None;
        };
        // Skip if spread is blown out or depth is heavily one-sided against us
        if (Real { bits: MAX_SPREAD }).less(t.spread) {
            return None;
        }
        if t.imbalance.less(Real { bits: IMBALANCE_SKIP }) {
            return None;
        }
        Some(pick(side, t))
    }
}

/// In a trend nothing is faded.
pub proof fn law_no_fade_in_trend(
    u: Underlying,
    dist_frac: Real,
    up: TokenView,
    down: TokenView,
)
    ensures
        ConvexityFade::decision(u, Regime::Trend, dist_frac, up, down) is None,
{
}

/// A fade never sets the side of the house: an order on one of its signals leaves the view of
/// the house as it was.
pub proof fn law_fade_leaves_house(h: House, signal: Signal, p: Pick, half: Real)
    requires
        signal == signal_on(
            signal.strategy,
            p,
            Real { bits: CONFIDENCE },
            kelly_share(p.edge, p.price, half).lesser(Real { bits: MAX_SIZE_FRAC }),
            false,
            false,
        ),
    ensures
        h.after_order(signal) == h,
{
}

/// A signal buys what was picked, on its side and at its price, which it takes; its confidence is always 0.4, and its
/// share of the bankroll is half-Kelly, nothing without an edge and never above 0.005.
pub proof fn law_signal_of_pick(s: Signal, p: Pick, half: Real)
    requires
        ConvexityFade::gives(s, p, half),
    ensures
        s.strategy@ == "convexity_fade"@,
        s.side == p.side,
        s.market_price == p.price,
        s.fair_value == p.fair,
        s.edge == p.edge,
        !s.is_passive,
        !s.use_bid,
        s.confidence == (Real { bits: 0x3FD999999999999A }),
        !s.size_frac.lt(Real { bits: 0x0000000000000000 }),
        !(Real { bits: 0x3F747AE147AE147B }).lt(s.size_frac),
        p.edge.le(Real { bits: 0x0000000000000000 }) || (Real { bits: 0x3FF0000000000000 }).le(p.price) ==> s.size_frac == (Real { bits: 0x0000000000000000 }),
        !p.edge.le(Real { bits: 0x0000000000000000 }) && !(Real { bits: 0x3FF0000000000000 }).le(p.price) && (Real { bits: 0x0000000000000000 }).le(half) && half.le(
            Real { bits: 0x3F747AE147AE147B },
        ) ==> s.size_frac == half,
        !p.edge.le(Real { bits: 0x0000000000000000 }) && !(Real { bits: 0x3FF0000000000000 }).le(p.price) && (Real { bits: 0x3F747AE147AE147B }).lt(half) ==> s.size_frac == (Real { bits: 0x3F747AE147AE147B }),
{
}

/// A fade is on a side with the price, fair value and edge of the token of that very side: the
/// up token where its edge is the greater one, otherwise the down token. It is made off trends,
/// at thirty seconds or more, within 0.003 of the strike, at a price between zero and one, with
/// an edge above 0.02, a spread of at most 0.08 and a share of the bids of at least 0.25; and
/// where all of this holds of the token, it is made.
pub proof fn law_fade_side(
    u: Underlying,
    regime: Regime,
    dist_frac: Real,
    up: TokenView,
    down: TokenView,
)
    ensures
        ({
            let r = ConvexityFade::decision(u, regime, dist_frac, up, down);
            let up_goes = up.price.pos() && up.price.lt(Real { bits: 0x3FF0000000000000 }) && down.edge.lt(up.edge)
                && (Real { bits: 0x3F947AE147AE147B }).lt(up.edge);
            let t = if up_goes {
                up
            } else {
                down
            };
            &&& r is Some ==> {
                &&& r->0.side == Side::Up <==> up_goes
                &&& r->0.side == Side::Up ==> r->0.price == up.price && r->0.fair == up.fair
                    && r->0.edge == up.edge
                &&& r->0.side == Side::Down ==> r->0.price == down.price && r->0.fair == down.fair
                    && r->0.edge == down.edge
                &&& regime != Regime::Trend
                &&& !u.sigma.le(Real { bits: 0x0000000000000000 }) && !u.s.le(Real { bits: 0x0000000000000000 }) && !u.k.le(Real { bits: 0x0000000000000000 })
                &&& !u.tau.lt(Real { bits: 0x403E000000000000 })
                &&& !(Real { bits: 0x3F689374BC6A7EFA }).lt(dist_frac.magnitude())
                &&& r->0.price.pos() && r->0.price.lt(Real { bits: 0x3FF0000000000000 }) && (Real { bits: 0x3F947AE147AE147B }).lt(r->0.edge)
                &&& !(Real { bits: 0x3FB47AE147AE147B }).lt(t.spread)
                &&& !t.imbalance.lt(Real { bits: 0x3FD0000000000000 })
            }
            &&& (u.sigma.pos() && u.s.pos() && u.k.pos() && (Real { bits: 0x403E000000000000 }).le(u.tau)
                && dist_frac.magnitude().le(Real { bits: 0x3F689374BC6A7EFA }) && regime != Regime::Trend && t.price.pos()
                && t.price.lt(Real { bits: 0x3FF0000000000000 }) && (Real { bits: 0x3F947AE147AE147B }).lt(t.edge) && t.spread.le(Real { bits: 0x3FB47AE147AE147B })
                && (Real { bits: 0x3FD0000000000000 }).le(t.imbalance)) ==> r is Some
        }),
{
}

} // verus!
