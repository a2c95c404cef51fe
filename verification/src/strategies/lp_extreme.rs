//! Providing liquidity on the losing side.

use vstd::prelude::*;

use crate::math::regime::Regime;
use crate::number::Real;
use crate::strategies::{is_not_above_zero, is_unusable, not_above_zero, pick, pick_of, unusable};
use crate::strategies::{keep_between, kept_between, signal_on, taking_signal};
use crate::strategies::{Pick, TokenView, Underlying};
use crate::types::{EvalTrigger, Side, Signal};

verus! {

/// Extreme probability liquidity provision: near 0 or 1 market makers retreat. Provide
/// liquidity on the losing side, with orders that rest, where |z| is above 1.5, more time is
/// left than the least, and there is no trend.
pub struct LpExtreme;

/// 1.5
pub const Z_MIN: u64 = 0x3FF8000000000000;

/// 0.02
pub const MIN_EDGE: u64 = 0x3F947AE147AE147B;

/// 0.04, twice the least edge
pub const ADVERSE_MIN_EDGE: u64 = 0x3FA47AE147AE147B;

/// 0.10
pub const MAX_SPREAD: u64 = 0x3FB999999999999A;

/// 0.30, below which asks outweigh bids
pub const IMBALANCE_THRESHOLD: u64 = 0x3FD3333333333333;

/// 0.25, from which on a price is not extreme
pub const MAX_PRICE: u64 = 0x3FD0000000000000;

/// 60.0
pub const MIN_TAU: u64 = 0x404E000000000000;

/// 0.02
pub const MAX_SIZE_FRAC: u64 = 0x3F947AE147AE147B;

/// 0.001
pub const MIN_SIZE_FRAC: u64 = 0x3F50624DD2F1A9FC;

/// 0.3
pub const MIN_CONFIDENCE: u64 = 0x3FD3333333333333;

/// 0.8
pub const MAX_CONFIDENCE: u64 = 0x3FE999999999999A;

/// 0.2
pub const ADVERSE_MIN_CONFIDENCE: u64 = 0x3FC999999999999A;

/// 0.6
pub const ADVERSE_MAX_CONFIDENCE: u64 = 0x3FE3333333333333;

/// A decision of the strategy.
#[derive(Clone, Copy, Debug, PartialEq, Eq, Structural)]
pub struct LpPick {
    pub pick: Pick,
    /// Share of the bankroll.
    pub size_frac: Real,
    /// Asks outweigh bids, which lowers the confidence.
    pub adverse: bool,
}

impl LpExtreme {
    pub fn name(&self) -> (r: &'static str)
        ensures
            r@ == "lp_extreme"@,
    {
        "lp_extreme"
    }

    /// The confidence of a decision: lower where asks outweigh bids.
    pub open spec fn confidence(p: LpPick, raw: Real) -> Real {
        if p.adverse {
            kept_between(raw, ADVERSE_MIN_CONFIDENCE, ADVERSE_MAX_CONFIDENCE)
        } else {
            kept_between(raw, MIN_CONFIDENCE, MAX_CONFIDENCE)
        }
    }

    /// Whether `s` is the signal of a decision.
    pub open spec fn gives(s: Signal, p: LpPick, raw: Real) -> bool {
        &&& s.strategy@ == "lp_extreme"@
        &&& s == signal_on(
            s.strategy,
            p.pick,
            Self::confidence(p, raw),
            p.size_frac,
            true,
            false,
        )
    }

    /// The signal of a decision: it rests in the book. `raw` is a quarter of the z-score,
    /// without its sign.
    pub fn signal(&self, p: &LpPick, raw: Real) -> (s: Signal)
        ensures
            s.strategy@ == "lp_extreme"@,
            s == signal_on(s.strategy, p.pick, Self::confidence(*p, raw), p.size_frac, true, false),
            s.is_passive,
            Self::gives(s, *p, raw),
    {
        let confidence = if p.adverse {
            keep_between(raw, ADVERSE_MIN_CONFIDENCE, ADVERSE_MAX_CONFIDENCE)
        } else {
            keep_between(raw, MIN_CONFIDENCE, MAX_CONFIDENCE)
        };
        Signal { is_passive: true, ..taking_signal("lp_extreme", &p.pick, confidence, p.size_frac) }
    }

    /// A share of the bankroll, kept between zero and the largest.
    pub open spec fn clamped(share: Real) -> Real {
        kept_between(share, 0, MAX_SIZE_FRAC)
    }

    /// The time to expiry that has to be left: a fifth of the market, but a minute at least.
    pub open spec fn least_tau(fifth: Real) -> Real {
        fifth.greater(Real { bits: MIN_TAU })
    }

    pub fn trigger(&self) -> (r: EvalTrigger)
        ensures
            r == EvalTrigger::Both,
    {
        EvalTrigger::Both
    }

    pub open spec fn is_adverse(t: TokenView) -> bool {
        t.imbalance.lt(Real { bits: IMBALANCE_THRESHOLD })
    }

    /// The decision on the losing token: it has to be cheap, in a narrow book, underpriced
    /// (twice as much where asks outweigh bids) and worth a size.
    pub open spec fn token_decision(side: Side, t: TokenView) -> Option<LpPick> {
        let adverse = Self::is_adverse(t);
        let least = Real {
            bits: if adverse {
                ADVERSE_MIN_EDGE
            } else {
                MIN_EDGE
            },
        };
        if unusable(t.price, MAX_PRICE) || (Real { bits: MAX_SPREAD }).lt(t.spread) || t.edge.lt(
            least,
        ) || Self::clamped(t.size_frac).lt(Real { bits: MIN_SIZE_FRAC }) {
            None
        } else {
            Some(LpPick { pick: pick_of(side, t), size_frac: Self::clamped(t.size_frac), adverse })
        }
    }

    pub open spec fn decision(
        u: Underlying,
        fifth: Real,
        regime: Regime,
        z: Real,
        up: TokenView,
        down: TokenView,
    ) -> Option<LpPick> {
        if not_above_zero(u.sigma) || !Self::least_tau(fifth).lt(u.tau) || regime == Regime::Trend
            || not_above_zero(u.s) || not_above_zero(u.k) || !(Real { bits: Z_MIN }).lt(
            z.magnitude(),
        ) {
            None
        } else if z.pos() {
            Self::token_decision(Side::Down, down)
        } else {
            Self::token_decision(Side::Up, up)
        }
    }

    /// `fifth` is a fifth of the length of the market, in seconds.
    pub fn evaluate(
        &self,
        u: &Underlying,
        fifth: Real,
        regime: Regime,
        z: Real,
        up: &TokenView,
        down: &TokenView,
    ) -> (r: Option<LpPick>)
        ensures
            r == Self::decision(*u, fifth, regime, z, *up, *down),
    {
        let least = fifth.max(Real { bits: MIN_TAU });
        if is_not_above_zero(u.sigma) || !least.less(u.tau) {
            return None;
        }
        // Don't provide liquidity during trends (adverse selection too high)
        if regime == Regime::Trend {
            return None;
        }
        if is_not_above_zero(u.s) || is_not_above_zero(u.k) {
            return None;
        }
        if !(Real { bits: Z_MIN }).less(z.abs()) {
            return None;
        }
        // The losing side is DOWN above the strike and UP below it
        let (side, t) = if z.is_positive() {
            (Side::Down, down)
        } else {
            (Side::Up, up)
        };
        if is_unusable(t.price, MAX_PRICE) {
            return None;
        }
        if (Real { bits: MAX_SPREAD }).less(t.spread) {
            return None;
        }
        let adverse = t.imbalance.less(Real { bits: IMBALANCE_THRESHOLD });
        let least = Real {
            bits: if adverse {
                ADVERSE_MIN_EDGE
            } else {
                MIN_EDGE
            },
        };
        if t.edge.less(least) {
            return None;
        }
        let size_frac = keep_between(t.size_frac, 0, MAX_SIZE_FRAC);
        if size_frac.less(Real { bits: MIN_SIZE_FRAC }) {
            return None;
        }
        Some(LpPick { pick: pick(side, t), size_frac, adverse })
    }
}

/// Liquidity goes to the losing side, never in a trend, at an extreme price below fair value,
/// and in a size within its bounds.
pub proof fn law_lp_takes_losing_side(
    u: Underlying,
    fifth: Real,
    regime: Regime,
    z: Real,
    up: TokenView,
    down: TokenView,
)
    requires
        LpExtreme::decision(u, fifth, regime, z, up, down) is Some,
    ensures
        regime != Regime::Trend,
        LpExtreme::decision(u, fifth, regime, z, up, down)->0.pick.side == (if z.pos() {
            Side::Down
        } else {
            Side::Up
        }),
        (Real { bits: Z_MIN }).lt(z.magnitude()),
        LpExtreme::least_tau(fifth).lt(u.tau),
        !unusable(LpExtreme::decision(u, fifth, regime, z, up, down)->0.pick.price, MAX_PRICE),
        !LpExtreme::decision(u, fifth, regime, z, up, down)->0.pick.edge.lt(
            Real { bits: MIN_EDGE },
        ),
        !LpExtreme::decision(u, fifth, regime, z, up, down)->0.size_frac.lt(
            Real { bits: MIN_SIZE_FRAC },
        ),
        !(Real { bits: MAX_SIZE_FRAC }).lt(
            LpExtreme::decision(u, fifth, regime, z, up, down)->0.size_frac,
        ),
{
}

/// A signal rests in the book for what was decided, on its side, at its price and in its size;
/// its confidence is kept between 0.3 and 0.8, and between 0.2 and 0.6 where asks outweigh bids.
pub proof fn law_signal_of_decision(s: Signal, p: LpPick, raw: Real)
    requires
        LpExtreme::gives(s, p, raw),
    ensures
        s.strategy@ == "lp_extreme"@,
        s.side == p.pick.side,
        s.market_price == p.pick.price,
        s.fair_value == p.pick.fair,
        s.edge == p.pick.edge,
        s.size_frac == p.size_frac,
        s.is_passive,
        !s.use_bid,
        p.adverse ==> {
            &&& !s.confidence.lt(Real { bits: 0x3FC999999999999A })
            &&& !(Real { bits: 0x3FE3333333333333 }).lt(s.confidence)
            &&& (Real { bits: 0x3FC999999999999A }).le(raw) && raw.le(Real { bits: 0x3FE3333333333333 }) ==> s.confidence == raw
        },
        !p.adverse ==> {
            &&& !s.confidence.lt(Real { bits: 0x3FD3333333333333 })
            &&& !(Real { bits: 0x3FE999999999999A }).lt(s.confidence)
            &&& (Real { bits: 0x3FD3333333333333 }).le(raw) && raw.le(Real { bits: 0x3FE999999999999A }) ==> s.confidence == raw
        },
{
}

/// Where the market is fit, |z| is above 1.5 and more time is left than a fifth of the market
/// and a minute, liquidity goes to the losing token exactly where it is cheap, in a narrow
/// book, underpriced (twice as much where asks outweigh bids) and worth a size; the decision
/// has the numbers of that very token.
pub proof fn law_lp_decides_on_losing_token(
    u: Underlying,
    fifth: Real,
    regime: Regime,
    z: Real,
    up: TokenView,
    down: TokenView,
)
    ensures
        ({
            let r = LpExtreme::decision(u, fifth, regime, z, up, down);
            let losing = if z.pos() {
                down
            } else {
                up
            };
            let least = if losing.imbalance.lt(Real { bits: 0x3FD3333333333333 }) {
                Real { bits: 0x3FA47AE147AE147B }
            } else {
                Real { bits: 0x3F947AE147AE147B }
            };
            &&& r is Some ==> {
                let p = r->0;
                &&& p.pick.side == Side::Down <==> z.pos()
                &&& p.pick.price == losing.price
                &&& p.pick.fair == losing.fair
                &&& p.pick.edge == losing.edge
                &&& p.adverse <==> losing.imbalance.lt(Real { bits: 0x3FD3333333333333 })
                &&& (Real { bits: 0x3F50624DD2F1A9FC }).le(losing.size_frac) && losing.size_frac.le(Real { bits: 0x3F947AE147AE147B })
                    ==> p.size_frac == losing.size_frac
                &&& (Real { bits: 0x3F947AE147AE147B }).lt(losing.size_frac) ==> p.size_frac == (Real { bits: 0x3F947AE147AE147B })
                &&& !u.sigma.le(Real { bits: 0x0000000000000000 }) && !u.s.le(Real { bits: 0x0000000000000000 }) && !u.k.le(Real { bits: 0x0000000000000000 })
                &&& (Real { bits: 0x404E000000000000 }).lt(u.tau)
                &&& !fifth.nan() ==> fifth.lt(u.tau)
                &&& regime != Regime::Trend
                &&& (Real { bits: 0x3FF8000000000000 }).lt(z.magnitude())
                &&& !losing.price.le(Real { bits: 0x0000000000000000 }) && !(Real { bits: 0x3FD0000000000000 }).le(losing.price)
                &&& !(Real { bits: 0x3FB999999999999A }).lt(losing.spread)
                &&& !losing.edge.lt(least)
                &&& !losing.size_frac.lt(Real { bits: 0x3F50624DD2F1A9FC })
            }
            &&& (u.sigma.pos() && u.s.pos() && u.k.pos() && (Real { bits: 0x404E000000000000 }).lt(u.tau) && fifth.lt(u.tau)
                && regime != Regime::Trend && (Real { bits: 0x3FF8000000000000 }).lt(z.magnitude()) && losing.price.pos()
                && losing.price.lt(Real { bits: 0x3FD0000000000000 }) && losing.spread.le(Real { bits: 0x3FB999999999999A }) && least.le(losing.edge)
                && (Real { bits: 0x3F50624DD2F1A9FC }).le(losing.size_frac)) ==> r is Some
        }),
{
}

} // verus!
