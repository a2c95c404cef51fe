//! Following strong trade flow.

use vstd::prelude::*;

use crate::number::Real;
use crate::strategies::{is_not_above_zero, not_above_zero, pick, pick_of, Pick, TokenView};
use crate::strategies::{keep_between, kelly, kelly_share, kept_between, signal_on, taking_signal};
use crate::types::{Side, Signal};

verus! {

/// Momentum regime: use the Binance trade flow of a rolling window to detect directional
/// momentum, and trade when it is strong but Polymarket has not caught up. Thresholds are
/// fractions of the strike, so that they scale across assets.
pub struct Momentum;

/// 0.05, the largest share of the bankroll in a trade
pub const MAX_SIZE_FRAC: u64 = 0x3FA999999999999A;

/// 0.00000735 per second
pub const MIN_VELOCITY_FRAC: u64 = 0x3EDED4009DB4B14D;

/// 0.000294
pub const MIN_DIST_FRAC: u64 = 0x3F3344806290EED0;

/// 0.15, the last part of the market that is left out
pub const MIN_TIME_LEFT: u64 = 0x3FC3333333333333;

/// 0.60
pub const MAX_PRICE: u64 = 0x3FE3333333333333;

/// 0.05
pub const MIN_EDGE: u64 = 0x3FA999999999999A;

/// 0.65, what the token of a strong flow is worth
pub const FAIR: u64 = 0x3FE4CCCCCCCCCCCD;

/// How many trades the window must hold.
pub const MIN_TRADES: usize = 50;

/// The trade flow of the window.
#[derive(Clone, Copy, Debug, PartialEq, Eq, Structural)]
pub struct Flow {
    /// Time left as a fraction of the market.
    pub time_left: Real,
    pub trades: usize,
    pub strike: Real,
    /// Price change per second as a fraction of the strike.
    pub velocity: Real,
    /// Volume bought less volume sold.
    pub net_volume: Real,
    /// Distance of the price from the strike as a fraction of the strike.
    pub distance: Real,
}

/// 0.3
pub const MIN_CONFIDENCE: u64 = 0x3FD3333333333333;

/// 0.8
pub const MAX_CONFIDENCE: u64 = 0x3FE999999999999A;

impl Momentum {
    pub fn name(&self) -> (r: &'static str)
        ensures
            r@ == "momentum"@,
    {
        "momentum"
    }

    /// Whether `s` is the signal of a pick.
    pub open spec fn gives(s: Signal, p: Pick, raw: Real, half: Real) -> bool {
        &&& s.strategy@ == "momentum"@
        &&& s == signal_on(
            s.strategy,
            p,
            kept_between(raw, MIN_CONFIDENCE, MAX_CONFIDENCE),
            kelly_share(p.edge, p.price, half).lesser(Real { bits: MAX_SIZE_FRAC }),
            false,
            false,
        )
    }

    /// The signal of a pick. `raw` is a fortieth of the trades per second, and
    /// counts between the bounds of the confidence; `half` is what `kelly` takes.
    pub fn signal(&self, p: &Pick, raw: Real, half: Real) -> (s: Signal)
        ensures
            s.strategy@ == "momentum"@,
            s == signal_on(
                s.strategy,
                *p,
                kept_between(raw, MIN_CONFIDENCE, MAX_CONFIDENCE),
                kelly_share(p.edge, p.price, half).lesser(Real { bits: MAX_SIZE_FRAC }),
                false,
                false,
            ),
            Self::gives(s, *p, raw, half),
    {
        taking_signal(
            "momentum",
            p,
            keep_between(raw, MIN_CONFIDENCE, MAX_CONFIDENCE),
            kelly(p.edge, p.price, half).min(Real { bits: MAX_SIZE_FRAC }),
        )
    }

    /// The side that price, volume and distance agree on.
    pub open spec fn direction(f: Flow) -> Option<Side> {
        let v = Real { bits: MIN_VELOCITY_FRAC };
        let d = Real { bits: MIN_DIST_FRAC };
        if v.lt(f.velocity) && f.net_volume.pos() && d.lt(f.distance) {
            Some(Side::Up)
        } else if f.velocity.lt(v.negation()) && f.net_volume.lt(Real { bits: 0 })
            && f.distance.lt(d.negation()) {
            Some(Side::Down)
        } else {
            None
        }
    }

    pub open spec fn decision(f: Flow, up: TokenView, down: TokenView) -> Option<Pick> {
        if f.time_left.lt(Real { bits: MIN_TIME_LEFT }) || f.trades < MIN_TRADES
            || not_above_zero(f.strike) {
            None
        } else {
            match Self::direction(f) {
                None => None,
                Some(side) => {
                    let t = if side == Side::Up {
                        up
                    } else {
                        down
                    };
                    if not_above_zero(t.price) || (Real { bits: MAX_PRICE }).lt(t.price)
                        || t.edge.lt(Real { bits: MIN_EDGE }) {
                        None
                    } else {
                        Some(Pick { fair: Real { bits: FAIR }, ..pick_of(side, t) })
                    }
                },
            }
        }
    }

    /// The edges of the tokens are those of `FAIR`.
    pub fn evaluate(&self, f: &Flow, up: &TokenView, down: &TokenView) -> (r: Option<Pick>)
        ensures
            r == Self::decision(*f, *up, *down),
    {
        if f.time_left.less(Real { bits: MIN_TIME_LEFT }) {
            return None;
        }
        if f.trades < MIN_TRADES || is_not_above_zero(f.strike) {
            return None;
        }
        let v = Real { bits: MIN_VELOCITY_FRAC };
        let d = Real { bits: MIN_DIST_FRAC };
        let (side, t) = if v.less(f.velocity) && f.net_volume.is_positive() && d.less(f.distance) {
            (Side::Up, up)
        } else if f.velocity.less(v.neg()) && f.net_volume.less(Real::zero()) && f.distance.less(
            d.neg(),
        ) {
            (Side::Down, down)
        } else {
            return None;
        };
        // Only when Polymarket is slow to react
        if is_not_above_zero(t.price) || (Real { bits: MAX_PRICE }).less(t.price) {
            return None;
        }
        if t.edge.less(Real { bits: MIN_EDGE }) {
            return None;
        }
        Some(Pick { fair: Real { bits: FAIR }, ..pick(side, t) })
    }
}

/// A signal buys what was picked, on its side and at its price, which it takes; its confidence is kept between 0.3 and 0.8, and its
/// share of the bankroll is half-Kelly, nothing without an edge and never above 0.05.
pub proof fn law_signal_of_pick(s: Signal, p: Pick, raw: Real, half: Real)
    requires
        Momentum::gives(s, p, raw, half),
    ensures
        s.strategy@ == "momentum"@,
        s.side == p.side,
        s.market_price == p.price,
        s.fair_value == p.fair,
        s.edge == p.edge,
        !s.is_passive,
        !s.use_bid,
        !s.confidence.lt(Real { bits: 0x3FD3333333333333 }),
        !(Real { bits: 0x3FE999999999999A }).lt(s.confidence),
        !raw.lt(Real { bits: 0x3FD3333333333333 }) && !(Real { bits: 0x3FE999999999999A }).lt(raw) ==> s.confidence == raw,
        raw.lt(Real { bits: 0x3FD3333333333333 }) ==> s.confidence == (Real { bits: 0x3FD3333333333333 }),
        (Real { bits: 0x3FE999999999999A }).lt(raw) ==> s.confidence == (Real { bits: 0x3FE999999999999A }),
        !s.size_frac.lt(Real { bits: 0x0000000000000000 }),
        !(Real { bits: 0x3FA999999999999A }).lt(s.size_frac),
        p.edge.le(Real { bits: 0x0000000000000000 }) || (Real { bits: 0x3FF0000000000000 }).le(p.price) ==> s.size_frac == (Real { bits: 0x0000000000000000 }),
        !p.edge.le(Real { bits: 0x0000000000000000 }) && !(Real { bits: 0x3FF0000000000000 }).le(p.price) && (Real { bits: 0x0000000000000000 }).le(half) && half.le(
            Real { bits: 0x3FA999999999999A },
        ) ==> s.size_frac == half,
        !p.edge.le(Real { bits: 0x0000000000000000 }) && !(Real { bits: 0x3FF0000000000000 }).le(p.price) && (Real { bits: 0x3FA999999999999A }).lt(half) ==> s.size_frac == (Real { bits: 0x3FA999999999999A }),
{
}

/// A pick follows price, volume and distance, where all three point up or all three point down,
/// with the price and edge of the token of that very side, valued at 0.65. It is made with 0.15
/// of the market left, fifty trades and a strike, at a price of at most 0.60 and with an edge of
/// at least 0.05; and where all of this holds, it is made.
pub proof fn law_momentum_side(f: Flow, up: TokenView, down: TokenView)
    ensures
        ({
            let r = Momentum::decision(f, up, down);
            let rising = (Real { bits: 0x3EDED4009DB4B14D }).lt(f.velocity) && f.net_volume.pos() && (Real { bits: 0x3F3344806290EED0 }).lt(f.distance);
            let falling = f.velocity.lt(Real { bits: 0xBEDED4009DB4B14D }) && f.net_volume.lt(Real { bits: 0x0000000000000000 }) && f.distance.lt(
                Real { bits: 0xBF3344806290EED0 },
            );
            let t = if rising {
                up
            } else {
                down
            };
            &&& r is Some ==> {
                &&& r->0.side == Side::Up <==> rising
                &&& r->0.side == Side::Down <==> falling
                &&& r->0.side == Side::Up ==> r->0.price == up.price && r->0.edge == up.edge
                &&& r->0.side == Side::Down ==> r->0.price == down.price && r->0.edge == down.edge
                &&& r->0.fair == (Real { bits: 0x3FE4CCCCCCCCCCCD })
                &&& !f.time_left.lt(Real { bits: 0x3FC3333333333333 }) && f.trades >= 50 && !f.strike.le(Real { bits: 0x0000000000000000 })
                &&& !t.price.le(Real { bits: 0x0000000000000000 }) && !(Real { bits: 0x3FE3333333333333 }).lt(t.price)
                &&& !t.edge.lt(Real { bits: 0x3FA999999999999A })
            }
            &&& (rising || falling) && (Real { bits: 0x3FC3333333333333 }).le(f.time_left) && f.trades >= 50 && f.strike.pos()
                && t.price.pos() && t.price.le(Real { bits: 0x3FE3333333333333 }) && (Real { bits: 0x3FA999999999999A }).le(t.edge) ==> r is Some
        }),
{
}

} // verus!
