//! Buying what is left of a decided market.

use vstd::prelude::*;

use crate::number::Real;
use crate::strategies::{is_not_above_zero, is_unusable, not_above_zero, pick, pick_of, unusable};
use crate::strategies::{Pick, TokenView, ONE};
use crate::strategies::{kelly, kelly_share, signal_on, taking_signal};
use crate::types::{Side, Signal};

verus! {

/// Settlement sniper: in the last 90 seconds, if the price is clearly on one side, buy any
/// remaining mispricing. Thresholds are fractions of the strike.
pub struct SettlementSniper;

/// 0.1, the largest share of the bankroll in a trade
pub const MAX_SIZE_FRAC: u64 = 0x3FB999999999999A;

/// 0.000588
pub const MIN_DIST_FRAC: u64 = 0x3F4344806290EED0;

/// 0.000735
pub const MID_DIST_FRAC: u64 = 0x3F4815A07B352A84;

/// 0.001471
pub const HIGH_DIST_FRAC: u64 = 0x3F5819D2391D5800;

/// 0.0000294 per second
pub const REVERSAL_VELOCITY_FRAC: u64 = 0x3EFED4009DB4B14D;

/// 0.05
pub const MIN_EDGE: u64 = 0x3FA999999999999A;

/// Fair values by distance and time: 0.97, 0.95, 0.93, 0.92, 0.90, 0.88 and 0.85
pub const FAIR_97: u64 = 0x3FEF0A3D70A3D70A;

pub const FAIR_95: u64 = 0x3FEE666666666666;

pub const FAIR_93: u64 = 0x3FEDC28F5C28F5C3;

pub const FAIR_92: u64 = 0x3FED70A3D70A3D71;

pub const FAIR_90: u64 = 0x3FECCCCCCCCCCCCD;

pub const FAIR_88: u64 = 0x3FEC28F5C28F5C29;

pub const FAIR_85: u64 = 0x3FEB333333333333;

/// What the strategy looks at.
#[derive(Clone, Copy, Debug, PartialEq, Eq, Structural)]
pub struct EndgameView {
    pub time_left_ms: u64,
    pub strike: Real,
    /// Distance of the price from the strike.
    pub distance: Real,
    /// Its magnitude as a fraction of the strike.
    pub dist_frac: Real,
    /// Price change per second as a fraction of the strike, where there are trades to tell.
    pub velocity: Option<Real>,
}

/// 0.95
pub const CONFIDENCE: u64 = 0x3FEE666666666666;

impl SettlementSniper {
    pub fn name(&self) -> (r: &'static str)
        ensures
            r@ == "settlement_sniper"@,
    {
        "settlement_sniper"
    }

    /// Whether `s` is the signal of a pick.
    pub open spec fn gives(s: Signal, p: Pick, half: Real) -> bool {
        &&& s.strategy@ == "settlement_sniper"@
        &&& s == signal_on(
            s.strategy,
            p,
            Real { bits: CONFIDENCE },
            kelly_share(p.edge, p.price, half).lesser(Real { bits: MAX_SIZE_FRAC }),
            false,
            false,
        )
    }

    /// The signal of a pick, always of the same confidence. `half` is what `kelly` takes.
    pub fn signal(&self, p: &Pick, half: Real) -> (s: Signal)
        ensures
            s.strategy@ == "settlement_sniper"@,
            s == signal_on(
                s.strategy,
                *p,
                Real { bits: CONFIDENCE },
                kelly_share(p.edge, p.price, half).lesser(Real { bits: MAX_SIZE_FRAC }),
                false,
                false,
            ),
            Self::gives(s, *p, half),
    {
        taking_signal(
            "settlement_sniper",
            p,
            Real { bits: CONFIDENCE },
            kelly(p.edge, p.price, half).min(Real { bits: MAX_SIZE_FRAC }),
        )
    }

    /// The fair value at a distance with so many whole seconds left.
    pub open spec fn fair_bits(dist_frac: Real, secs: u64) -> Option<u64> {
        if (Real { bits: HIGH_DIST_FRAC }).lt(dist_frac) {
            Some(
                if secs < 30 {
                    FAIR_97
                } else if secs < 60 {
                    FAIR_95
                } else {
                    FAIR_93
                },
            )
        } else if (Real { bits: MID_DIST_FRAC }).lt(dist_frac) {
            Some(
                if secs < 30 {
                    FAIR_95
                } else if secs < 60 {
                    FAIR_92
                } else {
                    FAIR_88
                },
            )
        } else if (Real { bits: MIN_DIST_FRAC }).lt(dist_frac) {
            Some(
                if secs < 30 {
                    FAIR_90
                } else {
                    FAIR_85
                },
            )
        } else {
            None
        }
    }

    /// The fair value at a distance with so many whole seconds left, where the distance is
    /// large enough.
    pub fn fair_value(&self, dist_frac: Real, secs: u64) -> (r: Option<Real>)
        ensures
            r == (match Self::fair_bits(dist_frac, secs) {
                Some(bits) => Some(Real { bits }),
                None => None,
            }),
    {
        if (Real { bits: HIGH_DIST_FRAC }).less(dist_frac) {
            if secs < 30 {
                Some(Real { bits: FAIR_97 })
            } else if secs < 60 {
                Some(Real { bits: FAIR_95 })
            } else {
                Some(Real { bits: FAIR_93 })
            }
        } else if (Real { bits: MID_DIST_FRAC }).less(dist_frac) {
            if secs < 30 {
                Some(Real { bits: FAIR_95 })
            } else if secs < 60 {
                Some(Real { bits: FAIR_92 })
            } else {
                Some(Real { bits: FAIR_88 })
            }
        } else if (Real { bits: MIN_DIST_FRAC }).less(dist_frac) {
            if secs < 30 {
                Some(Real { bits: FAIR_90 })
            } else {
                Some(Real { bits: FAIR_85 })
            }
        } else {
            None
        }
    }

    /// Whether the price is moving back to the strike hard.
    pub open spec fn reverses(v: EndgameView) -> bool {
        let limit = Real { bits: REVERSAL_VELOCITY_FRAC };
        match v.velocity {
            Some(x) => (v.distance.pos() && x.lt(limit.negation())) || (v.distance.lt(
                Real { bits: 0 },
            ) && limit.lt(x)),
            None => false,
        }
    }

    pub open spec fn decision(v: EndgameView, up: TokenView, down: TokenView) -> Option<Pick> {
        let side = if v.distance.pos() {
            Side::Up
        } else {
            Side::Down
        };
        let t = if v.distance.pos() {
            up
        } else {
            down
        };
        if v.time_left_ms > 90_000 || v.time_left_ms < 5_000 || not_above_zero(v.strike)
            || v.dist_frac.lt(Real { bits: MIN_DIST_FRAC }) || Self::reverses(v)
            || Self::fair_bits(v.dist_frac, v.time_left_ms / 1000) is None || unusable(
            t.price,
            ONE,
        ) || t.edge.lt(Real { bits: MIN_EDGE }) {
            None
        } else {
            Some(
                Pick {
                    fair: Real {
                        bits: Self::fair_bits(v.dist_frac, v.time_left_ms / 1000)->0,
                    },
                    ..pick_of(side, t)
                },
            )
        }
    }

    /// The edges of the tokens are those of `fair_value`.
    pub fn evaluate(&self, v: &EndgameView, up: &TokenView, down: &TokenView) -> (r: Option<Pick>)
        ensures
            r == Self::decision(*v, *up, *down),
    {
        if v.time_left_ms > 90_000 || v.time_left_ms < 5_000 {
            return None;
        }
        if is_not_above_zero(v.strike) {
            return None;
        }
        if v.dist_frac.less(Real { bits: MIN_DIST_FRAC }) {
            return None;
        }
        // Check momentum isn't reversing hard
        if let Some(x) = v.velocity {
            let limit = Real { bits: REVERSAL_VELOCITY_FRAC };
            if v.distance.is_positive() && x.less(limit.neg()) {
                return None;
            }
            if v.distance.less(Real::zero()) && limit.less(x) {
                return None;
            }
        }
        let fair = match self.fair_value(v.dist_frac, v.time_left_ms / 1000) {
            Some(fair) => fair,
            None => {
                return None;
            },
        };
        let (side, t) = if v.distance.is_positive() {
            (Side::Up, up)
        } else {
            (Side::Down, down)
        };
        if is_unusable(t.price, ONE) {
            return None;
        }
        if t.edge.less(Real { bits: MIN_EDGE }) {
            return None;
        }
        Some(Pick { fair, ..pick(side, t) })
    }
}

/// At a given distance, less time left never lowers the fair value.
pub proof fn law_fair_value_rises_with_time(dist_frac: Real, sooner: u64, later: u64)
    requires
        sooner <= later,
        SettlementSniper::fair_bits(dist_frac, later) is Some,
    ensures
        SettlementSniper::fair_bits(dist_frac, sooner) is Some,
        SettlementSniper::fair_bits(dist_frac, later)->0 <= SettlementSniper::fair_bits(
            dist_frac,
            sooner,
        )->0,
{
}

/// A signal buys what was picked, on its side and at its price, which it takes; its confidence is always 0.95, and its
/// share of the bankroll is half-Kelly, nothing without an edge and never above 0.1.
pub proof fn law_signal_of_pick(s: Signal, p: Pick, half: Real)
    requires
        SettlementSniper::gives(s, p, half),
    ensures
        s.strategy@ == "settlement_sniper"@,
        s.side == p.side,
        s.market_price == p.price,
        s.fair_value == p.fair,
        s.edge == p.edge,
        !s.is_passive,
        !s.use_bid,
        s.confidence == (Real { bits: 0x3FEE666666666666 }),
        !s.size_frac.lt(Real { bits: 0x0000000000000000 }),
        !(Real { bits: 0x3FB999999999999A }).lt(s.size_frac),
        p.edge.le(Real { bits: 0x0000000000000000 }) || (Real { bits: 0x3FF0000000000000 }).le(p.price) ==> s.size_frac == (Real { bits: 0x0000000000000000 }),
        !p.edge.le(Real { bits: 0x0000000000000000 }) && !(Real { bits: 0x3FF0000000000000 }).le(p.price) && (Real { bits: 0x0000000000000000 }).le(half) && half.le(
            Real { bits: 0x3FB999999999999A },
        ) ==> s.size_frac == half,
        !p.edge.le(Real { bits: 0x0000000000000000 }) && !(Real { bits: 0x3FF0000000000000 }).le(p.price) && (Real { bits: 0x3FB999999999999A }).lt(half) ==> s.size_frac == (Real { bits: 0x3FB999999999999A }),
{
}

/// A pick is on the side that the price is on, with the price and edge of the token of that very
/// side and the fair value of the table. It is made from 90 down to 5 seconds before the end,
/// unless the price moves back hard, at a price between zero and one and with an edge of at
/// least 0.05; and where all of this holds, it is made.
pub proof fn law_sniper_side(v: EndgameView, up: TokenView, down: TokenView)
    ensures
        ({
            let r = SettlementSniper::decision(v, up, down);
            let t = if v.distance.pos() {
                up
            } else {
                down
            };
            let back = v.velocity matches Some(x) && ((v.distance.pos() && x.lt(
                Real { bits: 0xBEFED4009DB4B14D },
            )) || (v.distance.lt(Real { bits: 0x0000000000000000 }) && (Real { bits: 0x3EFED4009DB4B14D }).lt(x)));
            &&& r is Some ==> {
                &&& r->0.side == Side::Up <==> v.distance.pos()
                &&& r->0.side == Side::Up ==> r->0.price == up.price && r->0.edge == up.edge
                &&& r->0.side == Side::Down ==> r->0.price == down.price && r->0.edge == down.edge
                &&& SettlementSniper::fair_bits(v.dist_frac, v.time_left_ms / 1000) == Some(
                    r->0.fair.bits,
                )
                &&& 5_000 <= v.time_left_ms <= 90_000
                &&& !back
                &&& (Real { bits: 0x3F4344806290EED0 }).lt(v.dist_frac) && !v.strike.le(Real { bits: 0x0000000000000000 })
                &&& !t.price.le(Real { bits: 0x0000000000000000 }) && !(Real { bits: 0x3FF0000000000000 }).le(t.price)
                &&& !t.edge.lt(Real { bits: 0x3FA999999999999A })
            }
            &&& (5_000 <= v.time_left_ms <= 90_000 && !back && (Real { bits: 0x3F4344806290EED0 }).lt(v.dist_frac)
                && v.strike.pos() && t.price.pos() && t.price.lt(Real { bits: 0x3FF0000000000000 }) && (Real { bits: 0x3FA999999999999A }).le(t.edge))
                ==> r is Some
        }),
{
}

/// The table of fair values: 0.97, 0.95 and 0.93 far out, 0.95, 0.92 and 0.88 in the middle,
/// 0.90 and 0.85 near by, each with less than thirty seconds, less than sixty and more left.
pub proof fn law_fair_value_table(dist_frac: Real, secs: u64)
    ensures
        ({
            let r = SettlementSniper::fair_bits(dist_frac, secs);
            let near = (Real { bits: 0x3F4344806290EED0 }).lt(dist_frac);
            let mid = (Real { bits: 0x3F4815A07B352A84 }).lt(dist_frac);
            let far = (Real { bits: 0x3F5819D2391D5800 }).lt(dist_frac);
            &&& r is Some <==> near
            &&& far && secs < 30 ==> r == Some(0x3FEF0A3D70A3D70Au64)
            &&& far && 30 <= secs < 60 ==> r == Some(0x3FEE666666666666u64)
            &&& far && 60 <= secs ==> r == Some(0x3FEDC28F5C28F5C3u64)
            &&& mid && !far && secs < 30 ==> r == Some(0x3FEE666666666666u64)
            &&& mid && !far && 30 <= secs < 60 ==> r == Some(0x3FED70A3D70A3D71u64)
            &&& mid && !far && 60 <= secs ==> r == Some(0x3FEC28F5C28F5C29u64)
            &&& near && !mid && secs < 30 ==> r == Some(0x3FECCCCCCCCCCCCDu64)
            &&& near && !mid && 30 <= secs ==> r == Some(0x3FEB333333333333u64)
        }),
{
}

} // verus!
