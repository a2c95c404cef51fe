//! Buying the side that the price is clearly on.

use vstd::prelude::*;

use crate::number::Real;
use crate::strategies::{is_unusable, pick, pick_of, unusable, Pick, TokenView, ONE};
use crate::strategies::{keep_between, kelly, kelly_share, kept_between, signal_on, taking_signal};
use crate::types::{Side, Signal};

verus! {

/// Distance fade: if the price is clearly above or below the strike, buy the underpriced side.
/// Thresholds are fractions of the strike.
pub struct DistanceFade;

/// 0.08, the largest share of the bankroll in a trade
pub const MAX_SIZE_FRAC: u64 = 0x3FB47AE147AE147B;

/// 0.000441
pub const MIN_DIST_FRAC: u64 = 0x3F3CE6C093D96638;

/// 0.08
pub const MIN_EDGE: u64 = 0x3FB47AE147AE147B;

/// 0.02
pub const MIN_FAIR: u64 = 0x3F947AE147AE147B;

/// 0.98
pub const MAX_FAIR: u64 = 0x3FEF5C28F5C28F5C;

/// 0.3
pub const MIN_CONFIDENCE: u64 = 0x3FD3333333333333;

/// 1.0
pub const MAX_CONFIDENCE: u64 = 0x3FF0000000000000;

impl DistanceFade {
    pub fn name(&self) -> (r: &'static str)
        ensures
            r@ == "distance_fade"@,
    {
        "distance_fade"
    }

    /// Whether `s` is the signal of a pick.
    pub open spec fn gives(s: Signal, p: Pick, raw: Real, half: Real) -> bool {
        &&& s.strategy@ == "distance_fade"@
        &&& s == signal_on(
            s.strategy,
            p,
            kept_between(raw, MIN_CONFIDENCE, MAX_CONFIDENCE),
            kelly_share(p.edge, p.price, half).lesser(Real { bits: MAX_SIZE_FRAC }),
            false,
            false,
        )
    }

    /// The signal of a pick. `raw` is the distance fraction, without its sign, over 0.001471, and
    /// counts between the bounds of the confidence; `half` is what `kelly` takes.
    pub fn signal(&self, p: &Pick, raw: Real, half: Real) -> (s: Signal)
        ensures
            s.strategy@ == "distance_fade"@,
            s == signal_on(
                s.strategy,
                *p,
                kept_between(raw, MIN_CONFIDENCE, MAX_CONFIDENCE),
                kelly_share(p.edge, p.price, half).lesser(Real { bits: MAX_SIZE_FRAC }),
                false,
                false,
            ),
            Self::gives(s, *p, raw, half),
    {
        taking_signal(
            "distance_fade",
            p,
            keep_between(raw, MIN_CONFIDENCE, MAX_CONFIDENCE),
            kelly(p.edge, p.price, half).min(Real { bits: MAX_SIZE_FRAC }),
        )
    }

    /// The fair value of the up token.
    pub open spec fn fair_of(raw: Real) -> Real {
        kept_between(raw, MIN_FAIR, MAX_FAIR)
    }

    /// The fair value of the up token; `raw` is the sigmoid of the distance with the boost of
    /// the time that has passed.
    pub fn fair_up(&self, raw: Real) -> (r: Real)
        ensures
            r == Self::fair_of(raw),
            r == kept_between(raw, MIN_FAIR, MAX_FAIR),
    {
        keep_between(raw, MIN_FAIR, MAX_FAIR)
    }

    pub open spec fn decision(
        distance: Real,
        dist_frac: Real,
        up: TokenView,
        down: TokenView,
    ) -> Option<Pick> {
        let side = if distance.pos() {
            Side::Up
        } else {
            Side::Down
        };
        let t = if distance.pos() {
            up
        } else {
            down
        };
        if dist_frac.magnitude().lt(Real { bits: MIN_DIST_FRAC }) || unusable(t.price, ONE)
            || t.edge.lt(Real { bits: MIN_EDGE }) {
            None
        } else {
            Some(pick_of(side, t))
        }
    }

    /// `distance` is that of the price from the strike, `dist_frac` the same as a fraction of
    /// the strike.
    pub fn evaluate(&self, distance: Real, dist_frac: Real, up: &TokenView, down: &TokenView) -> (r:
        Option<Pick>)
        ensures
            r == Self::decision(distance, dist_frac, *up, *down),
    {
        if dist_frac.abs().less(Real { bits: MIN_DIST_FRAC }) {
            return None;
        }
        let (side, t) = if distance.is_positive() {
            (Side::Up, up)
        } else {
            (Side::Down, down)
        };
        if is_unusable(t.price, ONE) {
            return None;
        }
        if t.edge.less(Real { bits: MIN_EDGE }) {
            return None;
        }
        Some(pick(side, t))
    }
}

/// A signal buys what was picked, on its side and at its price, which it takes; its confidence is kept between 0.3 and 1.0, and its
/// share of the bankroll is half-Kelly, nothing without an edge and never above 0.08.
pub proof fn law_signal_of_pick(s: Signal, p: Pick, raw: Real, half: Real)
    requires
        DistanceFade::gives(s, p, raw, half),
    ensures
        s.strategy@ == "distance_fade"@,
        s.side == p.side,
        s.market_price == p.price,
        s.fair_value == p.fair,
        s.edge == p.edge,
        !s.is_passive,
        !s.use_bid,
        !s.confidence.lt(Real { bits: 0x3FD3333333333333 }),
        !(Real { bits: 0x3FF0000000000000 }).lt(s.confidence),
        !raw.lt(Real { bits: 0x3FD3333333333333 }) && !(Real { bits: 0x3FF0000000000000 }).lt(raw) ==> s.confidence == raw,
        raw.lt(Real { bits: 0x3FD3333333333333 }) ==> s.confidence == (Real { bits: 0x3FD3333333333333 }),
        (Real { bits: 0x3FF0000000000000 }).lt(raw) ==> s.confidence == (Real { bits: 0x3FF0000000000000 }),
        !s.size_frac.lt(Real { bits: 0x0000000000000000 }),
        !(Real { bits: 0x3FB47AE147AE147B }).lt(s.size_frac),
        p.edge.le(Real { bits: 0x0000000000000000 }) || (Real { bits: 0x3FF0000000000000 }).le(p.price) ==> s.size_frac == (Real { bits: 0x0000000000000000 }),
        !p.edge.le(Real { bits: 0x0000000000000000 }) && !(Real { bits: 0x3FF0000000000000 }).le(p.price) && (Real { bits: 0x0000000000000000 }).le(half) && half.le(
            Real { bits: 0x3FB47AE147AE147B },
        ) ==> s.size_frac == half,
        !p.edge.le(Real { bits: 0x0000000000000000 }) && !(Real { bits: 0x3FF0000000000000 }).le(p.price) && (Real { bits: 0x3FB47AE147AE147B }).lt(half) ==> s.size_frac == (Real { bits: 0x3FB47AE147AE147B }),
{
}

/// A pick is on the side of the strike that the price is on, with the price, fair value and edge
/// of the token of that very side. It is made at a distance of at least 0.000441 of the strike,
/// at a price between zero and one and with an edge of at least 0.08; and where all of this
/// holds, it is made.
pub proof fn law_side_of_distance(
    distance: Real,
    dist_frac: Real,
    up: TokenView,
    down: TokenView,
)
    ensures
        ({
            let r = DistanceFade::decision(distance, dist_frac, up, down);
            let t = if distance.pos() {
                up
            } else {
                down
            };
            &&& r is Some ==> {
                &&& r->0.side == Side::Up <==> distance.pos()
                &&& r->0.side == Side::Up ==> r->0.price == up.price && r->0.fair == up.fair
                    && r->0.edge == up.edge
                &&& r->0.side == Side::Down ==> r->0.price == down.price && r->0.fair == down.fair
                    && r->0.edge == down.edge
                &&& !dist_frac.magnitude().lt(Real { bits: 0x3F3CE6C093D96638 })
                &&& !t.price.le(Real { bits: 0x0000000000000000 }) && !(Real { bits: 0x3FF0000000000000 }).le(t.price)
                &&& !t.edge.lt(Real { bits: 0x3FB47AE147AE147B })
            }
            &&& ((Real { bits: 0x3F3CE6C093D96638 }).le(dist_frac.magnitude())
                && t.price.pos() && t.price.lt(Real { bits: 0x3FF0000000000000 })
                && (Real { bits: 0x3FB47AE147AE147B }).le(t.edge)) ==> r is Some
        }),
{
}

/// The fair value is the raw one between 0.02 and 0.98, and the nearer of these beyond.
pub proof fn law_fair_up(raw: Real)
    ensures
        (Real { bits: 0x3F947AE147AE147B }).le(raw) && raw.le(Real { bits: 0x3FEF5C28F5C28F5C }) ==> DistanceFade::fair_of(raw) == raw,
        raw.lt(Real { bits: 0x3F947AE147AE147B }) ==> DistanceFade::fair_of(raw) == (Real { bits: 0x3F947AE147AE147B }),
        (Real { bits: 0x3FEF5C28F5C28F5C }).lt(raw) ==> DistanceFade::fair_of(raw) == (Real { bits: 0x3FEF5C28F5C28F5C }),
{
}

} // verus!
