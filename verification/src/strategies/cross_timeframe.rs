//! Trading one market against the volatility of others.

use vstd::prelude::*;

use crate::number::Real;
use crate::strategies::{is_unusable, pick, pick_of, unusable, Pick, TokenView, Underlying, ONE};
use crate::strategies::{keep_between, kelly, kelly_share, kept_between, signal_on, taking_signal};
use crate::types::{EvalTrigger, Side, Signal};

verus! {

/// Cross-timeframe relative value: extract implied volatility from several expiry windows, fit
/// a power law, and trade outliers against the fitted curve. Disables itself below two other
/// markets: with one the fit runs through the own point, and nothing is left to trade.
pub struct CrossTimeframe;

/// 0.05
pub const MIN_VOL_DEVIATION: u64 = 0x3FA999999999999A;

/// 0.01
pub const MIN_EDGE: u64 = 0x3F847AE147AE147B;

/// 30.0
pub const MIN_TAU: u64 = 0x403E000000000000;

/// 10.0, the least time to expiry of another market
pub const MIN_CROSS_TAU: u64 = 0x4024000000000000;

/// 1e-10, below which a fit is degenerate
pub const MIN_DENOMINATOR: u64 = 0x3DDB7CDFD9D7BDBB;

/// How many other markets there have to be.
pub const MIN_CROSS_MARKETS: usize = 2;

/// How many volatility points a fit needs.
pub const MIN_POINTS: usize = 2;

/// Where the price of the own market is taken from.
#[derive(Clone, Copy, Debug, PartialEq, Eq, Structural)]
pub enum MidSource {
    /// The size-weighted middle of the book.
    Microprice,
    /// The middle of the best prices.
    Middle,
}

/// Where the price of the own market is taken from, by what is known.
pub open spec fn mid_of(microprice: Real, bid: Real, ask: Real) -> Option<MidSource> {
    if microprice.pos() {
        Some(MidSource::Microprice)
    } else if bid.pos() && ask.pos() {
        Some(MidSource::Middle)
    } else {
        None
    }
}

/// The middle of the book goes first; the middle of the best prices stands in only where there
/// is none and both of them are there; without any there is no price.
pub proof fn law_mid_source(microprice: Real, bid: Real, ask: Real)
    ensures
        mid_of(microprice, bid, ask) == Some(MidSource::Microprice) <==> microprice.pos(),
        mid_of(microprice, bid, ask) == Some(MidSource::Middle) <==> !microprice.pos() && bid.pos()
            && ask.pos(),
        mid_of(microprice, bid, ask) is None ==> !bid.pos() || !ask.pos(),
{
}

/// The middle of the book where it is known, otherwise that of the best prices where both are.
pub fn mid_source(microprice: Real, bid: Real, ask: Real) -> (r: Option<MidSource>)
    ensures
        r == (if microprice.pos() {
            Some(MidSource::Microprice)
        } else if bid.pos() && ask.pos() {
            Some(MidSource::Middle)
        } else {
            None
        }),
        r == mid_of(microprice, bid, ask),
{
    if microprice.is_positive() {
        Some(MidSource::Microprice)
    } else if bid.is_positive() && ask.is_positive() {
        Some(MidSource::Middle)
    } else {
        None
    }
}

/// Whether another market can lend a volatility point.
pub open spec fn lends(tau: Real, bid: Real, ask: Real) -> bool {
    !tau.lt(Real { bits: MIN_CROSS_TAU }) && bid.pos() && ask.pos()
}

/// Another market lends a point from ten seconds on, with a bid and an ask.
pub proof fn law_lends_point(tau: Real, bid: Real, ask: Real)
    ensures
        lends(tau, bid, ask) ==> bid.pos() && ask.pos() && !tau.lt(
            Real { bits: 0x4024000000000000 },
        ),
        bid.pos() && ask.pos() && (Real { bits: 0x4024000000000000 }).le(tau) ==> lends(tau, bid, ask),
{
}

/// Whether another market can lend a volatility point: enough time left and both best prices.
pub fn lends_point(tau: Real, bid: Real, ask: Real) -> (r: bool)
    ensures
        r == (!tau.lt(Real { bits: MIN_CROSS_TAU }) && bid.pos() && ask.pos()),
        r == lends(tau, bid, ask),
{
    !tau.less(Real { bits: MIN_CROSS_TAU }) && bid.is_positive() && ask.is_positive()
}

/// Whether a volatility point enters the fit.
pub fn enters_fit(tau: Real, volatility: Real) -> (r: bool)
    ensures
        r == fits(tau, volatility),
        r == (!tau.le(Real { bits: 0 }) && !volatility.le(Real { bits: 0 })),
{
    !tau.at_most(Real::zero()) && !volatility.at_most(Real::zero())
}

/// Time until another market ends, in milliseconds, at least one.
pub fn cross_left_ms(end_ms: i64, now_ms: i64) -> (r: u64)
    ensures
        r == left_at_least_one(end_ms as int, now_ms as int),
        r == if end_ms - now_ms > 1 {
            end_ms - now_ms
        } else {
            1
        },
{
    let left: i128 = end_ms as i128 - now_ms as i128;
    if left > 1 {
        left as u64
    } else {
        1
    }
}

/// What the fit gives.
#[derive(Clone, Copy, Debug, PartialEq, Eq, Structural)]
pub struct Fit {
    /// How many volatility points there are.
    pub points: usize,
    /// The denominator of the fit.
    pub denominator: Real,
    /// Implied less fitted volatility of the own market.
    pub deviation: Real,
}

/// 0.3
pub const MIN_CONFIDENCE: u64 = 0x3FD3333333333333;

/// 0.7
pub const MAX_CONFIDENCE: u64 = 0x3FE6666666666666;

impl CrossTimeframe {
    pub fn name(&self) -> (r: &'static str)
        ensures
            r@ == "cross_timeframe"@,
    {
        "cross_timeframe"
    }

    /// Whether `s` is the signal of a pick.
    pub open spec fn gives(s: Signal, p: Pick, raw: Real, half: Real) -> bool {
        &&& s.strategy@ == "cross_timeframe"@
        &&& s == signal_on(
            s.strategy,
            p,
            kept_between(raw, MIN_CONFIDENCE, MAX_CONFIDENCE),
            kelly_share(p.edge, p.price, half),
            false,
            false,
        )
    }

    /// The signal of a pick. `raw` is the deviation, without its sign, over 0.15, and
    /// counts between the bounds of the confidence; `half` is what `kelly` takes.
    pub fn signal(&self, p: &Pick, raw: Real, half: Real) -> (s: Signal)
        ensures
            s.strategy@ == "cross_timeframe"@,
            s == signal_on(
                s.strategy,
                *p,
                kept_between(raw, MIN_CONFIDENCE, MAX_CONFIDENCE),
                kelly_share(p.edge, p.price, half),
                false,
                false,
            ),
            Self::gives(s, *p, raw, half),
    {
        taking_signal(
            "cross_timeframe",
            p,
            keep_between(raw, MIN_CONFIDENCE, MAX_CONFIDENCE),
            kelly(p.edge, p.price, half),
        )
    }

    pub fn trigger(&self) -> (r: EvalTrigger)
        ensures
            r == EvalTrigger::PolymarketQuote,
    {
        EvalTrigger::PolymarketQuote
    }

    /// Whether the market itself allows a look: other markets, volatility, time and prices.
    pub open spec fn ready(n_cross: usize, u: Underlying) -> bool {
        n_cross >= MIN_CROSS_MARKETS && !u.unfit(MIN_TAU)
    }

    pub fn is_ready(&self, n_cross: usize, u: &Underlying) -> (r: bool)
        ensures
            r == Self::ready(n_cross, *u),
    {
        n_cross >= MIN_CROSS_MARKETS && !u.is_unfit(MIN_TAU)
    }

    /// Which side an outlier is bought on: too high a volatility overprices the side that the
    /// price is on, too low a one underprices it.
    pub open spec fn side(deviation: Real, distance: Real) -> Side {
        if deviation.pos() == distance.pos() {
            Side::Down
        } else {
            Side::Up
        }
    }

    pub open spec fn decision(
        n_cross: usize,
        u: Underlying,
        fit: Fit,
        distance: Real,
        up: TokenView,
        down: TokenView,
    ) -> Option<Pick> {
        let side = Self::side(fit.deviation, distance);
        let t = if side == Side::Up {
            up
        } else {
            down
        };
        if !Self::ready(n_cross, u) || fit.points < MIN_POINTS || fit.denominator.magnitude().lt(
            Real { bits: MIN_DENOMINATOR },
        ) || fit.deviation.magnitude().lt(Real { bits: MIN_VOL_DEVIATION }) || unusable(
            t.price,
            ONE,
        ) || t.edge.lt(Real { bits: MIN_EDGE }) {
            None
        } else {
            Some(pick_of(side, t))
        }
    }

    /// `distance` is that of the price from the strike; the tokens are valued at the fitted
    /// volatility.
    pub fn evaluate(
        &self,
        n_cross: usize,
        u: &Underlying,
        fit: &Fit,
        distance: Real,
        up: &TokenView,
        down: &TokenView,
    ) -> (r: Option<Pick>)
        ensures
            r == Self::decision(n_cross, *u, *fit, distance, *up, *down),
    {
        if !self.is_ready(n_cross, u) {
            return None;
        }
        if fit.points < MIN_POINTS {
            return None;
        }
        if fit.denominator.abs().less(Real { bits: MIN_DENOMINATOR }) {
            return None;
        }
        if fit.deviation.abs().less(Real { bits: MIN_VOL_DEVIATION }) {
            return None;
        }
        let side = if fit.deviation.is_positive() {
            // Implied volatility too high: the side that the price is on is overpriced
            if distance.is_positive() {
                Side::Down
            } else {
                Side::Up
            }
        } else {
            // Implied volatility too low: the side that the price is on is underpriced
            if distance.is_positive() {
                Side::Up
            } else {
                Side::Down
            }
        };
        let t = match side {
            Side::Up => up,
            Side::Down => down,
        };
        if is_unusable(t.price, ONE) {
            return None;
        }
        if t.edge.less(Real { bits: MIN_EDGE }) {
            return None;
        }
        Some(pick(side, t))
    }
}

/// A signal buys what was picked, on its side and at its price, which it takes; its confidence is kept between 0.3 and 0.7, and its
/// share of the bankroll is half-Kelly, nothing without an edge and never above 0.15.
pub proof fn law_signal_of_pick(s: Signal, p: Pick, raw: Real, half: Real)
    requires
        CrossTimeframe::gives(s, p, raw, half),
    ensures
        s.strategy@ == "cross_timeframe"@,
        s.side == p.side,
        s.market_price == p.price,
        s.fair_value == p.fair,
        s.edge == p.edge,
        !s.is_passive,
        !s.use_bid,
        !s.confidence.lt(Real { bits: 0x3FD3333333333333 }),
        !(Real { bits: 0x3FE6666666666666 }).lt(s.confidence),
        !raw.lt(Real { bits: 0x3FD3333333333333 }) && !(Real { bits: 0x3FE6666666666666 }).lt(raw) ==> s.confidence == raw,
        raw.lt(Real { bits: 0x3FD3333333333333 }) ==> s.confidence == (Real { bits: 0x3FD3333333333333 }),
        (Real { bits: 0x3FE6666666666666 }).lt(raw) ==> s.confidence == (Real { bits: 0x3FE6666666666666 }),
        !s.size_frac.lt(Real { bits: 0x0000000000000000 }),
        !(Real { bits: 0x3FC3333333333333 }).lt(s.size_frac),
        p.edge.le(Real { bits: 0x0000000000000000 }) || (Real { bits: 0x3FF0000000000000 }).le(p.price) ==> s.size_frac == (Real { bits: 0x0000000000000000 }),
        !p.edge.le(Real { bits: 0x0000000000000000 }) && !(Real { bits: 0x3FF0000000000000 }).le(p.price) && (Real { bits: 0x0000000000000000 }).le(half) && half.le(
            Real { bits: 0x3FC3333333333333 },
        ) ==> s.size_frac == half,
        !p.edge.le(Real { bits: 0x0000000000000000 }) && !(Real { bits: 0x3FF0000000000000 }).le(p.price) && (Real { bits: 0x3FC3333333333333 }).lt(half) ==> s.size_frac == (Real { bits: 0x3FC3333333333333 }),
{
}

/// Too high a volatility is sold by buying the side away from the price, too low a one by buying
/// the side that the price is on, with the price, fair value and edge of the token of that very
/// side. A pick needs two other markets, thirty seconds, two points and a fit, a deviation of at
/// least 0.05, a price between zero and one and an edge of at least 0.01; and where all of this
/// holds, it is made.
pub proof fn law_outlier_side(
    n_cross: usize,
    u: Underlying,
    fit: Fit,
    distance: Real,
    up: TokenView,
    down: TokenView,
)
    ensures
        ({
            let r = CrossTimeframe::decision(n_cross, u, fit, distance, up, down);
            let t = if (fit.deviation.pos() && !distance.pos()) || (!fit.deviation.pos() && distance.pos()) {
                up
            } else {
                down
            };
            &&& r is Some ==> {
                &&& r->0.side == Side::Up <==> (fit.deviation.pos() && !distance.pos()) || (!fit.deviation.pos() && distance.pos())
                &&& r->0.side == Side::Up ==> r->0.price == up.price && r->0.fair == up.fair
                    && r->0.edge == up.edge
                &&& r->0.side == Side::Down ==> r->0.price == down.price && r->0.fair == down.fair
                    && r->0.edge == down.edge
                &&& n_cross >= 2 && fit.points >= 2
                &&& !u.sigma.le(Real { bits: 0x0000000000000000 }) && !u.s.le(Real { bits: 0x0000000000000000 }) && !u.k.le(Real { bits: 0x0000000000000000 })
                &&& !u.tau.lt(Real { bits: 0x403E000000000000 })
                &&& !fit.denominator.magnitude().lt(Real { bits: 0x3DDB7CDFD9D7BDBB })
                &&& !fit.deviation.magnitude().lt(Real { bits: 0x3FA999999999999A })
                &&& !t.price.le(Real { bits: 0x0000000000000000 }) && !(Real { bits: 0x3FF0000000000000 }).le(t.price)
                &&& !t.edge.lt(Real { bits: 0x3F847AE147AE147B })
            }
            &&& (n_cross >= 2 && fit.points >= 2
                && u.sigma.pos() && u.s.pos() && u.k.pos()
                && (Real { bits: 0x403E000000000000 }).le(u.tau)
                && (Real { bits: 0x3DDB7CDFD9D7BDBB }).le(fit.denominator.magnitude())
                && (Real { bits: 0x3FA999999999999A }).le(fit.deviation.magnitude())
                && t.price.pos() && t.price.lt(Real { bits: 0x3FF0000000000000 })
                && (Real { bits: 0x3F847AE147AE147B }).le(t.edge)) ==> r is Some
        }),
{
}

/// Whether a point enters the fit.
pub open spec fn fits(tau: Real, volatility: Real) -> bool {
    !tau.le(Real { bits: 0 }) && !volatility.le(Real { bits: 0 })
}

/// A point enters the fit unless its time or its volatility is zero or less.
pub proof fn law_fits(tau: Real, volatility: Real)
    ensures
        tau.le(Real { bits: 0 }) || volatility.le(Real { bits: 0 }) ==> !fits(tau, volatility),
        tau.pos() && volatility.pos() ==> fits(tau, volatility),
        !tau.nan() && !volatility.nan() ==> (fits(tau, volatility) <==> tau.pos()
            && volatility.pos()),
{
}

/// The time that is left, and one where less is.
pub open spec fn left_at_least_one(end_ms: int, now_ms: int) -> int {
    if end_ms - now_ms > 1 {
        end_ms - now_ms
    } else {
        1
    }
}

/// The time left is never less than one millisecond; where it is more, it and the time that it
/// is now make the end.
pub proof fn law_left_at_least_one(end_ms: int, now_ms: int)
    ensures
        left_at_least_one(end_ms, now_ms) >= 1,
        now_ms < end_ms ==> now_ms + left_at_least_one(end_ms, now_ms) == end_ms,
        end_ms <= now_ms ==> left_at_least_one(end_ms, now_ms) == 1,
{
}

} // verus!
