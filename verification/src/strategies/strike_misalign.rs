//! Trading a strike that was set off the market.

use vstd::prelude::*;

use crate::config::Interval;
use crate::number::Real;
use crate::strategies::{is_not_above_zero, is_unusable, not_above_zero, pick, pick_of, unusable};
use crate::strategies::{Pick, TokenView, ONE};
use crate::strategies::{keep_between, kelly, kelly_share, kept_between, signal_on, taking_signal};
use crate::types::{EvalTrigger, MarketInfo, Side, Signal};

verus! {

/// Strike misalignment (opening bias): the strike is a point-in-time snapshot at market open,
/// and noise biases it. Trade the bias in the first seconds before the market corrects.
pub struct StrikeMisalign;

/// 0.02, the least probability shift to trade
pub const MIN_DP: u64 = 0x3F947AE147AE147B;

/// 0.02
pub const MIN_EDGE: u64 = 0x3F947AE147AE147B;

/// 10.0
pub const MIN_TAU: u64 = 0x4024000000000000;

/// The opening window of a market of a given length, in milliseconds: that of the interval of
/// this length; for other lengths a twentieth, but no less than 15 and no more than 300
/// seconds.
pub open spec fn active_window(duration_ms: int) -> int {
    if duration_ms == Interval::M5.secs() * 1000 {
        Interval::M5.open_window()
    } else if duration_ms == Interval::M15.secs() * 1000 {
        Interval::M15.open_window()
    } else if duration_ms == Interval::H1.secs() * 1000 {
        Interval::H1.open_window()
    } else if duration_ms == Interval::H4.secs() * 1000 {
        Interval::H4.open_window()
    } else if duration_ms < 20 * 15_000 {
        15_000
    } else if duration_ms > 20 * 300_000 {
        300_000
    } else {
        duration_ms / 20
    }
}

/// Compute the active window for strike misalignment based on market duration.
/// 5m → 15s, 15m → 30s, 1h → 120s, 4h → 300s (matches Interval::open_window_ms).
pub fn max_active_ms(info: &MarketInfo) -> (r: i64)
    ensures
        r == active_window(info.end_ms - info.start_ms),
{
    let duration: i128 = info.end_ms as i128 - info.start_ms as i128;
    if duration == Interval::M5.window_ms() as i128 {
        Interval::M5.open_window_ms()
    } else if duration == Interval::M15.window_ms() as i128 {
        Interval::M15.open_window_ms()
    } else if duration == Interval::H1.window_ms() as i128 {
        Interval::H1.open_window_ms()
    } else if duration == Interval::H4.window_ms() as i128 {
        Interval::H4.open_window_ms()
    } else if duration < 300_000 {
        15_000
    } else if duration > 6_000_000 {
        300_000
    } else {
        (duration as i64) / 20
    }
}

/// Markets of an interval use the opening window of that interval.
pub proof fn law_active_window_matches_interval(i: Interval)
    ensures
        active_window(i.secs() * 1000) == i.open_window(),
{
}

/// What the strategy looks at.
#[derive(Clone, Copy, Debug, PartialEq, Eq, Structural)]
pub struct OpeningView {
    pub sigma: Real,
    /// Whether there is an average price at all.
    pub has_vwap: bool,
    /// The average price.
    pub s_ref: Real,
    pub tau: Real,
    /// Shift of the probability that the bias of the strike makes.
    pub dp: Real,
}

/// 0.4
pub const MIN_CONFIDENCE: u64 = 0x3FD999999999999A;

/// 0.9
pub const MAX_CONFIDENCE: u64 = 0x3FECCCCCCCCCCCCD;

impl StrikeMisalign {
    pub fn name(&self) -> (r: &'static str)
        ensures
            r@ == "strike_misalign"@,
    {
        "strike_misalign"
    }

    /// Whether `s` is the signal of a pick.
    pub open spec fn gives(s: Signal, p: Pick, raw: Real, half: Real) -> bool {
        &&& s.strategy@ == "strike_misalign"@
        &&& s == signal_on(
            s.strategy,
            p,
            kept_between(raw, MIN_CONFIDENCE, MAX_CONFIDENCE),
            kelly_share(p.edge, p.price, half),
            false,
            true,
        )
    }

    /// The signal of a pick: it is posted at the bid. `raw` is the change of probability, without
    /// its sign, over 0.10, and counts between the bounds of the confidence; `half` is what
    /// `kelly` takes.
    pub fn signal(&self, p: &Pick, raw: Real, half: Real) -> (s: Signal)
        ensures
            s.strategy@ == "strike_misalign"@,
            s == signal_on(
                s.strategy,
                *p,
                kept_between(raw, MIN_CONFIDENCE, MAX_CONFIDENCE),
                kelly_share(p.edge, p.price, half),
                false,
                true,
            ),
            Self::gives(s, *p, raw, half),
    {
        let s = taking_signal(
            "strike_misalign",
            p,
            keep_between(raw, MIN_CONFIDENCE, MAX_CONFIDENCE),
            kelly(p.edge, p.price, half),
        );
        Signal { use_bid: true, ..s }
    }

    pub fn trigger(&self) -> (r: EvalTrigger)
        ensures
            r == EvalTrigger::MarketOpen,
    {
        EvalTrigger::MarketOpen
    }

    /// Whether a time lies in the opening window.
    pub open spec fn active(info: MarketInfo, now_ms: i64) -> bool {
        0 <= now_ms - info.start_ms <= active_window(info.end_ms - info.start_ms)
    }

    pub open spec fn decision(
        info: MarketInfo,
        now_ms: i64,
        v: OpeningView,
        up: TokenView,
        down: TokenView,
    ) -> Option<Pick> {
        let side = if v.dp.pos() {
            Side::Up
        } else {
            Side::Down
        };
        let t = if v.dp.pos() {
            up
        } else {
            down
        };
        if !Self::active(info, now_ms) || not_above_zero(v.sigma) || !v.has_vwap || not_above_zero(
            v.s_ref,
        ) || v.tau.lt(Real { bits: MIN_TAU }) || v.dp.magnitude().lt(Real { bits: MIN_DP })
            || unusable(t.price, ONE) || t.edge.lt(Real { bits: MIN_EDGE }) {
            None
        } else {
            Some(pick_of(side, t))
        }
    }

    /// The tokens are seen at their bids: the order is posted there instead of crossing.
    pub fn evaluate(
        &self,
        info: &MarketInfo,
        now_ms: i64,
        v: &OpeningView,
        up: &TokenView,
        down: &TokenView,
    ) -> (r: Option<Pick>)
        ensures
            r == Self::decision(*info, now_ms, *v, *up, *down),
    {
        let elapsed: i128 = now_ms as i128 - info.start_ms as i128;
        if elapsed < 0 || elapsed > max_active_ms(info) as i128 {
            return None;
        }
        if is_not_above_zero(v.sigma) || !v.has_vwap || is_not_above_zero(v.s_ref) {
            return None;
        }
        if v.tau.less(Real { bits: MIN_TAU }) {
            return None;
        }
        if v.dp.abs().less(Real { bits: MIN_DP }) {
            return None;
        }
        // dp > 0: UP is underpriced; otherwise DOWN is
        let (side, t) = if v.dp.is_positive() {
            (Side::Up, up)
        } else {
            (Side::Down, down)
        };
        if is_unusable(t.price, ONE) {
            return None;
        }
        if t.edge.less(Real { bits: MIN_EDGE }) {
            return None;
        }
        Some(pick(side, t))
    }
}

/// A signal buys what was picked, on its side and at its price, posted at the bid; its confidence is kept between 0.4 and 0.9, and its
/// share of the bankroll is half-Kelly, nothing without an edge and never above 0.15.
pub proof fn law_signal_of_pick(s: Signal, p: Pick, raw: Real, half: Real)
    requires
        StrikeMisalign::gives(s, p, raw, half),
    ensures
        s.strategy@ == "strike_misalign"@,
        s.side == p.side,
        s.market_price == p.price,
        s.fair_value == p.fair,
        s.edge == p.edge,
        !s.is_passive,
        s.use_bid,
        !s.confidence.lt(Real { bits: 0x3FD999999999999A }),
        !(Real { bits: 0x3FECCCCCCCCCCCCD }).lt(s.confidence),
        !raw.lt(Real { bits: 0x3FD999999999999A }) && !(Real { bits: 0x3FECCCCCCCCCCCCD }).lt(raw) ==> s.confidence == raw,
        raw.lt(Real { bits: 0x3FD999999999999A }) ==> s.confidence == (Real { bits: 0x3FD999999999999A }),
        (Real { bits: 0x3FECCCCCCCCCCCCD }).lt(raw) ==> s.confidence == (Real { bits: 0x3FECCCCCCCCCCCCD }),
        !s.size_frac.lt(Real { bits: 0x0000000000000000 }),
        !(Real { bits: 0x3FC3333333333333 }).lt(s.size_frac),
        p.edge.le(Real { bits: 0x0000000000000000 }) || (Real { bits: 0x3FF0000000000000 }).le(p.price) ==> s.size_frac == (Real { bits: 0x0000000000000000 }),
        !p.edge.le(Real { bits: 0x0000000000000000 }) && !(Real { bits: 0x3FF0000000000000 }).le(p.price) && (Real { bits: 0x0000000000000000 }).le(half) && half.le(
            Real { bits: 0x3FC3333333333333 },
        ) ==> s.size_frac == half,
        !p.edge.le(Real { bits: 0x0000000000000000 }) && !(Real { bits: 0x3FF0000000000000 }).le(p.price) && (Real { bits: 0x3FC3333333333333 }).lt(half) ==> s.size_frac == (Real { bits: 0x3FC3333333333333 }),
{
}

/// A pick is on the up side exactly where the shift of probability is positive, with the price,
/// fair value and edge of the token of that very side. It is made in the opening window of a
/// market with volatility, an average price and ten seconds left, on a shift of at least 0.02,
/// at a price between zero and one and with an edge of at least 0.02; and where all of this
/// holds, it is made.
pub proof fn law_misaligned_side(
    info: MarketInfo,
    now_ms: i64,
    v: OpeningView,
    up: TokenView,
    down: TokenView,
)
    ensures
        ({
            let r = StrikeMisalign::decision(info, now_ms, v, up, down);
            let t = if v.dp.pos() {
                up
            } else {
                down
            };
            &&& r is Some ==> {
                &&& r->0.side == Side::Up <==> v.dp.pos()
                &&& r->0.side == Side::Up ==> r->0.price == up.price && r->0.fair == up.fair
                    && r->0.edge == up.edge
                &&& r->0.side == Side::Down ==> r->0.price == down.price && r->0.fair == down.fair
                    && r->0.edge == down.edge
                &&& 0 <= now_ms - info.start_ms <= active_window(info.end_ms - info.start_ms)
                &&& !v.sigma.le(Real { bits: 0x0000000000000000 }) && v.has_vwap && !v.s_ref.le(Real { bits: 0x0000000000000000 })
                &&& !v.tau.lt(Real { bits: 0x4024000000000000 })
                &&& !v.dp.magnitude().lt(Real { bits: 0x3F947AE147AE147B })
                &&& !t.price.le(Real { bits: 0x0000000000000000 }) && !(Real { bits: 0x3FF0000000000000 }).le(t.price)
                &&& !t.edge.lt(Real { bits: 0x3F947AE147AE147B })
            }
            &&& (0 <= now_ms - info.start_ms <= active_window(info.end_ms - info.start_ms)
                && v.sigma.pos() && v.has_vwap && v.s_ref.pos()
                && (Real { bits: 0x4024000000000000 }).le(v.tau)
                && (Real { bits: 0x3F947AE147AE147B }).le(v.dp.magnitude())
                && t.price.pos() && t.price.lt(Real { bits: 0x3FF0000000000000 })
                && (Real { bits: 0x3F947AE147AE147B }).le(t.edge)) ==> r is Some
        }),
{
}

/// The opening window is 15 seconds of five minutes, 30 of a quarter, 120 of an hour and 300 of
/// four hours; it is never shorter than 15 seconds nor longer than 300, and of other lengths
/// in between a twentieth.
pub proof fn law_active_window(duration_ms: int)
    ensures
        active_window(300_000) == 15_000,
        active_window(900_000) == 30_000,
        active_window(3_600_000) == 120_000,
        active_window(14_400_000) == 300_000,
        15_000 <= active_window(duration_ms) <= 300_000,
        300_000 < duration_ms < 6_000_000 && duration_ms != 900_000 && duration_ms != 3_600_000
            ==> 20 * active_window(duration_ms) <= duration_ms < 20 * active_window(duration_ms)
            + 20,
        duration_ms < 300_000 ==> active_window(duration_ms) == 15_000,
        6_000_000 <= duration_ms ==> active_window(duration_ms) == 300_000,
{
}

} // verus!
