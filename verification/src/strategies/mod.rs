//! Strategies: which side to take, if any, given what the model makes of the market.
//!
//! Each strategy decides on values that the pricing model has computed; none keeps state.

use vstd::prelude::*;

use crate::number::Real;
use crate::types::{MarketInfo, Side, Signal};

pub mod certainty_capture;
pub mod convexity_fade;
pub mod cross_timeframe;
pub mod distance_fade;
pub mod latency_arb;
pub mod lp_extreme;
pub mod momentum;
pub mod settlement_sniper;
pub mod strike_misalign;

verus! {

/// 1.0
pub const ONE: u64 = 0x3FF0000000000000;

/// What the model sees of the underlying.
#[derive(Clone, Copy, Debug, PartialEq, Eq, Structural)]
pub struct Underlying {
    /// Volatility per second.
    pub sigma: Real,
    /// Estimated settlement price.
    pub s: Real,
    /// Strike.
    pub k: Real,
    /// Effective time to expiry in seconds.
    pub tau: Real,
}

/// What the model sees of one token.
#[derive(Clone, Copy, Debug, PartialEq, Eq, Structural)]
pub struct TokenView {
    /// Price at which the token would be bought.
    pub price: Real,
    /// Probability that it pays.
    pub fair: Real,
    /// Fair value less price.
    pub edge: Real,
    /// Distance between best ask and best bid of its book.
    pub spread: Real,
    /// Share of the bids in the depth of its book.
    pub imbalance: Real,
    /// Share of the bankroll to put in.
    pub size_frac: Real,
}

/// A decision to buy one token.
#[derive(Clone, Copy, Debug, PartialEq, Eq, Structural)]
pub struct Pick {
    pub side: Side,
    pub edge: Real,
    pub fair: Real,
    pub price: Real,
}

pub open spec fn pick_of(side: Side, t: TokenView) -> Pick {
    Pick { side, edge: t.edge, fair: t.fair, price: t.price }
}

/// The decision to buy a token.
pub fn pick(side: Side, t: &TokenView) -> (r: Pick)
    ensures
        r == pick_of(side, *t),
{
    Pick { side, edge: t.edge, fair: t.fair, price: t.price }
}

/// A number kept between two bounds. What is no number stays as it is.
pub open spec fn kept_between(x: Real, low: u64, high: u64) -> Real {
    if x.lt(Real { bits: low }) {
        Real { bits: low }
    } else if (Real { bits: high }).lt(x) {
        Real { bits: high }
    } else {
        x
    }
}

pub(crate) fn keep_between(x: Real, low: u64, high: u64) -> (r: Real)
    ensures
        r == kept_between(x, low, high),
{
    if x.less(Real { bits: low }) {
        Real { bits: low }
    } else if (Real { bits: high }).less(x) {
        Real { bits: high }
    } else {
        x
    }
}

/// 0.15, the largest share of the bankroll
pub const MAX_KELLY: u64 = 0x3FC3333333333333;

/// The share of the bankroll that an edge at a price is worth.
pub open spec fn kelly_share(edge: Real, price: Real, half: Real) -> Real {
    if (Real { bits: ONE }).le(price) || edge.le(Real { bits: 0 }) {
        Real { bits: 0 }
    } else {
        kept_between(half, 0, MAX_KELLY)
    }
}

/// Half-Kelly position sizing: nothing without an edge or where nothing can be won, and never
/// more than the largest share. `half` is half of the edge over what can be won.
pub fn kelly(edge: Real, price: Real, half: Real) -> (r: Real)
    ensures
        r == (if (Real { bits: ONE }).le(price) || edge.le(Real { bits: 0 }) {
            Real { bits: 0 }
        } else {
            kept_between(half, 0, MAX_KELLY)
        }),
        r == kelly_share(edge, price, half),
{
    if (Real { bits: ONE }).at_most(price) || edge.at_most(Real::zero()) {
        return Real::zero();
    }
    keep_between(half, 0, MAX_KELLY)
}

/// No share is negative or above the largest, and none is put on a price from one on or
/// without an edge.
pub proof fn law_kelly_is_bounded(edge: Real, price: Real, half: Real)
    ensures
        !kelly_share(edge, price, half).lt(Real { bits: 0 }),
        !(Real { bits: MAX_KELLY }).lt(kelly_share(edge, price, half)),
        (Real { bits: ONE }).le(price) ==> kelly_share(edge, price, half) == (Real { bits: 0 }),
        edge.le(Real { bits: 0 }) ==> kelly_share(edge, price, half) == (Real { bits: 0 }),
        !half.nan() ==> !kelly_share(edge, price, half).nan(),
{
}

/// The signal that a strategy gives on a pick.
pub open spec fn signal_on(
    strategy: &'static str,
    p: Pick,
    confidence: Real,
    size_frac: Real,
    is_passive: bool,
    use_bid: bool,
) -> Signal {
    Signal {
        strategy,
        side: p.side,
        edge: p.edge,
        fair_value: p.fair,
        market_price: p.price,
        confidence,
        size_frac,
        is_passive,
        use_bid,
    }
}

/// The signal of a strategy that takes the ask.
pub(crate) fn taking_signal(strategy: &'static str, p: &Pick, confidence: Real, size_frac: Real)
    -> (s: Signal)
    ensures
        s == signal_on(strategy, *p, confidence, size_frac, false, false),
{
    Signal {
        strategy,
        side: p.side,
        edge: p.edge,
        fair_value: p.fair,
        market_price: p.price,
        confidence,
        size_frac,
        is_passive: false,
        use_bid: false,
    }
}

/// Not above zero.
pub open spec fn not_above_zero(x: Real) -> bool {
    x.le(Real { bits: 0 })
}

pub(crate) fn is_not_above_zero(x: Real) -> (r: bool)
    ensures
        r == not_above_zero(x),
{
    x.at_most(Real::zero())
}

/// Whether a price is no use: not above zero, or at `top` and above.
pub open spec fn unusable(price: Real, top: u64) -> bool {
    not_above_zero(price) || (Real { bits: top }).le(price)
}

pub(crate) fn is_unusable(price: Real, top: u64) -> (r: bool)
    ensures
        r == unusable(price, top),
{
    is_not_above_zero(price) || (Real { bits: top }).at_most(price)
}

/// Whether a price lies strictly between zero and one.
pub open spec fn tradable(price: Real) -> bool {
    price.pos() && price.lt(Real { bits: ONE })
}

pub(crate) fn is_tradable(price: Real) -> (r: bool)
    ensures
        r == tradable(price),
{
    price.is_positive() && price.less(Real { bits: ONE })
}

impl Underlying {
    /// Whether there is no volatility, too little time, or no price or strike.
    pub open spec fn unfit(self, min_tau: u64) -> bool {
        not_above_zero(self.sigma) || self.tau.lt(Real { bits: min_tau }) || not_above_zero(self.s)
            || not_above_zero(self.k)
    }

    pub fn is_unfit(&self, min_tau: u64) -> (r: bool)
        ensures
            r == self.unfit(min_tau),
    {
        is_not_above_zero(self.sigma) || self.tau.less(Real { bits: min_tau })
            || is_not_above_zero(self.s) || is_not_above_zero(self.k)
    }
}

/// The signals among the outcomes of strategies, in their order.
pub open spec fn present(outcomes: Seq<Option<Signal>>) -> Seq<Signal>
    decreases outcomes.len(),
{
    if outcomes.len() == 0 {
        Seq::empty()
    } else {
        match outcomes.last() {
            Some(s) => present(outcomes.drop_last()).push(s),
            None => present(outcomes.drop_last()),
        }
    }
}

/// Fills a buffer with the signals among the outcomes of strategies. What the buffer held
/// before is gone.
pub fn evaluate_filtered(outcomes: &Vec<Option<Signal>>, buf: &mut Vec<Signal>)
    ensures
        final(buf)@ == present(outcomes@),
{
    buf.clear();
    let mut i: usize = 0;
    assert(outcomes@.take(0) =~= Seq::empty());
    while i < outcomes.len()
        invariant
            i <= outcomes.len(),
            buf@ == present(outcomes@.take(i as int)),
        decreases outcomes.len() - i,
    {
        assert(outcomes@.take(i + 1).drop_last() =~= outcomes@.take(i as int));
        if let Some(s) = outcomes[i] {
            buf.push(s);
        }
        i = i + 1;
    }
    assert(outcomes@.take(i as int) =~= outcomes@);
}

/// Time left and length of a market.
pub open spec fn time_parts(start_ms: i64, end_ms: i64, now_ms: i64) -> (int, int) {
    (
        if end_ms > now_ms {
            end_ms - now_ms
        } else {
            0
        },
        if end_ms - start_ms > 1 {
            end_ms - start_ms
        } else {
            1
        },
    )
}

/// All of the time is left at the start and none from the end on; in between, what has passed
/// and what is left make up the market.
pub proof fn law_time_left(start_ms: i64, end_ms: i64, now_ms: i64)
    requires
        start_ms < end_ms,
    ensures
        time_parts(start_ms, end_ms, now_ms).1 == end_ms - start_ms,
        now_ms == start_ms ==> time_parts(start_ms, end_ms, now_ms).0 == time_parts(
            start_ms,
            end_ms,
            now_ms,
        ).1,
        now_ms >= end_ms ==> time_parts(start_ms, end_ms, now_ms).0 == 0,
        start_ms <= now_ms <= end_ms ==> time_parts(start_ms, end_ms, now_ms).0 + (now_ms
            - start_ms) == time_parts(start_ms, end_ms, now_ms).1,
{
}

/// Time left and length of a market, in milliseconds: their ratio is one at the start and zero
/// at the end. No time is left after the end, and the length is at least one.
pub fn time_left_parts(info: &MarketInfo, now_ms: i64) -> (r: (u64, u64))
    ensures
        r.0 == if info.end_ms > now_ms {
            info.end_ms - now_ms
        } else {
            0
        },
        r.1 == if info.end_ms - info.start_ms > 1 {
            info.end_ms - info.start_ms
        } else {
            1
        },
        (r.0 as int, r.1 as int) == time_parts(info.start_ms, info.end_ms, now_ms),
{
    let left: i128 = info.end_ms as i128 - now_ms as i128;
    let total: i128 = info.end_ms as i128 - info.start_ms as i128;
    (
        if left > 0 {
            left as u64
        } else {
            0
        },
        if total > 1 {
            total as u64
        } else {
            1
        },
    )
}

/// A pick has the side that it was made for and the numbers of its token, and a signal has the
/// numbers of its pick.
pub proof fn law_numbers_carry_over(
    strategy: &'static str,
    side: Side,
    t: TokenView,
    confidence: Real,
    size_frac: Real,
    is_passive: bool,
    use_bid: bool,
)
    ensures
        ({
            let p = pick_of(side, t);
            let s = signal_on(strategy, p, confidence, size_frac, is_passive, use_bid);
            &&& p.side == side && s.side == side
            &&& p.price == t.price && s.market_price == t.price
            &&& p.fair == t.fair && s.fair_value == t.fair
            &&& p.edge == t.edge && s.edge == t.edge
            &&& s.strategy == strategy
            &&& s.confidence == confidence && s.size_frac == size_frac
            &&& s.is_passive == is_passive && s.use_bid == use_bid
        }),
{
}

/// What is kept between two bounds lies between them, and is left alone where it does.
pub proof fn law_kept_between(x: Real, low: u64, high: u64)
    requires
        (Real { bits: low }).le(Real { bits: high }),
    ensures
        !kept_between(x, low, high).lt(Real { bits: low }),
        !(Real { bits: high }).lt(kept_between(x, low, high)),
        (Real { bits: low }).le(x) && x.le(Real { bits: high }) ==> kept_between(x, low, high) == x,
        x.lt(Real { bits: low }) ==> kept_between(x, low, high) == (Real { bits: low }),
        (Real { bits: high }).lt(x) ==> kept_between(x, low, high) == (Real { bits: high }),
        x.nan() ==> kept_between(x, low, high) == x,
{
}

/// The signals of outcomes are those of a first part and then those of the rest; an outcome
/// that is none gives none, and a signal gives itself.
pub proof fn law_present(a: Seq<Option<Signal>>, b: Seq<Option<Signal>>, s: Signal)
    ensures
        present(a + b) == present(a) + present(b),
        present(seq![Some(s)]) == seq![s],
        present(seq![None]) == Seq::<Signal>::empty(),
        present(Seq::empty()) == Seq::<Signal>::empty(),
    decreases b.len(),
{
    let one: Seq<Option<Signal>> = seq![Some(s)];
    let none: Seq<Option<Signal>> = seq![None];
    assert(one.drop_last() =~= Seq::empty());
    assert(none.drop_last() =~= Seq::empty());
    assert(present(Seq::empty()) =~= Seq::<Signal>::empty());
    assert(present(one) =~= seq![s]);
    if b.len() == 0 {
        assert(a + b =~= a);
        assert(present(a) + present(b) =~= present(a));
    } else {
        law_present(a, b.drop_last(), s);
        assert((a + b).drop_last() =~= a + b.drop_last());
        assert((a + b).last() == b.last());
        assert(present(a + b) =~= present(a) + present(b));
    }
}

/// No share is above 0.15, and between zero and that it is the half-Kelly value.
pub proof fn law_kelly_is_half(edge: Real, price: Real, half: Real)
    requires
        !edge.le(Real { bits: 0x0000000000000000 }),
        !(Real { bits: 0x3FF0000000000000 }).le(price),
    ensures
        (Real { bits: 0x0000000000000000 }).le(half) && half.le(Real { bits: 0x3FC3333333333333 }) ==> kelly_share(edge, price, half) == half,
        (Real { bits: 0x3FC3333333333333 }).lt(half) ==> kelly_share(edge, price, half) == (Real { bits: 0x3FC3333333333333 }),
        half.lt(Real { bits: 0x0000000000000000 }) ==> kelly_share(edge, price, half) == (Real { bits: 0x0000000000000000 }),
{
}

/// A market can be looked at exactly where there is volatility, enough time, a price and a
/// strike.
pub proof fn law_unfit(u: Underlying, min_tau: u64)
    ensures
        u.unfit(min_tau) <==> u.sigma.le(Real { bits: 0x0000000000000000 }) || u.s.le(Real { bits: 0x0000000000000000 }) || u.k.le(Real { bits: 0x0000000000000000 }) || u.tau.lt(
            Real { bits: min_tau },
        ),
{
}

} // verus!
