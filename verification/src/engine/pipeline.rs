//! Shared signal processing pipeline.
//!
//! Used by the live engine and the backtest engine alike, so that deconfliction, sorting, risk
//! checking and house-side coherence are the same in both.

use vstd::prelude::*;

use crate::engine::book::picked;
use crate::engine::risk::law_order_follows_signal;
use crate::engine::risk::{limits_at, order_recorded, strategy_index, Amounts, StrategyRiskManager};
use crate::engine::risk::{ORDER_TTL_MS, STRATEGY_COUNT};
use crate::engine::state::{MarketState, PositionTracker, StrategyStats};
use crate::number::Real;
use crate::sort::{is_stable_order, law_stable_order_is_unique, stable_order};
use crate::types::{Order, Side, Signal};

verus! {

/// Maximum number of directional flips allowed per market.
/// A flip is when the house side changes from one side to the other.
/// Prevents churn from repeated thesis reversals mid-market.
pub const MAX_DIRECTION_FLIPS: u32 = 1;

/// 0.7, the least confidence that can set the house side
pub const HOUSE_CONFIDENCE: u64 = 0x3FE6666666666666;

/// A signal with its score, the product of edge and confidence.
#[derive(Clone, Copy, Debug)]
pub struct Scored {
    pub signal: Signal,
    pub score: Real,
}

/// The view of the house on the running market.
#[derive(Clone, Copy, Debug, PartialEq, Eq, Structural)]
pub struct House {
    pub side: Option<Side>,
    pub flips: u32,
}

impl House {
    pub fn new() -> (h: Self)
        ensures
            h == (House { side: None, flips: 0 }),
    {
        House { side: None, flips: 0 }
    }

    /// The view after an order on a signal. Only active signals of high confidence count; the
    /// first one sets the side, and later ones may turn it as long as flips are left.
    pub open spec fn after_order(self, signal: Signal) -> House {
        if signal.is_passive || !(Real { bits: HOUSE_CONFIDENCE }).le(signal.confidence) {
            self
        } else {
            match self.side {
                None => House { side: Some(signal.side), ..self },
                Some(prev) => if prev != signal.side && self.flips < MAX_DIRECTION_FLIPS {
                    House { side: Some(signal.side), flips: (self.flips + 1) as u32 }
                } else {
                    self
                },
            }
        }
    }

    pub fn note_order(&mut self, signal: &Signal)
        ensures
            *final(self) == old(self).after_order(*signal),
    {
        if !signal.is_passive && (Real { bits: HOUSE_CONFIDENCE }).at_most(signal.confidence) {
            match self.side {
                None => {
                    self.side = Some(signal.side);
                },
                Some(prev) => {
                    if prev != signal.side && self.flips < MAX_DIRECTION_FLIPS {
                        self.side = Some(signal.side);
                        self.flips = self.flips + 1;
                    }
                },
            }
        }
    }
}

/// A passive signal, or one of too little confidence, leaves the view of the house alone; no
/// order makes more flips than are allowed; a view once taken is never given up.
pub proof fn law_house_view(h: House, signal: Signal)
    ensures
        signal.is_passive ==> h.after_order(signal) == h,
        !(Real { bits: HOUSE_CONFIDENCE }).le(signal.confidence) ==> h.after_order(signal) == h,
        h.flips <= MAX_DIRECTION_FLIPS ==> h.after_order(signal).flips <= MAX_DIRECTION_FLIPS,
        h.side is Some ==> h.after_order(signal).side is Some,
        h.side == Some(signal.side) ==> h.after_order(signal) == h,
        h.flips >= MAX_DIRECTION_FLIPS && h.side is Some ==> h.after_order(signal) == h,
{
}

/// The signals that agree with a side, and the passive ones, in their order.
pub open spec fn agreeing(s: Seq<Scored>, side: Side) -> Seq<Scored>
    decreases s.len(),
{
    if s.len() == 0 {
        s
    } else {
        let rest = agreeing(s.drop_last(), side);
        if s.last().signal.is_passive || s.last().signal.side == side {
            rest.push(s.last())
        } else {
            rest
        }
    }
}

proof fn lemma_agreeing(s: Seq<Scored>, side: Side)
    ensures
        agreeing(s, side).len() <= s.len(),
        forall|i: int|
            0 <= i < agreeing(s, side).len() ==> (#[trigger] agreeing(
                s,
                side,
            )[i]).signal.is_passive || agreeing(s, side)[i].signal.side == side,
        forall|i: int|
            0 <= i < agreeing(s, side).len() ==> s.contains(#[trigger] agreeing(s, side)[i]),
        forall|i: int|
            0 <= i < s.len() && ((#[trigger] s[i]).signal.is_passive || s[i].signal.side == side)
                ==> agreeing(s, side).contains(s[i]),
    decreases s.len(),
{
    if s.len() > 0 {
        let p = s.drop_last();
        lemma_agreeing(p, side);
        let r = agreeing(s, side);
        let q = agreeing(p, side);
        assert forall|i: int| 0 <= i < r.len() implies s.contains(#[trigger] r[i]) && (
        r[i].signal.is_passive || r[i].signal.side == side) by {
            if i < q.len() {
                assert(r[i] == q[i]);
                let k = choose|k: int| 0 <= k < p.len() && p[k] == q[i];
                assert(s[k] == r[i]);
            } else {
                assert(r[i] == s[s.len() - 1]);
            }
        }
        assert forall|i: int|
            0 <= i < s.len() && ((#[trigger] s[i]).signal.is_passive || s[i].signal.side
                == side) implies r.contains(s[i]) by {
            if i < p.len() {
                assert(p[i] == s[i]);
                let k = choose|k: int| 0 <= k < q.len() && q[k] == p[i];
                assert(r[k] == s[i]);
            } else {
                assert(r[r.len() - 1] == s[i]);
            }
        }
    }
}

/// How many signals are active.
pub open spec fn active_count(s: Seq<Scored>) -> int
    decreases s.len(),
{
    if s.len() == 0 {
        0
    } else {
        active_count(s.drop_last()) + if s.last().signal.is_passive {
            0int
        } else {
            1
        }
    }
}

/// The signals that survive: with a house side, those that agree with it; without one, where
/// several active signals disagree, those of the side with the greater score.
pub open spec fn surviving(
    s: Seq<Scored>,
    house: Option<Side>,
    up_score: Real,
    down_score: Real,
) -> Seq<Scored> {
    match house {
        Some(side) => agreeing(s, side),
        None => if active_count(s) > 1 && up_score.pos() && down_score.pos() {
            agreeing(
                s,
                if down_score.le(up_score) {
                    Side::Up
                } else {
                    Side::Down
                },
            )
        } else {
            s
        },
    }
}

/// The keys by which signals are put in order: the best score first.
pub open spec fn score_keys(s: Seq<Scored>) -> Seq<i128> {
    s.map_values(|x: Scored| (-x.score.key()) as i128)
}

/// Whether `out` holds the signals from the best score down.
pub open spec fn is_ranked(s: Seq<Scored>, out: Seq<Scored>) -> bool {
    exists|order: Seq<usize>|
        is_stable_order(score_keys(s), order) && out == #[trigger] picked(s, order)
}

fn agreeing_with(s: &Vec<Scored>, side: Side) -> (r: Vec<Scored>)
    ensures
        r@ == agreeing(s@, side),
{
    let mut out: Vec<Scored> = Vec::new();
    let mut i: usize = 0;
    assert(s@.take(0) =~= Seq::empty());
    while i < s.len()
        invariant
            i <= s.len(),
            out@ == agreeing(s@.take(i as int), side),
        decreases s.len() - i,
    {
        assert(s@.take(i + 1).drop_last() =~= s@.take(i as int));
        if s[i].signal.is_passive || s[i].signal.side == side {
            out.push(s[i]);
        }
        i = i + 1;
    }
    assert(s@.take(i as int) =~= s@);
    out
}

fn count_active(s: &Vec<Scored>) -> (n: usize)
    ensures
        n == active_count(s@),
{
    let mut n: usize = 0;
    let mut i: usize = 0;
    assert(s@.take(0) =~= Seq::empty());
    while i < s.len()
        invariant
            i <= s.len(),
            n <= i,
            n == active_count(s@.take(i as int)),
        decreases s.len() - i,
    {
        assert(s@.take(i + 1).drop_last() =~= s@.take(i as int));
        if !s[i].signal.is_passive {
            n = n + 1;
        }
        i = i + 1;
    }
    assert(s@.take(i as int) =~= s@);
    n
}

fn rank(s: &Vec<Scored>) -> (out: Vec<Scored>)
    ensures
        is_ranked(s@, out@),
        out@.len() == s@.len(),
{
    let mut keys: Vec<i128> = Vec::new();
    let mut i: usize = 0;
    while i < s.len()
        invariant
            i <= s.len(),
            keys@ == score_keys(s@).take(i as int),
        decreases s.len() - i,
    {
        let k: i64 = s[i].score.sort_key();
        keys.push(-(k as i128));
        i = i + 1;
        assert(keys@ =~= score_keys(s@).take(i as int));
    }
    assert(keys@ =~= score_keys(s@));
    let order = stable_order(&keys);
    let mut out: Vec<Scored> = Vec::new();
    let mut j: usize = 0;
    while j < order.len()
        invariant
            j <= order.len(),
            is_stable_order(score_keys(s@), order@),
            score_keys(s@).len() == s@.len(),
            out@ == picked(s@, order@).take(j as int),
        decreases order.len() - j,
    {
        out.push(s[order[j]]);
        j = j + 1;
        assert(out@ =~= picked(s@, order@).take(j as int));
    }
    assert(out@ =~= picked(s@, order@));
    out
}

/// Whether every score is a number.
pub open spec fn scores_are_numbers(s: Seq<Scored>) -> bool {
    forall|i: int| 0 <= i < s.len() ==> !(#[trigger] s[i]).score.nan()
}

/// Filters, deconflicts and ranks a batch of signals. `up_score` and `down_score` are the sums
/// of the scores of the active signals of each side.
pub fn select_signals(
    signals: &Vec<Scored>,
    house_side: Option<Side>,
    up_score: Real,
    down_score: Real,
) -> (out: Vec<Scored>)
    requires
        scores_are_numbers(signals@),
    ensures
        is_ranked(surviving(signals@, house_side, up_score, down_score), out@),
        out@.len() <= signals@.len(),
        house_side matches Some(side) ==> forall|i: int|
            0 <= i < out@.len() ==> (#[trigger] out@[i]).signal.is_passive || out@[i].signal.side
                == side,
{
    let kept = match house_side {
        Some(side) => agreeing_with(signals, side),
        None => if count_active(signals) > 1 && up_score.is_positive()
            && down_score.is_positive() {
            let dominant = if down_score.at_most(up_score) {
                Side::Up
            } else {
                Side::Down
            };
            agreeing_with(signals, dominant)
        } else {
            let mut all: Vec<Scored> = Vec::new();
            let mut i: usize = 0;
            while i < signals.len()
                invariant
                    i <= signals.len(),
                    all@ == signals@.take(i as int),
                decreases signals.len() - i,
            {
                all.push(signals[i]);
                i = i + 1;
                assert(all@ =~= signals@.take(i as int));
            }
            assert(all@ =~= signals@);
            all
        },
    };
    let out = rank(&kept);
    proof {
        lemma_agreeing(signals@, Side::Up);
        lemma_agreeing(signals@, Side::Down);
        let order = choose|order: Seq<usize>|
            is_stable_order(score_keys(kept@), order) && out@ == #[trigger] picked(kept@, order);
        if let Some(side) = house_side {
            assert forall|i: int| 0 <= i < out@.len() implies (
            #[trigger] out@[i]).signal.is_passive || out@[i].signal.side == side by {
                assert(out@[i] == kept@[order[i] as int]);
            }
        }
    }
    out
}

/// Signals come from the best score down, and all of them come.
pub proof fn law_ranked(s: Seq<Scored>, out: Seq<Scored>, i: int, j: int)
    requires
        is_ranked(s, out),
        scores_are_numbers(s),
        0 <= i <= j < out.len(),
    ensures
        out.len() == s.len(),
        out[j].score.le(out[i].score),
        s.contains(out[i]),
{
    let order = choose|order: Seq<usize>|
        is_stable_order(score_keys(s), order) && out == #[trigger] picked(s, order);
    assert(out[i] == s[order[i] as int]);
    assert(out[j] == s[order[j] as int]);
    if i < j {
        assert(crate::sort::comes_before(score_keys(s), order[i] as int, order[j] as int));
    }
}

/// There is one way to rank signals.
pub proof fn law_ranking_is_unique(s: Seq<Scored>, a: Seq<Scored>, b: Seq<Scored>)
    requires
        s.len() <= usize::MAX,
        is_ranked(s, a),
        is_ranked(s, b),
    ensures
        a == b,
{
    let x = choose|order: Seq<usize>|
        is_stable_order(score_keys(s), order) && a == #[trigger] picked(s, order);
    let y = choose|order: Seq<usize>|
        is_stable_order(score_keys(s), order) && b == #[trigger] picked(s, order);
    law_stable_order_is_unique(score_keys(s), x, y);
}

/// No passive signal is ever dropped, whatever the house thinks; with a house side no active
/// signal of the other side survives; and without one, where several active signals disagree,
/// none of the side with the lesser score does, while otherwise every signal survives.
pub proof fn law_passive_signals_survive(
    s: Seq<Scored>,
    house: Option<Side>,
    up_score: Real,
    down_score: Real,
    i: int,
)
    requires
        0 <= i < s.len(),
    ensures
        s[i].signal.is_passive ==> surviving(s, house, up_score, down_score).contains(s[i]),
        house matches Some(side) ==> (surviving(s, house, up_score, down_score).contains(s[i]) <==>
        (s[i].signal.is_passive || s[i].signal.side == side)),
        house is None && active_count(s) > 1 && up_score.pos() && down_score.pos() ==> (surviving(
            s,
            house,
            up_score,
            down_score,
        ).contains(s[i]) <==> (s[i].signal.is_passive || (s[i].signal.side == Side::Up
            <==> down_score.le(up_score)))),
        house is None && !(active_count(s) > 1 && up_score.pos() && down_score.pos())
            ==> surviving(s, house, up_score, down_score) == s,
{
    lemma_agreeing(s, Side::Up);
    lemma_agreeing(s, Side::Down);
    assert(s.contains(s[i]));
}

/// 0.0, the slippage of live orders, which fill at what the market asks
pub const LIVE_SLIPPAGE: u64 = 0;

/// 0.01, the slippage of simulated orders
pub const BACKTEST_SLIPPAGE: u64 = 0x3F847AE147AE147B;

/// Configuration knobs that differ between live and backtest.
#[derive(Clone, Copy, Debug, PartialEq, Eq, Structural)]
pub struct ProcessConfig {
    /// Simulated slippage added to the price of an order.
    pub slippage_cents: Real,
}

impl ProcessConfig {
    pub fn live() -> (c: Self)
        ensures
            c.slippage_cents == (Real { bits: LIVE_SLIPPAGE }),
    {
        ProcessConfig { slippage_cents: Real { bits: LIVE_SLIPPAGE } }
    }

    pub fn backtest() -> (c: Self)
        ensures
            c.slippage_cents == (Real { bits: BACKTEST_SLIPPAGE }),
    {
        ProcessConfig { slippage_cents: Real { bits: BACKTEST_SLIPPAGE } }
    }
}

/// 0.99, the highest price that slippage leads to
pub const TOP_PRICE: u64 = 0x3FEFAE147AE147AE;

/// The price of an order with simulated slippage: `raised` is the price with the slippage
/// added, and counts up to a limit; without slippage the price stays.
pub open spec fn price_with(price: Real, slippage: Real, raised: Real) -> Real {
    if slippage.pos() {
        raised.lesser(Real { bits: TOP_PRICE })
    } else {
        price
    }
}

/// The price of an order with simulated slippage.
pub fn slipped_price(price: Real, slippage: Real, raised: Real) -> (r: Real)
    ensures
        r == price_with(price, slippage, raised),
{
    if slippage.is_positive() {
        raised.min(Real { bits: TOP_PRICE })
    } else {
        price
    }
}

/// Live orders are sent at the price of their signal, whatever the sink answers; simulated ones
/// never above the limit.
pub proof fn law_slippage(price: Real, raised: Real)
    ensures
        price_with(price, Real { bits: LIVE_SLIPPAGE }, raised) == price,
        !(Real { bits: TOP_PRICE }).lt(
            price_with(price, Real { bits: BACKTEST_SLIPPAGE }, raised),
        ),
{
}

/// What an order does to the sums that are kept in dollars: its price with the slippage added,
/// the exposures with its size added, and the edges of its strategy with its own added.
#[derive(Clone, Copy, Debug)]
pub struct OrderSums {
    pub raised: Real,
    pub exposure: Real,
    pub total_exposure: Real,
    pub total_edge: Real,
}

/// One call of a sink: what it was handed, and what it answered where it was asked.
pub ghost enum Call {
    Logged { signal: Signal, state: MarketState, now_ms: i64 },
    Asked { signal: Signal, risk: StrategyRiskManager, amounts: Amounts },
    Summed {
        signal: Signal,
        order: Order,
        state: MarketState,
        risk: StrategyRiskManager,
        sums: OrderSums,
    },
    Sent { signal: Signal, order: Order, state: MarketState, now_ms: i64 },
}

/// The history of a sink.
pub type Calls = Seq<Call>;

/// The signal that a call is about.
pub open spec fn called_for(call: Call) -> Signal {
    match call {
        Call::Logged { signal, .. } => signal,
        Call::Asked { signal, .. } => signal,
        Call::Summed { signal, .. } => signal,
        Call::Sent { signal, .. } => signal,
    }
}

/// Callbacks for engine-specific work during signal processing.
///
/// The live engine implements this with channel sends and telemetry, the backtester with
/// records. Both do the sums in dollars. What a sink answers is up to it; `calls` is the
/// history of its calls with the answers that it gave.
pub trait SignalSink {
    /// The calls so far, in their order. This is for proofs alone: nothing runs it.
    spec fn calls(&self) -> Calls;

    /// Called for every signal before risk check (logging / telemetry).
    fn on_signal(&mut self, sig: &Signal, state: &MarketState, now_ms: i64)
        ensures
            final(self).calls() == old(self).calls().push(
                Call::Logged { signal: *sig, state: *state, now_ms },
            ),
    ;

    /// The amounts that the risk check of a signal compares.
    fn amounts(&mut self, sig: &Signal, risk: &StrategyRiskManager) -> (a: Amounts)
        ensures
            final(self).calls() == old(self).calls().push(
                Call::Asked { signal: *sig, risk: *risk, amounts: a },
            ),
    ;

    /// The sums after an order.
    fn sums(
        &mut self,
        sig: &Signal,
        order: &Order,
        state: &MarketState,
        risk: &StrategyRiskManager,
    ) -> (s: OrderSums)
        ensures
            final(self).calls() == old(self).calls().push(
                Call::Summed {
                    signal: *sig,
                    order: *order,
                    state: *state,
                    risk: *risk,
                    sums: s,
                },
            ),
    ;

    /// Called when a signal passes risk and an order is produced.
    fn on_order(&mut self, sig: &Signal, order: &Order, state: &MarketState, now_ms: i64)
        ensures
            final(self).calls() == old(self).calls().push(
                Call::Sent { signal: *sig, order: *order, state: *state, now_ms },
            ),
    ;
}

/// The calls that log signals, one for each, in their order.
pub open spec fn logged(s: Seq<Scored>, state: MarketState, now_ms: i64) -> Seq<Call> {
    s.map_values(|x: Scored| Call::Logged { signal: x.signal, state, now_ms })
}

/// The orders that calls sent, in their order.
pub open spec fn sent(calls: Seq<Call>) -> Seq<Order>
    decreases calls.len(),
{
    if calls.len() == 0 {
        Seq::empty()
    } else {
        match calls.last() {
            Call::Sent { order, .. } => sent(calls.drop_last()).push(order),
            _ => sent(calls.drop_last()),
        }
    }
}

/// Whether a call sent an order that the house takes a view from: on an active signal of high
/// confidence.
pub open spec fn sets_view(call: Call) -> bool {
    match call {
        Call::Sent { signal, .. } => !signal.is_passive && (Real {
            bits: HOUSE_CONFIDENCE,
        }).le(signal.confidence),
        _ => false,
    }
}

/// Whether the counters of each strategy stay within the totals.
pub open spec fn counts_within(state: MarketState) -> bool {
    forall|name: Seq<char>| #[trigger]
        state.strategy_stats@.contains_key(name) ==> {
            &&& state.strategy_stats@[name].signals <= state.total_signals
            &&& state.strategy_stats@[name].orders <= state.total_orders
            &&& state.strategy_stats@[name].filled <= state.total_filled
        }
}

/// The counters of a strategy, or fresh ones.
pub open spec fn stats_or_fresh(state: MarketState, name: Seq<char>) -> StrategyStats {
    if state.strategy_stats@.contains_key(name) {
        state.strategy_stats@[name]
    } else {
        StrategyStats::fresh()
    }
}

fn stats_of(state: &MarketState, name: &'static str) -> (s: StrategyStats)
    requires
        state.strategy_stats.wf(),
    ensures
        s == stats_or_fresh(*state, name@),
{
    match state.strategy_stats.get(name) {
        Some(s) => *s,
        None => StrategyStats::new(),
    }
}

/// Counts a signal, in total and for its strategy.
pub fn count_signal(state: &mut MarketState, sig: &Signal)
    requires
        old(state).strategy_stats.wf(),
        counts_within(*old(state)),
        old(state).total_signals < u32::MAX,
    ensures
        *final(state) == (MarketState {
            total_signals: (old(state).total_signals + 1) as u32,
            strategy_stats: final(state).strategy_stats,
            ..*old(state)
        }),
        final(state).strategy_stats.wf(),
        counts_within(*final(state)),
        final(state).strategy_stats@ == old(state).strategy_stats@.insert(
            sig.strategy@,
            StrategyStats {
                signals: (stats_or_fresh(*old(state), sig.strategy@).signals + 1) as u32,
                ..stats_or_fresh(*old(state), sig.strategy@)
            },
        ),
{
    let mut stats = stats_of(state, sig.strategy);
    state.total_signals = state.total_signals + 1;
    stats.signals = stats.signals + 1;
    state.strategy_stats.set(sig.strategy, stats);
}

/// Counts an order, in total, for its strategy and among the pending ones.
pub fn count_order(state: &mut MarketState, sig: &Signal, total_edge: Real)
    requires
        old(state).strategy_stats.wf(),
        counts_within(*old(state)),
        old(state).total_orders < u32::MAX,
        old(state).position.pending_orders < u32::MAX,
    ensures
        *final(state) == (MarketState {
            total_orders: (old(state).total_orders + 1) as u32,
            strategy_stats: final(state).strategy_stats,
            position: final(state).position,
            ..*old(state)
        }),
        final(state).position.pending_orders == old(state).position.pending_orders + 1,
        final(state).position.size == old(state).position.size,
        final(state).position.avg_price == old(state).position.avg_price,
        final(state).position.side == old(state).position.side,
        final(state).strategy_stats.wf(),
        counts_within(*final(state)),
        final(state).strategy_stats@ == old(state).strategy_stats@.insert(
            sig.strategy@,
            StrategyStats {
                orders: (stats_or_fresh(*old(state), sig.strategy@).orders + 1) as u32,
                total_edge,
                ..stats_or_fresh(*old(state), sig.strategy@)
            },
        ),
{
    let mut stats = stats_of(state, sig.strategy);
    state.total_orders = state.total_orders + 1;
    stats.orders = stats.orders + 1;
    stats.total_edge = total_edge;
    state.strategy_stats.set(sig.strategy, stats);
    state.position.on_order_sent();
}

/// Places an approved order: it is counted, the house takes note of it, the risk limits record
/// it and the next order gets the next number. `sums` are the sums with the order added; its
/// price is that with the slippage.
pub fn place_order(
    state: &mut MarketState,
    risk: &mut StrategyRiskManager,
    house: &mut House,
    next_order_id: &mut u64,
    sig: &Signal,
    order: Order,
    slippage: Real,
    sums: &OrderSums,
    now_ms: i64,
) -> (r: Order)
    requires
        old(state).strategy_stats.wf(),
        counts_within(*old(state)),
        old(state).total_orders < u32::MAX,
        old(state).position.pending_orders < u32::MAX,
        old(risk).wf(),
        strategy_index(sig.strategy@) matches Some(i) ==> old(risk).state_at(i).orders_this_market
            < u32::MAX,
        *old(next_order_id) < u64::MAX,
    ensures
        r == (Order { price: price_with(order.price, slippage, sums.raised), ..order }),
        *final(state) == (MarketState {
            total_orders: (old(state).total_orders + 1) as u32,
            strategy_stats: final(state).strategy_stats,
            position: PositionTracker {
                pending_orders: (old(state).position.pending_orders + 1) as u32,
                ..old(state).position
            },
            ..*old(state)
        }),
        final(state).strategy_stats.wf(),
        counts_within(*final(state)),
        final(state).strategy_stats@ == old(state).strategy_stats@.insert(
            sig.strategy@,
            StrategyStats {
                orders: (stats_or_fresh(*old(state), sig.strategy@).orders + 1) as u32,
                total_edge: sums.total_edge,
                ..stats_or_fresh(*old(state), sig.strategy@)
            },
        ),
        *final(house) == old(house).after_order(*sig),
        final(risk).wf(),
        final(risk).total_exposure == sums.total_exposure,
        final(risk).daily_pnl == old(risk).daily_pnl,
        final(risk).weekly_pnl == old(risk).weekly_pnl,
        final(risk).halted_until_ms == old(risk).halted_until_ms,
        final(risk).greeks == old(risk).greeks,
        order_recorded(*old(risk), *final(risk), sig.strategy@, now_ms, sums.exposure),
        *final(next_order_id) == *old(next_order_id) + 1,
{
    count_order(state, sig, sums.total_edge);
    house.note_order(sig);
    risk.on_order_sent(sig.strategy, now_ms, sums.exposure, sums.total_exposure);
    *next_order_id = *next_order_id + 1;
    Order { price: slipped_price(order.price, slippage, sums.raised), ..order }
}

/// Where the processing of signals stands.
pub ghost struct Desk {
    pub state: MarketState,
    pub risk: StrategyRiskManager,
    pub house: House,
    pub next_order_id: u64,
    /// The calls of the sink so far
    pub calls: Seq<Call>,
    /// The simulated slippage, the same for all orders
    pub slippage: Real,
}

/// The processing of one signal: what the sink answered, the market with the signal counted,
/// and where it led.
pub ghost struct Step {
    pub scored: Scored,
    pub amounts: Amounts,
    pub seen: MarketState,
    pub sums: OrderSums,
    pub after: Desk,
}

/// The counters of the strategies after a signal, and an order where it became one.
pub open spec fn stats_after(
    before: MarketState,
    sig: Signal,
    ordered: bool,
    total_edge: Real,
) -> Map<Seq<char>, StrategyStats> {
    let old_stats = stats_or_fresh(before, sig.strategy@);
    let seen = StrategyStats { signals: (old_stats.signals + 1) as u32, ..old_stats };
    before.strategy_stats@.insert(
        sig.strategy@,
        if ordered {
            StrategyStats { orders: (seen.orders + 1) as u32, total_edge, ..seen }
        } else {
            seen
        },
    )
}

/// Whether no gate stops a signal with the amounts that the sink answered.
pub open spec fn is_ordered(before: Desk, step: Step, now_ms: i64) -> bool {
    before.risk.gate_of(
        step.scored.signal.strategy@,
        step.amounts,
        before.state.stale(now_ms),
        now_ms,
    ) is None
}

/// The calls of the sink for a signal: it is asked for the amounts, and where no gate stops the
/// signal, for the sums of the order, which is then sent at the price of the signal, with the
/// slippage where there is any.
pub open spec fn calls_for(before: Desk, step: Step, now_ms: i64) -> Seq<Call> {
    let signal = step.scored.signal;
    let order = StrategyRiskManager::order_for(
        signal,
        step.amounts,
        before.next_order_id,
        now_ms,
    );
    let asked = Call::Asked { signal, risk: before.risk, amounts: step.amounts };
    if is_ordered(before, step, now_ms) {
        seq![
            asked,
            Call::Summed {
                signal,
                order,
                state: step.seen,
                risk: before.risk,
                sums: step.sums,
            },
            Call::Sent {
                signal,
                order: Order {
                    price: price_with(signal.market_price, before.slippage, step.sums.raised),
                    ..order
                },
                state: step.after.state,
                now_ms,
            },
        ]
    } else {
        seq![asked]
    }
}

/// Whether a signal was processed: it is counted, and where no gate stops it with the amounts
/// that the sink answered, it becomes an order with the next number.
pub open spec fn signal_processed(before: Desk, step: Step, now_ms: i64) -> bool {
    let sig = step.scored.signal;
    let after = step.after;
    let ordered = is_ordered(before, step, now_ms);
    let one: int = if ordered {
        1
    } else {
        0
    };
    &&& step.seen == (MarketState {
        total_signals: (before.state.total_signals + 1) as u32,
        strategy_stats: step.seen.strategy_stats,
        ..before.state
    })
    &&& step.seen.strategy_stats@ == stats_after(
        before.state,
        sig,
        false,
        step.sums.total_edge,
    )
    &&& after.state == (MarketState {
        total_signals: (before.state.total_signals + 1) as u32,
        total_orders: (before.state.total_orders + one) as u32,
        strategy_stats: after.state.strategy_stats,
        position: PositionTracker {
            pending_orders: (before.state.position.pending_orders + one) as u32,
            ..before.state.position
        },
        ..before.state
    })
    &&& after.state.strategy_stats@ == stats_after(
        before.state,
        sig,
        ordered,
        step.sums.total_edge,
    )
    &&& after.next_order_id == before.next_order_id + one
    &&& after.calls == before.calls + calls_for(before, step, now_ms)
    &&& after.slippage == before.slippage
    &&& if ordered {
        &&& after.house == before.house.after_order(sig)
        &&& after.risk.total_exposure == step.sums.total_exposure
        &&& after.risk.daily_pnl == before.risk.daily_pnl
        &&& after.risk.weekly_pnl == before.risk.weekly_pnl
        &&& after.risk.halted_until_ms == before.risk.halted_until_ms
        &&& after.risk.greeks == before.risk.greeks
        &&& order_recorded(before.risk, after.risk, sig.strategy@, now_ms, step.sums.exposure)
    } else {
        &&& after.house == before.house
        &&& after.risk == before.risk
    }
}

/// Where the processing stands before step `i`.
pub open spec fn desk_at(start: Desk, steps: Seq<Step>, i: int) -> Desk {
    if i <= 0 {
        start
    } else {
        steps[i - 1].after
    }
}

/// Whether step `i` follows from where the processing stands before it.
pub open spec fn follows(start: Desk, steps: Seq<Step>, i: int, now_ms: i64) -> bool {
    signal_processed(desk_at(start, steps, i), steps[i], now_ms)
}

/// Whether every step follows from the one before.
pub open spec fn are_steps(start: Desk, steps: Seq<Step>, now_ms: i64) -> bool {
    forall|i: int| 0 <= i < steps.len() ==> #[trigger] follows(start, steps, i, now_ms)
}

/// The signals of steps, in their order.
pub open spec fn signals_of(steps: Seq<Step>) -> Seq<Scored> {
    steps.map_values(|s: Step| s.scored)
}

/// Whether the signals that survive were processed, from the best score down: all of them are
/// logged first, and then each is checked in turn.
pub open spec fn all_processed(start: Desk, kept: Seq<Scored>, now_ms: i64, end: Desk) -> bool {
    exists|steps: Seq<Step>| #[trigger]
        are_steps(all_logged(start, signals_of(steps), now_ms), steps, now_ms) && is_ranked(
            kept,
            signals_of(steps),
        ) && end == desk_at(
            all_logged(start, signals_of(steps), now_ms),
            steps,
            steps.len() as int,
        )
}

/// Where the processing stands once signals are logged.
pub open spec fn all_logged(start: Desk, s: Seq<Scored>, now_ms: i64) -> Desk {
    Desk { calls: start.calls + logged(s, start.state, now_ms), ..start }
}

/// Whether processing led from one desk to another by a signal, with some answers.
pub open spec fn stepped(before: Desk, scored: Scored, now_ms: i64, after: Desk) -> bool {
    exists|amounts: Amounts, seen: MarketState, sums: OrderSums| #[trigger]
        signal_processed(before, Step { scored, amounts, seen, sums, after }, now_ms)
}

/// What processing keeps, whatever it is answered: the market is left alone but for what is
/// counted, every order takes one number, the view of the house and the limits hold.
pub open spec fn keeps(start: Desk, n: int, now_ms: i64, end: Desk) -> bool {
    let orders = end.next_order_id - start.next_order_id;
    &&& end.state == (MarketState {
        total_signals: (start.state.total_signals + n) as u32,
        total_orders: (start.state.total_orders + orders) as u32,
        strategy_stats: end.state.strategy_stats,
        position: PositionTracker {
            pending_orders: (start.state.position.pending_orders + orders) as u32,
            ..start.state.position
        },
        ..start.state
    })
    &&& end.risk.daily_pnl == start.risk.daily_pnl
    &&& end.risk.weekly_pnl == start.risk.weekly_pnl
    &&& end.risk.halted_until_ms == start.risk.halted_until_ms
    &&& end.risk.greeks == start.risk.greeks
    &&& 0 <= orders <= n
    &&& orders == 0 ==> end.house == start.house && end.risk == start.risk
    &&& start.house.flips <= MAX_DIRECTION_FLIPS ==> end.house.flips <= MAX_DIRECTION_FLIPS
    &&& within_order_limits(start.risk) ==> within_order_limits(end.risk)
    &&& now_ms < start.risk.halted_until_ms ==> orders == 0
    &&& start.state.stale(now_ms) ==> orders == 0
}

/// Whether no strategy has gone past its number of orders.
pub open spec fn within_order_limits(risk: StrategyRiskManager) -> bool {
    forall|i: int|
        0 <= i < STRATEGY_COUNT ==> (#[trigger] risk.state_at(i)).orders_this_market <= limits_at(
            i,
        ).max_orders_per_market
}

proof fn lemma_step_keeps(before: Desk, step: Step, now_ms: i64)
    requires
        signal_processed(before, step, now_ms),
        before.state.total_signals < u32::MAX,
        before.state.total_orders < u32::MAX,
        before.state.position.pending_orders < u32::MAX,
    ensures
        keeps(before, 1, now_ms, step.after),
{
    let after = step.after;
    law_house_view(before.house, step.scored.signal);
    if within_order_limits(before.risk) {
        assert forall|j: int| 0 <= j < STRATEGY_COUNT implies (
        #[trigger] after.risk.state_at(j)).orders_this_market <= limits_at(
            j,
        ).max_orders_per_market by {
            assert(before.risk.state_at(j).orders_this_market <= limits_at(
                j,
            ).max_orders_per_market);
        }
    }
}

proof fn lemma_keeps_join(a: Desk, i: int, b: Desk, c: Desk, now_ms: i64)
    requires
        0 <= i,
        keeps(a, i, now_ms, b),
        keeps(b, 1, now_ms, c),
        a.state.total_signals + i + 1 <= u32::MAX,
        a.state.total_orders + i + 1 <= u32::MAX,
        a.state.position.pending_orders + i + 1 <= u32::MAX,
    ensures
        keeps(a, i + 1, now_ms, c),
{
}

/// Whatever the answers are, processing keeps what it has to keep; and a view that the house
/// has taken holds, as the signals against it did not survive.
pub proof fn law_processing_keeps(start: Desk, steps: Seq<Step>, now_ms: i64, i: int)
    requires
        are_steps(start, steps, now_ms),
        0 <= i <= steps.len(),
        start.state.total_signals + steps.len() <= u32::MAX,
        start.state.total_orders + steps.len() <= u32::MAX,
        start.state.position.pending_orders + steps.len() <= u32::MAX,
        start.next_order_id + steps.len() <= u64::MAX,
    ensures
        keeps(start, i, now_ms, desk_at(start, steps, i)),
        start.house.side is Some && (forall|j: int|
            0 <= j < steps.len() ==> (#[trigger] steps[j]).scored.signal.is_passive || Some(
                steps[j].scored.signal.side,
            ) == start.house.side) ==> desk_at(start, steps, i).house == start.house,
    decreases i,
{
    if i > 0 {
        law_processing_keeps(start, steps, now_ms, i - 1);
        let before = desk_at(start, steps, i - 1);
        let step = steps[i - 1];
        assert(follows(start, steps, i - 1, now_ms));
        law_house_view(before.house, step.scored.signal);
        lemma_step_keeps(before, step, now_ms);
        lemma_keeps_join(start, i - 1, before, step.after, now_ms);
    }
}

/// What the calls of the sink keep: what was called before stands, every order that is sent
/// takes the next number, and without a view the house takes one exactly where an order is sent
/// that sets it.
pub open spec fn calls_kept(start: Desk, end: Desk) -> bool {
    let n = start.calls.len() as int;
    let m = sent(start.calls).len() as int;
    &&& start.next_order_id <= end.next_order_id
    &&& n <= end.calls.len()
    &&& end.calls.take(n) == start.calls
    &&& sent(end.calls).len() == m + end.next_order_id - start.next_order_id
    &&& sent(end.calls).take(m) == sent(start.calls)
    &&& forall|j: int|
        m <= j < sent(end.calls).len() ==> (#[trigger] sent(end.calls)[j]).id
            == start.next_order_id + j - m
    &&& start.house.side is None ==> (end.house.side is Some <==> exists|c: int|
        n <= c < end.calls.len() && sets_view(#[trigger] end.calls[c]))
}

/// Whether a call is about one of the signals.
pub open spec fn is_about(s: Seq<Scored>, call: Call) -> bool {
    exists|j: int| 0 <= j < s.len() && (#[trigger] s[j]).signal == called_for(call)
}

/// Whether the calls from `n` on are all about some of the signals.
pub open spec fn only_about(s: Seq<Scored>, calls: Seq<Call>, n: int) -> bool {
    forall|c: int| n <= c < calls.len() ==> is_about(s, #[trigger] calls[c])
}

proof fn lemma_sent_push(calls: Seq<Call>, call: Call)
    ensures
        sent(calls.push(call)) == (match call {
            Call::Sent { order, .. } => sent(calls).push(order),
            _ => sent(calls),
        }),
{
    assert(calls.push(call).drop_last() =~= calls);
}

proof fn lemma_logged_sends_nothing(
    calls: Seq<Call>,
    s: Seq<Scored>,
    state: MarketState,
    now_ms: i64,
)
    ensures
        sent(calls + logged(s, state, now_ms)) == sent(calls),
    decreases s.len(),
{
    if s.len() == 0 {
        assert(calls + logged(s, state, now_ms) =~= calls);
    } else {
        let p = s.drop_last();
        let call = Call::Logged { signal: s.last().signal, state, now_ms };
        lemma_logged_sends_nothing(calls, p, state, now_ms);
        assert(calls + logged(s, state, now_ms) =~= (calls + logged(p, state, now_ms)).push(
            call,
        ));
        lemma_sent_push(calls + logged(p, state, now_ms), call);
    }
}

proof fn lemma_calls_of_step(before: Desk, step: Step, now_ms: i64)
    requires
        signal_processed(before, step, now_ms),
    ensures
        calls_kept(before, step.after),
        forall|c: int|
            before.calls.len() <= c < step.after.calls.len() ==> called_for(
                #[trigger] step.after.calls[c],
            ) == step.scored.signal && !(step.after.calls[c] is Logged),
{
    let n = before.calls.len() as int;
    let calls = calls_for(before, step, now_ms);
    let after = step.after.calls;
    let x = before.calls.push(calls[0]);
    assert(after.take(n) =~= before.calls);
    lemma_sent_push(before.calls, calls[0]);
    if is_ordered(before, step, now_ms) {
        let y = x.push(calls[1]);
        lemma_sent_push(x, calls[1]);
        lemma_sent_push(y, calls[2]);
        assert(after =~= y.push(calls[2]));
        assert(sent(after).take(sent(before.calls).len() as int) =~= sent(before.calls));
        assert(after[n + 2] == calls[2]);
        assert(after[n + 1] == calls[1]);
        assert(after[n] == calls[0]);
        assert(sets_view(after[n + 2]) <==> sets_view(calls[2]));
    } else {
        assert(after =~= x);
        assert(sent(after).take(sent(before.calls).len() as int) =~= sent(before.calls));
        assert(after[n] == calls[0]);
    }
}

proof fn lemma_calls_kept_join(a: Desk, b: Desk, c: Desk)
    requires
        calls_kept(a, b),
        calls_kept(b, c),
        a.house.side is Some ==> b.house.side is Some,
        b.house.side is Some ==> c.house.side is Some,
    ensures
        calls_kept(a, c),
{
    let n = a.calls.len() as int;
    let m = sent(a.calls).len() as int;
    let k = sent(b.calls).len() as int;
    assert(b.calls == c.calls.take(b.calls.len() as int));
    assert(c.calls.take(n) =~= b.calls.take(n));
    assert forall|j: int| 0 <= j < k implies sent(c.calls)[j] == sent(b.calls)[j] by {
        assert(sent(c.calls).take(k)[j] == sent(c.calls)[j]);
    }
    assert(sent(c.calls).take(m) =~= sent(b.calls).take(m));
    assert forall|j: int| m <= j < sent(c.calls).len() implies (#[trigger] sent(c.calls)[j]).id
        == a.next_order_id + j - m by {
        if j < k {
            assert(sent(c.calls)[j] == sent(b.calls)[j]);
        }
    }
    assert forall|i: int| 0 <= i < b.calls.len() implies #[trigger] c.calls[i] == b.calls[i] by {
        assert(c.calls.take(b.calls.len() as int)[i] == c.calls[i]);
    }
    if a.house.side is None {
        if b.house.side is Some {
            let i = choose|i: int|
                n <= i < b.calls.len() && sets_view(#[trigger] b.calls[i]);
            assert(sets_view(c.calls[i]));
        } else if exists|i: int| n <= i < c.calls.len() && sets_view(#[trigger] c.calls[i]) {
            let i = choose|i: int|
                n <= i < c.calls.len() && sets_view(#[trigger] c.calls[i]);
            if i < b.calls.len() {
                assert(sets_view(b.calls[i]));
            }
        }
    }
}

/// Whatever the sink answers, its calls keep what they have to keep, and each is about one of
/// the signals that are processed.
pub proof fn law_calls_of_processing(start: Desk, steps: Seq<Step>, now_ms: i64, i: int)
    requires
        are_steps(start, steps, now_ms),
        0 <= i <= steps.len(),
    ensures
        calls_kept(start, desk_at(start, steps, i)),
        start.house.side is Some ==> desk_at(start, steps, i).house.side is Some,
        only_about(
            signals_of(steps),
            desk_at(start, steps, i).calls,
            start.calls.len() as int,
        ),
    decreases i,
{
    if i > 0 {
        law_calls_of_processing(start, steps, now_ms, i - 1);
        let before = desk_at(start, steps, i - 1);
        let step = steps[i - 1];
        assert(follows(start, steps, i - 1, now_ms));
        lemma_calls_of_step(before, step, now_ms);
        law_house_view(before.house, step.scored.signal);
        lemma_calls_kept_join(start, before, step.after);
        let calls = step.after.calls;
        assert forall|c: int| start.calls.len() <= c < calls.len() implies is_about(
            signals_of(steps),
            #[trigger] calls[c],
        ) by {
            if c < before.calls.len() {
                assert(calls.take(before.calls.len() as int)[c] == calls[c]);
                assert(before.calls[c] == calls[c]);
            } else {
                assert(signals_of(steps)[i - 1].signal == called_for(calls[c]));
            }
        }
    } else {
        assert(start.calls.take(start.calls.len() as int) =~= start.calls);
        assert(sent(start.calls).take(sent(start.calls).len() as int) =~= sent(start.calls));
    }
}

/// Whether nothing is logged from call `n` on.
pub open spec fn none_logged(calls: Seq<Call>, n: int) -> bool {
    forall|c: int| n <= c < calls.len() ==> !(#[trigger] calls[c] is Logged)
}

proof fn lemma_none_logged_join(calls: Seq<Call>, more: Seq<Call>, n: int)
    requires
        0 <= n <= calls.len() <= more.len(),
        more.take(calls.len() as int) == calls,
        none_logged(calls, n),
        none_logged(more, calls.len() as int),
    ensures
        none_logged(more, n),
{
    assert forall|c: int| n <= c < more.len() implies !(#[trigger] more[c] is Logged) by {
        if c < calls.len() {
            assert(more.take(calls.len() as int)[c] == more[c]);
        }
    }
}

proof fn lemma_steps_log_nothing(start: Desk, steps: Seq<Step>, now_ms: i64, i: int)
    requires
        are_steps(start, steps, now_ms),
        0 <= i <= steps.len(),
    ensures
        none_logged(desk_at(start, steps, i).calls, start.calls.len() as int),
    decreases i,
{
    if i > 0 {
        lemma_steps_log_nothing(start, steps, now_ms, i - 1);
        law_calls_of_processing(start, steps, now_ms, i - 1);
        let before = desk_at(start, steps, i - 1);
        let step = steps[i - 1];
        assert(follows(start, steps, i - 1, now_ms));
        lemma_calls_of_step(before, step, now_ms);
        lemma_none_logged_join(before.calls, step.after.calls, start.calls.len() as int);
    }
}

proof fn lemma_cut(first: Seq<Call>, log: Seq<Call>, all: Seq<Call>)
    requires
        first.len() + log.len() <= all.len(),
        all.take((first.len() + log.len()) as int) == first + log,
    ensures
        all.take(first.len() as int) == first,
        all.subrange(first.len() as int, (first.len() + log.len()) as int) == log,
{
    let m = (first.len() + log.len()) as int;
    assert(all.take(first.len() as int) =~= all.take(m).take(first.len() as int));
    assert(all.take(m).take(first.len() as int) =~= first);
    assert(all.subrange(first.len() as int, m) =~= all.take(m).subrange(first.len() as int, m));
    assert(all.take(m).subrange(first.len() as int, m) =~= log);
}

/// The signals that survive are logged once each, from the best score down, before any other
/// call; nothing is logged afterwards.
pub proof fn law_logged_first(
    start: Desk,
    kept: Seq<Scored>,
    ranked: Seq<Scored>,
    now_ms: i64,
    end: Desk,
)
    requires
        kept.len() <= usize::MAX,
        all_processed(start, kept, now_ms, end),
        is_ranked(kept, ranked),
    ensures
        start.calls.len() + kept.len() <= end.calls.len(),
        end.calls.take(start.calls.len() as int) == start.calls,
        end.calls.subrange(
            start.calls.len() as int,
            (start.calls.len() + kept.len()) as int,
        ) == logged(ranked, start.state, now_ms),
        none_logged(end.calls, (start.calls.len() + kept.len()) as int),
{
    let steps = choose|steps: Seq<Step>| #[trigger]
        are_steps(all_logged(start, signals_of(steps), now_ms), steps, now_ms) && is_ranked(
            kept,
            signals_of(steps),
        ) && end == desk_at(
            all_logged(start, signals_of(steps), now_ms),
            steps,
            steps.len() as int,
        );
    law_ranking_is_unique(kept, ranked, signals_of(steps));
    let order = choose|order: Seq<usize>|
        is_stable_order(score_keys(kept), order) && ranked == #[trigger] picked(kept, order);
    assert(ranked.len() == kept.len());
    let mid = all_logged(start, ranked, now_ms);
    lemma_steps_log_nothing(mid, steps, now_ms, steps.len() as int);
    law_calls_of_processing(mid, steps, now_ms, steps.len() as int);
    lemma_cut(start.calls, logged(ranked, start.state, now_ms), end.calls);
}

/// Processes one signal.
fn process_signal<S: SignalSink>(
    scored: &Scored,
    state: &mut MarketState,
    risk: &mut StrategyRiskManager,
    house: &mut House,
    next_order_id: &mut u64,
    now_ms: i64,
    slippage: Real,
    sink: &mut S,
)
    requires
        old(state).wf(),
        counts_within(*old(state)),
        old(risk).wf(),
        old(state).total_signals < u32::MAX,
        old(state).total_orders < u32::MAX,
        old(state).position.pending_orders < u32::MAX,
        *old(next_order_id) < u64::MAX,
        now_ms + ORDER_TTL_MS <= i64::MAX,
    ensures
        final(state).wf(),
        counts_within(*final(state)),
        final(risk).wf(),
        final(state).total_signals == old(state).total_signals + 1,
        final(state).total_orders <= old(state).total_orders + 1,
        final(state).position.pending_orders <= old(state).position.pending_orders + 1,
        *final(next_order_id) <= *old(next_order_id) + 1,
        stepped(
            Desk {
                state: *old(state),
                risk: *old(risk),
                house: *old(house),
                next_order_id: *old(next_order_id),
                calls: old(sink).calls(),
                slippage,
            },
            *scored,
            now_ms,
            Desk {
                state: *final(state),
                risk: *final(risk),
                house: *final(house),
                next_order_id: *final(next_order_id),
                calls: final(sink).calls(),
                slippage,
            },
        ),
{
    let ghost before = Desk {
        state: *state,
        risk: *risk,
        house: *house,
        next_order_id: *next_order_id,
        calls: sink.calls(),
        slippage,
    };
    let sig = scored.signal;
    count_signal(state, &sig);
    let amounts = sink.amounts(&sig, &*risk);
    let ghost mut answer = arbitrary::<OrderSums>();
    let ghost seen = *state;
    let stale = state.is_stale(now_ms);
    if let Some(order) = risk.check_strategy(&sig, &amounts, stale, *next_order_id, now_ms) {
        let sums = sink.sums(&sig, &order, &*state, &*risk);
        proof {
            answer = sums;
        }
        let order = place_order(
            state,
            risk,
            house,
            next_order_id,
            &sig,
            order,
            slippage,
            &sums,
            now_ms,
        );
        sink.on_order(&sig, &order, &*state, now_ms);
    }
    proof {
        let after = Desk {
            state: *state,
            risk: *risk,
            house: *house,
            next_order_id: *next_order_id,
            calls: sink.calls(),
            slippage,
        };
        let step = Step { scored: *scored, amounts, seen, sums: answer, after };
        assert(state.strategy_stats@ =~= stats_after(
            before.state,
            sig,
            *next_order_id > before.next_order_id,
            answer.total_edge,
        ));
        assert(seen.strategy_stats@ =~= stats_after(before.state, sig, false, answer.total_edge));
        assert(after.calls =~= before.calls + calls_for(before, step, now_ms));
        assert(signal_processed(before, step, now_ms));
    }
}

proof fn lemma_add_step(
    start: Desk,
    steps: Seq<Step>,
    scored: Scored,
    now_ms: i64,
    after: Desk,
) -> (longer: Seq<Step>)
    requires
        are_steps(start, steps, now_ms),
        stepped(desk_at(start, steps, steps.len() as int), scored, now_ms, after),
    ensures
        are_steps(start, longer, now_ms),
        signals_of(longer) == signals_of(steps).push(scored),
        desk_at(start, longer, longer.len() as int) == after,
{
    let before = desk_at(start, steps, steps.len() as int);
    let (amounts, seen, sums) = choose|amounts: Amounts, seen: MarketState, sums: OrderSums|
        #[trigger]
        signal_processed(before, Step { scored, amounts, seen, sums, after }, now_ms);
    let longer = steps.push(Step { scored, amounts, seen, sums, after });
    assert forall|j: int| 0 <= j < longer.len() implies #[trigger] follows(
        start,
        longer,
        j,
        now_ms,
    ) by {
        if j < steps.len() {
            assert(follows(start, steps, j, now_ms));
            assert(longer[j] == steps[j]);
            assert(desk_at(start, longer, j) == desk_at(start, steps, j));
        } else {
            assert(desk_at(start, longer, j) == before);
        }
    }
    assert(signals_of(longer) =~= signals_of(steps).push(scored));
    longer
}

/// Whether the signals of `s` were processed one after the other.
spec fn each_processed(start: Desk, s: Seq<Scored>, now_ms: i64, end: Desk) -> bool {
    exists|steps: Seq<Step>| #[trigger]
        are_steps(start, steps, now_ms) && signals_of(steps) == s && end == desk_at(
            start,
            steps,
            steps.len() as int,
        )
}

proof fn lemma_each_processed_add(
    start: Desk,
    s: Seq<Scored>,
    mid: Desk,
    scored: Scored,
    now_ms: i64,
    end: Desk,
)
    requires
        each_processed(start, s, now_ms, mid),
        stepped(mid, scored, now_ms, end),
    ensures
        each_processed(start, s.push(scored), now_ms, end),
{
    let steps = choose|steps: Seq<Step>| #[trigger]
        are_steps(start, steps, now_ms) && signals_of(steps) == s && mid == desk_at(
            start,
            steps,
            steps.len() as int,
        );
    let longer = lemma_add_step(start, steps, scored, now_ms, end);
}

proof fn lemma_logging_keeps(first: Desk, s: Seq<Scored>, now_ms: i64)
    ensures
        calls_kept(first, all_logged(first, s, now_ms)),
        only_about(s, all_logged(first, s, now_ms).calls, first.calls.len() as int),
{
    let start = all_logged(first, s, now_ms);
    let n = first.calls.len() as int;
    let log = logged(s, first.state, now_ms);
    lemma_logged_sends_nothing(first.calls, s, first.state, now_ms);
    assert(start.calls.take(n) =~= first.calls);
    assert(sent(first.calls).take(sent(first.calls).len() as int) =~= sent(first.calls));
    assert forall|c: int| n <= c < start.calls.len() implies !sets_view(
        #[trigger] start.calls[c],
    ) && is_about(s, start.calls[c]) by {
        assert(start.calls[c] == log[c - n]);
        assert(s[c - n].signal == called_for(start.calls[c]));
    }
}

proof fn lemma_about_join(s: Seq<Scored>, calls: Seq<Call>, more: Seq<Call>, n: int)
    requires
        0 <= n <= calls.len() <= more.len(),
        more.take(calls.len() as int) == calls,
        only_about(s, calls, n),
        only_about(s, more, calls.len() as int),
    ensures
        only_about(s, more, n),
{
    assert forall|c: int| n <= c < more.len() implies is_about(s, #[trigger] more[c]) by {
        if c < calls.len() {
            assert(more.take(calls.len() as int)[c] == more[c]);
            assert(calls[c] == more[c]);
        }
    }
}

proof fn lemma_about_ranked(kept: Seq<Scored>, ranked: Seq<Scored>, calls: Seq<Call>, n: int)
    requires
        is_ranked(kept, ranked),
        only_about(ranked, calls, n),
    ensures
        only_about(kept, calls, n),
{
    let order = choose|order: Seq<usize>|
        is_stable_order(score_keys(kept), order) && ranked == #[trigger] picked(kept, order);
    assert forall|c: int| n <= c < calls.len() implies is_about(kept, #[trigger] calls[c]) by {
        let j = choose|j: int|
            0 <= j < ranked.len() && (#[trigger] ranked[j]).signal == called_for(calls[c]);
        assert(ranked[j] == kept[order[j] as int]);
        assert(kept[order[j] as int].signal == called_for(calls[c]));
    }
}

/// Whether no signal is against a view of the house.
spec fn none_against(s: Seq<Scored>, side: Option<Side>) -> bool {
    side is Some && forall|j: int|
        0 <= j < s.len() ==> (#[trigger] s[j]).signal.is_passive || Some(s[j].signal.side) == side
}

proof fn lemma_batch(
    first: Desk,
    kept: Seq<Scored>,
    ranked: Seq<Scored>,
    steps: Seq<Step>,
    now_ms: i64,
)
    requires
        is_ranked(kept, ranked),
        ranked.len() == kept.len(),
        signals_of(steps) == ranked,
        are_steps(all_logged(first, ranked, now_ms), steps, now_ms),
        first.state.total_signals + kept.len() <= u32::MAX,
        first.state.total_orders + kept.len() <= u32::MAX,
        first.state.position.pending_orders + kept.len() <= u32::MAX,
        first.next_order_id + kept.len() <= u64::MAX,
    ensures
        ({
            let start = all_logged(first, ranked, now_ms);
            let end = desk_at(start, steps, steps.len() as int);
            &&& keeps(first, kept.len() as int, now_ms, end)
            &&& calls_kept(first, end)
            &&& only_about(kept, end.calls, first.calls.len() as int)
            &&& none_against(ranked, first.house.side) ==> end.house == first.house
            &&& kept.len() == 0 ==> end == first
        }),
{
    let start = all_logged(first, ranked, now_ms);
    let end = desk_at(start, steps, steps.len() as int);
    assert(steps.len() == ranked.len());
    assert(keeps(first, kept.len() as int, now_ms, end) && (none_against(
        ranked,
        first.house.side,
    ) ==> end.house == first.house)) by {
        law_processing_keeps(start, steps, now_ms, steps.len() as int);
        assert forall|j: int| 0 <= j < steps.len() implies (#[trigger] steps[j]).scored
            == ranked[j] by {
            assert(signals_of(steps)[j] == steps[j].scored);
        }
    }
    law_calls_of_processing(start, steps, now_ms, steps.len() as int);
    lemma_logging_keeps(first, ranked, now_ms);
    lemma_calls_kept_join(first, start, end);
    lemma_about_join(ranked, start.calls, end.calls, first.calls.len() as int);
    lemma_about_ranked(kept, ranked, end.calls, first.calls.len() as int);
    if kept.len() == 0 {
        assert(start.calls =~= first.calls);
    }
}

/// Processes ranked signals one after the other.
fn process_ranked<S: SignalSink>(
    ranked: &Vec<Scored>,
    state: &mut MarketState,
    risk: &mut StrategyRiskManager,
    house: &mut House,
    next_order_id: &mut u64,
    now_ms: i64,
    slippage: Real,
    sink: &mut S,
)
    requires
        old(state).wf(),
        counts_within(*old(state)),
        old(risk).wf(),
        old(state).total_signals + ranked@.len() <= u32::MAX,
        old(state).total_orders + ranked@.len() <= u32::MAX,
        old(state).position.pending_orders + ranked@.len() <= u32::MAX,
        *old(next_order_id) + ranked@.len() <= u64::MAX,
        now_ms + ORDER_TTL_MS <= i64::MAX,
    ensures
        final(state).wf(),
        counts_within(*final(state)),
        final(risk).wf(),
        ranked@.len() == 0 ==> *final(sink) == *old(sink),
        each_processed(
            Desk {
                state: *old(state),
                risk: *old(risk),
                house: *old(house),
                next_order_id: *old(next_order_id),
                calls: old(sink).calls(),
                slippage,
            },
            ranked@,
            now_ms,
            Desk {
                state: *final(state),
                risk: *final(risk),
                house: *final(house),
                next_order_id: *final(next_order_id),
                calls: final(sink).calls(),
                slippage,
            },
        ),
{
    let ghost start = Desk {
        state: *state,
        risk: *risk,
        house: *house,
        next_order_id: *next_order_id,
        calls: sink.calls(),
        slippage,
    };
    let mut k: usize = 0;
    proof {
        let none: Seq<Step> = Seq::empty();
        assert(are_steps(start, none, now_ms));
        assert(signals_of(none) =~= ranked@.take(0));
    }
    while k < ranked.len()
        invariant
            k <= ranked.len(),
            state.wf(),
            counts_within(*state),
            risk.wf(),
            state.total_signals + (ranked@.len() - k) <= u32::MAX,
            state.total_orders + (ranked@.len() - k) <= u32::MAX,
            state.position.pending_orders + (ranked@.len() - k) <= u32::MAX,
            *next_order_id + (ranked@.len() - k) <= u64::MAX,
            now_ms + ORDER_TTL_MS <= i64::MAX,
            k == 0 ==> *sink == *old(sink),
            each_processed(
                start,
                ranked@.take(k as int),
                now_ms,
                Desk {
                    state: *state,
                    risk: *risk,
                    house: *house,
                    next_order_id: *next_order_id,
                    calls: sink.calls(),
                    slippage,
                },
            ),
        decreases ranked.len() - k,
    {
        let ghost mid = Desk {
            state: *state,
            risk: *risk,
            house: *house,
            next_order_id: *next_order_id,
            calls: sink.calls(),
            slippage,
        };
        process_signal(&ranked[k], state, risk, house, next_order_id, now_ms, slippage, sink);
        proof {
            lemma_each_processed_add(
                start,
                ranked@.take(k as int),
                mid,
                ranked@[k as int],
                now_ms,
                Desk {
                    state: *state,
                    risk: *risk,
                    house: *house,
                    next_order_id: *next_order_id,
                    calls: sink.calls(),
                    slippage,
                },
            );
            assert(ranked@.take(k + 1) =~= ranked@.take(k as int).push(ranked@[k as int]));
        }
        k = k + 1;
    }
    assert(ranked@.take(k as int) =~= ranked@);
}

/// Process a batch of signals through the full pipeline.
///
/// Signals are filtered by the house side, deconflicted, ranked, logged, and checked by the
/// risk gates one after the other; each approved one becomes an order with the next number, at
/// the price of the signal with the slippage.
/// Returns whether at least one order was dispatched.
pub fn process_signals<S: SignalSink>(
    signals: &Vec<Scored>,
    up_score: Real,
    down_score: Real,
    state: &mut MarketState,
    risk: &mut StrategyRiskManager,
    house: &mut House,
    next_order_id: &mut u64,
    now_ms: i64,
    config: &ProcessConfig,
    sink: &mut S,
) -> (dispatched: bool)
    requires
        scores_are_numbers(signals@),
        old(state).wf(),
        counts_within(*old(state)),
        old(risk).wf(),
        old(state).total_signals + signals@.len() <= u32::MAX,
        old(state).total_orders + signals@.len() <= u32::MAX,
        old(state).position.pending_orders + signals@.len() <= u32::MAX,
        *old(next_order_id) + signals@.len() <= u64::MAX,
        now_ms + ORDER_TTL_MS <= i64::MAX,
    ensures
        final(state).wf(),
        counts_within(*final(state)),
        final(risk).wf(),
        // The signals that survive are processed one after the other
        all_processed(
            Desk {
                state: *old(state),
                risk: *old(risk),
                house: *old(house),
                next_order_id: *old(next_order_id),
                calls: old(sink).calls(),
                slippage: config.slippage_cents,
            },
            surviving(signals@, old(house).side, up_score, down_score),
            now_ms,
            Desk {
                state: *final(state),
                risk: *final(risk),
                house: *final(house),
                next_order_id: *final(next_order_id),
                calls: final(sink).calls(),
                slippage: config.slippage_cents,
            },
        ),
        keeps(
            Desk {
                state: *old(state),
                risk: *old(risk),
                house: *old(house),
                next_order_id: *old(next_order_id),
                calls: old(sink).calls(),
                slippage: config.slippage_cents,
            },
            surviving(signals@, old(house).side, up_score, down_score).len() as int,
            now_ms,
            Desk {
                state: *final(state),
                risk: *final(risk),
                house: *final(house),
                next_order_id: *final(next_order_id),
                calls: final(sink).calls(),
                slippage: config.slippage_cents,
            },
        ),
        calls_kept(
            Desk {
                state: *old(state),
                risk: *old(risk),
                house: *old(house),
                next_order_id: *old(next_order_id),
                calls: old(sink).calls(),
                slippage: config.slippage_cents,
            },
            Desk {
                state: *final(state),
                risk: *final(risk),
                house: *final(house),
                next_order_id: *final(next_order_id),
                calls: final(sink).calls(),
                slippage: config.slippage_cents,
            },
        ),
        only_about(
            surviving(signals@, old(house).side, up_score, down_score),
            final(sink).calls(),
            old(sink).calls().len() as int,
        ),
        old(house).side is Some ==> *final(house) == *old(house),
        dispatched <==> *final(next_order_id) > *old(next_order_id),
        signals@.len() == 0 ==> *final(state) == *old(state) && *final(risk) == *old(risk)
            && *final(house) == *old(house) && *final(next_order_id) == *old(next_order_id)
            && *final(sink) == *old(sink),
{
    let first_id: u64 = *next_order_id;
    let selected = select_signals(signals, house.side, up_score, down_score);
    let ghost kept = surviving(signals@, house.side, up_score, down_score);
    proof {
        let order = choose|order: Seq<usize>|
            is_stable_order(score_keys(kept), order) && selected@ == #[trigger] picked(kept, order);
        assert(order.len() == kept.len());
        assert(selected@.len() == kept.len());
    }
    let ghost first = Desk {
        state: *state,
        risk: *risk,
        house: *house,
        next_order_id: *next_order_id,
        calls: sink.calls(),
        slippage: config.slippage_cents,
    };
    let mut i: usize = 0;
    while i < selected.len()
        invariant
            i <= selected.len(),
            *state == first.state,
            sink.calls() =~= first.calls + logged(selected@.take(i as int), *state, now_ms),
            i == 0 ==> *sink == *old(sink),
        decreases selected.len() - i,
    {
        sink.on_signal(&selected[i].signal, &*state, now_ms);
        i = i + 1;
        assert(selected@.take(i as int) =~= selected@.take(i - 1).push(selected@[i - 1]));
    }
    assert(selected@.take(i as int) =~= selected@);
    process_ranked(
        &selected,
        state,
        risk,
        house,
        next_order_id,
        now_ms,
        config.slippage_cents,
        sink,
    );
    proof {
        let end = Desk {
            state: *state,
            risk: *risk,
            house: *house,
            next_order_id: *next_order_id,
            calls: sink.calls(),
            slippage: config.slippage_cents,
        };
        let start = all_logged(first, selected@, now_ms);
        let steps = choose|steps: Seq<Step>| #[trigger]
            are_steps(start, steps, now_ms) && signals_of(steps) == selected@ && end == desk_at(
                start,
                steps,
                steps.len() as int,
            );
        lemma_batch(first, kept, selected@, steps, now_ms);
        lemma_agreeing(signals@, Side::Up);
        lemma_agreeing(signals@, Side::Down);
    }
    *next_order_id > first_id
}

/// Whether the orders that calls from `n` on sent are those of their signals: on the side of the
/// signal, in its name and with its edge, at its price where there is no slippage, and never at
/// a raised price above the limit where there is some.
pub open spec fn sent_as_signalled(calls: Seq<Call>, n: int, slippage: Real) -> bool {
    forall|c: int|
        n <= c < calls.len() ==> (#[trigger] calls[c] matches Call::Sent { signal, order, .. } ==> {
            &&& order.side == signal.side
            &&& order.strategy == signal.strategy
            &&& order.signal_edge == signal.edge
            &&& order.is_passive == signal.is_passive
            &&& !slippage.pos() ==> order.price == signal.market_price
            &&& slippage.pos() ==> !(Real { bits: 0x3FEFAE147AE147AE }).lt(order.price)
        })
}

proof fn lemma_step_sends_as_signalled(before: Desk, step: Step, now_ms: i64)
    requires
        signal_processed(before, step, now_ms),
    ensures
        sent_as_signalled(step.after.calls, before.calls.len() as int, before.slippage),
        step.after.slippage == before.slippage,
        before.calls.len() <= step.after.calls.len(),
        step.after.calls.take(before.calls.len() as int) == before.calls,
{
    let n = before.calls.len() as int;
    let more = calls_for(before, step, now_ms);
    let calls = step.after.calls;
    assert(calls == before.calls + more);
    assert(calls.take(n) =~= before.calls);
    assert forall|c: int| n <= c < calls.len() implies (#[trigger] calls[c] matches Call::Sent {
        signal,
        order,
        ..
    } ==> {
        &&& order.side == signal.side
        &&& order.strategy == signal.strategy
        &&& order.signal_edge == signal.edge
        &&& order.is_passive == signal.is_passive
        &&& !before.slippage.pos() ==> order.price == signal.market_price
        &&& before.slippage.pos() ==> !(Real { bits: 0x3FEFAE147AE147AE }).lt(order.price)
    }) by {
        assert(calls[c] == more[c - n]);
        law_order_follows_signal(
            step.scored.signal,
            step.amounts,
            before.next_order_id,
            now_ms,
        );
    }
}

proof fn lemma_steps_send_as_signalled(start: Desk, steps: Seq<Step>, now_ms: i64, i: int)
    requires
        are_steps(start, steps, now_ms),
        0 <= i <= steps.len(),
    ensures
        sent_as_signalled(desk_at(start, steps, i).calls, start.calls.len() as int, start.slippage),
        desk_at(start, steps, i).slippage == start.slippage,
        start.calls.len() <= desk_at(start, steps, i).calls.len(),
    decreases i,
{
    if i > 0 {
        lemma_steps_send_as_signalled(start, steps, now_ms, i - 1);
        let before = desk_at(start, steps, i - 1);
        let step = steps[i - 1];
        assert(follows(start, steps, i - 1, now_ms));
        lemma_step_sends_as_signalled(before, step, now_ms);
        let calls = step.after.calls;
        let n = before.calls.len() as int;
        assert forall|c: int| start.calls.len() <= c < n implies #[trigger] calls[c]
            == before.calls[c] by {
            assert(calls.take(n)[c] == calls[c]);
        }
    }
}

/// Every order that processing sends is that of its signal: on its side, in its name and at its
/// price, but for simulated slippage.
pub proof fn law_orders_follow_signals(start: Desk, kept: Seq<Scored>, now_ms: i64, end: Desk)
    requires
        all_processed(start, kept, now_ms, end),
    ensures
        sent_as_signalled(end.calls, start.calls.len() as int, start.slippage),
{
    let steps = choose|steps: Seq<Step>| #[trigger]
        are_steps(all_logged(start, signals_of(steps), now_ms), steps, now_ms) && is_ranked(
            kept,
            signals_of(steps),
        ) && end == desk_at(
            all_logged(start, signals_of(steps), now_ms),
            steps,
            steps.len() as int,
        );
    let mid = all_logged(start, signals_of(steps), now_ms);
    lemma_steps_send_as_signalled(mid, steps, now_ms, steps.len() as int);
    law_calls_of_processing(mid, steps, now_ms, steps.len() as int);
    let n = start.calls.len() as int;
    let m = mid.calls.len() as int;
    assert forall|c: int| n <= c < m implies #[trigger] end.calls[c] is Logged by {
        assert(end.calls.take(m)[c] == end.calls[c]);
        assert(mid.calls[c] == logged(signals_of(steps), start.state, now_ms)[c - n]);
    }
}

/// A sent order carries the size that the amounts of the sink leave, and the gates were open for
/// exactly those amounts.
pub proof fn law_step_of_signal(before: Desk, step: Step, now_ms: i64)
    requires
        signal_processed(before, step, now_ms),
        before.state.total_signals < u32::MAX,
        before.state.total_orders < u32::MAX,
        before.state.position.pending_orders < u32::MAX,
        stats_or_fresh(before.state, step.scored.signal.strategy@).signals < u32::MAX,
        stats_or_fresh(before.state, step.scored.signal.strategy@).orders < u32::MAX,
    ensures
        ({
            let sig = step.scored.signal;
            let name = sig.strategy@;
            let a = stats_or_fresh(before.state, name);
            let z = stats_or_fresh(step.after.state, name);
            let open = before.risk.gate_of(
                name,
                step.amounts,
                before.state.stale(now_ms),
                now_ms,
            ) is None;
            &&& z.signals == a.signals + 1
            &&& step.after.state.total_signals == before.state.total_signals + 1
            &&& open <==> step.after.next_order_id == before.next_order_id + 1
            &&& open ==> {
                &&& z.orders == a.orders + 1
                &&& z.total_edge == step.sums.total_edge
                &&& step.after.state.total_orders == before.state.total_orders + 1
                &&& step.after.state.position.pending_orders == before.state.position.pending_orders
                    + 1
                &&& step.after.risk.total_exposure == step.sums.total_exposure
                &&& step.after.calls.len() == before.calls.len() + 3
                &&& step.after.calls.last() matches Call::Sent { signal, order, .. } && signal == sig
                    && order.size == step.amounts.size() && order.id == before.next_order_id
            }
            &&& !open ==> {
                &&& z.orders == a.orders && z.total_edge == a.total_edge
                &&& step.after.state.total_orders == before.state.total_orders
                &&& step.after.state.position == before.state.position
                &&& step.after.risk == before.risk
                &&& step.after.house == before.house
                &&& step.after.calls.len() == before.calls.len() + 1
            }
            &&& z.filled == a.filled && z.gross_pnl == a.gross_pnl
            &&& step.after.state.total_filled == before.state.total_filled
        }),
{
    let more = calls_for(before, step, now_ms);
    assert(step.after.calls == before.calls + more);
    assert(step.after.calls.last() == more.last());
}

/// The first active order of a confidence of at least 0.7 sets the side of the house to its own,
/// and one on the other side turns it, once.
pub proof fn law_house_takes_side(h: House, signal: Signal)
    requires
        !signal.is_passive,
        (Real { bits: 0x3FE6666666666666 }).le(signal.confidence),
    ensures
        h.side is None ==> h.after_order(signal).side == Some(signal.side)
            && h.after_order(signal).flips == h.flips,
        h.side is Some && h.side != Some(signal.side) && h.flips == 0 ==> h.after_order(signal).side
            == Some(signal.side) && h.after_order(signal).flips == 1,
        h.side is Some && h.flips >= 1 ==> h.after_order(signal) == h,
        h.side == Some(signal.side) ==> h.after_order(signal) == h,
{
}

/// A signal below 0.7 leaves the house alone.
pub proof fn law_weak_signal_leaves_house(h: House, signal: Signal)
    requires
        signal.is_passive || signal.confidence.lt(Real { bits: 0x3FE6666666666666 }) || signal.confidence.nan(),
    ensures
        h.after_order(signal) == h,
{
}

/// With slippage an order costs the raised price, up to 0.99; without any it costs the price of
/// its signal. Live there is none, simulated there is a cent.
pub proof fn law_price_with(price: Real, slippage: Real, raised: Real)
    ensures
        !slippage.pos() ==> price_with(price, slippage, raised) == price,
        slippage.pos() && raised.le(Real { bits: 0x3FEFAE147AE147AE }) ==> price_with(price, slippage, raised) == raised,
        slippage.pos() && (Real { bits: 0x3FEFAE147AE147AE }).lt(raised) ==> price_with(price, slippage, raised) == (Real { bits: 0x3FEFAE147AE147AE }),
        LIVE_SLIPPAGE == 0,
        BACKTEST_SLIPPAGE == 0x3F847AE147AE147B,
{
}

/// The signals that agree with a side are those on it and the passive ones, in their order.
pub proof fn law_agreeing(s: Seq<Scored>, x: Scored, side: Side)
    ensures
        agreeing(Seq::empty(), side) == Seq::<Scored>::empty(),
        x.signal.is_passive || x.signal.side == side ==> agreeing(s.push(x), side) == agreeing(
            s,
            side,
        ).push(x),
        !x.signal.is_passive && x.signal.side != side ==> agreeing(s.push(x), side) == agreeing(
            s,
            side,
        ),
        active_count(Seq::empty()) == 0,
        x.signal.is_passive ==> active_count(s.push(x)) == active_count(s),
        !x.signal.is_passive ==> active_count(s.push(x)) == active_count(s) + 1,
{
    assert(s.push(x).drop_last() =~= s);
}

} // verus!
