//! Risk gates: limits of each strategy and of the portfolio.

use vstd::prelude::*;

use crate::number::Real;
use crate::text::str_eq;
use crate::types::{Fill, Order, OrderType, Side, Signal};

verus! {

/// Limits of one strategy. Fractions are of the bankroll.
#[derive(Clone, Copy, Debug, PartialEq, Eq, Structural)]
pub struct StrategyLimits {
    pub max_per_trade_frac: Real,
    pub max_total_frac: Real,
    pub cooldown_ms: i64,
    pub max_orders_per_market: u32,
}

/// What a strategy has done in the running market.
#[derive(Clone, Copy, Debug, PartialEq, Eq, Structural)]
pub struct StrategyRiskState {
    pub exposure: Real,
    pub orders_this_market: u32,
    pub last_order_ms: i64,
}

impl StrategyRiskState {
    pub open spec fn fresh() -> StrategyRiskState {
        StrategyRiskState { exposure: Real { bits: 0 }, orders_this_market: 0, last_order_ms: 0 }
    }

    pub fn new() -> (s: Self)
        ensures
            s == Self::fresh(),
    {
        StrategyRiskState { exposure: Real::zero(), orders_this_market: 0, last_order_ms: 0 }
    }
}

/// 0.005
pub const FRAC_HALF_PERCENT: u64 = 0x3F747AE147AE147B;

/// 0.01
pub const FRAC_1_PERCENT: u64 = 0x3F847AE147AE147B;

/// 0.02
pub const FRAC_2_PERCENT: u64 = 0x3F947AE147AE147B;

/// 0.03
pub const FRAC_3_PERCENT: u64 = 0x3F9EB851EB851EB8;

/// 0.04
pub const FRAC_4_PERCENT: u64 = 0x3FA47AE147AE147B;

/// 1.0, the least size of an order in dollars
pub const MIN_SIZE: u64 = 0x3FF0000000000000;

/// How many strategies have limits.
pub const STRATEGY_COUNT: usize = 6;

/// How long a resting order stays good, in milliseconds.
pub const ORDER_TTL_MS: i64 = 10_000;

/// The place of a strategy among those that have limits.
pub open spec fn strategy_index(name: Seq<char>) -> Option<int> {
    if name == "latency_arb"@ {
        Some(0)
    } else if name == "certainty_capture"@ {
        Some(1)
    } else if name == "convexity_fade"@ {
        Some(2)
    } else if name == "cross_timeframe"@ {
        Some(3)
    } else if name == "strike_misalign"@ {
        Some(4)
    } else if name == "lp_extreme"@ {
        Some(5)
    } else {
        None
    }
}

/// The place of a strategy among those that have limits.
pub fn index_of_strategy(name: &str) -> (r: Option<usize>)
    ensures
        match r {
            Some(i) => strategy_index(name@) == Some(i as int) && i < STRATEGY_COUNT,
            None => strategy_index(name@) is None,
        },
{
    if str_eq(name, "latency_arb") {
        Some(0)
    } else if str_eq(name, "certainty_capture") {
        Some(1)
    } else if str_eq(name, "convexity_fade") {
        Some(2)
    } else if str_eq(name, "cross_timeframe") {
        Some(3)
    } else if str_eq(name, "strike_misalign") {
        Some(4)
    } else if str_eq(name, "lp_extreme") {
        Some(5)
    } else {
        None
    }
}

/// The limits by place: share per trade, share in total, pause between two orders and number
/// of orders in one market.
pub open spec fn limits_at(i: int) -> StrategyLimits {
    if i == 0 {
        limit(FRAC_2_PERCENT, FRAC_4_PERCENT, 60_000, 2)
    } else if i == 1 {
        limit(FRAC_3_PERCENT, FRAC_3_PERCENT, 120_000, 1)
    } else if i == 2 {
        limit(FRAC_1_PERCENT, FRAC_2_PERCENT, 60_000, 2)
    } else if i == 3 {
        limit(FRAC_HALF_PERCENT, FRAC_2_PERCENT, 120_000, 1)
    } else if i == 4 {
        limit(FRAC_2_PERCENT, FRAC_4_PERCENT, 30_000, 2)
    } else {
        limit(FRAC_2_PERCENT, FRAC_2_PERCENT, 120_000, 1)
    }
}

pub open spec fn limit(per_trade: u64, total: u64, cooldown_ms: i64, orders: u32) -> StrategyLimits {
    StrategyLimits {
        max_per_trade_frac: Real { bits: per_trade },
        max_total_frac: Real { bits: total },
        cooldown_ms,
        max_orders_per_market: orders,
    }
}

fn make_limit(per_trade: u64, total: u64, cooldown_ms: i64, orders: u32) -> (r: StrategyLimits)
    ensures
        r == limit(per_trade, total, cooldown_ms, orders),
{
    StrategyLimits {
        max_per_trade_frac: Real { bits: per_trade },
        max_total_frac: Real { bits: total },
        cooldown_ms,
        max_orders_per_market: orders,
    }
}

/// The limits of a strategy, where it has any.
pub fn limits_of(name: &str) -> (r: Option<StrategyLimits>)
    ensures
        r == (match strategy_index(name@) {
            Some(i) => Some(limits_at(i)),
            None => None,
        }),
{
    // Cooldowns tuned for 300s (5-min) markets.
    // Target: 4-6 total orders per market. Each strategy gets 1-2 shots.
    match index_of_strategy(name) {
        None => None,
        Some(i) => Some(
            if i == 0 {
                make_limit(FRAC_2_PERCENT, FRAC_4_PERCENT, 60_000, 2)
            } else if i == 1 {
                make_limit(FRAC_3_PERCENT, FRAC_3_PERCENT, 120_000, 1)
            } else if i == 2 {
                make_limit(FRAC_1_PERCENT, FRAC_2_PERCENT, 60_000, 2)
            } else if i == 3 {
                make_limit(FRAC_HALF_PERCENT, FRAC_2_PERCENT, 120_000, 1)
            } else if i == 4 {
                make_limit(FRAC_2_PERCENT, FRAC_4_PERCENT, 30_000, 2)
            } else {
                make_limit(FRAC_2_PERCENT, FRAC_2_PERCENT, 120_000, 1)
            },
        ),
    }
}

/// Aggregate portfolio Greeks snapshot.
#[derive(Clone, Copy, Debug, PartialEq, Eq, Structural)]
pub struct PortfolioGreeks {
    pub delta: Real,
    pub gamma: Real,
    pub n_positions: u32,
}

impl PortfolioGreeks {
    pub open spec fn flat() -> PortfolioGreeks {
        PortfolioGreeks { delta: Real { bits: 0 }, gamma: Real { bits: 0 }, n_positions: 0 }
    }
}

/// Tracks fills, from which the aggregate Greeks are recomputed on demand.
pub struct GreeksTracker {
    pub positions: Vec<(Side, Real)>,
    pub snapshot: PortfolioGreeks,
}

impl GreeksTracker {
    pub open spec fn wf(&self) -> bool {
        self.snapshot.n_positions == self.positions@.len()
    }

    pub fn new() -> (t: Self)
        ensures
            t.wf(),
            t.positions@ == Seq::<(Side, Real)>::empty(),
            t.snapshot == PortfolioGreeks::flat(),
    {
        GreeksTracker {
            positions: Vec::new(),
            snapshot: PortfolioGreeks {
                delta: Real::zero(),
                gamma: Real::zero(),
                n_positions: 0,
            },
        }
    }

    /// Record a new fill.
    pub fn on_fill(&mut self, side: Side, size: Real)
        requires
            old(self).positions@.len() < u32::MAX,
        ensures
            final(self).wf(),
            final(self).positions@ == old(self).positions@.push((side, size)),
            final(self).snapshot.delta == old(self).snapshot.delta,
            final(self).snapshot.gamma == old(self).snapshot.gamma,
    {
        self.positions.push((side, size));
        self.snapshot.n_positions = self.positions.len() as u32;
    }

    /// Takes over the totals at current market conditions.
    pub fn recompute(&mut self, total_delta: Real, total_gamma: Real)
        requires
            old(self).positions@.len() <= u32::MAX,
        ensures
            final(self).wf(),
            final(self).positions@ == old(self).positions@,
            final(self).snapshot.delta == total_delta,
            final(self).snapshot.gamma == total_gamma,
    {
        self.snapshot = PortfolioGreeks {
            delta: total_delta,
            gamma: total_gamma,
            n_positions: self.positions.len() as u32,
        };
    }

    /// Reset at market end.
    pub fn reset(&mut self)
        ensures
            final(self).wf(),
            final(self).positions@ == Seq::<(Side, Real)>::empty(),
            final(self).snapshot == PortfolioGreeks::flat(),
    {
        self.positions.clear();
        self.snapshot = PortfolioGreeks {
            delta: Real::zero(),
            gamma: Real::zero(),
            n_positions: 0,
        };
    }
}

/// Amounts that a check compares, in dollars: what the fractions make of the bankroll, what
/// the signal asks for, and what room is left.
#[derive(Clone, Copy, Debug)]
pub struct Amounts {
    /// Daily result below which trading stops.
    pub daily_floor: Real,
    /// Weekly result below which trading stops.
    pub weekly_floor: Real,
    /// Greatest exposure of all strategies together.
    pub max_portfolio: Real,
    /// Greatest exposure of the strategy.
    pub max_strategy: Real,
    /// What the signal asks for.
    pub kelly_size: Real,
    /// Greatest size of one trade of the strategy.
    pub per_trade_cap: Real,
    /// Exposure that the strategy has left.
    pub strategy_room: Real,
    /// Exposure that the portfolio has left.
    pub portfolio_room: Real,
    /// Greatest delta of the portfolio; not positive means no limit.
    pub max_delta: Real,
    /// Greatest negative gamma of the portfolio; not positive means no limit.
    pub max_gamma_neg: Real,
}

impl Amounts {
    /// The size of the order: the least of what is asked for and what is allowed.
    pub open spec fn size(self) -> Real {
        self.kelly_size.lesser(self.per_trade_cap).lesser(self.strategy_room).lesser(
            self.portfolio_room,
        )
    }
}

/// Why a signal is stopped.
#[derive(Clone, Copy, Debug, PartialEq, Eq, Structural)]
pub enum Gate {
    Halted,
    DailyLoss,
    WeeklyLoss,
    StaleFeeds,
    PortfolioFull,
    DeltaLimit,
    GammaLimit,
    UnknownStrategy,
    Cooldown,
    MaxOrders,
    StrategyFull,
    TooSmall,
}

/// Two-tier risk manager: per-strategy limits + portfolio-level caps.
/// Each strategy operates independently: one hitting its cap does not block others.
pub struct StrategyRiskManager {
    /// What each strategy that has limits has done in the running market, by its place.
    pub states: Vec<StrategyRiskState>,
    pub total_exposure: Real,
    pub daily_pnl: Real,
    pub weekly_pnl: Real,
    pub halted_until_ms: i64,
    pub greeks: GreeksTracker,
}

/// Order type, whether it must rest, and when it expires.
pub open spec fn execution_of(
    strategy: Seq<char>,
    is_passive: bool,
    use_bid: bool,
    now_ms: i64,
) -> (OrderType, bool, Option<i64>) {
    if is_passive {
        (OrderType::GTC, true, None)
    } else if use_bid {
        (OrderType::GTD, true, Some((now_ms + ORDER_TTL_MS) as i64))
    } else if strategy == "latency_arb"@ {
        (OrderType::FOK, false, None)
    } else {
        (OrderType::GTD, false, Some((now_ms + ORDER_TTL_MS) as i64))
    }
}

/// How a signal is executed: passive ones rest until cancelled; those at the bid rest for ten
/// seconds; the latency race fills or dies; the rest take the ask within ten seconds.
pub fn execution(strategy: &str, is_passive: bool, use_bid: bool, now_ms: i64) -> (r: (
    OrderType,
    bool,
    Option<i64>,
))
    requires
        now_ms + ORDER_TTL_MS <= i64::MAX,
    ensures
        r == execution_of(strategy@, is_passive, use_bid, now_ms),
{
    if is_passive {
        (OrderType::GTC, true, None)
    } else if use_bid {
        (OrderType::GTD, true, Some(now_ms + ORDER_TTL_MS))
    } else if str_eq(strategy, "latency_arb") {
        (OrderType::FOK, false, None)
    } else {
        (OrderType::GTD, false, Some(now_ms + ORDER_TTL_MS))
    }
}

impl StrategyRiskManager {
    /// There is a state for each strategy that has limits.
    pub open spec fn wf(&self) -> bool {
        self.states@.len() == STRATEGY_COUNT
    }

    /// What the strategy at a place has done in the running market.
    pub open spec fn state_at(&self, i: int) -> StrategyRiskState {
        self.states@[i]
    }

    pub fn new() -> (r: Self)
        ensures
            r.wf(),
            forall|i: int|
                0 <= i < STRATEGY_COUNT ==> #[trigger] r.state_at(i) == StrategyRiskState::fresh(),
            r.total_exposure == (Real { bits: 0 }),
            r.daily_pnl == (Real { bits: 0 }),
            r.weekly_pnl == (Real { bits: 0 }),
            r.halted_until_ms == 0,
            r.greeks.wf(),
            r.greeks.positions@.len() == 0,
            r.greeks.snapshot == PortfolioGreeks::flat(),
    {
        StrategyRiskManager {
            states: fresh_states(),
            total_exposure: Real::zero(),
            daily_pnl: Real::zero(),
            weekly_pnl: Real::zero(),
            halted_until_ms: 0,
            greeks: GreeksTracker::new(),
        }
    }

    /// What a strategy has done in the running market, where it has limits.
    pub fn strategy_state(&self, name: &str) -> (r: Option<StrategyRiskState>)
        requires
            self.wf(),
        ensures
            r == (match strategy_index(name@) {
                Some(i) => Some(self.state_at(i)),
                None => None,
            }),
    {
        match index_of_strategy(name) {
            Some(i) => Some(self.states[i]),
            None => None,
        }
    }

    /// The first gate that a strategy of its own limits fails at.
    pub open spec fn strategy_gate(self, i: int, a: Amounts, now_ms: i64) -> Option<Gate> {
        let s = self.state_at(i);
        let l = limits_at(i);
        if s.last_order_ms > 0 && now_ms - s.last_order_ms < l.cooldown_ms {
            Some(Gate::Cooldown)
        } else if s.orders_this_market >= l.max_orders_per_market {
            Some(Gate::MaxOrders)
        } else if a.max_strategy.le(s.exposure) {
            Some(Gate::StrategyFull)
        } else if a.size().lt(Real { bits: MIN_SIZE }) {
            Some(Gate::TooSmall)
        } else {
            None
        }
    }

    /// The first gate that a signal fails at, or none.
    pub open spec fn gate_of(
        self,
        strategy: Seq<char>,
        a: Amounts,
        feeds_stale: bool,
        now_ms: i64,
    ) -> Option<Gate> {
        if now_ms < self.halted_until_ms {
            Some(Gate::Halted)
        } else if self.daily_pnl.lt(a.daily_floor) {
            Some(Gate::DailyLoss)
        } else if self.weekly_pnl.lt(a.weekly_floor) {
            Some(Gate::WeeklyLoss)
        } else if feeds_stale {
            Some(Gate::StaleFeeds)
        } else if a.max_portfolio.le(self.total_exposure) {
            Some(Gate::PortfolioFull)
        } else if a.max_delta.pos() && a.max_delta.lt(self.greeks.snapshot.delta.magnitude()) {
            Some(Gate::DeltaLimit)
        } else if a.max_gamma_neg.pos() && self.greeks.snapshot.gamma.lt(
            a.max_gamma_neg.negation(),
        ) {
            Some(Gate::GammaLimit)
        } else {
            match strategy_index(strategy) {
                None => Some(Gate::UnknownStrategy),
                Some(i) => self.strategy_gate(i, a, now_ms),
            }
        }
    }

    /// The first gate that a signal of a strategy fails at, or none.
    pub fn first_gate(&self, strategy: &str, a: &Amounts, feeds_stale: bool, now_ms: i64) -> (r:
        Option<Gate>)
        requires
            self.wf(),
        ensures
            r == self.gate_of(strategy@, *a, feeds_stale, now_ms),
    {
        if now_ms < self.halted_until_ms {
            return Some(Gate::Halted);
        }
        if self.daily_pnl.less(a.daily_floor) {
            return Some(Gate::DailyLoss);
        }
        if self.weekly_pnl.less(a.weekly_floor) {
            return Some(Gate::WeeklyLoss);
        }
        if feeds_stale {
            return Some(Gate::StaleFeeds);
        }
        if a.max_portfolio.at_most(self.total_exposure) {
            return Some(Gate::PortfolioFull);
        }
        if a.max_delta.is_positive() && a.max_delta.less(self.greeks.snapshot.delta.abs()) {
            return Some(Gate::DeltaLimit);
        }
        if a.max_gamma_neg.is_positive() && self.greeks.snapshot.gamma.less(
            a.max_gamma_neg.neg(),
        ) {
            return Some(Gate::GammaLimit);
        }
        let (state, limits) = match (self.strategy_state(strategy), limits_of(strategy)) {
            (Some(s), Some(l)) => (s, l),
            _ => return Some(Gate::UnknownStrategy),
        };
        if state.last_order_ms > 0 && now_ms as i128 - (state.last_order_ms as i128)
            < limits.cooldown_ms as i128 {
            return Some(Gate::Cooldown);
        }
        if state.orders_this_market >= limits.max_orders_per_market {
            return Some(Gate::MaxOrders);
        }
        if a.max_strategy.at_most(state.exposure) {
            return Some(Gate::StrategyFull);
        }
        if order_size(a).less(Real { bits: MIN_SIZE }) {
            return Some(Gate::TooSmall);
        }
        None
    }

    /// The order that a signal becomes when no gate stops it.
    pub open spec fn order_for(signal: Signal, a: Amounts, order_id: u64, now_ms: i64) -> Order {
        let e = execution_of(signal.strategy@, signal.is_passive, signal.use_bid, now_ms);
        Order {
            id: order_id,
            side: signal.side,
            price: signal.market_price,
            size: a.size(),
            strategy: signal.strategy,
            signal_edge: signal.edge,
            is_passive: signal.is_passive,
            order_type: e.0,
            post_only: e.1,
            expiration_ms: e.2,
        }
    }

    /// Check if a strategy signal passes all risk gates and produce an Order.
    pub fn check_strategy(
        &self,
        signal: &Signal,
        a: &Amounts,
        feeds_stale: bool,
        order_id: u64,
        now_ms: i64,
    ) -> (r: Option<Order>)
        requires
            self.wf(),
            now_ms + ORDER_TTL_MS <= i64::MAX,
        ensures
            r == (if self.gate_of(signal.strategy@, *a, feeds_stale, now_ms) is None {
                Some(Self::order_for(*signal, *a, order_id, now_ms))
            } else {
                None
            }),
            r matches Some(o) ==> o.id == order_id && o.side == signal.side && o.price
                == signal.market_price && o.strategy == signal.strategy,
    {
        if self.first_gate(signal.strategy, a, feeds_stale, now_ms).is_some() {
            return None;
        }
        let (order_type, post_only, expiration_ms) = execution(
            signal.strategy,
            signal.is_passive,
            signal.use_bid,
            now_ms,
        );
        Some(
            Order {
                id: order_id,
                side: signal.side,
                price: signal.market_price,
                size: order_size(a),
                strategy: signal.strategy,
                signal_edge: signal.edge,
                is_passive: signal.is_passive,
                order_type,
                post_only,
                expiration_ms,
            },
        )
    }

    /// Records an order. `exposure` and `total_exposure` are the exposures of the strategy and
    /// of the portfolio with the order added.
    pub fn on_order_sent(&mut self, strategy: &str, now_ms: i64, exposure: Real, total_exposure: Real)
        requires
            old(self).wf(),
            strategy_index(strategy@) matches Some(i) ==> old(self).state_at(i).orders_this_market
                < u32::MAX,
        ensures
            final(self).wf(),
            final(self).total_exposure == total_exposure,
            final(self).daily_pnl == old(self).daily_pnl,
            final(self).weekly_pnl == old(self).weekly_pnl,
            final(self).halted_until_ms == old(self).halted_until_ms,
            final(self).greeks == old(self).greeks,
            order_recorded(*old(self), *final(self), strategy@, now_ms, exposure),
    {
        if let Some(i) = index_of_strategy(strategy) {
            let n: u32 = self.states[i].orders_this_market;
            self.states.set(
                i,
                StrategyRiskState { exposure, orders_this_market: n + 1, last_order_ms: now_ms },
            );
        }
        self.total_exposure = total_exposure;
    }

    /// Whether a market has just been settled: the results are `daily_pnl` and `weekly_pnl`, and
    /// nothing of the market is left.
    pub open spec fn settled(&self, daily_pnl: Real, weekly_pnl: Real) -> bool {
        &&& self.wf()
        &&& self.daily_pnl == daily_pnl
        &&& self.weekly_pnl == weekly_pnl
        &&& self.total_exposure == (Real { bits: 0 })
        &&& self.greeks.wf()
        &&& self.greeks.positions@.len() == 0
        &&& self.greeks.snapshot == PortfolioGreeks::flat()
        &&& forall|i: int|
            0 <= i < STRATEGY_COUNT ==> #[trigger] self.state_at(i) == StrategyRiskState::fresh()
    }

    /// Settles a market at its end. `daily_pnl` and `weekly_pnl` are the results with the
    /// market added. What was counted for the market is reset.
    pub fn settle_market(&mut self, daily_pnl: Real, weekly_pnl: Real)
        ensures
            final(self).settled(daily_pnl, weekly_pnl),
            final(self).halted_until_ms == old(self).halted_until_ms,
    {
        self.daily_pnl = daily_pnl;
        self.weekly_pnl = weekly_pnl;
        self.total_exposure = Real::zero();
        self.greeks.reset();
        self.states = fresh_states();
    }

    /// Stops trading for a while.
    pub fn trigger_halt(&mut self, now_ms: i64, duration_ms: i64)
        requires
            i64::MIN <= now_ms + duration_ms <= i64::MAX,
        ensures
            final(self).wf() == old(self).wf(),
            final(self).halted_until_ms == now_ms + duration_ms,
            final(self).total_exposure == old(self).total_exposure,
            final(self).daily_pnl == old(self).daily_pnl,
            final(self).weekly_pnl == old(self).weekly_pnl,
            final(self).greeks == old(self).greeks,
            forall|i: int| #[trigger] final(self).state_at(i) == old(self).state_at(i),
    {
        self.halted_until_ms = now_ms + duration_ms;
    }
}

/// The size of an order: the least of what the limits leave.
pub fn order_size(a: &Amounts) -> (r: Real)
    ensures
        r == a.size(),
{
    a.kelly_size.min(a.per_trade_cap).min(a.strategy_room).min(a.portfolio_room)
}

fn fresh_states() -> (v: Vec<StrategyRiskState>)
    ensures
        v@.len() == STRATEGY_COUNT,
        forall|i: int| 0 <= i < v@.len() ==> #[trigger] v@[i] == StrategyRiskState::fresh(),
{
    let mut v: Vec<StrategyRiskState> = Vec::new();
    let mut i: usize = 0;
    while i < STRATEGY_COUNT
        invariant
            i <= STRATEGY_COUNT,
            v@.len() == i,
            forall|j: int| 0 <= j < v@.len() ==> #[trigger] v@[j] == StrategyRiskState::fresh(),
        decreases STRATEGY_COUNT - i,
    {
        v.push(StrategyRiskState::new());
        i = i + 1;
    }
    v
}

/// Whether a fill wins when a market settles.
pub fn fill_wins(fill: &Fill, outcome: Side) -> (r: bool)
    ensures
        r == (fill.side == outcome),
{
    fill.side == outcome
}

/// Whether the states of `after` are those of `before` with an order of a strategy recorded.
pub open spec fn order_recorded(
    before: StrategyRiskManager,
    after: StrategyRiskManager,
    strategy: Seq<char>,
    now_ms: i64,
    exposure: Real,
) -> bool {
    forall|i: int|
        0 <= i < STRATEGY_COUNT ==> #[trigger] after.state_at(i) == if strategy_index(strategy)
            == Some(i) {
            StrategyRiskState {
                exposure,
                orders_this_market: (before.state_at(i).orders_this_market + 1) as u32,
                last_order_ms: now_ms,
            }
        } else {
            before.state_at(i)
        }
}

/// A halt stops every signal until it ends, and none afterwards.
pub proof fn law_halt_stops_until_end(
    r: StrategyRiskManager,
    strategy: Seq<char>,
    a: Amounts,
    feeds_stale: bool,
    now_ms: i64,
)
    ensures
        r.gate_of(strategy, a, feeds_stale, now_ms) == Some(Gate::Halted) <==> now_ms
            < r.halted_until_ms,
{
}

/// An order of one strategy leaves the gates of the limits of every other strategy as they
/// were.
pub proof fn law_strategies_are_independent(
    before: StrategyRiskManager,
    after: StrategyRiskManager,
    strategy: Seq<char>,
    sent_ms: i64,
    exposure: Real,
    other: Seq<char>,
    a: Amounts,
    now_ms: i64,
)
    requires
        order_recorded(before, after, strategy, sent_ms, exposure),
        strategy_index(other) is Some,
        other != strategy,
    ensures
        after.strategy_gate(strategy_index(other)->0, a, now_ms) == before.strategy_gate(
            strategy_index(other)->0,
            a,
            now_ms,
        ),
{
    let i = strategy_index(other)->0;
    assert(after.state_at(i) == before.state_at(i));
}

/// The six strategies have different places.
pub proof fn law_strategy_places_differ(a: Seq<char>, b: Seq<char>)
    requires
        strategy_index(a) is Some,
        strategy_index(a) == strategy_index(b),
    ensures
        a == b,
{
}

/// An approved order keeps the number of orders of its strategy within the limit.
pub proof fn law_orders_stay_within_limit(
    r: StrategyRiskManager,
    strategy: Seq<char>,
    a: Amounts,
    feeds_stale: bool,
    now_ms: i64,
)
    requires
        r.gate_of(strategy, a, feeds_stale, now_ms) is None,
    ensures
        strategy_index(strategy) is Some,
        r.state_at(strategy_index(strategy)->0).orders_this_market + 1 <= limits_at(
            strategy_index(strategy)->0,
        ).max_orders_per_market <= 2,
{
}

/// After an order at a positive time, its strategy is stopped while its pause lasts.
pub proof fn law_pause_after_order(
    before: StrategyRiskManager,
    after: StrategyRiskManager,
    strategy: Seq<char>,
    sent_ms: i64,
    exposure: Real,
    a: Amounts,
    now_ms: i64,
)
    requires
        order_recorded(before, after, strategy, sent_ms, exposure),
        strategy_index(strategy) is Some,
        sent_ms > 0,
        sent_ms <= now_ms < sent_ms + limits_at(strategy_index(strategy)->0).cooldown_ms,
    ensures
        after.strategy_gate(strategy_index(strategy)->0, a, now_ms) == Some(Gate::Cooldown),
{
    let i = strategy_index(strategy)->0;
    assert(after.state_at(i).last_order_ms == sent_ms);
}

/// An approved order is at least a dollar and no larger than what is asked for and what each
/// limit leaves, as far as these are numbers.
pub proof fn law_order_size_is_bounded(
    r: StrategyRiskManager,
    signal: Signal,
    a: Amounts,
    feeds_stale: bool,
    order_id: u64,
    now_ms: i64,
)
    requires
        r.gate_of(signal.strategy@, a, feeds_stale, now_ms) is None,
    ensures
        ({
            let size = StrategyRiskManager::order_for(signal, a, order_id, now_ms).size;
            &&& !size.lt(Real { bits: MIN_SIZE })
            &&& !a.kelly_size.nan() ==> size.le(a.kelly_size)
            &&& !a.per_trade_cap.nan() ==> size.le(a.per_trade_cap)
            &&& !a.strategy_room.nan() ==> size.le(a.strategy_room)
            &&& !a.portfolio_room.nan() ==> size.le(a.portfolio_room)
        }),
{
}

/// An order is on the side of its signal, active or passive, at its price, in its name and with
/// its edge, under the number that it was given; its size is one of the four amounts that bound
/// it.
pub proof fn law_order_follows_signal(signal: Signal, a: Amounts, order_id: u64, now_ms: i64)
    ensures
        ({
            let o = StrategyRiskManager::order_for(signal, a, order_id, now_ms);
            &&& o.id == order_id
            &&& o.side == signal.side
            &&& o.price == signal.market_price
            &&& o.strategy == signal.strategy
            &&& o.signal_edge == signal.edge
            &&& o.is_passive == signal.is_passive
            &&& o.size == a.kelly_size || o.size == a.per_trade_cap || o.size == a.strategy_room
                || o.size == a.portfolio_room
            &&& a.kelly_size.le(a.per_trade_cap) && a.kelly_size.le(a.strategy_room)
                && a.kelly_size.le(a.portfolio_room) ==> o.size == a.kelly_size
        }),
{
}

/// Two signals that differ in their side alone become orders that differ in their side alone.
pub proof fn law_side_turns_order(signal: Signal, side: Side, a: Amounts, id: u64, now_ms: i64)
    ensures
        StrategyRiskManager::order_for(Signal { side, ..signal }, a, id, now_ms) == (Order {
            side,
            ..StrategyRiskManager::order_for(signal, a, id, now_ms)
        }),
{
}

/// A passive order rests until it is cancelled; one at the bid rests for ten seconds; that of
/// the latency race fills or dies; any other takes what it gets within ten seconds.
pub proof fn law_execution(signal: Signal, a: Amounts, order_id: u64, now_ms: i64)
    requires
        now_ms + 10_000 <= i64::MAX,
    ensures
        ({
            let o = StrategyRiskManager::order_for(signal, a, order_id, now_ms);
            let race = signal.strategy@ == "latency_arb"@;
            &&& signal.is_passive ==> o.order_type == OrderType::GTC && o.post_only
                && o.expiration_ms is None
            &&& !signal.is_passive && signal.use_bid ==> o.order_type == OrderType::GTD
                && o.post_only && o.expiration_ms == Some((now_ms + 10_000) as i64)
            &&& !signal.is_passive && !signal.use_bid && race ==> o.order_type == OrderType::FOK
                && !o.post_only && o.expiration_ms is None
            &&& !signal.is_passive && !signal.use_bid && !race ==> o.order_type == OrderType::GTD
                && !o.post_only && o.expiration_ms == Some((now_ms + 10_000) as i64)
            &&& execution_of(signal.strategy@, signal.is_passive, signal.use_bid, now_ms) == (
                o.order_type,
                o.post_only,
                o.expiration_ms,
            )
        }),
{
}

/// A signal is approved exactly where nothing speaks against it: no halt, no loss beyond the
/// floors, live feeds, room in the portfolio, delta and gamma within their limits as far as
/// there are any, a strategy that has limits, is not in its pause, has orders left and room
/// left, and a size of at least a dollar.
pub proof fn law_approved_exactly(
    r: StrategyRiskManager,
    strategy: Seq<char>,
    a: Amounts,
    feeds_stale: bool,
    now_ms: i64,
)
    ensures
        r.gate_of(strategy, a, feeds_stale, now_ms) is None <==> {
            &&& r.halted_until_ms <= now_ms
            &&& !r.daily_pnl.lt(a.daily_floor)
            &&& !r.weekly_pnl.lt(a.weekly_floor)
            &&& !feeds_stale
            &&& !a.max_portfolio.le(r.total_exposure)
            &&& !(a.max_delta.pos() && a.max_delta.lt(r.greeks.snapshot.delta.magnitude()))
            &&& !(a.max_gamma_neg.pos() && r.greeks.snapshot.gamma.lt(a.max_gamma_neg.negation()))
            &&& strategy_index(strategy) matches Some(i) && {
                let s = r.state_at(i);
                let l = limits_at(i);
                &&& s.last_order_ms <= 0 || now_ms - s.last_order_ms >= l.cooldown_ms
                &&& s.orders_this_market < l.max_orders_per_market
                &&& !a.max_strategy.le(s.exposure)
                &&& !a.kelly_size.lesser(a.per_trade_cap).lesser(a.strategy_room).lesser(
                    a.portfolio_room,
                ).lt(Real { bits: 0x3FF0000000000000 })
            }
        },
{
}

/// A signal is stopped for a reason that holds, and no reason that comes before it does.
pub proof fn law_gate_is_first(
    r: StrategyRiskManager,
    strategy: Seq<char>,
    a: Amounts,
    feeds_stale: bool,
    now_ms: i64,
)
    ensures
        ({
            let g = r.gate_of(strategy, a, feeds_stale, now_ms);
            let halted = now_ms < r.halted_until_ms;
            let daily = r.daily_pnl.lt(a.daily_floor);
            let weekly = r.weekly_pnl.lt(a.weekly_floor);
            &&& g == Some(Gate::DailyLoss) <==> !halted && daily
            &&& g == Some(Gate::WeeklyLoss) <==> !halted && !daily && weekly
            &&& g == Some(Gate::StaleFeeds) <==> !halted && !daily && !weekly && feeds_stale
            &&& g == Some(Gate::PortfolioFull) ==> a.max_portfolio.le(r.total_exposure)
            &&& g == Some(Gate::DeltaLimit) ==> a.max_delta.pos() && a.max_delta.lt(
                r.greeks.snapshot.delta.magnitude(),
            )
            &&& g == Some(Gate::GammaLimit) ==> a.max_gamma_neg.pos() && r.greeks.snapshot.gamma.lt(
                a.max_gamma_neg.negation(),
            )
            &&& g == Some(Gate::UnknownStrategy) ==> strategy_index(strategy) is None
            &&& g == Some(Gate::Cooldown) ==> now_ms - r.state_at(
                strategy_index(strategy)->0,
            ).last_order_ms < limits_at(strategy_index(strategy)->0).cooldown_ms
            &&& g == Some(Gate::MaxOrders) ==> r.state_at(
                strategy_index(strategy)->0,
            ).orders_this_market >= limits_at(strategy_index(strategy)->0).max_orders_per_market
            &&& g == Some(Gate::StrategyFull) ==> a.max_strategy.le(
                r.state_at(strategy_index(strategy)->0).exposure,
            )
            &&& g == Some(Gate::TooSmall) ==> a.size().lt(Real { bits: 0x3FF0000000000000 })
        }),
{
}

/// The limits by name: share per trade, share in total, pause and number of orders.
pub proof fn law_limits_by_name()
    ensures
        strategy_index("latency_arb"@) matches Some(i) && limits_at(i) == (StrategyLimits {
            max_per_trade_frac: Real { bits: 0x3F947AE147AE147B },
            max_total_frac: Real { bits: 0x3FA47AE147AE147B },
            cooldown_ms: 60_000,
            max_orders_per_market: 2,
        }),
        strategy_index("certainty_capture"@) matches Some(i) && limits_at(i) == (StrategyLimits {
            max_per_trade_frac: Real { bits: 0x3F9EB851EB851EB8 },
            max_total_frac: Real { bits: 0x3F9EB851EB851EB8 },
            cooldown_ms: 120_000,
            max_orders_per_market: 1,
        }),
        strategy_index("convexity_fade"@) matches Some(i) && limits_at(i) == (StrategyLimits {
            max_per_trade_frac: Real { bits: 0x3F847AE147AE147B },
            max_total_frac: Real { bits: 0x3F947AE147AE147B },
            cooldown_ms: 60_000,
            max_orders_per_market: 2,
        }),
        strategy_index("cross_timeframe"@) matches Some(i) && limits_at(i) == (StrategyLimits {
            max_per_trade_frac: Real { bits: 0x3F747AE147AE147B },
            max_total_frac: Real { bits: 0x3F947AE147AE147B },
            cooldown_ms: 120_000,
            max_orders_per_market: 1,
        }),
        strategy_index("strike_misalign"@) matches Some(i) && limits_at(i) == (StrategyLimits {
            max_per_trade_frac: Real { bits: 0x3F947AE147AE147B },
            max_total_frac: Real { bits: 0x3FA47AE147AE147B },
            cooldown_ms: 30_000,
            max_orders_per_market: 2,
        }),
        strategy_index("lp_extreme"@) matches Some(i) && limits_at(i) == (StrategyLimits {
            max_per_trade_frac: Real { bits: 0x3F947AE147AE147B },
            max_total_frac: Real { bits: 0x3F947AE147AE147B },
            cooldown_ms: 120_000,
            max_orders_per_market: 1,
        }),
{
    reveal_strlit("latency_arb");
    reveal_strlit("certainty_capture");
    reveal_strlit("convexity_fade");
    reveal_strlit("cross_timeframe");
    reveal_strlit("strike_misalign");
    reveal_strlit("lp_extreme");
    assert("latency_arb"@.len() == 11);
    assert("certainty_capture"@.len() == 17);
    assert("convexity_fade"@.len() == 14);
    assert("cross_timeframe"@.len() == 15 && "strike_misalign"@.len() == 15);
    assert("cross_timeframe"@[0] == 'c' && "strike_misalign"@[0] == 's');
    assert("lp_extreme"@.len() == 10);
}

/// No strategy without limits is known: only the six names have a place, each below six.
pub proof fn law_known_strategies(name: Seq<char>)
    ensures
        strategy_index(name) is Some <==> name == "latency_arb"@ || name == "certainty_capture"@
            || name == "convexity_fade"@ || name == "cross_timeframe"@ || name
            == "strike_misalign"@ || name == "lp_extreme"@,
        strategy_index(name) matches Some(i) ==> 0 <= i < 6,
{
}

/// An order counts once for its own strategy, at its time and with its exposure, and leaves
/// every other strategy as it was.
pub proof fn law_order_is_recorded(
    before: StrategyRiskManager,
    after: StrategyRiskManager,
    strategy: Seq<char>,
    now_ms: i64,
    exposure: Real,
    i: int,
)
    requires
        order_recorded(before, after, strategy, now_ms, exposure),
        0 <= i < 6,
        before.state_at(i).orders_this_market < u32::MAX,
    ensures
        strategy_index(strategy) == Some(i) ==> after.state_at(i).orders_this_market
            == before.state_at(i).orders_this_market + 1 && after.state_at(i).last_order_ms == now_ms
            && after.state_at(i).exposure == exposure,
        strategy_index(strategy) != Some(i) ==> after.state_at(i) == before.state_at(i),
{
}

/// After a market is settled nothing of it stands in the way of the next one: no exposure, no
/// orders, no pause; the results are those that were handed in.
pub proof fn law_settled_is_clean(r: StrategyRiskManager, daily: Real, weekly: Real, i: int)
    requires
        r.settled(daily, weekly),
        0 <= i < 6,
    ensures
        r.daily_pnl == daily,
        r.weekly_pnl == weekly,
        r.total_exposure.bits == 0,
        r.greeks.positions@.len() == 0,
        r.greeks.snapshot.delta.bits == 0 && r.greeks.snapshot.gamma.bits == 0,
        r.greeks.snapshot.n_positions == 0,
        r.state_at(i).exposure.bits == 0,
        r.state_at(i).orders_this_market == 0,
        r.state_at(i).last_order_ms == 0,
{
    assert(r.state_at(i) == StrategyRiskState::fresh());
}

/// There are six strategies with limits, and each has a place of its own among them.
pub proof fn law_six_strategies(name: Seq<char>)
    ensures
        STRATEGY_COUNT == 6,
        strategy_index(name) matches Some(i) ==> 0 <= i < 6,
{
}

} // verus!
