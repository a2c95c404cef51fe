//! The course of one market: what each event of the feeds leads to.

use std::collections::HashMap;

use vstd::prelude::*;

use crate::config::{Config, Interval};
use crate::engine::pipeline::counts_within;
use crate::engine::state::{MarketState, StrategyStats};
use crate::math::regime::Regime;
use crate::number::{Real, INFINITY_BITS};
use crate::types::{Fill, MarketInfo, MarketView, OrderAck, Side};

verus! {

broadcast use vstd::std_specs::hash::group_hash_axioms;

/// How many fresh volatility samples a market waits for before it trades.
pub const MIN_FRESH_SAMPLES: u32 = 10;

/// The time between two diagnostic logs, in milliseconds.
pub const DIAGNOSTIC_MS: i64 = 10_000;

/// The strategies that the engine runs.
#[derive(Clone, Copy, Debug, PartialEq, Eq, Hash, Structural)]
pub enum StrategyKind {
    LatencyArb,
    CertaintyCapture,
    ConvexityFade,
    StrikeMisalign,
    LpExtreme,
    CrossTimeframe,
}

impl StrategyKind {
    pub open spec fn label(self) -> Seq<char> {
        match self {
            StrategyKind::LatencyArb => "latency_arb"@,
            StrategyKind::CertaintyCapture => "certainty_capture"@,
            StrategyKind::ConvexityFade => "convexity_fade"@,
            StrategyKind::StrikeMisalign => "strike_misalign"@,
            StrategyKind::LpExtreme => "lp_extreme"@,
            StrategyKind::CrossTimeframe => "cross_timeframe"@,
        }
    }

    pub fn name(&self) -> (r: &'static str)
        ensures
            r@ == self.label(),
    {
        match self {
            StrategyKind::LatencyArb => "latency_arb",
            StrategyKind::CertaintyCapture => "certainty_capture",
            StrategyKind::ConvexityFade => "convexity_fade",
            StrategyKind::StrikeMisalign => "strike_misalign",
            StrategyKind::LpExtreme => "lp_extreme",
            StrategyKind::CrossTimeframe => "cross_timeframe",
        }
    }

    /// Whether the settings let the strategy run.
    pub open spec fn on(self, config: Config) -> bool {
        match self {
            StrategyKind::LatencyArb => config.strategy_latency_arb,
            StrategyKind::CertaintyCapture => config.strategy_certainty_capture,
            StrategyKind::ConvexityFade => config.strategy_convexity_fade,
            StrategyKind::StrikeMisalign => config.strategy_strike_misalign,
            StrategyKind::LpExtreme => config.strategy_lp_extreme,
            StrategyKind::CrossTimeframe => config.strategy_cross_timeframe,
        }
    }

    pub fn is_enabled(&self, config: &Config) -> (r: bool)
        ensures
            r == self.on(*config),
    {
        match self {
            StrategyKind::LatencyArb => config.strategy_latency_arb,
            StrategyKind::CertaintyCapture => config.strategy_certainty_capture,
            StrategyKind::ConvexityFade => config.strategy_convexity_fade,
            StrategyKind::StrikeMisalign => config.strategy_strike_misalign,
            StrategyKind::LpExtreme => config.strategy_lp_extreme,
            StrategyKind::CrossTimeframe => config.strategy_cross_timeframe,
        }
    }
}

/// The strategies of a list that the settings let run, in the order of the list.
pub open spec fn enabled_of(kinds: Seq<StrategyKind>, config: Config) -> Seq<StrategyKind>
    decreases kinds.len(),
{
    if kinds.len() == 0 {
        kinds
    } else {
        let rest = enabled_of(kinds.drop_last(), config);
        if kinds.last().on(config) {
            rest.push(kinds.last())
        } else {
            rest
        }
    }
}

fn enabled(kinds: &Vec<StrategyKind>, config: &Config) -> (r: Vec<StrategyKind>)
    ensures
        r@ == enabled_of(kinds@, *config),
{
    let mut out: Vec<StrategyKind> = Vec::new();
    let mut i: usize = 0;
    assert(kinds@.take(0) =~= Seq::empty());
    while i < kinds.len()
        invariant
            i <= kinds.len(),
            out@ == enabled_of(kinds@.take(i as int), *config),
        decreases kinds.len() - i,
    {
        assert(kinds@.take(i + 1).drop_last() =~= kinds@.take(i as int));
        if kinds[i].is_enabled(config) {
            out.push(kinds[i]);
        }
        i = i + 1;
    }
    assert(kinds@.take(i as int) =~= kinds@);
    out
}

/// The strategies that look at every Binance trade.
pub fn binance_strategies(config: &Config) -> (r: Vec<StrategyKind>)
    ensures
        r@ == enabled_of(seq![StrategyKind::LatencyArb, StrategyKind::LpExtreme], *config),
{
    let kinds: Vec<StrategyKind> = vec![StrategyKind::LatencyArb, StrategyKind::LpExtreme];
    assert(kinds@ =~= seq![StrategyKind::LatencyArb, StrategyKind::LpExtreme]);
    enabled(&kinds, config)
}

/// The strategies that look at every Polymarket quote and book.
pub fn polymarket_strategies(config: &Config) -> (r: Vec<StrategyKind>)
    ensures
        r@ == enabled_of(
            seq![
                StrategyKind::CertaintyCapture,
                StrategyKind::ConvexityFade,
                StrategyKind::LpExtreme,
            ],
            *config,
        ),
{
    let kinds: Vec<StrategyKind> = vec![
        StrategyKind::CertaintyCapture,
        StrategyKind::ConvexityFade,
        StrategyKind::LpExtreme,
    ];
    assert(kinds@ =~= seq![
        StrategyKind::CertaintyCapture,
        StrategyKind::ConvexityFade,
        StrategyKind::LpExtreme,
    ]);
    enabled(&kinds, config)
}

/// The strategies that look at the opening of a market.
pub fn open_strategies(config: &Config) -> (r: Vec<StrategyKind>)
    ensures
        r@ == enabled_of(seq![StrategyKind::StrikeMisalign], *config),
{
    let kinds: Vec<StrategyKind> = vec![StrategyKind::StrikeMisalign];
    assert(kinds@ =~= seq![StrategyKind::StrikeMisalign]);
    enabled(&kinds, config)
}

/// The strategies that look at a quote or book, by what is to be done after it.
pub open spec fn quote_strategies_of(config: Config, plan: QuotePlan) -> Seq<StrategyKind> {
    let open = enabled_of(seq![StrategyKind::StrikeMisalign], config);
    match plan {
        QuotePlan::Nothing => Seq::empty(),
        QuotePlan::OpenOnly => open,
        QuotePlan::Main { with_open } => enabled_of(
            seq![
                StrategyKind::CertaintyCapture,
                StrategyKind::ConvexityFade,
                StrategyKind::LpExtreme,
            ],
            config,
        ) + if with_open {
            open
        } else {
            Seq::empty()
        },
    }
}

/// The strategies that look at a quote or book, by what is to be done after it: in the opening
/// window those of the opening come last.
pub fn quote_strategies(config: &Config, plan: QuotePlan) -> (r: Vec<StrategyKind>)
    ensures
        r@ == quote_strategies_of(*config, plan),
{
    match plan {
        QuotePlan::Nothing => Vec::new(),
        QuotePlan::OpenOnly => open_strategies(config),
        QuotePlan::Main { with_open } => {
            let mut all = polymarket_strategies(config);
            if with_open {
                let mut open = open_strategies(config);
                all.append(&mut open);
            }
            assert(all@ =~= quote_strategies_of(*config, plan));
            all
        },
    }
}

/// Every strategy that the settings let run.
pub fn enabled_strategies(config: &Config) -> (r: Vec<StrategyKind>)
    ensures
        r@ == enabled_of(
            seq![
                StrategyKind::LatencyArb,
                StrategyKind::CertaintyCapture,
                StrategyKind::ConvexityFade,
                StrategyKind::StrikeMisalign,
                StrategyKind::LpExtreme,
                StrategyKind::CrossTimeframe,
            ],
            *config,
        ),
{
    let kinds: Vec<StrategyKind> = vec![
        StrategyKind::LatencyArb,
        StrategyKind::CertaintyCapture,
        StrategyKind::ConvexityFade,
        StrategyKind::StrikeMisalign,
        StrategyKind::LpExtreme,
        StrategyKind::CrossTimeframe,
    ];
    assert(kinds@ =~= seq![
        StrategyKind::LatencyArb,
        StrategyKind::CertaintyCapture,
        StrategyKind::ConvexityFade,
        StrategyKind::StrikeMisalign,
        StrategyKind::LpExtreme,
        StrategyKind::CrossTimeframe,
    ]);
    enabled(&kinds, config)
}

/// A strategy that is switched off takes part in nothing; one that is on takes part where it is
/// listed.
pub proof fn law_disabled_strategies_do_not_run(
    kinds: Seq<StrategyKind>,
    config: Config,
    kind: StrategyKind,
)
    ensures
        enabled_of(kinds, config).contains(kind) <==> kinds.contains(kind) && kind.on(config),
    decreases kinds.len(),
{
    if kinds.len() > 0 {
        let p = kinds.drop_last();
        law_disabled_strategies_do_not_run(p, config, kind);
        let r = enabled_of(kinds, config);
        let q = enabled_of(p, config);
        if q.contains(kind) {
            let k = choose|k: int| 0 <= k < q.len() && q[k] == kind;
            assert(r[k] == kind);
        }
        if p.contains(kind) {
            let k = choose|k: int| 0 <= k < p.len() && p[k] == kind;
            assert(kinds[k] == kind);
        }
        if kinds.last() == kind {
            assert(kinds[kinds.len() - 1] == kind);
            if kind.on(config) {
                assert(r[r.len() - 1] == kind);
            }
        }
        if r.contains(kind) && !q.contains(kind) {
            let k = choose|k: int| 0 <= k < r.len() && r[k] == kind;
            if k < q.len() {
                assert(q[k] == kind);
            }
            assert(kind == kinds.last());
        }
        if kinds.contains(kind) && kind != kinds.last() {
            let k = choose|k: int| 0 <= k < kinds.len() && kinds[k] == kind;
            assert(p[k] == kind);
        }
    }
}

/// What the engine remembers of the course of a market.
#[derive(Clone, Copy, Debug, PartialEq, Eq, Structural)]
pub struct Session {
    pub interval: Interval,
    pub start_ms: i64,
    pub end_ms: i64,
    /// Volatility samples that were there when the market began.
    pub baseline_samples: u32,
    pub warmup_done: bool,
    pub last_diag_ms: i64,
}

/// What to do after a Binance trade.
#[derive(Clone, Copy, Debug, PartialEq, Eq, Structural)]
pub struct TradePlan {
    /// Run the opening strategies.
    pub open: bool,
    /// The warm-up ends with this trade.
    pub warmed_up: bool,
    /// Log diagnostics.
    pub diagnose: bool,
    /// Run the strategies of Binance trades.
    pub main: bool,
}

impl TradePlan {
    /// Whether the end of the market is looked for after the trade: it is once the warm-up is
    /// over.
    pub fn looks_for_end(&self) -> (r: bool)
        ensures
            r == self.main,
    {
        self.main
    }
}

/// What to do after a Polymarket quote or book.
#[derive(Clone, Copy, Debug, PartialEq, Eq, Structural)]
pub enum QuotePlan {
    Nothing,
    /// Run the opening strategies alone.
    OpenOnly,
    /// Run the strategies of Polymarket quotes, in the opening window together with those of
    /// the opening.
    Main { with_open: bool },
}

impl QuotePlan {
    /// Whether the end of the market is looked for after the quote or book: it is once the
    /// warm-up is over.
    pub fn looks_for_end(&self) -> (r: bool)
        ensures
            r == (*self is Main),
    {
        match self {
            QuotePlan::Main { .. } => true,
            _ => false,
        }
    }
}

impl Session {
    pub fn new(interval: Interval, info: &MarketInfo, n_samples: u32) -> (s: Self)
        ensures
            s == (Session {
                interval,
                start_ms: info.start_ms,
                end_ms: info.end_ms,
                baseline_samples: n_samples,
                warmup_done: false,
                last_diag_ms: 0,
            }),
    {
        Session {
            interval,
            start_ms: info.start_ms,
            end_ms: info.end_ms,
            baseline_samples: n_samples,
            warmup_done: false,
            last_diag_ms: 0,
        }
    }

    /// Whether a time lies in the opening window of the market.
    pub open spec fn opening(self, now_ms: i64) -> bool {
        0 <= now_ms - self.start_ms <= self.interval.open_window()
    }

    pub fn in_open_window(&self, now_ms: i64) -> (r: bool)
        ensures
            r == self.opening(now_ms),
    {
        let elapsed: i128 = now_ms as i128 - self.start_ms as i128;
        0 <= elapsed && elapsed <= self.interval.open_window_ms() as i128
    }

    /// Whether the warm-up is over once there are `n_samples` samples.
    pub open spec fn warm(self, n_samples: u32) -> bool {
        self.warmup_done || n_samples - self.baseline_samples >= MIN_FRESH_SAMPLES
    }

    /// The session after a Binance trade, and what to do.
    pub open spec fn traded(self, now_ms: i64, has_data: bool, vol_valid: bool, n_samples: u32) -> (
        Session,
        TradePlan,
    ) {
        let ready = has_data && vol_valid;
        let main = ready && self.warm(n_samples);
        let diagnose = main && now_ms - self.last_diag_ms >= DIAGNOSTIC_MS;
        (
            Session {
                warmup_done: self.warmup_done || main,
                last_diag_ms: if diagnose {
                    now_ms
                } else {
                    self.last_diag_ms
                },
                ..self
            },
            TradePlan {
                open: ready && self.opening(now_ms),
                warmed_up: main && !self.warmup_done,
                diagnose,
                main,
            },
        )
    }

    /// What follows a Binance trade. Nothing happens without data or with too little
    /// volatility; opening strategies need no fresh samples, the others do.
    pub fn after_trade(&mut self, now_ms: i64, has_data: bool, vol_valid: bool, n_samples: u32)
        -> (plan: TradePlan)
        ensures
            (*final(self), plan) == old(self).traded(now_ms, has_data, vol_valid, n_samples),
    {
        let mut plan = TradePlan { open: false, warmed_up: false, diagnose: false, main: false };
        if !has_data || !vol_valid {
            return plan;
        }
        plan.open = self.in_open_window(now_ms);
        if !self.warmup_done {
            let fresh: i64 = n_samples as i64 - self.baseline_samples as i64;
            if fresh < MIN_FRESH_SAMPLES as i64 {
                return plan;
            }
            self.warmup_done = true;
            plan.warmed_up = true;
        }
        if now_ms as i128 - self.last_diag_ms as i128 >= DIAGNOSTIC_MS as i128 {
            self.last_diag_ms = now_ms;
            plan.diagnose = true;
        }
        plan.main = true;
        plan
    }

    pub open spec fn quote_plan(self, now_ms: i64, has_data: bool, vol_valid: bool) -> QuotePlan {
        if !has_data {
            QuotePlan::Nothing
        } else if self.warmup_done {
            QuotePlan::Main { with_open: self.opening(now_ms) }
        } else if vol_valid && self.opening(now_ms) {
            QuotePlan::OpenOnly
        } else {
            QuotePlan::Nothing
        }
    }

    /// What follows a Polymarket quote or book.
    pub fn after_quote(&self, now_ms: i64, has_data: bool, vol_valid: bool) -> (plan: QuotePlan)
        ensures
            plan == self.quote_plan(now_ms, has_data, vol_valid),
    {
        if !has_data {
            return QuotePlan::Nothing;
        }
        if !self.warmup_done && vol_valid {
            if self.in_open_window(now_ms) {
                return QuotePlan::OpenOnly;
            }
            return QuotePlan::Nothing;
        }
        if !self.warmup_done {
            return QuotePlan::Nothing;
        }
        QuotePlan::Main { with_open: self.in_open_window(now_ms) }
    }

    pub open spec fn over(self, now_ms: i64) -> bool {
        now_ms >= self.end_ms + self.interval.post_end_buffer() * 1000
    }

    /// Whether the market is over: its end and the buffer after it have passed.
    pub fn is_over(&self, now_ms: i64) -> (r: bool)
        ensures
            r == self.over(now_ms),
    {
        now_ms as i128 >= self.end_ms as i128 + self.interval.post_end_buffer_secs() as i128 * 1000
    }
}

/// Warming up is not undone: after the trade that ends it, every later trade with data and
/// volatility and every later quote with data is acted upon.
pub proof fn law_warmup_is_final(s: Session, n: u32, now_ms: i64)
    requires
        s.warmup_done,
    ensures
        s.warm(n),
        s.quote_plan(now_ms, true, false) is Main,
        s.quote_plan(now_ms, true, true) is Main,
{
}

/// Whose order it was.
#[derive(Clone, Copy, Debug)]
pub struct Attribution {
    pub strategy: &'static str,
    pub side: Side,
}

/// Orders on their way and fills so far.
pub struct OrderLog {
    pub sent: HashMap<u64, Attribution>,
    pub fills: Vec<Fill>,
}

impl OrderLog {
    pub fn new() -> (l: Self)
        ensures
            l.sent@ == Map::<u64, Attribution>::empty(),
            l.fills@ == Seq::<Fill>::empty(),
    {
        OrderLog { sent: HashMap::new(), fills: Vec::new() }
    }

    /// Remembers whose order it is.
    pub fn on_order(&mut self, order_id: u64, strategy: &'static str, side: Side)
        ensures
            final(self).sent@ == old(self).sent@.insert(order_id, Attribution { strategy, side }),
            final(self).fills == old(self).fills,
    {
        self.sent.insert(order_id, Attribution { strategy, side });
    }

    /// Whose order an answer is about; an order that nobody remembers counts as the up side of
    /// "unknown".
    pub open spec fn attribution_of(self, order_id: u64) -> (Seq<char>, Side) {
        if self.sent@.contains_key(order_id) {
            (self.sent@[order_id].strategy@, self.sent@[order_id].side)
        } else {
            ("unknown"@, Side::Up)
        }
    }

    /// Whether `after` is the log after an answer about an order of `who`: the order is no longer
    /// on its way, and a fill with price and size is kept for settlement.
    pub open spec fn answered(self, ack: OrderAck, who: Attribution, after: OrderLog) -> bool {
        &&& (who.strategy@, who.side) == self.attribution_of(ack.order_id)
        &&& after.sent@ == self.sent@.remove(ack.order_id)
        &&& match (ack.filled_price, ack.filled_size) {
            (Some(price), Some(size)) => if ack.fills() {
                after.fills@ == self.fills@.push(
                    Fill {
                        order_id: ack.order_id,
                        strategy: who.strategy,
                        side: who.side,
                        price,
                        size,
                    },
                )
            } else {
                after.fills == self.fills
            },
            _ => after.fills == self.fills,
        }
    }

    /// Takes the answer to an order in: the order is no longer on its way, and a fill with
    /// price and size is kept for settlement.
    pub fn on_ack(&mut self, ack: &OrderAck) -> (who: Attribution)
        ensures
            old(self).answered(*ack, who, *final(self)),
    {
        let who = match self.sent.remove(&ack.order_id) {
            Some(a) => a,
            None => Attribution { strategy: "unknown", side: Side::Up },
        };
        if ack.is_fill() {
            if let (Some(price), Some(size)) = (ack.filled_price, ack.filled_size) {
                self.fills.push(
                    Fill {
                        order_id: ack.order_id,
                        strategy: who.strategy,
                        side: who.side,
                        price,
                        size,
                    },
                );
            }
        }
        who
    }
}

/// An answer is attributed once: after it the order is unknown, and other orders are as before.
pub proof fn law_answered_once(
    log: OrderLog,
    ack: OrderAck,
    who: Attribution,
    after: OrderLog,
    other: u64,
)
    requires
        log.answered(ack, who, after),
        other != ack.order_id,
    ensures
        after.attribution_of(ack.order_id) == ("unknown"@, Side::Up),
        after.attribution_of(other) == log.attribution_of(other),
{
}

/// Whether `after` is the market with the answer to an order counted: a fill counts in total,
/// and for its strategy where that one is counted at all.
pub open spec fn fill_counted(
    before: MarketState,
    ack: OrderAck,
    strategy: Seq<char>,
    after: MarketState,
) -> bool {
    if ack.fills() {
        &&& after == MarketState {
            total_filled: (before.total_filled + 1) as u32,
            strategy_stats: after.strategy_stats,
            ..before
        }
        &&& after.strategy_stats@ == (if before.strategy_stats@.contains_key(strategy) {
            before.strategy_stats@.insert(
                strategy,
                StrategyStats {
                    filled: (before.strategy_stats@[strategy].filled + 1) as u32,
                    ..before.strategy_stats@[strategy]
                },
            )
        } else {
            before.strategy_stats@
        })
    } else {
        after == before
    }
}

/// Counts a filled order, in total and for its strategy where that one is counted at all.
pub fn count_fill(state: &mut MarketState, ack: &OrderAck, strategy: &'static str)
    requires
        old(state).strategy_stats.wf(),
        counts_within(*old(state)),
        old(state).total_filled < u32::MAX,
    ensures
        final(state).strategy_stats.wf(),
        counts_within(*final(state)),
        fill_counted(*old(state), *ack, strategy@, *final(state)),
{
    if ack.is_fill() {
        state.total_filled = state.total_filled + 1;
        if let Some(stats) = state.strategy_stats.get(strategy) {
            let mut stats = *stats;
            stats.filled = stats.filled + 1;
            state.strategy_stats.set(strategy, stats);
        }
    }
}

/// The side that wins at a price: up from the strike on. Two infinite prices have no distance,
/// and down wins.
pub open spec fn winner(price: Real, strike: Real) -> Side {
    if strike.le(price) && !(price.same(strike) && price.magnitude().key() == INFINITY_BITS) {
        Side::Up
    } else {
        Side::Down
    }
}

/// The side that wins, by the last price and the strike.
pub fn outcome_of(price: Real, strike: Real) -> (r: Side)
    ensures
        r == winner(price, strike),
        -INFINITY_BITS < price.key() < INFINITY_BITS ==> (r == Side::Up <==> strike.le(price)),
{
    if strike.at_most(price) && !(price.equals(strike) && price.abs().equals(
        Real { bits: INFINITY_BITS },
    )) {
        Side::Up
    } else {
        Side::Down
    }
}

/// The token of a side of a market.
pub open spec fn side_token(info: MarketView, side: Side) -> Seq<char> {
    match side {
        Side::Up => info.up_token_id,
        Side::Down => info.down_token_id,
    }
}

/// The up side buys the up token and the down side the down token.
pub proof fn law_token_of_side(info: MarketInfo, side: Side)
    ensures
        side == Side::Up ==> side_token(info@, side) == info.up_token_id@,
        side == Side::Down ==> side_token(info@, side) == info.down_token_id@,
{
}

/// The token of a side.
pub fn token_of(info: &MarketInfo, side: Side) -> (r: String)
    ensures
        r@ == (match side {
            Side::Up => info.up_token_id@,
            Side::Down => info.down_token_id@,
        }),
        r@ == side_token(info@, side),
{
    match side {
        Side::Up => info.up_token_id.clone(),
        Side::Down => info.down_token_id.clone(),
    }
}

/// How long it is until a time.
pub open spec fn waiting(until_ms: int, now_ms: i64) -> int {
    if until_ms > now_ms {
        until_ms - now_ms
    } else {
        0
    }
}

/// A sleep ends at its time, and is none where the time has passed.
pub proof fn law_waiting(until_ms: int, now_ms: i64)
    ensures
        now_ms <= until_ms ==> now_ms + waiting(until_ms, now_ms) == until_ms,
        until_ms <= now_ms ==> waiting(until_ms, now_ms) == 0,
{
}

/// How long to sleep so as to wake `lead_ms` before a time; nothing where that has passed.
pub fn wait_ms(at_ms: i64, lead_ms: i64, now_ms: i64) -> (r: u64)
    requires
        0 <= lead_ms,
    ensures
        r == if at_ms - lead_ms > now_ms {
            at_ms - lead_ms - now_ms
        } else {
            0
        },
        r == waiting(at_ms - lead_ms, now_ms),
{
    let wake: i128 = at_ms as i128 - lead_ms as i128;
    if wake > now_ms as i128 {
        (wake - now_ms as i128) as u64
    } else {
        0
    }
}

/// How long to sleep until `tail_ms` after a time; nothing where that has passed.
pub fn wait_after_ms(at_ms: i64, tail_ms: i64, now_ms: i64) -> (r: u64)
    requires
        0 <= tail_ms,
        at_ms + tail_ms <= i64::MAX,
    ensures
        r == if at_ms + tail_ms > now_ms {
            at_ms + tail_ms - now_ms
        } else {
            0
        },
        r == waiting(at_ms + tail_ms, now_ms),
{
    let wake: i128 = at_ms as i128 + tail_ms as i128;
    if wake > now_ms as i128 {
        (wake - now_ms as i128) as u64
    } else {
        0
    }
}

// ── Diagnostics ──

/// 1.5
pub const DIAG_MIN_Z: u64 = 0x3FF8000000000000;

/// 1.0
pub const DIAG_ONE: u64 = 0x3FF0000000000000;

/// 0.02
pub const DIAG_MIN_EDGE: u64 = 0x3F947AE147AE147B;

/// 0.003
pub const DIAG_MAX_DISTANCE: u64 = 0x3F689374BC6A7EFA;

/// 0.25
pub const DIAG_MAX_LOSING_ASK: u64 = 0x3FD0000000000000;

/// Whether a price lies outside the open interval from 0 to `top`.
pub open spec fn outside(p: Real, top: u64) -> bool {
    p.le(Real { bits: 0 }) || (Real { bits: top }).le(p)
}

fn lies_outside(p: Real, top: u64) -> (r: bool)
    ensures
        r == outside(p, top),
{
    p.at_most(Real::zero()) || (Real { bits: top }).at_most(p)
}

/// What stops the certainty strategy, for the log.
pub fn certainty_gate(z_abs: Real, ask: Real, edge: Real) -> (r: &'static str)
    ensures
        r@ == certainty_gate_of(z_abs, ask, edge),
        r@ == (if z_abs.lt(Real { bits: DIAG_MIN_Z }) {
            "z<1.5"@
        } else if outside(ask, DIAG_ONE) {
            "bad_ask"@
        } else if edge.lt(Real { bits: DIAG_MIN_EDGE }) {
            "edge<0.02"@
        } else {
            "PASS"@
        }),
{
    if z_abs.less(Real { bits: DIAG_MIN_Z }) {
        "z<1.5"
    } else if lies_outside(ask, DIAG_ONE) {
        "bad_ask"
    } else if edge.less(Real { bits: DIAG_MIN_EDGE }) {
        "edge<0.02"
    } else {
        "PASS"
    }
}

/// What stops the fading strategy, for the log.
pub fn convexity_gate(regime: Regime, dist_frac: Real) -> (r: &'static str)
    ensures
        r@ == convexity_gate_of(regime, dist_frac),
        r@ == (if regime == Regime::Trend {
            "regime=Trend"@
        } else if (Real { bits: DIAG_MAX_DISTANCE }).lt(dist_frac) {
            "dist>0.3%"@
        } else {
            "PASS(regime+dist)"@
        }),
{
    if regime == Regime::Trend {
        "regime=Trend"
    } else if (Real { bits: DIAG_MAX_DISTANCE }).less(dist_frac) {
        "dist>0.3%"
    } else {
        "PASS(regime+dist)"
    }
}

/// What stops the liquidity strategy. Too little time left is told apart because the log names
/// the limit.
#[derive(Clone, Copy, Debug, PartialEq, Eq, Structural)]
pub enum LpGate {
    Trend,
    TooLate,
    ZTooLow,
    AskTooHigh,
    Pass,
}

/// What stops the liquidity strategy, for the log.
pub fn lp_gate(regime: Regime, tau: Real, min_tau: Real, z_abs: Real, ask: Real) -> (r: LpGate)
    ensures
        r == lp_gate_of(regime, tau, min_tau, z_abs, ask),
        r == (if regime == Regime::Trend {
            LpGate::Trend
        } else if tau.lt(min_tau) {
            LpGate::TooLate
        } else if z_abs.lt(Real { bits: DIAG_MIN_Z }) {
            LpGate::ZTooLow
        } else if outside(ask, DIAG_MAX_LOSING_ASK) {
            LpGate::AskTooHigh
        } else {
            LpGate::Pass
        }),
{
    if regime == Regime::Trend {
        LpGate::Trend
    } else if tau.less(min_tau) {
        LpGate::TooLate
    } else if z_abs.less(Real { bits: DIAG_MIN_Z }) {
        LpGate::ZTooLow
    } else if lies_outside(ask, DIAG_MAX_LOSING_ASK) {
        LpGate::AskTooHigh
    } else {
        LpGate::Pass
    }
}

/// Whether the opening strategy is past its window, for the log.
pub fn opening_gate(start_ms: i64, now_ms: i64) -> (r: &'static str)
    ensures
        r@ == opening_gate_of(start_ms, now_ms),
        r@ == (if now_ms - start_ms > 15_000 {
            "past_open_window"@
        } else {
            "in_window"@
        }),
{
    if now_ms as i128 - start_ms as i128 > 15_000 {
        "past_open_window"
    } else {
        "in_window"
    }
}

/// Up wins from the strike on, down below it; a price that is no number wins nothing.
pub proof fn law_winner(price: Real, strike: Real)
    ensures
        price.lt(strike) ==> winner(price, strike) == Side::Down,
        strike.lt(price) ==> winner(price, strike) == Side::Up,
        price.same(strike) && price.lt(Real { bits: 0x7FF0000000000000 }) && (Real { bits: 0xFFF0000000000000 }).lt(price) ==> winner(price, strike) == Side::Up,
        price.nan() || strike.nan() ==> winner(price, strike) == Side::Down,
{
}

/// Each strategy runs by its own switch and under its own name.
pub proof fn law_strategy_switches(config: Config)
    ensures
        StrategyKind::LatencyArb.on(config) == config.strategy_latency_arb,
        StrategyKind::CertaintyCapture.on(config) == config.strategy_certainty_capture,
        StrategyKind::ConvexityFade.on(config) == config.strategy_convexity_fade,
        StrategyKind::StrikeMisalign.on(config) == config.strategy_strike_misalign,
        StrategyKind::LpExtreme.on(config) == config.strategy_lp_extreme,
        StrategyKind::CrossTimeframe.on(config) == config.strategy_cross_timeframe,
        StrategyKind::LatencyArb.label() == "latency_arb"@,
        StrategyKind::CertaintyCapture.label() == "certainty_capture"@,
        StrategyKind::ConvexityFade.label() == "convexity_fade"@,
        StrategyKind::StrikeMisalign.label() == "strike_misalign"@,
        StrategyKind::LpExtreme.label() == "lp_extreme"@,
        StrategyKind::CrossTimeframe.label() == "cross_timeframe"@,
{
}

/// After a quote the strategy of the strike runs exactly in the opening window, alone before the
/// warm-up is over; the others run exactly after it, each by its switch; the latency race and
/// the volatility of other markets never do.
pub proof fn law_quote_strategies(config: Config, plan: QuotePlan)
    ensures
        ({
            let r = quote_strategies_of(config, plan);
            &&& r.contains(StrategyKind::StrikeMisalign) <==> config.strategy_strike_misalign && (
            plan == QuotePlan::OpenOnly || plan == (QuotePlan::Main { with_open: true }))
            &&& r.contains(StrategyKind::CertaintyCapture) <==> config.strategy_certainty_capture
                && plan is Main
            &&& r.contains(StrategyKind::ConvexityFade) <==> config.strategy_convexity_fade
                && plan is Main
            &&& r.contains(StrategyKind::LpExtreme) <==> config.strategy_lp_extreme && plan is Main
            &&& !r.contains(StrategyKind::LatencyArb)
            &&& !r.contains(StrategyKind::CrossTimeframe)
        }),
{
    let open = seq![StrategyKind::StrikeMisalign];
    let main = seq![
        StrategyKind::CertaintyCapture,
        StrategyKind::ConvexityFade,
        StrategyKind::LpExtreme,
    ];
    assert(open[0] == StrategyKind::StrikeMisalign);
    assert(main[0] == StrategyKind::CertaintyCapture && main[1] == StrategyKind::ConvexityFade
        && main[2] == StrategyKind::LpExtreme);
    assert forall|k: StrategyKind| #![auto] quote_strategies_of(config, plan).contains(k) <==> (
    plan is Main && enabled_of(main, config).contains(k)) || ((plan == QuotePlan::OpenOnly || plan
        == (QuotePlan::Main { with_open: true })) && enabled_of(open, config).contains(k)) by {
        let r = quote_strategies_of(config, plan);
        let a = enabled_of(main, config);
        let o = enabled_of(open, config);
        if a.contains(k) && plan is Main {
            let i = choose|i: int| 0 <= i < a.len() && a[i] == k;
            assert(r[i] == k);
        }
        if o.contains(k) && plan == (QuotePlan::Main { with_open: true }) {
            let i = choose|i: int| 0 <= i < o.len() && o[i] == k;
            assert(r[a.len() + i] == k);
        }
        if r.contains(k) && plan is Main {
            let i = choose|i: int| 0 <= i < r.len() && r[i] == k;
            if i < a.len() {
                assert(a[i] == k);
            } else {
                assert(o[i - a.len()] == k);
            }
        }
    }
    law_disabled_strategies_do_not_run(main, config, StrategyKind::CertaintyCapture);
    law_disabled_strategies_do_not_run(main, config, StrategyKind::ConvexityFade);
    law_disabled_strategies_do_not_run(main, config, StrategyKind::LpExtreme);
    law_disabled_strategies_do_not_run(main, config, StrategyKind::StrikeMisalign);
    law_disabled_strategies_do_not_run(main, config, StrategyKind::LatencyArb);
    law_disabled_strategies_do_not_run(main, config, StrategyKind::CrossTimeframe);
    law_disabled_strategies_do_not_run(open, config, StrategyKind::CertaintyCapture);
    law_disabled_strategies_do_not_run(open, config, StrategyKind::ConvexityFade);
    law_disabled_strategies_do_not_run(open, config, StrategyKind::LpExtreme);
    law_disabled_strategies_do_not_run(open, config, StrategyKind::StrikeMisalign);
    law_disabled_strategies_do_not_run(open, config, StrategyKind::LatencyArb);
    law_disabled_strategies_do_not_run(open, config, StrategyKind::CrossTimeframe);
}

/// A trade with data and volatility is acted upon from ten fresh samples on, and from then on
/// always; the opening strategies run in the opening window without them. Nothing else about
/// the market is forgotten, and diagnostics come ten seconds apart.
pub proof fn law_trade_plan(
    s: Session,
    now_ms: i64,
    has_data: bool,
    vol_valid: bool,
    n_samples: u32,
)
    ensures
        ({
            let (t, plan) = s.traded(now_ms, has_data, vol_valid, n_samples);
            &&& plan.main <==> has_data && vol_valid && (s.warmup_done || n_samples
                - s.baseline_samples >= 10)
            &&& plan.open <==> has_data && vol_valid && s.opening(now_ms)
            &&& plan.warmed_up <==> plan.main && !s.warmup_done
            &&& t.warmup_done <==> s.warmup_done || plan.main
            &&& plan.diagnose <==> plan.main && now_ms - s.last_diag_ms >= 10_000
            &&& plan.diagnose ==> t.last_diag_ms == now_ms
            &&& !plan.diagnose ==> t.last_diag_ms == s.last_diag_ms
            &&& t.start_ms == s.start_ms && t.end_ms == s.end_ms && t.interval == s.interval
            &&& t.baseline_samples == s.baseline_samples
        }),
{
}

/// A quote with data is acted upon after the warm-up, and in the opening window before it where
/// there is volatility.
pub proof fn law_quote_plan(s: Session, now_ms: i64, has_data: bool, vol_valid: bool)
    ensures
        ({
            let p = s.quote_plan(now_ms, has_data, vol_valid);
            &&& p is Main <==> has_data && s.warmup_done
            &&& p == QuotePlan::OpenOnly <==> has_data && !s.warmup_done && vol_valid && s.opening(
                now_ms,
            )
            &&& p matches QuotePlan::Main { with_open } ==> with_open == s.opening(now_ms)
        }),
{
}

/// The opening window of a session begins with the market and lasts as long as its interval
/// says; the market is over once the buffer after its end has passed, and not before its end.
pub proof fn law_session_times(s: Session, now_ms: i64)
    ensures
        s.opening(now_ms) ==> s.start_ms <= now_ms <= s.start_ms + 300_000,
        s.start_ms <= now_ms <= s.start_ms + 15_000 ==> s.opening(now_ms),
        s.over(now_ms) ==> now_ms >= s.end_ms,
        now_ms >= s.end_ms + s.interval.post_end_buffer() * 1000 <==> s.over(now_ms),
{
}

/// An order that was sent is attributed to the strategy and the side that it was sent for, until
/// it is answered.
pub proof fn law_attribution(log: OrderLog, order_id: u64)
    ensures
        log.sent@.contains_key(order_id) ==> log.attribution_of(order_id).0
            == log.sent@[order_id].strategy@ && log.attribution_of(order_id).1
            == log.sent@[order_id].side,
        !log.sent@.contains_key(order_id) ==> log.attribution_of(order_id) == ("unknown"@, Side::Up),
{
}

/// A fill is kept exactly where the order was filled at a price and in a size: with those as its
/// price and size, under the number of the order, for the strategy and the side that sent it.
pub proof fn law_fill_is_kept(log: OrderLog, ack: OrderAck, who: Attribution, after: OrderLog)
    requires
        log.answered(ack, who, after),
    ensures
        (ack.status is Filled || ack.status is PartialFill) && ack.filled_price is Some
            && ack.filled_size is Some ==> {
            let f = after.fills@.last();
            &&& after.fills@.len() == log.fills@.len() + 1
            &&& after.fills@.drop_last() == log.fills@
            &&& f.order_id == ack.order_id
            &&& Some(f.price) == ack.filled_price
            &&& Some(f.size) == ack.filled_size
            &&& f.side == log.attribution_of(ack.order_id).1
            &&& f.strategy@ == log.attribution_of(ack.order_id).0
        },
        !((ack.status is Filled || ack.status is PartialFill) && ack.filled_price is Some
            && ack.filled_size is Some) ==> after.fills@ == log.fills@,
        !after.sent@.contains_key(ack.order_id),
        who.strategy@ == log.attribution_of(ack.order_id).0,
        who.side == log.attribution_of(ack.order_id).1,
{
    if (ack.status is Filled || ack.status is PartialFill) && ack.filled_price is Some
        && ack.filled_size is Some {
        assert(after.fills@.drop_last() =~= log.fills@);
    }
}

/// A filled order counts once in total and once for its strategy, and nothing else changes; one
/// that is not filled changes nothing.
pub proof fn law_fill_counts_once(
    before: MarketState,
    ack: OrderAck,
    strategy: Seq<char>,
    after: MarketState,
    other: Seq<char>,
)
    requires
        fill_counted(before, ack, strategy, after),
        before.total_filled < u32::MAX,
        counts_within(before),
    ensures
        ack.status is Filled || ack.status is PartialFill ==> after.total_filled
            == before.total_filled + 1,
        !(ack.status is Filled || ack.status is PartialFill) ==> after == before,
        (ack.status is Filled || ack.status is PartialFill) && before.strategy_stats@.contains_key(
            strategy,
        ) ==> after.strategy_stats@[strategy].filled == before.strategy_stats@[strategy].filled + 1
            && after.strategy_stats@[strategy].orders == before.strategy_stats@[strategy].orders
            && after.strategy_stats@[strategy].signals == before.strategy_stats@[strategy].signals,
        other != strategy && before.strategy_stats@.contains_key(other)
            ==> after.strategy_stats@[other] == before.strategy_stats@[other],
        after.position == before.position && after.total_orders == before.total_orders,
{
}

pub open spec fn certainty_gate_of(z_abs: Real, ask: Real, edge: Real) -> Seq<char> {
    if z_abs.lt(Real { bits: DIAG_MIN_Z }) {
        "z<1.5"@
    } else if outside(ask, DIAG_ONE) {
        "bad_ask"@
    } else if edge.lt(Real { bits: DIAG_MIN_EDGE }) {
        "edge<0.02"@
    } else {
        "PASS"@
    }
}

pub open spec fn convexity_gate_of(regime: Regime, dist_frac: Real) -> Seq<char> {
    if regime == Regime::Trend {
        "regime=Trend"@
    } else if (Real { bits: DIAG_MAX_DISTANCE }).lt(dist_frac) {
        "dist>0.3%"@
    } else {
        "PASS(regime+dist)"@
    }
}

pub open spec fn lp_gate_of(
    regime: Regime,
    tau: Real,
    min_tau: Real,
    z_abs: Real,
    ask: Real,
) -> LpGate {
    if regime == Regime::Trend {
        LpGate::Trend
    } else if tau.lt(min_tau) {
        LpGate::TooLate
    } else if z_abs.lt(Real { bits: DIAG_MIN_Z }) {
        LpGate::ZTooLow
    } else if outside(ask, DIAG_MAX_LOSING_ASK) {
        LpGate::AskTooHigh
    } else {
        LpGate::Pass
    }
}

pub open spec fn opening_gate_of(start_ms: i64, now_ms: i64) -> Seq<char> {
    if now_ms - start_ms > 15_000 {
        "past_open_window"@
    } else {
        "in_window"@
    }
}

/// What is told of a strategy that did not signal is a condition that holds; and where it passes,
/// none of the conditions holds.
pub proof fn law_gates(
    regime: Regime,
    tau: Real,
    min_tau: Real,
    z_abs: Real,
    dist_frac: Real,
    ask: Real,
    edge: Real,
)
    ensures
        certainty_gate_of(z_abs, ask, edge) == "z<1.5"@ <==> z_abs.lt(Real { bits: 0x3FF8000000000000 }),
        certainty_gate_of(z_abs, ask, edge) == "bad_ask"@ ==> ask.le(Real { bits: 0 }) || (Real { bits: 0x3FF0000000000000 }).le(ask),
        certainty_gate_of(z_abs, ask, edge) == "edge<0.02"@ ==> edge.lt(Real { bits: 0x3F947AE147AE147B }),
        certainty_gate_of(z_abs, ask, edge) == "PASS"@ <==> !z_abs.lt(Real { bits: 0x3FF8000000000000 }) && !ask.le(
            Real { bits: 0 },
        ) && !(Real { bits: 0x3FF0000000000000 }).le(ask) && !edge.lt(Real { bits: 0x3F947AE147AE147B }),
        convexity_gate_of(regime, dist_frac) == "regime=Trend"@ <==> regime == Regime::Trend,
        convexity_gate_of(regime, dist_frac) == "PASS(regime+dist)"@ <==> regime != Regime::Trend
            && !(Real { bits: 0x3F689374BC6A7EFA }).lt(dist_frac),
        lp_gate_of(regime, tau, min_tau, z_abs, ask) == LpGate::Trend <==> regime == Regime::Trend,
        lp_gate_of(regime, tau, min_tau, z_abs, ask) == LpGate::TooLate ==> tau.lt(min_tau),
        lp_gate_of(regime, tau, min_tau, z_abs, ask) == LpGate::ZTooLow ==> z_abs.lt(Real { bits: 0x3FF8000000000000 }),
        lp_gate_of(regime, tau, min_tau, z_abs, ask) == LpGate::AskTooHigh ==> ask.le(Real { bits: 0 })
            || (Real { bits: 0x3FD0000000000000 }).le(ask),
        lp_gate_of(regime, tau, min_tau, z_abs, ask) == LpGate::Pass <==> regime != Regime::Trend
            && !tau.lt(min_tau) && !z_abs.lt(Real { bits: 0x3FF8000000000000 }) && !ask.le(Real { bits: 0 }) && !(Real { bits: 0x3FD0000000000000 }).le(ask),
{
    reveal_strlit("z<1.5");
    reveal_strlit("bad_ask");
    reveal_strlit("edge<0.02");
    reveal_strlit("PASS");
    reveal_strlit("regime=Trend");
    reveal_strlit("dist>0.3%");
    reveal_strlit("PASS(regime+dist)");
    assert("z<1.5"@.len() == 5 && "bad_ask"@.len() == 7 && "edge<0.02"@.len() == 9 && "PASS"@.len()
        == 4);
    assert("regime=Trend"@.len() == 12 && "dist>0.3%"@.len() == 9 && "PASS(regime+dist)"@.len()
        == 17);
}

/// A market is in its opening for a quarter of a minute.
pub proof fn law_opening_gate(start_ms: i64, now_ms: i64)
    ensures
        opening_gate_of(start_ms, now_ms) == "in_window"@ <==> now_ms <= start_ms + 15_000,
        opening_gate_of(start_ms, now_ms) == "past_open_window"@ <==> now_ms > start_ms + 15_000,
{
    reveal_strlit("past_open_window");
    reveal_strlit("in_window");
    assert("past_open_window"@.len() == 16 && "in_window"@.len() == 9);
}

} // verus!
