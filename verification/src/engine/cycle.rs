//! The engine of one market: everything that an event of the feeds changes.

use vstd::prelude::*;

use crate::config::Interval;
use crate::engine::book::prices_are_numbers;
use crate::engine::pipeline::{counts_within, House};
use crate::engine::risk::{
    PortfolioGreeks, StrategyRiskManager, StrategyRiskState, STRATEGY_COUNT,
};
use crate::engine::runner::{
    count_fill, fill_counted, outcome_of, winner, Attribution, OrderLog, QuotePlan, Session, TradePlan,
};
use crate::engine::state::{
    book_taken, trade_taken, with_results, BinanceState, CrossMarketState, MarketState,
    PositionTracker, StrategyStats, TradeEffects,
};
use crate::number::Real;
use crate::table::NameTable;
use crate::types::{BinanceTrade, MarketInfo, OrderAck, PolymarketBook, PolymarketQuote, Side};

verus! {

/// The engine of one market.
pub struct Engine {
    pub state: MarketState,
    pub risk: StrategyRiskManager,
    pub session: Session,
    pub house: House,
    pub log: OrderLog,
    pub next_order_id: u64,
}

impl Engine {
    pub open spec fn wf(&self) -> bool {
        &&& self.state.wf()
        &&& counts_within(self.state)
        &&& self.risk.wf()
    }

    /// The engine with another state and session.
    pub open spec fn moved(self, after: Engine) -> bool {
        after == Engine { state: after.state, session: after.session, ..self }
    }

    /// Starts a market. What is known of Binance carries over; everything else starts fresh, and
    /// orders are numbered from one.
    pub fn new(info: MarketInfo, strike: Real, bn: BinanceState, interval: Interval) -> (e: Self)
        requires
            bn.wf(),
        ensures
            e.wf(),
            e.state.info == info,
            e.state.strike == strike,
            e.state.bn == bn,
            e.state.up_bid == (Real { bits: 0 }),
            e.state.up_ask == (Real { bits: 0 }),
            e.state.down_bid == (Real { bits: 0 }),
            e.state.down_ask == (Real { bits: 0 }),
            e.state.pm_last_ts == 0,
            e.state.up_book.bids@.len() == 0,
            e.state.up_book.asks@.len() == 0,
            e.state.down_book.bids@.len() == 0,
            e.state.down_book.asks@.len() == 0,
            e.state.cross_markets@.len() == 0,
            e.state.position == PositionTracker::empty(),
            e.state.total_signals == 0,
            e.state.total_orders == 0,
            e.state.total_filled == 0,
            e.state.gross_pnl == (Real { bits: 0 }),
            e.state.strategy_stats@ == Map::<Seq<char>, StrategyStats>::empty(),
            forall|i: int|
                0 <= i < STRATEGY_COUNT ==> #[trigger] e.risk.state_at(i)
                    == StrategyRiskState::fresh(),
            e.risk.total_exposure == (Real { bits: 0 }),
            e.risk.daily_pnl == (Real { bits: 0 }),
            e.risk.weekly_pnl == (Real { bits: 0 }),
            e.risk.halted_until_ms == 0,
            e.risk.greeks.positions@.len() == 0,
            e.risk.greeks.snapshot == PortfolioGreeks::flat(),
            e.session == (Session {
                interval,
                start_ms: info.start_ms,
                end_ms: info.end_ms,
                baseline_samples: bn.ewma_vol.n_samples,
                warmup_done: false,
                last_diag_ms: 0,
            }),
            e.house == (House { side: None, flips: 0 }),
            e.log.sent@ == Map::<u64, Attribution>::empty(),
            e.log.fills@.len() == 0,
            e.next_order_id == 1,
    {
        let n: u32 = bn.ewma_vol.n_samples();
        let session = Session::new(interval, &info, n);
        Engine {
            state: MarketState::new(info, strike, bn),
            risk: StrategyRiskManager::new(),
            session,
            house: House::new(),
            log: OrderLog::new(),
            next_order_id: 1,
        }
    }

    /// Takes a Binance trade in. What follows is decided on the market as it is after it.
    pub fn on_trade(&mut self, t: BinanceTrade, now_ms: i64) -> (r: (TradeEffects, TradePlan))
        requires
            old(self).wf(),
            old(self).state.bn.ewma_vol.n_samples < u32::MAX,
            old(self).state.bn.regime@.len() < u32::MAX,
        ensures
            final(self).wf(),
            old(self).moved(*final(self)),
            trade_taken(old(self).state.bn, t, final(self).state.bn, r.0),
            final(self).state == (MarketState { bn: final(self).state.bn, ..old(self).state }),
            ({
                let vol = final(self).state.bn.ewma_vol;
                (final(self).session, r.1) == old(self).session.traded(
                    now_ms,
                    final(self).state.data_known(),
                    vol.n_samples >= vol.min_samples,
                    vol.n_samples,
                )
            }),
    {
        let effects = self.state.on_binance_trade(t);
        let has_data = self.state.has_data();
        let valid = self.state.bn.ewma_vol.is_valid();
        let n: u32 = self.state.bn.ewma_vol.n_samples();
        let plan = self.session.after_trade(now_ms, has_data, valid, n);
        (effects, plan)
    }

    /// What follows a quote or book, on the market as it is.
    pub open spec fn quote_plan(self, now_ms: i64) -> QuotePlan {
        let vol = self.state.bn.ewma_vol;
        self.session.quote_plan(
            now_ms,
            self.state.data_known(),
            vol.n_samples >= vol.min_samples,
        )
    }

    fn plan_quote(&self, now_ms: i64) -> (plan: QuotePlan)
        ensures
            plan == self.quote_plan(now_ms),
    {
        self.session.after_quote(
            now_ms,
            self.state.has_data(),
            self.state.bn.ewma_vol.is_valid(),
        )
    }

    /// Takes a quote in.
    pub fn on_quote(&mut self, q: PolymarketQuote, now_ms: i64) -> (plan: QuotePlan)
        requires
            old(self).wf(),
        ensures
            final(self).wf(),
            *final(self) == (Engine { state: old(self).state.after_quote(q), ..*old(self) }),
            plan == final(self).quote_plan(now_ms),
    {
        self.state.on_polymarket_quote(q);
        self.plan_quote(now_ms)
    }

    /// Takes a book in.
    pub fn on_book(&mut self, book: PolymarketBook, now_ms: i64) -> (plan: QuotePlan)
        requires
            old(self).wf(),
            prices_are_numbers(book.bids@),
            prices_are_numbers(book.asks@),
        ensures
            final(self).wf(),
            *final(self) == (Engine { state: final(self).state, ..*old(self) }),
            book_taken(
                old(self).state,
                book.is_up_token,
                book.bids@,
                book.asks@,
                final(self).state,
            ),
            plan == final(self).quote_plan(now_ms),
    {
        self.state.on_book_update(book);
        self.plan_quote(now_ms)
    }

    /// Takes the quote of another market in.
    pub fn on_cross(&mut self, c: CrossMarketState)
        requires
            old(self).wf(),
        ensures
            final(self).wf(),
            *final(self) == (Engine {
                state: MarketState {
                    cross_markets: final(self).state.cross_markets,
                    ..old(self).state
                },
                ..*old(self)
            }),
            forall|x: CrossMarketState| #[trigger]
                final(self).state.cross_markets@.contains(x) <==> x == c || (x.interval
                    != c.interval && old(self).state.cross_markets@.contains(x)),
    {
        self.state.on_cross_market_quote(c);
    }

    /// Takes the answer to an order in: it is attributed and counted, and the position takes it
    /// up. `total` is the size held with the filled size added, `average` the average price of
    /// both together.
    pub fn on_ack(&mut self, ack: &OrderAck, total: Real, average: Real) -> (who: Attribution)
        requires
            old(self).wf(),
            old(self).state.total_filled < u32::MAX,
        ensures
            final(self).wf(),
            old(self).log.answered(*ack, who, final(self).log),
            *final(self) == (Engine {
                state: final(self).state,
                log: final(self).log,
                ..*old(self)
            }),
            fill_counted(
                old(self).state,
                *ack,
                who.strategy@,
                MarketState { position: old(self).state.position, ..final(self).state },
            ),
            final(self).state.position == old(self).state.position.after_ack(*ack, total, average),
    {
        let who = self.log.on_ack(ack);
        count_fill(&mut self.state, ack, who.strategy);
        self.state.position.on_fill(ack, total, average);
        who
    }

    /// Whether the market is over.
    pub fn is_over(&self, now_ms: i64) -> (r: bool)
        ensures
            r == self.session.over(now_ms),
    {
        self.session.is_over(now_ms)
    }

    /// Ends the market: the results are entered, exposure and order counts start afresh, and
    /// what is known of Binance is handed on. The side that wins follows from the last price.
    pub fn finish(
        &mut self,
        gross_pnl: Real,
        pnls: &NameTable<Real>,
        daily_pnl: Real,
        weekly_pnl: Real,
    ) -> (outcome: Side)
        requires
            old(self).wf(),
            pnls.wf(),
        ensures
            outcome == winner(old(self).state.bn.binance_price, old(self).state.strike),
            final(self).wf(),
            *final(self) == (Engine {
                state: final(self).state,
                risk: final(self).risk,
                ..*old(self)
            }),
            final(self).state == (MarketState {
                gross_pnl,
                strategy_stats: final(self).state.strategy_stats,
                ..old(self).state
            }),
            final(self).state.strategy_stats@ == with_results(
                old(self).state.strategy_stats@,
                pnls@,
            ),
            final(self).risk.settled(daily_pnl, weekly_pnl),
            final(self).risk.halted_until_ms == old(self).risk.halted_until_ms,
    {
        self.state.settle(gross_pnl, pnls);
        self.risk.settle_market(daily_pnl, weekly_pnl);
        outcome_of(self.state.bn.binance_price, self.state.strike)
    }
}

/// A market that is warm and has data is looked at after every quote, whatever came before.
pub proof fn law_warm_engine_acts(e: Engine, now_ms: i64)
    requires
        e.session.warmup_done,
        e.state.data_known(),
    ensures
        e.quote_plan(now_ms) is Main,
{
}

} // verus!
