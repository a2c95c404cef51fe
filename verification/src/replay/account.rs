//! The account of a replay.

use vstd::prelude::*;

use crate::engine::risk::{
    order_recorded, Amounts, PortfolioGreeks, StrategyRiskManager, StrategyRiskState, ORDER_TTL_MS, STRATEGY_COUNT,
};
use crate::number::Real;
use crate::replay::player::{house_after_order, house_with};
use crate::types::{Order, Side, Signal};

verus! {

/// What a replay has risked, the side that it has taken, and the number of its next order.
pub struct Account {
    pub risk: StrategyRiskManager,
    pub house: Option<Side>,
    pub next_order_id: u64,
}

impl Account {
    pub open spec fn wf(&self) -> bool {
        self.risk.wf()
    }

    /// An account that nothing has happened to.
    pub open spec fn is_fresh(&self) -> bool {
        &&& self.wf()
        &&& self.house is None
        &&& self.next_order_id == 1
        &&& self.risk.total_exposure == (Real { bits: 0 })
        &&& self.risk.daily_pnl == (Real { bits: 0 })
        &&& self.risk.weekly_pnl == (Real { bits: 0 })
        &&& self.risk.halted_until_ms == 0
        &&& self.risk.greeks.positions@.len() == 0
        &&& self.risk.greeks.snapshot == PortfolioGreeks::flat()
        &&& forall|i: int|
            0 <= i < STRATEGY_COUNT ==> #[trigger] self.risk.state_at(i)
                == StrategyRiskState::fresh()
    }

    pub fn new() -> (a: Self)
        ensures
            a.is_fresh(),
    {
        Account { risk: StrategyRiskManager::new(), house: None, next_order_id: 1 }
    }

    /// Takes a signal in. It becomes an order where no limit stops it, and the order is put down
    /// to the account: `exposure` and `total_exposure` are the exposures of the strategy and of
    /// the portfolio with the order added.
    pub fn take(
        &mut self,
        signal: &Signal,
        a: &Amounts,
        feeds_stale: bool,
        exposure: Real,
        total_exposure: Real,
        now_ms: i64,
    ) -> (r: Option<Order>)
        requires
            old(self).wf(),
            old(self).next_order_id < u64::MAX,
            now_ms + ORDER_TTL_MS <= i64::MAX,
        ensures
            final(self).wf(),
            r == (if old(self).risk.gate_of(signal.strategy@, *a, feeds_stale, now_ms) is None {
                Some(
                    StrategyRiskManager::order_for(*signal, *a, old(self).next_order_id, now_ms),
                )
            } else {
                None
            }),
            r is None ==> *final(self) == *old(self),
            r matches Some(o) ==> o.id == old(self).next_order_id && o.side == signal.side
                && o.strategy@ == signal.strategy@ && final(self).house == house_with(
                old(self).house,
                *signal,
            ),
            r is Some ==> {
                &&& final(self).house == (if old(self).house is None && !signal.is_passive {
                    Some(signal.side)
                } else {
                    old(self).house
                })
                &&& final(self).next_order_id == old(self).next_order_id + 1
                &&& final(self).risk.total_exposure == total_exposure
                &&& final(self).risk.halted_until_ms == old(self).risk.halted_until_ms
                &&& final(self).risk.daily_pnl == old(self).risk.daily_pnl
                &&& final(self).risk.weekly_pnl == old(self).risk.weekly_pnl
                &&& final(self).risk.greeks == old(self).risk.greeks
                &&& order_recorded(
                    old(self).risk,
                    final(self).risk,
                    signal.strategy@,
                    now_ms,
                    exposure,
                )
            },
    {
        let order = self.risk.check_strategy(signal, a, feeds_stale, self.next_order_id, now_ms);
        if order.is_some() {
            self.house = house_after_order(self.house, signal);
            self.risk.on_order_sent(signal.strategy, now_ms, exposure, total_exposure);
            self.next_order_id = self.next_order_id + 1;
        }
        order
    }
}

} // verus!
