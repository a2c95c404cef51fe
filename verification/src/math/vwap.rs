//! Which trades enter the volume-weighted average price.

use vstd::prelude::*;

use crate::math::window::{lemma_stale_count, stale_count, RollingWindow};

verus! {

/// The trades of a configurable time window: price and quantity by time.
#[derive(Clone)]
pub struct VwapTracker<N> {
    buffer: RollingWindow<(N, N)>,
}

impl<N: Copy> VwapTracker<N> {
    /// The trades of the window, oldest first.
    pub closed spec fn view(&self) -> Seq<(i64, (N, N))> {
        self.buffer@
    }

    pub closed spec fn width(&self) -> i64 {
        self.buffer.window_ms
    }

    /// The trades of the window after one more.
    pub open spec fn after(self, ts_ms: i64, price: N, qty: N) -> Seq<(i64, (N, N))> {
        let all = self@.push((ts_ms, (price, qty)));
        all.skip(stale_count(all, ts_ms - self.width()))
    }

    /// The trades that one more drives out of the window.
    pub open spec fn dropped(self, ts_ms: i64, price: N, qty: N) -> Seq<(i64, (N, N))> {
        let all = self@.push((ts_ms, (price, qty)));
        all.take(stale_count(all, ts_ms - self.width()))
    }

    pub fn new(window_ms: i64) -> (v: Self)
        ensures
            v.width() == window_ms,
            v@ == Seq::<(i64, (N, N))>::empty(),
    {
        VwapTracker { buffer: RollingWindow::new(window_ms) }
    }

    /// Add a trade. Evicts stale entries from the window and returns them, oldest first.
    pub fn update(&mut self, ts_ms: i64, price: N, qty: N) -> (evicted: Vec<(i64, (N, N))>)
        ensures
            final(self).width() == old(self).width(),
            ({
                let all = old(self)@.push((ts_ms, (price, qty)));
                let k = stale_count(all, ts_ms - old(self).width());
                final(self)@ == all.skip(k) && evicted@ == all.take(k)
            }),
            final(self)@ == old(self).after(ts_ms, price, qty),
            evicted@ == old(self).dropped(ts_ms, price, qty),
    {
        self.buffer.push(ts_ms, (price, qty))
    }

    /// Number of trades in the window.
    pub fn len(&self) -> (n: usize)
        ensures
            n == self@.len(),
    {
        self.buffer.len()
    }
}

/// A new trade enters with its time, its price as the price and its quantity as the quantity.
/// What leaves the window is older than its width, the oldest that stays is not, and nothing else
/// is lost.
pub proof fn law_trade_enters<N: Copy>(v: VwapTracker<N>, ts_ms: i64, price: N, qty: N, i: int)
    requires
        v.width() >= 0,
    ensures
        ({
            let z = v.after(ts_ms, price, qty);
            let gone = v.dropped(ts_ms, price, qty);
            &&& z.len() > 0
            &&& z.last().0 == ts_ms
            &&& z.last().1.0 == price
            &&& z.last().1.1 == qty
            &&& gone + z == v@.push((ts_ms, (price, qty)))
            &&& z[0].0 >= ts_ms - v.width()
            &&& 0 <= i < gone.len() ==> gone[i].0 < ts_ms - v.width()
        }),
{
    let all = v@.push((ts_ms, (price, qty)));
    let cutoff = ts_ms - v.width();
    lemma_stale_count(all, cutoff);
    let k = stale_count(all, cutoff);
    if k == all.len() {
        assert(all[k - 1].0 == ts_ms);
    }
    assert(v.dropped(ts_ms, price, qty) + v.after(ts_ms, price, qty) =~= all);
    if 0 <= i < v.dropped(ts_ms, price, qty).len() {
        assert(all[i].0 < cutoff);
    }
}

} // verus!
