//! A queue of timed items that forgets what is too old.

use std::collections::VecDeque;

use vstd::prelude::*;

verus! {

/// Items with their times, oldest first. Adding one drops the items at the front that are
/// older than the newest time less the width of the window.
#[derive(Clone)]
pub struct RollingWindow<T> {
    pub window_ms: i64,
    pub items: VecDeque<(i64, T)>,
}

/// How many items at the front lie before `cutoff`.
pub open spec fn stale_count<T>(s: Seq<(i64, T)>, cutoff: int) -> int
    decreases s.len(),
{
    if s.len() == 0 || s[0].0 >= cutoff {
        0
    } else {
        1 + stale_count(s.skip(1), cutoff)
    }
}

pub proof fn lemma_stale_count<T>(s: Seq<(i64, T)>, cutoff: int)
    ensures
        0 <= stale_count(s, cutoff) <= s.len(),
        forall|i: int| 0 <= i < stale_count(s, cutoff) ==> (#[trigger] s[i]).0 < cutoff,
        stale_count(s, cutoff) < s.len() ==> s[stale_count(s, cutoff)].0 >= cutoff,
    decreases s.len(),
{
    if s.len() > 0 && s[0].0 < cutoff {
        let t = s.skip(1);
        lemma_stale_count(t, cutoff);
        assert forall|i: int| 0 <= i < stale_count(s, cutoff) implies (#[trigger] s[i]).0
            < cutoff by {
            if i > 0 {
                assert(s[i] == t[i - 1]);
            }
        }
        if stale_count(s, cutoff) < s.len() {
            assert(s[stale_count(s, cutoff)] == t[stale_count(t, cutoff)]);
        }
    }
}

proof fn lemma_stale_count_is<T>(s: Seq<(i64, T)>, cutoff: int, k: int)
    requires
        0 <= k <= s.len(),
        forall|i: int| 0 <= i < k ==> (#[trigger] s[i]).0 < cutoff,
        k < s.len() ==> s[k].0 >= cutoff,
    ensures
        stale_count(s, cutoff) == k,
    decreases s.len(),
{
    if k > 0 {
        let t = s.skip(1);
        assert(s[0].0 < cutoff);
        assert forall|i: int| 0 <= i < k - 1 implies (#[trigger] t[i]).0 < cutoff by {
            assert(t[i] == s[i + 1]);
        }
        if k < s.len() {
            assert(t[k - 1] == s[k]);
        }
        lemma_stale_count_is(t, cutoff, k - 1);
    }
}

impl<T> RollingWindow<T> {
    /// What the window holds, oldest first.
    pub open spec fn view(&self) -> Seq<(i64, T)> {
        self.items@
    }

    /// What the window holds after one more item.
    pub open spec fn after(self, ts_ms: i64, item: T) -> Seq<(i64, T)> {
        let all = self.items@.push((ts_ms, item));
        all.skip(stale_count(all, ts_ms - self.window_ms))
    }

    /// What falls out of the window when one more item comes in.
    pub open spec fn dropped(self, ts_ms: i64, item: T) -> Seq<(i64, T)> {
        let all = self.items@.push((ts_ms, item));
        all.take(stale_count(all, ts_ms - self.window_ms))
    }

    /// An empty window.
    pub fn new(window_ms: i64) -> (w: Self)
        ensures
            w.window_ms == window_ms,
            w@ == Seq::<(i64, T)>::empty(),
    {
        RollingWindow { window_ms, items: VecDeque::new() }
    }

    /// Adds an item and returns those that fell out, oldest first.
    pub fn push(&mut self, ts_ms: i64, item: T) -> (evicted: Vec<(i64, T)>)
        ensures
            final(self).window_ms == old(self).window_ms,
            final(self)@ == old(self).after(ts_ms, item),
            evicted@ == old(self).dropped(ts_ms, item),
    {
        let ghost all = self.items@.push((ts_ms, item));
        let cutoff: i128 = ts_ms as i128 - self.window_ms as i128;
        self.items.push_back((ts_ms, item));
        let mut evicted: Vec<(i64, T)> = Vec::new();
        assert(all.skip(0) =~= all);
        assert(all.take(0) =~= evicted@);
        while self.items.len() > 0 && (self.items[0].0 as i128) < cutoff
            invariant
                self.window_ms == old(self).window_ms,
                all == old(self).items@.push((ts_ms, item)),
                cutoff == ts_ms - self.window_ms,
                evicted@.len() <= all.len(),
                evicted@ == all.take(evicted@.len() as int),
                self.items@ == all.skip(evicted@.len() as int),
                forall|i: int| 0 <= i < evicted@.len() ==> (#[trigger] all[i]).0 < cutoff,
            decreases self.items.len(),
        {
            let ghost k = evicted@.len() as int;
            assert(self.items@[0] == all[k]);
            if let Some(front) = self.items.pop_front() {
                evicted.push(front);
                assert(evicted@ =~= all.take(k + 1));
                assert(self.items@ =~= all.skip(k + 1));
            }
        }
        proof {
            let k = evicted@.len() as int;
            if k < all.len() {
                assert(self.items@[0] == all[k]);
            }
            lemma_stale_count_is(all, cutoff as int, k);
        }
        evicted
    }

    /// How many items the window holds.
    pub fn len(&self) -> (n: usize)
        ensures
            n == self@.len(),
    {
        self.items.len()
    }
}

/// Whether times do not go back.
pub open spec fn in_time_order<T>(s: Seq<(i64, T)>) -> bool {
    forall|i: int, j: int| 0 <= i <= j < s.len() ==> (#[trigger] s[i]).0 <= (#[trigger] s[j]).0
}

/// As long as times do not go back, the window holds exactly the items that are no older than
/// its width, measured from the newest one, and they stay in time order.
pub proof fn law_window_holds_recent<T>(w: RollingWindow<T>, ts_ms: i64, item: T)
    requires
        in_time_order(w@.push((ts_ms, item))),
    ensures
        in_time_order(w.after(ts_ms, item)),
        forall|i: int|
            0 <= i < w.after(ts_ms, item).len() ==> (#[trigger] w.after(ts_ms, item)[i]).0 >= ts_ms
                - w.window_ms,
        forall|i: int|
            0 <= i < w.dropped(ts_ms, item).len() ==> (#[trigger] w.dropped(ts_ms, item)[i]).0
                < ts_ms - w.window_ms,
        w.dropped(ts_ms, item) + w.after(ts_ms, item) == w@.push((ts_ms, item)),
        w.window_ms >= 0 ==> w.after(ts_ms, item).len() > 0 && w.after(ts_ms, item).last() == (
            ts_ms,
            item,
        ),
{
    let all = w@.push((ts_ms, item));
    let cutoff = ts_ms - w.window_ms;
    lemma_stale_count(all, cutoff);
    let k = stale_count(all, cutoff);
    let rest = w.after(ts_ms, item);
    assert(w.dropped(ts_ms, item) + rest =~= all);
    assert forall|i: int| 0 <= i < rest.len() implies (#[trigger] rest[i]).0 >= cutoff by {
        assert(rest[i] == all[k + i]);
        assert(all[k].0 <= all[k + i].0);
    }
    assert forall|i: int, j: int| 0 <= i <= j < rest.len() implies (#[trigger] rest[i]).0 <= (
    #[trigger] rest[j]).0 by {
        assert(rest[i] == all[k + i]);
        assert(rest[j] == all[k + j]);
    }
    if w.window_ms >= 0 {
        assert(all[all.len() - 1].0 == ts_ms);
        assert(k < all.len());
        assert(rest.last() == all.last());
    }
}

} // verus!
