//! Whether the price is trending or ranging.

use vstd::prelude::*;

use crate::math::window::{lemma_stale_count, stale_count, RollingWindow};

verus! {

#[derive(Clone, Copy, Debug, PartialEq, Eq, Structural)]
pub enum Regime {
    Range,
    Trend,
    Ambiguous,
}

/// Tick direction tracker over a rolling window.
/// Classifies based on percentage of ticks moving in the dominant direction.
///   Range: < 60% same direction
///   Trend: >= 75% same direction
///   Ambiguous: 60-75%
#[derive(Clone)]
pub struct RegimeClassifier {
    ticks: RollingWindow<bool>,
    up_count: u32,
    total: u32,
}

/// How many ticks of a sequence go up.
pub open spec fn up_ticks(s: Seq<(i64, bool)>) -> int
    decreases s.len(),
{
    if s.len() == 0 {
        0
    } else {
        up_ticks(s.drop_last()) + if s.last().1 {
            1int
        } else {
            0
        }
    }
}

proof fn lemma_up_ticks_bounds(s: Seq<(i64, bool)>)
    ensures
        0 <= up_ticks(s) <= s.len(),
    decreases s.len(),
{
    if s.len() > 0 {
        lemma_up_ticks_bounds(s.drop_last());
    }
}

proof fn lemma_up_ticks_split(a: Seq<(i64, bool)>, b: Seq<(i64, bool)>)
    ensures
        up_ticks(a + b) == up_ticks(a) + up_ticks(b),
    decreases b.len(),
{
    if b.len() == 0 {
        assert(a + b =~= a);
    } else {
        lemma_up_ticks_split(a, b.drop_last());
        assert((a + b).drop_last() =~= a + b.drop_last());
    }
}

/// How many ticks move in the dominant direction.
pub open spec fn dominant_ticks(ups: int, total: int) -> int {
    if 2 * ups >= total {
        ups
    } else {
        total - ups
    }
}

/// The regime of `total` ticks of which `ups` go up: trend from three quarters in one direction
/// on, range below three fifths, and neither on fewer than ten ticks.
pub open spec fn regime_of(ups: int, total: int) -> Regime {
    if total < 10 {
        Regime::Ambiguous
    } else if 4 * dominant_ticks(ups, total) >= 3 * total {
        Regime::Trend
    } else if 5 * dominant_ticks(ups, total) < 3 * total {
        Regime::Range
    } else {
        Regime::Ambiguous
    }
}

/// Whether more than half of the ticks go up.
pub open spec fn goes_up(ups: int, total: int) -> bool {
    ups > total / 2
}

/// The flow goes up exactly where more ticks go up than down.
pub proof fn law_direction(ups: int, total: int)
    requires
        0 <= ups <= total,
    ensures
        goes_up(ups, total) <==> ups > total - ups,
{
}

/// On ten ticks or more there is a trend exactly where three quarters of them go up or three
/// quarters go down, and a range where neither three fifths go up nor three fifths go down; fewer
/// are ambiguous.
pub proof fn law_regime(ups: int, total: int)
    requires
        0 <= ups <= total,
    ensures
        ({
            let downs = total - ups;
            &&& total < 10 ==> regime_of(ups, total) == Regime::Ambiguous
            &&& total >= 10 ==> {
                &&& regime_of(ups, total) == Regime::Trend <==> 4 * ups >= 3 * total || 4 * downs
                    >= 3 * total
                &&& regime_of(ups, total) == Regime::Range <==> 5 * ups < 3 * total && 5 * downs < 3
                    * total
            }
            &&& dominant_ticks(ups, total) >= ups && dominant_ticks(ups, total) >= downs
            &&& dominant_ticks(ups, total) == ups || dominant_ticks(ups, total) == downs
        }),
{
}

/// A tick up counts one, and a tick down nothing.
pub proof fn law_up_ticks(s: Seq<(i64, bool)>, ts_ms: i64)
    ensures
        up_ticks(s.push((ts_ms, true))) == up_ticks(s) + 1,
        up_ticks(s.push((ts_ms, false))) == up_ticks(s),
        up_ticks(Seq::empty()) == 0,
{
    assert(s.push((ts_ms, true)).drop_last() =~= s);
    assert(s.push((ts_ms, false)).drop_last() =~= s);
}

/// The newest tick is the last one of its window, in its own direction; before it stand ticks that
/// were there, in their order, and the first of all is not too old.
pub proof fn law_window_after(window: Seq<(i64, bool)>, width: i64, tick: (i64, bool))
    requires
        width >= 0,
    ensures
        ({
            let z = window_after(window, width, tick);
            &&& z.len() > 0
            &&& z.last() == tick
            &&& z[0].0 >= tick.0 - width
            &&& z.len() <= window.len() + 1
            &&& z == window.push(tick).skip(window.len() + 1 - z.len())
            &&& z.len() <= window.len() ==> window[window.len() - z.len()].0 < tick.0 - width
        }),
{
    let all = window.push(tick);
    lemma_stale_count(all, tick.0 - width);
    let k = stale_count(all, tick.0 - width);
    if k == all.len() {
        assert(all[k - 1] == tick);
    }
    if k > 0 {
        assert(all[k - 1].0 < tick.0 - width);
    }
}

/// The ticks of a window after one more: those at the front that are too old are gone.
pub open spec fn window_after(window: Seq<(i64, bool)>, width: i64, tick: (i64, bool)) -> Seq<
    (i64, bool),
> {
    let all = window.push(tick);
    all.skip(stale_count(all, tick.0 - width))
}

/// The ticks of a new window after a series of them.
pub open spec fn window_of(width: i64, ticks: Seq<(i64, bool)>) -> Seq<(i64, bool)>
    decreases ticks.len(),
{
    if ticks.len() == 0 {
        Seq::empty()
    } else {
        window_after(window_of(width, ticks.drop_last()), width, ticks.last())
    }
}

/// The same ticks, each in the other direction.
pub open spec fn mirrored(ticks: Seq<(i64, bool)>) -> Seq<(i64, bool)> {
    ticks.map_values(|t: (i64, bool)| (t.0, !t.1))
}

impl RegimeClassifier {
    /// The ticks of the window, oldest first.
    pub closed spec fn view(&self) -> Seq<(i64, bool)> {
        self.ticks@
    }

    pub closed spec fn width(&self) -> i64 {
        self.ticks.window_ms
    }

    /// The counters agree with the ticks of the window.
    pub closed spec fn wf(&self) -> bool {
        &&& self.total == self.ticks@.len()
        &&& self.up_count == up_ticks(self.ticks@)
    }

    /// The ticks of the window after one more.
    pub open spec fn after(self, ts_ms: i64, is_up: bool) -> Seq<(i64, bool)> {
        window_after(self@, self.width(), (ts_ms, is_up))
    }

    pub fn new(window_ms: i64) -> (r: Self)
        ensures
            r.wf(),
            r.width() == window_ms,
            r@ == Seq::<(i64, bool)>::empty(),
    {
        RegimeClassifier { ticks: RollingWindow::new(window_ms), up_count: 0, total: 0 }
    }

    /// Record a tick direction. Evicts stale ticks.
    pub fn update(&mut self, ts_ms: i64, is_up: bool)
        requires
            old(self).wf(),
            old(self)@.len() < u32::MAX,
        ensures
            final(self).wf(),
            final(self).width() == old(self).width(),
            final(self)@ == old(self).after(ts_ms, is_up),
    {
        let ghost all = self.ticks@.push((ts_ms, is_up));
        proof {
            assert(all.drop_last() =~= self.ticks@);
            lemma_up_ticks_bounds(all);
        }
        if is_up {
            self.up_count = self.up_count + 1;
        }
        self.total = self.total + 1;
        let evicted = self.ticks.push(ts_ms, is_up);
        let ghost kept = self.ticks;
        proof {
            lemma_stale_count(all, ts_ms - self.ticks.window_ms);
            assert(evicted@ + self.ticks@ =~= all);
            lemma_up_ticks_split(evicted@, self.ticks@);
            lemma_up_ticks_bounds(self.ticks@);
            assert(evicted@.skip(0) =~= evicted@);
        }
        let mut i: usize = 0;
        while i < evicted.len()
            invariant
                i <= evicted.len(),
                self.total == self.ticks@.len() + evicted@.len() - i,
                self.up_count == up_ticks(self.ticks@) + up_ticks(evicted@.skip(i as int)),
                up_ticks(self.ticks@) >= 0,
                self.ticks == kept,
            decreases evicted.len() - i,
        {
            proof {
                let s = evicted@.skip(i as int);
                let first = seq![s[0]];
                assert(s =~= first + s.skip(1));
                lemma_up_ticks_split(first, s.skip(1));
                assert(up_ticks(first.drop_last()) == 0);
                assert(first.last() == evicted@[i as int]);
                assert(s.skip(1) =~= evicted@.skip(i + 1));
                lemma_up_ticks_bounds(evicted@.skip(i + 1));
            }
            if evicted[i].1 {
                self.up_count = self.up_count - 1;
            }
            self.total = self.total - 1;
            i = i + 1;
        }
        assert(evicted@.skip(i as int) =~= Seq::empty());
    }

    /// Classify current regime.
    pub fn classify(&self) -> (r: Regime)
        requires
            self.wf(),
        ensures
            r == regime_of(up_ticks(self@), self@.len() as int),
    {
        proof {
            lemma_up_ticks_bounds(self.ticks@);
        }
        if self.total < 10 {
            return Regime::Ambiguous;
        }
        let (dominant, total) = self.dominant_of_total();
        if 4 * (dominant as u64) >= 3 * (total as u64) {
            Regime::Trend
        } else if 5 * (dominant as u64) < 3 * (total as u64) {
            Regime::Range
        } else {
            Regime::Ambiguous
        }
    }

    /// Direction of dominant tick flow. Only meaningful when Trend.
    pub fn trend_direction_up(&self) -> (r: bool)
        requires
            self.wf(),
        ensures
            r == goes_up(up_ticks(self@), self@.len() as int),
            r == (up_ticks(self@) > self@.len() as int / 2),
    {
        self.up_count > self.total / 2
    }

    /// How many ticks move in the dominant direction, out of how many.
    pub fn dominant_of_total(&self) -> (r: (u32, u32))
        requires
            self.wf(),
        ensures
            r.0 == dominant_ticks(up_ticks(self@), self@.len() as int),
            r.1 == self@.len(),
            r.0 <= r.1,
    {
        proof {
            lemma_up_ticks_bounds(self.ticks@);
        }
        let downs: u32 = self.total - self.up_count;
        if self.up_count >= downs {
            (self.up_count, self.total)
        } else {
            (downs, self.total)
        }
    }

    /// Number of ticks in the window.
    pub fn total_ticks(&self) -> (n: u32)
        requires
            self.wf(),
        ensures
            n == self@.len(),
    {
        self.total
    }
}

/// With enough ticks, a trend has a direction: the dominant one.
pub proof fn law_trend_has_direction(ups: int, total: int)
    requires
        0 <= ups <= total,
        regime_of(ups, total) == Regime::Trend,
    ensures
        ups > total / 2 <==> ups == dominant_ticks(ups, total),
        ups > total / 2 <==> 4 * ups >= 3 * total,
{
}

proof fn lemma_mirrored_ups(s: Seq<(i64, bool)>)
    ensures
        up_ticks(mirrored(s)) == s.len() - up_ticks(s),
    decreases s.len(),
{
    if s.len() > 0 {
        lemma_mirrored_ups(s.drop_last());
        assert(mirrored(s).drop_last() =~= mirrored(s.drop_last()));
    }
}

proof fn lemma_mirrored_stale(s: Seq<(i64, bool)>, cutoff: int)
    ensures
        stale_count(mirrored(s), cutoff) == stale_count(s, cutoff),
    decreases s.len(),
{
    if s.len() > 0 {
        assert(mirrored(s)[0].0 == s[0].0);
        lemma_mirrored_stale(s.skip(1), cutoff);
        assert(mirrored(s).skip(1) =~= mirrored(s.skip(1)));
    }
}

/// The dominant direction counts, not which one it is: a classifier that gets every tick in the
/// other direction holds as many ticks, and finds the same regime.
pub proof fn law_regime_is_symmetric(width: i64, ticks: Seq<(i64, bool)>)
    ensures
        window_of(width, mirrored(ticks)) == mirrored(window_of(width, ticks)),
        window_of(width, mirrored(ticks)).len() == window_of(width, ticks).len(),
        ({
            let a = window_of(width, ticks);
            let b = window_of(width, mirrored(ticks));
            &&& dominant_ticks(up_ticks(a), a.len() as int) == dominant_ticks(
                up_ticks(b),
                b.len() as int,
            )
            &&& regime_of(up_ticks(a), a.len() as int) == regime_of(up_ticks(b), b.len() as int)
        }),
    decreases ticks.len(),
{
    let a = window_of(width, ticks);
    if ticks.len() > 0 {
        law_regime_is_symmetric(width, ticks.drop_last());
        let t = ticks.last();
        let before = window_of(width, ticks.drop_last());
        let all = before.push(t);
        lemma_stale_count(all, t.0 - width);
        lemma_mirrored_stale(all, t.0 - width);
        assert(mirrored(ticks).drop_last() =~= mirrored(ticks.drop_last()));
        assert(mirrored(ticks).last() == (t.0, !t.1));
        assert(mirrored(before).push((t.0, !t.1)) =~= mirrored(all));
        let k = stale_count(all, t.0 - width);
        assert(mirrored(all).skip(k) =~= mirrored(all.skip(k)));
    } else {
        assert(mirrored(ticks) =~= ticks);
        assert(mirrored(a) =~= a);
    }
    lemma_mirrored_ups(a);
    lemma_up_ticks_bounds(a);
}

} // verus!
