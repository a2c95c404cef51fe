//! Which prices enter the volatility estimate.

use vstd::prelude::*;

verus! {

/// Tick-by-tick sampling: a return is taken between two consecutive positive prices.
#[derive(Clone)]
pub struct EwmaVol<N> {
    pub last_price: N,
    pub last_is_positive: bool,
    pub n_updates: u32,
    pub min_updates: u32,
}

impl<N: Copy> EwmaVol<N> {
    pub fn new(zero: N, min_updates: u32) -> (v: Self)
        ensures
            v.last_price == zero,
            !v.last_is_positive,
            v.n_updates == 0,
            v.min_updates == min_updates,
    {
        EwmaVol { last_price: zero, last_is_positive: false, n_updates: 0, min_updates }
    }

    /// What a price makes of the tracker, and the price before it, where both are positive.
    pub open spec fn updated(self, price: N, is_positive: bool) -> (Self, Option<N>) {
        let both = self.last_is_positive && is_positive;
        (
            EwmaVol {
                last_price: price,
                last_is_positive: is_positive,
                n_updates: (self.n_updates + if both {
                    1int
                } else {
                    0
                }) as u32,
                ..self
            },
            if both {
                Some(self.last_price)
            } else {
                None
            },
        )
    }

    /// Takes a price and returns the one before it, where both are positive.
    pub fn update(&mut self, price: N, is_positive: bool) -> (base: Option<N>)
        requires
            old(self).n_updates < u32::MAX,
        ensures
            base == (if old(self).last_is_positive && is_positive {
                Some(old(self).last_price)
            } else {
                None
            }),
            final(self).n_updates == old(self).n_updates + if base is Some {
                1int
            } else {
                0
            },
            final(self).last_price == price,
            final(self).last_is_positive == is_positive,
            final(self).min_updates == old(self).min_updates,
            (*final(self), base) == old(self).updated(price, is_positive),
    {
        let base = if self.last_is_positive && is_positive {
            self.n_updates = self.n_updates + 1;
            Some(self.last_price)
        } else {
            None
        };
        self.last_price = price;
        self.last_is_positive = is_positive;
        base
    }

    /// Whether there are enough returns for a reliable estimate.
    pub fn is_valid(&self) -> (r: bool)
        ensures
            r == self.enough(),
            r == (self.n_updates >= self.min_updates),
    {
        self.n_updates >= self.min_updates
    }

    pub fn n_updates(&self) -> (n: u32)
        ensures
            n == self.n_updates,
    {
        self.n_updates
    }
}

/// The least time between two samples, in milliseconds.
pub const SAMPLE_MS: u64 = 1000;

/// One-second sampling: a return is taken only when a second has passed since the last sample.
#[derive(Clone)]
pub struct SampledEwmaVol<N> {
    pub last_sample_price: N,
    pub last_sample_ts: i64,
    pub seeded: bool,
    pub n_samples: u32,
    pub min_samples: u32,
}

/// A sample: the price of the one before, and the time since then.
#[derive(Debug)]
pub struct Sample<N> {
    pub base: N,
    pub elapsed_ms: u64,
}

impl<N: Copy> SampledEwmaVol<N> {
    pub fn new(zero: N, min_samples: u32) -> (v: Self)
        ensures
            v.last_sample_price == zero,
            v.last_sample_ts == 0,
            !v.seeded,
            v.n_samples == 0,
            v.min_samples == min_samples,
    {
        SampledEwmaVol {
            last_sample_price: zero,
            last_sample_ts: 0,
            seeded: false,
            n_samples: 0,
            min_samples,
        }
    }

    /// The sample that a trade yields: the price of the one before, and the time since then.
    pub open spec fn sample_of(self, counts: bool, ts_ms: i64) -> Option<(N, int)> {
        if self.samples(counts, ts_ms) {
            Some((self.last_sample_price, ts_ms - self.last_sample_ts))
        } else {
            None
        }
    }

    /// Whether a trade yields a sample. `counts` says that its price is not zero or less.
    pub open spec fn samples(self, counts: bool, ts_ms: i64) -> bool {
        counts && self.seeded && ts_ms - self.last_sample_ts >= SAMPLE_MS
    }

    /// Whether a trade is the first price, which only seeds.
    pub open spec fn seeds(self, counts: bool) -> bool {
        counts && !self.seeded
    }

    /// The state after a trade.
    pub open spec fn updated(self, price: N, counts: bool, ts_ms: i64) -> Self {
        if self.samples(counts, ts_ms) || self.seeds(counts) {
            SampledEwmaVol {
                last_sample_price: price,
                last_sample_ts: ts_ms,
                seeded: true,
                n_samples: if self.samples(counts, ts_ms) {
                    (self.n_samples + 1) as u32
                } else {
                    self.n_samples
                },
                ..self
            }
        } else {
            self
        }
    }

    /// The state after a series of trades: price, whether it counts, and time.
    pub open spec fn fed(self, trades: Seq<(N, bool, i64)>) -> Self
        decreases trades.len(),
    {
        if trades.len() == 0 {
            self
        } else {
            let t = trades.last();
            self.fed(trades.drop_last()).updated(t.0, t.1, t.2)
        }
    }

    /// Whether trade `i` of a series yields a sample.
    pub open spec fn yields(self, trades: Seq<(N, bool, i64)>, i: int) -> bool {
        self.fed(trades.take(i)).samples(trades[i].1, trades[i].2)
    }

    /// Whether trade `i` of a series is the first whose price counts.
    pub open spec fn is_first(trades: Seq<(N, bool, i64)>, i: int) -> bool {
        trades[i].1 && forall|k: int| 0 <= k < i ==> !(#[trigger] trades[k]).1
    }

    /// Whether time is taken from trade `i` on: it is the first whose price counts, or yields
    /// a sample.
    pub open spec fn marks(self, trades: Seq<(N, bool, i64)>, i: int) -> bool {
        Self::is_first(trades, i) || self.yields(trades, i)
    }

    /// Whether `j` is the latest trade before trade `i` from which time is taken.
    pub open spec fn is_latest(self, trades: Seq<(N, bool, i64)>, j: int, i: int) -> bool {
        &&& 0 <= j < i
        &&& self.marks(trades, j)
        &&& forall|k: int| j < k < i ==> !#[trigger] self.marks(trades, k)
    }

    /// Update with a new trade. Only yields a sample when at least a second has elapsed.
    pub fn update(&mut self, price: N, counts: bool, ts_ms: i64) -> (r: Option<Sample<N>>)
        requires
            old(self).n_samples < u32::MAX,
        ensures
            *final(self) == old(self).updated(price, counts, ts_ms),
            r is Some <==> old(self).samples(counts, ts_ms),
            (match r {
                Some(s) => Some((s.base, s.elapsed_ms as int)),
                None => None,
            }) == old(self).sample_of(counts, ts_ms),
            r is Some ==> r->0.base == old(self).last_sample_price && r->0.elapsed_ms == ts_ms
                - old(self).last_sample_ts,
            final(self).n_samples == old(self).n_samples + if r is Some {
                1int
            } else {
                0
            },
            final(self).seeded == (old(self).seeded || counts),
            if r is Some || old(self).seeds(counts) {
                final(self).last_sample_price == price && final(self).last_sample_ts == ts_ms
            } else {
                final(self).last_sample_price == old(self).last_sample_price
                    && final(self).last_sample_ts == old(self).last_sample_ts
            },
            final(self).min_samples == old(self).min_samples,
    {
        if !counts {
            return None;
        }
        if !self.seeded {
            self.last_sample_price = price;
            self.last_sample_ts = ts_ms;
            self.seeded = true;
            return None;
        }
        let elapsed: i128 = ts_ms as i128 - self.last_sample_ts as i128;
        if elapsed < SAMPLE_MS as i128 {
            return None;
        }
        let sample = Sample { base: self.last_sample_price, elapsed_ms: elapsed as u64 };
        self.n_samples = self.n_samples + 1;
        self.last_sample_price = price;
        self.last_sample_ts = ts_ms;
        Some(sample)
    }

    /// Whether there are enough samples for a reliable estimate.
    pub fn is_valid(&self) -> (r: bool)
        ensures
            r == self.enough(),
            r == (self.n_samples >= self.min_samples),
    {
        self.n_samples >= self.min_samples
    }

    pub fn n_samples(&self) -> (n: u32)
        ensures
            n == self.n_samples,
    {
        self.n_samples
    }
}

proof fn lemma_fed<N: Copy>(v: SampledEwmaVol<N>, trades: Seq<(N, bool, i64)>, i: int)
    requires
        !v.seeded,
        v.n_samples == 0,
        0 <= i <= trades.len() <= u32::MAX,
    ensures
        v.fed(trades.take(i)).n_samples <= i,
        v.fed(trades.take(i)).min_samples == v.min_samples,
        v.fed(trades.take(i)).seeded <==> exists|k: int| 0 <= k < i && (#[trigger] trades[k]).1,
        v.fed(trades.take(i)).seeded ==> exists|j: int| #[trigger]
            v.is_latest(trades, j, i) && v.fed(trades.take(i)).last_sample_ts == trades[j].2,
        i < trades.len() ==> v.fed(trades.take(i + 1)) == v.fed(trades.take(i)).updated(
            trades[i].0,
            trades[i].1,
            trades[i].2,
        ),
    decreases i,
{
    if i < trades.len() {
        assert(trades.take(i + 1).drop_last() =~= trades.take(i));
        assert(trades.take(i + 1).last() == trades[i]);
    }
    if i > 0 {
        lemma_fed(v, trades, i - 1);
        let before = v.fed(trades.take(i - 1));
        let now = v.fed(trades.take(i));
        let t = trades[i - 1];
        if before.seeds(t.1) {
            assert forall|k: int| 0 <= k < i - 1 implies !(#[trigger] trades[k]).1 by {}
            assert(SampledEwmaVol::<N>::is_first(trades, i - 1));
            assert(v.is_latest(trades, i - 1, i));
        } else if before.samples(t.1, t.2) {
            assert(v.yields(trades, i - 1));
            assert(v.is_latest(trades, i - 1, i));
        } else if before.seeded {
            let j = choose|j: int| #[trigger]
                v.is_latest(trades, j, i - 1) && before.last_sample_ts == trades[j].2;
            let k = choose|k: int| 0 <= k < i - 1 && (#[trigger] trades[k]).1;
            assert(!v.marks(trades, i - 1));
            assert(v.is_latest(trades, j, i));
        }
        if now.seeded && before.seeded {
            let k = choose|k: int| 0 <= k < i - 1 && (#[trigger] trades[k]).1;
            assert(trades[k].1);
        } else if now.seeded {
            assert(trades[i - 1].1);
        }
    }
}

/// Over a whole series of trades, one yields a sample exactly where its price counts and at
/// least a second has passed since the latest one that was the first to count or yielded a
/// sample. Exactly then there is one sample more, and otherwise nothing changes in their number
/// or in whether they are enough.
pub proof fn law_sampling<N: Copy>(
    v: SampledEwmaVol<N>,
    trades: Seq<(N, bool, i64)>,
    i: int,
)
    requires
        !v.seeded,
        v.n_samples == 0,
        0 <= i < trades.len() <= u32::MAX,
    ensures
        v.yields(trades, i) <==> trades[i].1 && exists|j: int| #[trigger]
            v.is_latest(trades, j, i) && trades[i].2 - trades[j].2 >= SAMPLE_MS,
        v.fed(trades.take(i + 1)).n_samples == v.fed(trades.take(i)).n_samples + if v.yields(
            trades,
            i,
        ) {
            1int
        } else {
            0
        },
        v.fed(trades.take(i + 1)).min_samples == v.fed(trades.take(i)).min_samples,
{
    lemma_fed(v, trades, i);
    let now = v.fed(trades.take(i));
    if now.seeded {
        let j = choose|j: int| #[trigger]
            v.is_latest(trades, j, i) && now.last_sample_ts == trades[j].2;
        assert forall|k: int| #[trigger] v.is_latest(trades, k, i) implies k == j by {
            if k < j {
                assert(v.marks(trades, j));
            }
            if j < k {
                assert(v.marks(trades, k));
            }
        }
    } else {
        assert forall|j: int| 0 <= j < i implies !#[trigger] v.marks(trades, j) by {
            assert(!trades[j].1);
        }
    }
}

/// Of two prices one after the other, the second yields a return from the first exactly where
/// both are positive, whatever came before them; and only then there is one return more.
pub proof fn law_return_between<N: Copy>(v: EwmaVol<N>, p: N, p_pos: bool, q: N, q_pos: bool)
    requires
        v.n_updates < u32::MAX - 1,
    ensures
        ({
            let a = v.updated(p, p_pos).0;
            let (z, base) = a.updated(q, q_pos);
            &&& p_pos && q_pos ==> base == Some(p) && z.n_updates == a.n_updates + 1
            &&& !p_pos || !q_pos ==> base is None && z.n_updates == a.n_updates
            &&& z.min_updates == v.min_updates
        }),
{
}

/// The first price that counts only seeds. After it a trade yields a sample where a second or
/// more has passed: from the seeding price, over the time since then; before that, and where its
/// price does not count, it changes nothing.
pub proof fn law_sample_after_seed<N: Copy>(
    v: SampledEwmaVol<N>,
    p: N,
    t0: i64,
    q: N,
    counts: bool,
    t1: i64,
)
    requires
        !v.seeded,
        v.n_samples < u32::MAX,
    ensures
        ({
            let a = v.updated(p, true, t0);
            let z = a.updated(q, counts, t1);
            &&& v.sample_of(true, t0) is None
            &&& a.n_samples == v.n_samples
            &&& counts && t1 - t0 >= 1000 ==> a.sample_of(counts, t1) == Some((p, t1 - t0))
                && z.n_samples == a.n_samples + 1 && z.last_sample_price == q && z.last_sample_ts
                == t1
            &&& !counts || t1 - t0 < 1000 ==> a.sample_of(counts, t1) is None && z == a
            &&& v.updated(p, false, t0) == v
        }),
{
}

/// After a sample time is taken from it anew.
pub proof fn law_sample_after_sample<N: Copy>(
    v: SampledEwmaVol<N>,
    p: N,
    t0: i64,
    counts: bool,
    t1: i64,
)
    requires
        v.sample_of(true, t0) is Some,
    ensures
        ({
            let a = v.updated(p, true, t0);
            &&& counts && t1 - t0 >= 1000 ==> a.sample_of(counts, t1) == Some((p, t1 - t0))
            &&& !counts || t1 - t0 < 1000 ==> a.sample_of(counts, t1) is None
        }),
{
}

impl<N: Copy> EwmaVol<N> {
    pub open spec fn enough(self) -> bool {
        self.n_updates >= self.min_updates
    }
}

impl<N: Copy> SampledEwmaVol<N> {
    pub open spec fn enough(self) -> bool {
        self.n_samples >= self.min_samples
    }
}

/// An estimate is reliable from the least number of returns on, not before, and stays so.
pub proof fn law_enough<N: Copy>(
    v: EwmaVol<N>,
    w: SampledEwmaVol<N>,
    price: N,
    counts: bool,
    ts_ms: i64,
)
    requires
        v.n_updates < u32::MAX,
        w.n_samples < u32::MAX,
    ensures
        v.enough() <==> v.min_updates <= v.n_updates,
        w.enough() <==> w.min_samples <= w.n_samples,
        v.enough() ==> v.updated(price, counts).0.enough(),
        w.enough() ==> w.updated(price, counts, ts_ms).enough(),
{
}

} // verus!
