//! Rolling windows: regime, average price, volatility samples.

use polymarket_crypto::math::ewma::{EwmaVol, SampledEwmaVol};
use polymarket_crypto::math::regime::{Regime, RegimeClassifier};
use polymarket_crypto::math::vwap::VwapTracker;
use polymarket_crypto::math::window::RollingWindow;

#[test]
fn test_range() {
    let mut rc = RegimeClassifier::new(30_000);
    // 50/50 split → Range
    for i in 0..100 {
        rc.update(i * 100, i % 2 == 0);
    }
    assert_eq!(rc.classify(), Regime::Range);
}

#[test]
fn test_trend() {
    let mut rc = RegimeClassifier::new(30_000);
    // 80% up → Trend
    for i in 0..100 {
        rc.update(i * 100, i % 5 != 0); // 80% up
    }
    assert_eq!(rc.classify(), Regime::Trend);
    assert!(rc.trend_direction_up());
}

#[test]
fn test_ambiguous() {
    let mut rc = RegimeClassifier::new(30_000);
    // ~65% up → Ambiguous
    for i in 0..100 {
        rc.update(i * 100, i % 3 != 0); // ~67% up
    }
    assert_eq!(rc.classify(), Regime::Ambiguous);
}

#[test]
fn test_insufficient_data() {
    let mut rc = RegimeClassifier::new(30_000);
    for i in 0..5 {
        rc.update(i * 100, true);
    }
    assert_eq!(rc.classify(), Regime::Ambiguous);
}

#[test]
fn regime_forgets_old_ticks() {
    let mut rc = RegimeClassifier::new(1_000);
    for i in 0..20 {
        rc.update(i, false);
    }
    assert_eq!(rc.total_ticks(), 20);
    assert!(!rc.trend_direction_up());
    for i in 0..20 {
        rc.update(5_000 + i, true);
    }
    assert_eq!(rc.total_ticks(), 20);
    assert_eq!(rc.dominant_of_total(), (20, 20));
    assert!(rc.trend_direction_up());
    assert_eq!(rc.classify(), Regime::Trend);
}

/// Sums over the trades of a window.
struct Vwap {
    tracker: VwapTracker<f64>,
    sum_pq: f64,
    sum_q: f64,
}

impl Vwap {
    fn new(window_ms: i64) -> Self {
        Vwap { tracker: VwapTracker::new(window_ms), sum_pq: 0.0, sum_q: 0.0 }
    }

    fn update(&mut self, ts_ms: i64, price: f64, qty: f64) {
        self.sum_pq += price * qty;
        self.sum_q += qty;
        for (_, (p, q)) in self.tracker.update(ts_ms, price, qty) {
            self.sum_pq -= p * q;
            self.sum_q -= q;
        }
    }

    fn vwap(&self) -> f64 {
        if self.sum_q > 0.0 {
            self.sum_pq / self.sum_q
        } else {
            0.0
        }
    }

    fn has_data(&self) -> bool {
        self.sum_q > 0.0
    }

    fn len(&self) -> usize {
        self.tracker.len()
    }
}

/// Scenario: Two trades with equal quantity (1.0 each) at prices 100.0 and 102.0.
/// Expected: VWAP = (100*1 + 102*1) / (1+1) = 101.0 (simple average when quantities are equal).
#[test]
fn test_vwap_basic() {
    let mut v = Vwap::new(10_000);
    v.update(1000, 100.0, 1.0);
    v.update(2000, 102.0, 1.0);
    // VWAP = (100 + 102) / 2 = 101
    assert!((v.vwap() - 101.0).abs() < 1e-10);
}

/// Scenario: Two trades with unequal quantities: 3.0 units at 100.0 and 1.0 unit at 106.0.
/// Expected: VWAP = (300 + 106) / 4 = 101.5, skewed toward the larger trade.
#[test]
fn test_vwap_weighted() {
    let mut v = Vwap::new(10_000);
    v.update(1000, 100.0, 3.0);
    v.update(2000, 106.0, 1.0);
    // VWAP = (300 + 106) / 4 = 101.5
    assert!((v.vwap() - 101.5).abs() < 1e-10);
}

/// Scenario: Three trades in a 5-second window; the third arrives at t=7s, evicting the first (t=1s).
/// Expected: VWAP > 110 because the stale $100 trade is evicted, leaving only $110 and $120 trades.
#[test]
fn test_vwap_eviction() {
    let mut v = Vwap::new(5000);
    v.update(1000, 100.0, 1.0);
    v.update(2000, 110.0, 1.0);
    v.update(7000, 120.0, 1.0);
    // First trade (ts=1000) should be evicted (cutoff = 7000 - 5000 = 2000)
    // Second trade (ts=2000) is exactly at cutoff, may or may not be evicted
    // VWAP should be close to (110 + 120) / 2 or just 120
    assert!(v.vwap() > 110.0);
}

/// Scenario: Freshly constructed VwapTracker with no trades added.
/// Expected: vwap() returns 0.0 and has_data() returns false.
#[test]
fn test_vwap_empty() {
    let v = Vwap::new(5000);
    assert_eq!(v.vwap(), 0.0);
    assert!(!v.has_data());
}

/// Scenario: Freshly constructed VwapTracker with no trades.
/// Expected: len() returns 0.
#[test]
fn test_len_empty() {
    let v = Vwap::new(5000);
    assert_eq!(v.len(), 0);
}

/// Scenario: Three trades added within the 10-second window, no evictions triggered.
/// Expected: len() returns 3, reflecting all trades still in the buffer.
#[test]
fn test_len_after_updates() {
    let mut v = Vwap::new(10_000);
    v.update(1000, 100.0, 1.0);
    v.update(2000, 101.0, 2.0);
    v.update(3000, 102.0, 0.5);
    assert_eq!(v.len(), 3);
}

/// Scenario: Three trades in a 5-second window, then a fourth at t=7s that evicts the first (t=1s < cutoff=2s).
/// Expected: len() drops from 3 to 3 again (one evicted, one added), containing ts=2000, 3000, 7000.
#[test]
fn test_len_after_eviction() {
    let mut v = Vwap::new(5000);
    v.update(1000, 100.0, 1.0);
    v.update(2000, 101.0, 1.0);
    v.update(3000, 102.0, 1.0);
    assert_eq!(v.len(), 3);

    // ts=7000 → cutoff=2000 → evicts ts=1000 (< 2000)
    v.update(7000, 103.0, 1.0);
    assert_eq!(v.len(), 3); // ts=2000, 3000, 7000
}

/// Scenario: One trade added, then a second trade far in the future (t=100s) evicts the first.
/// Expected: has_data() remains true (new trade is in window), len()=1, vwap equals the new trade's price.
#[test]
fn test_has_data_after_full_eviction() {
    let mut v = Vwap::new(5000);
    v.update(1000, 100.0, 1.0);
    assert!(v.has_data());

    // Single trade far in the future — old trade evicted, new one remains
    v.update(100_000, 200.0, 1.0);
    assert!(v.has_data());
    assert_eq!(v.len(), 1);
    assert!((v.vwap() - 200.0).abs() < 1e-10);
}

/// Scenario: Two trades at t=1s and t=2s; a third at t=6s (cutoff=1000, exact match) and a fourth at t=6.001s (cutoff=1001).
/// Expected: Strict-less-than eviction keeps t=1000 when cutoff=1000, but evicts it when cutoff=1001.
#[test]
fn test_eviction_exact_boundary() {
    let mut v = Vwap::new(5000);
    v.update(1000, 100.0, 1.0); // ts=1000
    v.update(2000, 110.0, 1.0); // ts=2000

    // cutoff = 6000 - 5000 = 1000. Eviction is `*t < cutoff` so ts=1000 is NOT evicted
    v.update(6000, 120.0, 1.0);
    // ts=1000 is at cutoff exactly → kept (< is strict)
    assert_eq!(v.len(), 3);

    // Now cutoff = 6001 - 5000 = 1001 → ts=1000 IS evicted
    v.update(6001, 121.0, 1.0);
    assert_eq!(v.len(), 3); // ts=2000, 6000, 6001
}

/// Scenario: A single trade with qty=0.0 added to the tracker.
/// Expected: sum_q remains 0, so has_data() is false and vwap() returns 0.0 (no meaningful data).
#[test]
fn test_zero_quantity_trade() {
    let mut v = Vwap::new(10_000);
    v.update(1000, 100.0, 0.0);
    // Zero quantity → sum_q = 0 → no data
    assert!(!v.has_data());
    assert_eq!(v.vwap(), 0.0);
}

/// Scenario: 1000 trades all at the same price (95,000) with equal quantity, within the window.
/// Expected: VWAP equals 95,000 exactly, verifying numerical stability with many identical-price trades.
#[test]
fn test_vwap_many_trades() {
    let mut v = Vwap::new(10_000);
    // 1000 trades at the same price → VWAP should equal that price
    for i in 0..1000 {
        v.update(i * 10, 95_000.0, 0.1);
    }
    assert!((v.vwap() - 95_000.0).abs() < 1e-6);
}

/// Scenario: 100 trades with ascending prices 100..199, all with qty=1.0, within the window.
/// Expected: VWAP = arithmetic mean of 100..199 = 149.5, since equal quantities reduce VWAP to a simple average.
#[test]
fn test_vwap_ascending_prices() {
    let mut v = Vwap::new(100_000);
    // Ascending prices with equal qty → VWAP = average price
    for i in 0..100 {
        v.update(i * 100, 100.0 + i as f64, 1.0);
    }
    // Average of 100..199 = 149.5
    assert!((v.vwap() - 149.5).abs() < 1e-10);
}

#[test]
fn window_returns_what_fell_out() {
    let mut w: RollingWindow<u8> = RollingWindow::new(10);
    assert!(w.push(0, 1).is_empty());
    assert!(w.push(5, 2).is_empty());
    assert_eq!(w.push(14, 3), vec![(0, 1)]);
    assert_eq!(w.push(100, 4), vec![(5, 2), (14, 3)]);
}

/// Variance of returns, folded with a decay.
struct Ewma {
    inner: EwmaVol<f64>,
    lambda: f64,
    sigma_sq: f64,
}

impl Ewma {
    fn new(lambda: f64, min_updates: u32) -> Self {
        Ewma { inner: EwmaVol::new(0.0, min_updates), lambda, sigma_sq: 0.0 }
    }

    fn update(&mut self, price: f64) {
        if let Some(base) = self.inner.update(price, price > 0.0) {
            let r = (price / base).ln();
            self.sigma_sq = self.lambda * self.sigma_sq + (1.0 - self.lambda) * r * r;
        }
    }

    fn sigma(&self) -> f64 {
        self.sigma_sq.sqrt()
    }

    fn is_valid(&self) -> bool {
        self.inner.is_valid()
    }
}

#[test]
fn test_ewma_basic() {
    let mut vol = Ewma::new(0.94, 5);
    // Feed constant price → sigma should be ~0
    for _ in 0..10 {
        vol.update(100.0);
    }
    assert!(vol.sigma() < 1e-10, "Constant price sigma = {}", vol.sigma());
}

#[test]
fn test_ewma_volatile() {
    let mut vol = Ewma::new(0.94, 5);
    // Alternating prices → sigma should be > 0
    for i in 0..100 {
        let price = if i % 2 == 0 { 100.0 } else { 101.0 };
        vol.update(price);
    }
    assert!(vol.is_valid());
    assert!(vol.sigma() > 0.0, "Volatile sigma should be > 0");
    assert!(vol.sigma() < 0.1, "sigma = {}", vol.sigma());
}

#[test]
fn test_ewma_validity() {
    let mut vol = Ewma::new(0.94, 50);
    // First price sets last_price, no return computed.
    // Need 51 prices total to get 50 returns.
    for i in 0..50 {
        vol.update(100.0 + i as f64 * 0.01);
    }
    assert!(!vol.is_valid()); // 49 returns, not enough
    vol.update(100.5);        // 50th return
    assert!(vol.is_valid());
}

#[test]
fn test_ewma_validity_300() {
    let mut vol = Ewma::new(0.94, 300);
    // Simulate ~3s of Binance trades
    for i in 0..300 {
        vol.update(100_000.0 + (i as f64 * 0.01).sin());
    }
    assert!(!vol.is_valid()); // 299 returns
    vol.update(100_000.5);     // 300th return
    assert!(vol.is_valid());
}

/// Variance of returns between samples, per second.
struct Sampled {
    inner: SampledEwmaVol<f64>,
    lambda: f64,
    sigma_sq: f64,
}

impl Sampled {
    fn new(lambda: f64, min_samples: u32) -> Self {
        Sampled { inner: SampledEwmaVol::new(0.0, min_samples), lambda, sigma_sq: 0.0 }
    }

    fn update(&mut self, price: f64, ts_ms: i64) -> bool {
        match self.inner.update(price, price > 0.0, ts_ms) {
            Some(sample) => {
                let dt_s = sample.elapsed_ms as f64 / 1000.0;
                let r = (price / sample.base).ln();
                self.sigma_sq = self.lambda * self.sigma_sq + (1.0 - self.lambda) * (r * r) / dt_s;
                true
            }
            None => false,
        }
    }

    fn sigma(&self) -> f64 {
        self.sigma_sq.sqrt()
    }

    fn is_valid(&self) -> bool {
        self.inner.is_valid()
    }
}

#[test]
fn test_sampled_ewma_basic() {
    let mut vol = Sampled::new(0.94, 5);
    let base_price = 100_000.0;
    // Feed prices at 1-second intervals
    for i in 0..10 {
        let sampled = vol.update(base_price, i * 1000);
        if i == 0 {
            assert!(!sampled, "First price should just seed");
        } else {
            assert!(sampled, "Each subsequent 1s gap should sample");
        }
    }
    // Constant price → sigma ≈ 0
    assert!(vol.sigma() < 1e-10, "Constant price sigma = {}", vol.sigma());
}

#[test]
fn test_sampled_ewma_volatile() {
    let mut vol = Sampled::new(0.94, 5);
    // Alternating prices at 1-second intervals → actual vol
    for i in 0..20 {
        let price = if i % 2 == 0 { 100_000.0 } else { 100_100.0 };
        vol.update(price, i * 1000);
    }
    assert!(vol.is_valid());
    assert!(vol.sigma() > 0.0, "Volatile sigma should be > 0");
    // sigma should be roughly 0.001/s (0.1% per second)
    assert!(vol.sigma() < 0.01, "sigma = {}", vol.sigma());
}

#[test]
fn test_sampled_ewma_skips_sub_second() {
    let mut vol = Sampled::new(0.94, 5);
    vol.update(100_000.0, 0);
    // Rapid-fire ticks within 1 second — should all be ignored
    for i in 1..100 {
        let sampled = vol.update(100_010.0, i * 10); // 10ms apart
        assert!(!sampled, "Sub-second tick at {}ms should not sample", i * 10);
    }
    assert_eq!(vol.inner.n_samples(), 0);
}

#[test]
fn test_sampled_ewma_validity() {
    let mut vol = Sampled::new(0.94, 10);
    for i in 0..10 {
        vol.update(100_000.0 + i as f64, i * 1000);
    }
    assert!(!vol.is_valid()); // 9 samples (first is seed)
    vol.update(100_010.0, 10_000);
    assert!(vol.is_valid()); // 10th sample
}

#[test]
fn samples_ignore_prices_that_are_not_positive() {
    let mut vol = Sampled::new(0.94, 1);
    assert!(!vol.update(-1.0, 0));
    assert!(!vol.update(100.0, 5_000));
    assert!(!vol.update(0.0, 10_000));
    assert!(vol.update(101.0, 10_000));
    assert_eq!(vol.inner.n_samples(), 1);
}

#[test]
fn the_other_direction_is_the_same_regime() {
    let mut a = RegimeClassifier::new(10_000);
    let mut b = RegimeClassifier::new(10_000);
    for i in 0..40_i64 {
        let up = i % 5 != 0 && i % 7 != 3;
        a.update(i * 700, up);
        b.update(i * 700, !up);
        assert_eq!(a.classify(), b.classify());
        assert_eq!(a.total_ticks(), b.total_ticks());
        assert_eq!(a.dominant_of_total(), b.dominant_of_total());
    }
    assert_eq!(a.total_ticks(), 15);
}

#[test]
fn samples_over_a_series_of_trades() {
    let mut v: SampledEwmaVol<f64> = SampledEwmaVol::new(0.0, 2);
    let trades = [
        (0.0, false, 100), (5.0, true, 500), (6.0, true, 1_499), (0.0, false, 3_000), (7.0, true, 1_500),
        (8.0, true, 2_499), (9.0, true, 1_000), (10.0, true, 4_000),
    ];
    let taken: Vec<Option<(f64, u64)>> = trades.iter()
        .map(|(price, counts, ts)| v.update(*price, *counts, *ts).map(|s| (s.base, s.elapsed_ms)))
        .collect();
    assert_eq!(taken, vec![None, None, None, None, Some((5.0, 1_000)), None, None, Some((7.0, 2_500))]);
    assert!(v.n_samples() == 2 && v.is_valid());
}
