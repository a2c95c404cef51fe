//! Settings and intervals.

use polymarket_crypto::config::{default_series_id, floor_to_multiple, Config, EnvVars, Interval};

fn no_env() -> EnvVars {
    EnvVars {
        asset: None,
        interval: None,
        binance_ws: None,
        binance_ws_fallback: None,
        pm_clob_ws: None,
        gamma_api_url: None,
        series_id: None,
        telegram_bot_token: None,
        telegram_chat_id: None,
        max_orders_per_market: None,
        cooldown_ms: None,
        strat_latency_arb: None,
        strat_certainty_capture: None,
        strat_convexity_fade: None,
        strat_strike_misalign: None,
        strat_lp_extreme: None,
        strat_cross_tf: None,
        dry_run: None,
        polymarket_private_key: None,
        polymarket_funder_address: None,
        polymarket_sig_type: None,
    }
}

fn make_config() -> Config {
    Config::from_env(&no_env())
}

fn s(t: &str) -> Option<String> {
    Some(t.to_string())
}

/// Scenario: settings of an empty environment.
/// Expected: All active strategies default to true, cross_timeframe to false.
#[test]
fn test_strategy_toggles_default_true() {
    let config = make_config();
    assert!(config.strategy_latency_arb, "latency_arb should default to enabled");
    assert!(config.strategy_certainty_capture, "certainty_capture should default to enabled");
    assert!(config.strategy_convexity_fade, "convexity_fade should default to enabled");
    assert!(config.strategy_strike_misalign, "strike_misalign should default to enabled");
    assert!(config.strategy_lp_extreme, "lp_extreme should default to enabled");
}

/// Scenario: cross_timeframe is disabled by default since no cross-market feed exists.
/// Expected: strategy_cross_timeframe is false in the default config.
#[test]
fn test_cross_timeframe_default_false() {
    let config = make_config();
    assert!(!config.strategy_cross_timeframe, "cross_timeframe should default to disabled");
}

/// Scenario: A strategy toggle can be set to false to disable it.
/// Expected: Only the disabled strategy is off, others remain enabled.
#[test]
fn test_disable_single_strategy() {
    let mut config = make_config();
    config.strategy_latency_arb = false;
    assert!(!config.strategy_latency_arb, "latency_arb should be disabled");
    assert!(config.strategy_certainty_capture, "other strategies should stay enabled");
    assert!(config.strategy_convexity_fade, "other strategies should stay enabled");
}

/// Scenario: cross_timeframe toggle set to true to enable the disabled strategy.
/// Expected: strategy_cross_timeframe becomes true.
#[test]
fn test_enable_cross_timeframe() {
    let mut config = make_config();
    config.strategy_cross_timeframe = true;
    assert!(config.strategy_cross_timeframe, "cross_timeframe should be enabled when set to true");
}

/// Scenario: Interval parsing with known and unknown interval strings.
/// Expected: Known strings map correctly, unknown falls back to M5.
#[test]
fn test_interval_from_str() {
    assert_eq!(Interval::from_str("5m"), Interval::M5);
    assert_eq!(Interval::from_str("15m"), Interval::M15);
    assert_eq!(Interval::from_str("1h"), Interval::H1);
    assert_eq!(Interval::from_str("4h"), Interval::H4);
    assert_eq!(Interval::from_str("unknown"), Interval::M5);
}

/// Scenario: Each interval has correct window duration in seconds and milliseconds.
/// Expected: M5=300s, M15=900s, H1=3600s, H4=14400s (and ms = s * 1000).
#[test]
fn test_interval_window_durations() {
    assert_eq!(Interval::M5.window_secs(), 300);
    assert_eq!(Interval::M5.window_ms(), 300_000);
    assert_eq!(Interval::H4.window_secs(), 14400);
    assert_eq!(Interval::H4.window_ms(), 14_400_000);
}

/// Scenario: Known asset+interval combos return specific series IDs.
/// Expected: btc/5m → "10684", eth/15m → "10191", unknown → "10684" fallback.
#[test]
fn test_default_series_id() {
    assert_eq!(default_series_id("btc", &Interval::M5), "10684");
    assert_eq!(default_series_id("eth", &Interval::M15), "10191");
    assert_eq!(default_series_id("doge", &Interval::M5), "10684");
}

#[test]
fn every_series_id() {
    assert_eq!(default_series_id("btc", &Interval::M15), "10192");
    assert_eq!(default_series_id("btc", &Interval::H1), "10114");
    assert_eq!(default_series_id("btc", &Interval::H4), "10331");
    assert_eq!(default_series_id("sol", &Interval::M15), "10423");
    assert_eq!(default_series_id("xrp", &Interval::M15), "10422");
    assert_eq!(default_series_id("eth", &Interval::M5), "10684");
}

#[test]
fn interval_is_read_in_any_case() {
    assert_eq!(Interval::from_str("15M"), Interval::M15);
    assert_eq!(Interval::from_str("1H"), Interval::H1);
}

#[test]
fn interval_labels_read_back() {
    for i in [Interval::M5, Interval::M15, Interval::H1, Interval::H4] {
        assert_eq!(Interval::from_str(i.label()), i);
        assert_eq!(i.window_ms(), i.window_secs() * 1000);
        assert_eq!(i.binance_kline_label(), i.label());
    }
}

#[test]
fn interval_offsets() {
    assert_eq!(Interval::M5.open_window_ms(), 15_000);
    assert_eq!(Interval::M15.open_window_ms(), 30_000);
    assert_eq!(Interval::H1.open_window_ms(), 120_000);
    assert_eq!(Interval::H4.open_window_ms(), 300_000);
    assert_eq!(Interval::M15.pre_wake_secs(), 15);
    assert_eq!(Interval::H4.post_end_buffer_secs(), 30);
    assert_eq!(Interval::H1.recorder_post_end_secs(), 60);
    assert_eq!(Interval::M15.recorder_pre_wake_secs(), 10);
}

#[test]
fn candles_begin_at_multiples() {
    assert_eq!(Interval::M5.candle_boundary_ms(1_700_000_123_456), 1_700_000_100_000);
    assert_eq!(Interval::M5.candle_boundary_ms(1_700_000_100_000), 1_700_000_100_000);
    assert_eq!(floor_to_multiple(-1, 300_000), -300_000);
}

#[test]
fn defaults_of_an_empty_environment() {
    let c = make_config();
    assert_eq!(c.asset, "btc");
    assert_eq!(c.interval, Interval::M5);
    assert_eq!(c.binance_ws, "wss://stream.binance.com:9443/ws/btcusdt@trade");
    assert_eq!(c.binance_ws_fallback, "wss://stream.binance.us:9443/ws/btcusd@trade");
    assert_eq!(c.polymarket_clob_ws, "wss://ws-subscriptions-clob.polymarket.com/ws/market");
    assert_eq!(c.gamma_api_url, "https://gamma-api.polymarket.com");
    assert_eq!(c.series_id, "10684");
    assert_eq!(c.max_orders_per_market, 10);
    assert_eq!(c.cooldown_ms, 5000);
    assert!(c.dry_run);
    assert_eq!(c.polymarket_signature_type, 0);
    assert!(c.tg_bot_token.is_none());
    assert_eq!(c.asset_label(), "BTC");
    assert_eq!(c.slug_prefix(), "btc-updown-5m-");
}

#[test]
fn environment_is_heeded() {
    let mut env = no_env();
    env.asset = s("ETH");
    env.interval = s("15m");
    env.max_orders_per_market = s("3");
    env.cooldown_ms = s("-7");
    env.strat_latency_arb = s("false");
    env.strat_cross_tf = s("true");
    env.dry_run = s("false");
    env.polymarket_sig_type = s("2");
    env.telegram_chat_id = s("42");
    let c = Config::from_env(&env);
    assert_eq!(c.asset, "eth");
    assert_eq!(c.interval, Interval::M15);
    assert_eq!(c.series_id, "10191");
    assert_eq!(c.binance_ws, "wss://stream.binance.com:9443/ws/ethusdt@trade");
    assert_eq!(c.max_orders_per_market, 3);
    assert_eq!(c.cooldown_ms, -7);
    assert!(!c.strategy_latency_arb);
    assert!(c.strategy_cross_timeframe);
    assert!(!c.dry_run);
    assert_eq!(c.polymarket_signature_type, 2);
    assert_eq!(c.tg_chat_id.as_deref(), Some("42"));
}

#[test]
fn unreadable_numbers_fall_back() {
    let mut env = no_env();
    env.max_orders_per_market = s("many");
    env.cooldown_ms = s("1.5");
    env.polymarket_sig_type = s("256");
    let c = Config::from_env(&env);
    assert_eq!(c.max_orders_per_market, 10);
    assert_eq!(c.cooldown_ms, 5000);
    assert_eq!(c.polymarket_signature_type, 0);
}

#[test]
fn offline_settings() {
    let c = Config::offline();
    assert_eq!(c.asset, "btc");
    assert!(c.dry_run);
    assert!(c.strategy_lp_extreme);
    assert!(!c.strategy_cross_timeframe);
    assert_eq!(c.series_id, "");
}
