//! Trading intervals and the settings of a run.

use vstd::prelude::*;
use vstd::string::*;

use crate::text::{integer_within, parse_i64, parse_unsigned, str_eq};
use crate::text::{lowercase, uppercase};

verus! {

/// Trading interval.
#[derive(Clone, Copy, Debug, PartialEq, Eq, Hash, Structural)]
pub enum Interval {
    M5,
    M15,
    H1,
    H4,
}

/// The greatest multiple of `width` that is not above `t`.
pub open spec fn floor_to(t: int, width: int) -> int {
    t - t % width
}

/// The greatest multiple of `width` that is not above `t`.
pub fn floor_to_multiple(t: i64, width: i64) -> (r: i64)
    requires
        width > 0,
        floor_to(t as int, width as int) >= i64::MIN,
    ensures
        r == floor_to(t as int, width as int),
        r % width == 0,
        r <= t < r + width,
{
    let w: u64 = width as u64;
    let rem: u64 = if t >= 0 {
        (t as u64) % w
    } else {
        // For t = -m the remainder is that of w - m % w.
        let m: u64 = (-(t as i128)) as u64;
        let k: u64 = m % w;
        proof {
            let q = m as int / w as int;
            assert(m == q * w + k) by {
                vstd::arithmetic::div_mod::lemma_fundamental_div_mod(m as int, w as int);
                assert(w * q == q * w) by (nonlinear_arith);
            }
            if k == 0 {
                assert(t as int == (-q) * (w as int) + 0) by (nonlinear_arith)
                    requires
                        t as int == -(q * (w as int)),
                ;
                vstd::arithmetic::div_mod::lemma_fundamental_div_mod_converse(
                    t as int,
                    w as int,
                    -q,
                    0,
                );
            } else {
                assert(t as int == (-q - 1) * (w as int) + (w - k)) by (nonlinear_arith)
                    requires
                        t as int == -(q * (w as int) + k),
                ;
                vstd::arithmetic::div_mod::lemma_fundamental_div_mod_converse(
                    t as int,
                    w as int,
                    -q - 1,
                    w - k,
                );
            }
        }
        if k == 0 {
            0
        } else {
            w - k
        }
    };
    proof {
        lemma_floor_to(t as int, width as int);
    }
    (t as i128 - rem as i128) as i64
}

pub proof fn lemma_floor_to(t: int, width: int)
    requires
        width > 0,
    ensures
        floor_to(t, width) % width == 0,
        floor_to(t, width) <= t < floor_to(t, width) + width,
{
    vstd::arithmetic::div_mod::lemma_fundamental_div_mod(t, width);
    vstd::arithmetic::div_mod::lemma_mod_bound(t, width);
    let q = t / width;
    assert(floor_to(t, width) == q * width) by {
        assert(width * q == q * width) by (nonlinear_arith);
    }
    vstd::arithmetic::div_mod::lemma_mod_multiples_basic(q, width);
}

impl Interval {
    /// The interval that a label names, without regard to case: "15m", "1h" and "4h"; any
    /// other text stands for five minutes.
    pub fn from_str(s: &str) -> (r: Self)
        ensures
            r == Self::of_lowercase(lowercase(s@)),
            crate::text::ascii_text(s@) ==> r == Self::of_lowercase(
                s@.map_values(|c: char| crate::text::ascii_lower(c)),
            ),
    {
        let lower = s.to_lowercase();
        Self::from_lowercase(lower.as_str())
    }

    pub open spec fn of_lowercase(s: Seq<char>) -> Interval {
        if s == "15m"@ {
            Interval::M15
        } else if s == "1h"@ {
            Interval::H1
        } else if s == "4h"@ {
            Interval::H4
        } else {
            Interval::M5
        }
    }

    /// The interval that a lowercase label names.
    pub fn from_lowercase(s: &str) -> (r: Self)
        ensures
            r == Self::of_lowercase(s@),
    {
        if str_eq(s, "15m") {
            Interval::M15
        } else if str_eq(s, "1h") {
            Interval::H1
        } else if str_eq(s, "4h") {
            Interval::H4
        } else {
            Interval::M5
        }
    }

    pub open spec fn secs(self) -> int {
        match self {
            Interval::M5 => 300,
            Interval::M15 => 900,
            Interval::H1 => 3600,
            Interval::H4 => 14400,
        }
    }

    pub open spec fn name(self) -> Seq<char> {
        match self {
            Interval::M5 => "5m"@,
            Interval::M15 => "15m"@,
            Interval::H1 => "1h"@,
            Interval::H4 => "4h"@,
        }
    }

    /// Window duration in seconds.
    pub fn window_secs(&self) -> (r: i64)
        ensures
            r == self.secs(),
    {
        match self {
            Interval::M5 => 300,
            Interval::M15 => 900,
            Interval::H1 => 3600,
            Interval::H4 => 14400,
        }
    }

    /// Window duration in milliseconds.
    pub fn window_ms(&self) -> (r: i64)
        ensures
            r == self.secs() * 1000,
    {
        self.window_secs() * 1000
    }

    /// Human-readable label for slugs and log paths: "5m", "15m", "1h", "4h".
    pub fn label(&self) -> (r: &'static str)
        ensures
            r@ == self.name(),
    {
        match self {
            Interval::M5 => "5m",
            Interval::M15 => "15m",
            Interval::H1 => "1h",
            Interval::H4 => "4h",
        }
    }

    /// Binance klines API interval string: "5m", "15m", "1h", "4h".
    pub fn binance_kline_label(&self) -> (r: &'static str)
        ensures
            r@ == self.name(),
    {
        match self {
            Interval::M5 => "5m",
            Interval::M15 => "15m",
            Interval::H1 => "1h",
            Interval::H4 => "4h",
        }
    }

    pub open spec fn pre_wake(self) -> int {
        match self {
            Interval::M5 => 10,
            Interval::M15 => 15,
            Interval::H1 => 30,
            Interval::H4 => 60,
        }
    }

    /// How many seconds before market start to wake up.
    /// Short intervals wake early (10s), long intervals wake earlier (30s for 1h, 60s for 4h).
    pub fn pre_wake_secs(&self) -> (r: i64)
        ensures
            r == self.pre_wake(),
    {
        match self {
            Interval::M5 => 10,
            Interval::M15 => 15,
            Interval::H1 => 30,
            Interval::H4 => 60,
        }
    }

    pub open spec fn post_end_buffer(self) -> int {
        match self {
            Interval::M5 => 10,
            Interval::M15 => 10,
            Interval::H1 => 15,
            Interval::H4 => 30,
        }
    }

    /// How many seconds to wait after market end before settling.
    /// Longer intervals get more buffer for Binance candle close to finalize.
    pub fn post_end_buffer_secs(&self) -> (r: i64)
        ensures
            r == self.post_end_buffer(),
    {
        match self {
            Interval::M5 => 10,
            Interval::M15 => 10,
            Interval::H1 => 15,
            Interval::H4 => 30,
        }
    }

    pub open spec fn open_window(self) -> int {
        match self {
            Interval::M5 => 15_000,
            Interval::M15 => 30_000,
            Interval::H1 => 120_000,
            Interval::H4 => 300_000,
        }
    }

    /// Open strategies (strike_misalign) window in milliseconds.
    /// Scales with interval: 15s for 5m, 30s for 15m, 120s for 1h, 300s for 4h.
    pub fn open_window_ms(&self) -> (r: i64)
        ensures
            r == self.open_window(),
    {
        match self {
            Interval::M5 => 15_000,
            Interval::M15 => 30_000,
            Interval::H1 => 120_000,
            Interval::H4 => 300_000,
        }
    }

    /// Compute the candle boundary (start) timestamp in milliseconds for the
    /// candle that contains `now_ms`. E.g. for H1, if now_ms is 2:03:15,
    /// returns 2:00:00 in ms.
    pub fn candle_boundary_ms(&self, now_ms: i64) -> (r: i64)
        requires
            floor_to(now_ms as int, self.secs() * 1000) >= i64::MIN,
        ensures
            r == floor_to(now_ms as int, self.secs() * 1000),
            r % ((self.secs() * 1000) as i64) == 0,
            r <= now_ms < r + self.secs() * 1000,
    {
        let ws_ms: i64 = self.window_ms();
        floor_to_multiple(now_ms, ws_ms)
    }

    pub open spec fn recorder_post_end(self) -> int {
        match self {
            Interval::M5 => 30,
            Interval::M15 => 30,
            Interval::H1 => 60,
            Interval::H4 => 120,
        }
    }

    /// Recorder: how many seconds after market end to keep recording.
    pub fn recorder_post_end_secs(&self) -> (r: i64)
        ensures
            r == self.recorder_post_end(),
    {
        match self {
            Interval::M5 => 30,
            Interval::M15 => 30,
            Interval::H1 => 60,
            Interval::H4 => 120,
        }
    }

    pub open spec fn recorder_pre_wake(self) -> int {
        match self {
            Interval::M5 => 5,
            Interval::M15 => 10,
            Interval::H1 => 20,
            Interval::H4 => 30,
        }
    }

    /// Recorder: how many seconds before market start to wake up and start recording.
    pub fn recorder_pre_wake_secs(&self) -> (r: i64)
        ensures
            r == self.recorder_pre_wake(),
    {
        match self {
            Interval::M5 => 5,
            Interval::M15 => 10,
            Interval::H1 => 20,
            Interval::H4 => 30,
        }
    }
}

/// Reading the label of an interval gives the interval back.
pub proof fn law_label_round_trip(i: Interval)
    ensures
        Interval::of_lowercase(i.name()) == i,
        crate::text::ascii_text(i.name()),
        i.name().map_values(|c: char| crate::text::ascii_lower(c)) == i.name(),
{
    reveal_strlit("5m");
    reveal_strlit("15m");
    reveal_strlit("1h");
    reveal_strlit("4h");
    let s = i.name();
    assert(s.map_values(|c: char| crate::text::ascii_lower(c)) =~= s);
    match i {
        Interval::M5 => {
            assert("5m"@.len() != "15m"@.len());
            assert("5m"@[0] != "1h"@[0]);
            assert("5m"@[0] != "4h"@[0]);
        },
        Interval::M15 => {},
        Interval::H1 => {
            assert("1h"@.len() != "15m"@.len());
        },
        Interval::H4 => {
            assert("4h"@.len() != "15m"@.len());
            assert("4h"@[0] != "1h"@[0]);
        },
    }
}

/// A time lies in the candle whose boundary it is given, and every time of one candle is
/// given the same boundary.
pub proof fn law_candle_contains(i: Interval, t: int, u: int)
    requires
        floor_to(t, i.secs() * 1000) <= u < floor_to(t, i.secs() * 1000) + i.secs() * 1000,
    ensures
        floor_to(u, i.secs() * 1000) == floor_to(t, i.secs() * 1000),
{
    let w = i.secs() * 1000;
    lemma_floor_to(t, w);
    lemma_floor_to(u, w);
    let a = floor_to(t, w);
    let b = floor_to(u, w);
    vstd::arithmetic::div_mod::lemma_fundamental_div_mod(a, w);
    vstd::arithmetic::div_mod::lemma_fundamental_div_mod(b, w);
    let p = a / w;
    let q = b / w;
    assert(p == q) by (nonlinear_arith)
        requires
            w > 0,
            a == w * p,
            b == w * q,
            -w < a - b < w,
    ;
}

/// The environment as it bears on a run: each variable where it is set.
pub struct EnvVars {
    pub asset: Option<String>,
    pub interval: Option<String>,
    pub binance_ws: Option<String>,
    pub binance_ws_fallback: Option<String>,
    pub pm_clob_ws: Option<String>,
    pub gamma_api_url: Option<String>,
    pub series_id: Option<String>,
    pub telegram_bot_token: Option<String>,
    pub telegram_chat_id: Option<String>,
    pub max_orders_per_market: Option<String>,
    pub cooldown_ms: Option<String>,
    pub strat_latency_arb: Option<String>,
    pub strat_certainty_capture: Option<String>,
    pub strat_convexity_fade: Option<String>,
    pub strat_strike_misalign: Option<String>,
    pub strat_lp_extreme: Option<String>,
    pub strat_cross_tf: Option<String>,
    pub dry_run: Option<String>,
    pub polymarket_private_key: Option<String>,
    pub polymarket_funder_address: Option<String>,
    pub polymarket_sig_type: Option<String>,
}

/// Configuration loaded from environment variables.
#[derive(Clone)]
pub struct Config {
    pub asset: String,
    pub interval: Interval,
    pub binance_ws: String,
    pub binance_ws_fallback: String,
    pub polymarket_clob_ws: String,
    pub gamma_api_url: String,
    pub series_id: String,
    pub tg_bot_token: Option<String>,
    pub tg_chat_id: Option<String>,
    pub max_orders_per_market: u32,
    pub cooldown_ms: i64,
    /// Strategy toggles: false disables the strategy.
    pub strategy_latency_arb: bool,
    pub strategy_certainty_capture: bool,
    pub strategy_convexity_fade: bool,
    pub strategy_strike_misalign: bool,
    pub strategy_lp_extreme: bool,
    pub strategy_cross_timeframe: bool,
    pub dry_run: bool,
    pub polymarket_private_key: Option<String>,
    pub polymarket_funder_address: Option<String>,
    /// Signature type: 0=EOA, 1=Poly Proxy, 2=Gnosis Safe
    pub polymarket_signature_type: u8,
}

/// The characters of an optional string.
pub open spec fn opt_text(o: Option<String>) -> Option<Seq<char>> {
    match o {
        Some(s) => Some(s@),
        None => None,
    }
}

pub open spec fn text_or(o: Option<String>, default: Seq<char>) -> Seq<char> {
    match o {
        Some(s) => s@,
        None => default,
    }
}

fn string_or(o: &Option<String>, default: &str) -> (r: String)
    ensures
        r@ == text_or(*o, default@),
{
    match o {
        Some(s) => s.clone(),
        None => String::from_str(default),
    }
}

fn copied(o: &Option<String>) -> (r: Option<String>)
    ensures
        opt_text(r) == opt_text(*o),
{
    match o {
        Some(s) => Some(s.clone()),
        None => None,
    }
}

/// A toggle that is on unless it is set to "0" or, in any case of letters, to "false".
pub open spec fn toggle_value(o: Option<String>) -> bool {
    match o {
        Some(s) => s@ != "0"@ && lowercase(s@) != "false"@,
        None => true,
    }
}

/// A flag that is set by "1" or, in any case of letters, by "true".
pub open spec fn flag_value(o: Option<String>, default: bool) -> bool {
    match o {
        Some(s) => s@ == "1"@ || lowercase(s@) == "true"@,
        None => default,
    }
}

fn toggle(o: &Option<String>) -> (r: bool)
    ensures
        r == toggle_value(*o),
{
    match o {
        Some(s) => !str_eq(s.as_str(), "0") && !str_eq(
            s.as_str().to_lowercase().as_str(),
            "false",
        ),
        None => true,
    }
}

fn flag(o: &Option<String>, default: bool) -> (r: bool)
    ensures
        r == flag_value(*o, default),
{
    match o {
        Some(s) => str_eq(s.as_str(), "1") || str_eq(s.as_str().to_lowercase().as_str(), "true"),
        None => default,
    }
}

/// The integer that a variable holds, or a default where it is unset or holds none.
pub open spec fn integer_or(o: Option<String>, signed: bool, lo: int, hi: int, default: int) -> int {
    match o {
        Some(s) => match integer_within(s@, signed, lo, hi) {
            Some(v) => v,
            None => default,
        },
        None => default,
    }
}

fn unsigned_or(o: &Option<String>, max: u64, default: u64) -> (r: u64)
    requires
        default <= max,
    ensures
        r == integer_or(*o, false, 0, max as int, default as int),
        r <= max,
{
    match o {
        Some(s) => match parse_unsigned(s.as_str(), max) {
            Some(v) => v,
            None => default,
        },
        None => default,
    }
}

fn i64_or(o: &Option<String>, default: i64) -> (r: i64)
    ensures
        r == integer_or(*o, true, i64::MIN as int, i64::MAX as int, default as int),
{
    match o {
        Some(s) => match parse_i64(s.as_str()) {
            Some(v) => v,
            None => default,
        },
        None => default,
    }
}

/// The lowercase asset of a run: what `ASSET` holds, or "btc".
pub open spec fn asset_of(env: EnvVars) -> Seq<char> {
    lowercase(text_or(env.asset, "btc"@))
}

/// The interval of a run: what `INTERVAL` names, or five minutes.
pub open spec fn interval_of(env: EnvVars) -> Interval {
    Interval::of_lowercase(lowercase(text_or(env.interval, "5m"@)))
}

impl Config {
    /// Whether settings are those that the environment gives.
    pub open spec fn follows(env: EnvVars, c: Config) -> bool {
        &&& c.asset@ == asset_of(env)
        &&& c.interval == interval_of(env)
        &&& c.binance_ws@ == text_or(
                env.binance_ws,
                "wss://stream.binance.com:9443/ws/"@ + asset_of(env) + "usdt@trade"@,
            )
        &&& c.binance_ws_fallback@ == text_or(
                env.binance_ws_fallback,
                "wss://stream.binance.us:9443/ws/"@ + asset_of(env) + "usd@trade"@,
            )
        &&& c.polymarket_clob_ws@ == text_or(
                env.pm_clob_ws,
                "wss://ws-subscriptions-clob.polymarket.com/ws/market"@,
            )
        &&& c.gamma_api_url@ == text_or(env.gamma_api_url, "https://gamma-api.polymarket.com"@)
        &&& c.series_id@ == text_or(env.series_id, series_of(asset_of(env), interval_of(env)))
        &&& opt_text(c.tg_bot_token) == opt_text(env.telegram_bot_token)
        &&& opt_text(c.tg_chat_id) == opt_text(env.telegram_chat_id)
        &&& c.max_orders_per_market == integer_or(
                env.max_orders_per_market,
                false,
                0,
                u32::MAX as int,
                10,
            )
        &&& c.cooldown_ms == integer_or(
                env.cooldown_ms,
                true,
                i64::MIN as int,
                i64::MAX as int,
                5000,
            )
        &&& c.strategy_latency_arb == toggle_value(env.strat_latency_arb)
        &&& c.strategy_certainty_capture == toggle_value(env.strat_certainty_capture)
        &&& c.strategy_convexity_fade == toggle_value(env.strat_convexity_fade)
        &&& c.strategy_strike_misalign == toggle_value(env.strat_strike_misalign)
        &&& c.strategy_lp_extreme == toggle_value(env.strat_lp_extreme)
        &&& c.strategy_cross_timeframe == flag_value(env.strat_cross_tf, false)
        &&& c.dry_run == flag_value(env.dry_run, true)
        &&& opt_text(c.polymarket_private_key) == opt_text(env.polymarket_private_key)
        &&& opt_text(c.polymarket_funder_address) == opt_text(env.polymarket_funder_address)
        &&& c.polymarket_signature_type == integer_or(
                env.polymarket_sig_type,
                false,
                0,
                u8::MAX as int,
                0,
            )
    }

    /// The settings that the environment gives.
    pub fn from_env(env: &EnvVars) -> (c: Self)
        ensures
            c.asset@ == asset_of(*env),
            c.interval == interval_of(*env),
            c.binance_ws@ == text_or(
                env.binance_ws,
                "wss://stream.binance.com:9443/ws/"@ + asset_of(*env) + "usdt@trade"@,
            ),
            c.binance_ws_fallback@ == text_or(
                env.binance_ws_fallback,
                "wss://stream.binance.us:9443/ws/"@ + asset_of(*env) + "usd@trade"@,
            ),
            c.polymarket_clob_ws@ == text_or(
                env.pm_clob_ws,
                "wss://ws-subscriptions-clob.polymarket.com/ws/market"@,
            ),
            c.gamma_api_url@ == text_or(env.gamma_api_url, "https://gamma-api.polymarket.com"@),
            c.series_id@ == text_or(env.series_id, series_of(asset_of(*env), interval_of(*env))),
            opt_text(c.tg_bot_token) == opt_text(env.telegram_bot_token),
            opt_text(c.tg_chat_id) == opt_text(env.telegram_chat_id),
            c.max_orders_per_market == integer_or(
                env.max_orders_per_market,
                false,
                0,
                u32::MAX as int,
                10,
            ),
            c.cooldown_ms == integer_or(
                env.cooldown_ms,
                true,
                i64::MIN as int,
                i64::MAX as int,
                5000,
            ),
            c.strategy_latency_arb == toggle_value(env.strat_latency_arb),
            c.strategy_certainty_capture == toggle_value(env.strat_certainty_capture),
            c.strategy_convexity_fade == toggle_value(env.strat_convexity_fade),
            c.strategy_strike_misalign == toggle_value(env.strat_strike_misalign),
            c.strategy_lp_extreme == toggle_value(env.strat_lp_extreme),
            c.strategy_cross_timeframe == flag_value(env.strat_cross_tf, false),
            c.dry_run == flag_value(env.dry_run, true),
            opt_text(c.polymarket_private_key) == opt_text(env.polymarket_private_key),
            opt_text(c.polymarket_funder_address) == opt_text(env.polymarket_funder_address),
            c.polymarket_signature_type == integer_or(
                env.polymarket_sig_type,
                false,
                0,
                u8::MAX as int,
                0,
            ),
            Self::follows(*env, c),
    {
        let asset = string_or(&env.asset, "btc").as_str().to_lowercase();
        let interval = Interval::from_str(string_or(&env.interval, "5m").as_str());

        let binance_ws = string_or(
            &env.binance_ws,
            String::from_str("wss://stream.binance.com:9443/ws/").concat(asset.as_str()).concat(
                "usdt@trade",
            ).as_str(),
        );
        let binance_ws_fallback = string_or(
            &env.binance_ws_fallback,
            String::from_str("wss://stream.binance.us:9443/ws/").concat(asset.as_str()).concat(
                "usd@trade",
            ).as_str(),
        );
        let series_id = string_or(&env.series_id, default_series_id(asset.as_str(), &interval));

        Config {
            asset,
            interval,
            binance_ws,
            binance_ws_fallback,
            polymarket_clob_ws: string_or(
                &env.pm_clob_ws,
                "wss://ws-subscriptions-clob.polymarket.com/ws/market",
            ),
            gamma_api_url: string_or(&env.gamma_api_url, "https://gamma-api.polymarket.com"),
            series_id,
            tg_bot_token: copied(&env.telegram_bot_token),
            tg_chat_id: copied(&env.telegram_chat_id),
            max_orders_per_market: unsigned_or(
                &env.max_orders_per_market,
                u32::MAX as u64,
                10,
            ) as u32,
            cooldown_ms: i64_or(&env.cooldown_ms, 5000),
            strategy_latency_arb: toggle(&env.strat_latency_arb),
            strategy_certainty_capture: toggle(&env.strat_certainty_capture),
            strategy_convexity_fade: toggle(&env.strat_convexity_fade),
            strategy_strike_misalign: toggle(&env.strat_strike_misalign),
            strategy_lp_extreme: toggle(&env.strat_lp_extreme),
            strategy_cross_timeframe: flag(&env.strat_cross_tf, false),
            dry_run: flag(&env.dry_run, true),
            polymarket_private_key: copied(&env.polymarket_private_key),
            polymarket_funder_address: copied(&env.polymarket_funder_address),
            polymarket_signature_type: unsigned_or(
                &env.polymarket_sig_type,
                u8::MAX as u64,
                0,
            ) as u8,
        }
    }

    /// Whether these are the settings of runs over recorded markets: no connections, no
    /// account, every strategy on but the one that needs other markets.
    pub open spec fn is_offline(self) -> bool {
        &&& self.asset@ == "btc"@
        &&& self.interval == Interval::M5
        &&& self.binance_ws@.len() == 0
        &&& self.binance_ws_fallback@.len() == 0
        &&& self.polymarket_clob_ws@.len() == 0
        &&& self.gamma_api_url@.len() == 0
        &&& self.series_id@.len() == 0
        &&& self.tg_bot_token is None
        &&& self.tg_chat_id is None
        &&& self.max_orders_per_market == 10
        &&& self.cooldown_ms == 5000
        &&& self.strategy_latency_arb
        &&& self.strategy_certainty_capture
        &&& self.strategy_convexity_fade
        &&& self.strategy_strike_misalign
        &&& self.strategy_lp_extreme
        &&& !self.strategy_cross_timeframe
        &&& self.dry_run
        &&& self.polymarket_private_key is None
        &&& self.polymarket_funder_address is None
        &&& self.polymarket_signature_type == 0
    }

    /// The settings of runs over recorded markets.
    pub fn offline() -> (c: Self)
        ensures
            c.is_offline(),
    {
        Config {
            asset: String::from_str("btc"),
            interval: Interval::M5,
            binance_ws: String::new(),
            binance_ws_fallback: String::new(),
            polymarket_clob_ws: String::new(),
            gamma_api_url: String::new(),
            series_id: String::new(),
            tg_bot_token: None,
            tg_chat_id: None,
            max_orders_per_market: 10,
            cooldown_ms: 5000,
            strategy_latency_arb: true,
            strategy_certainty_capture: true,
            strategy_convexity_fade: true,
            strategy_strike_misalign: true,
            strategy_lp_extreme: true,
            strategy_cross_timeframe: false,
            dry_run: true,
            polymarket_private_key: None,
            polymarket_funder_address: None,
            polymarket_signature_type: 0,
        }
    }

    /// Uppercase asset label for display: "BTC", "ETH", "SOL", "XRP".
    pub fn asset_label(&self) -> (r: String)
        ensures
            r@ == uppercase(self.asset@),
            crate::text::ascii_text(self.asset@) ==> r@ == self.asset@.map_values(
                |c: char| crate::text::ascii_upper(c),
            ),
    {
        self.asset.as_str().to_uppercase()
    }

    pub open spec fn slug_start(self) -> Seq<char> {
        self.asset@ + "-updown-"@ + self.interval.name() + "-"@
    }

    /// Slug prefix for market discovery: "{asset}-updown-{interval}-".
    pub fn slug_prefix(&self) -> (r: String)
        ensures
            r@ == self.slug_start(),
    {
        self.asset.clone().concat("-updown-").concat(self.interval.label()).concat("-")
    }
}

pub open spec fn series_of(asset: Seq<char>, interval: Interval) -> Seq<char> {
    if asset == "btc"@ && interval == Interval::M5 {
        "10684"@
    } else if asset == "btc"@ && interval == Interval::M15 {
        "10192"@
    } else if asset == "btc"@ && interval == Interval::H1 {
        "10114"@
    } else if asset == "btc"@ && interval == Interval::H4 {
        "10331"@
    } else if asset == "eth"@ && interval == Interval::M15 {
        "10191"@
    } else if asset == "sol"@ && interval == Interval::M15 {
        "10423"@
    } else if asset == "xrp"@ && interval == Interval::M15 {
        "10422"@
    } else {
        "10684"@
    }
}

/// Known Polymarket series IDs by asset + interval.
///
/// Slug formats vary by interval:
///   5m/15m/4h: {asset}-updown-{interval}-{unix_ts}  (slug-based discovery works)
///   1h:        bitcoin-up-or-down-{month}-{day}-{hour}am/pm-et  (human-readable, series_id only)
pub fn default_series_id(asset: &str, interval: &Interval) -> (r: &'static str)
    ensures
        r@ == series_of(asset@, *interval),
{
    if str_eq(asset, "btc") {
        match interval {
            Interval::M5 => "10684",
            Interval::M15 => "10192",
            Interval::H1 => "10114",
            Interval::H4 => "10331",
        }
    } else if *interval != Interval::M15 {
        "10684"
    } else if str_eq(asset, "eth") {
        "10191"
    } else if str_eq(asset, "sol") {
        "10423"
    } else if str_eq(asset, "xrp") {
        "10422"
    } else {
        "10684"
    }
}

/// Unless the environment says otherwise, a run is dry, trades BTC over five minutes, and runs
/// every strategy but the one that needs other markets.
pub proof fn law_defaults(env: EnvVars, c: Config)
    requires
        Config::follows(env, c),
    ensures
        env.dry_run is None ==> c.dry_run,
        env.strat_latency_arb is None ==> c.strategy_latency_arb,
        env.strat_certainty_capture is None ==> c.strategy_certainty_capture,
        env.strat_convexity_fade is None ==> c.strategy_convexity_fade,
        env.strat_strike_misalign is None ==> c.strategy_strike_misalign,
        env.strat_lp_extreme is None ==> c.strategy_lp_extreme,
        env.strat_cross_tf is None ==> !c.strategy_cross_timeframe,
        env.max_orders_per_market is None ==> c.max_orders_per_market == 10,
        env.cooldown_ms is None ==> c.cooldown_ms == 5000,
        env.polymarket_sig_type is None ==> c.polymarket_signature_type == 0,
        env.asset is None ==> c.asset@ == lowercase("btc"@),
        env.gamma_api_url is None ==> c.gamma_api_url@ == "https://gamma-api.polymarket.com"@,
        env.pm_clob_ws is None ==> c.polymarket_clob_ws@
            == "wss://ws-subscriptions-clob.polymarket.com/ws/market"@,
        env.binance_ws is None ==> c.binance_ws@ == "wss://stream.binance.com:9443/ws/"@ + c.asset@
            + "usdt@trade"@,
        env.binance_ws_fallback is None ==> c.binance_ws_fallback@
            == "wss://stream.binance.us:9443/ws/"@ + c.asset@ + "usd@trade"@,
        env.series_id is None ==> c.series_id@ == series_of(c.asset@, c.interval),
{
}

/// What the environment sets, counts: each address, account and limit is that of its own
/// variable; a run is dry exactly where its variable says "1" or "true", and a strategy runs
/// unless its variable says "0" or "false".
pub proof fn law_environment_counts(env: EnvVars, c: Config)
    requires
        Config::follows(env, c),
    ensures
        env.dry_run matches Some(s) ==> (c.dry_run <==> s@ == "1"@ || lowercase(s@) == "true"@),
        env.strat_cross_tf matches Some(s) ==> (c.strategy_cross_timeframe <==> s@ == "1"@
            || lowercase(s@) == "true"@),
        env.strat_latency_arb matches Some(s) ==> (!c.strategy_latency_arb <==> s@ == "0"@
            || lowercase(s@) == "false"@),
        env.strat_certainty_capture matches Some(s) ==> (!c.strategy_certainty_capture <==> s@
            == "0"@ || lowercase(s@) == "false"@),
        env.strat_convexity_fade matches Some(s) ==> (!c.strategy_convexity_fade <==> s@ == "0"@
            || lowercase(s@) == "false"@),
        env.strat_strike_misalign matches Some(s) ==> (!c.strategy_strike_misalign <==> s@ == "0"@
            || lowercase(s@) == "false"@),
        env.strat_lp_extreme matches Some(s) ==> (!c.strategy_lp_extreme <==> s@ == "0"@
            || lowercase(s@) == "false"@),
        env.binance_ws matches Some(s) ==> c.binance_ws@ == s@,
        env.binance_ws_fallback matches Some(s) ==> c.binance_ws_fallback@ == s@,
        env.pm_clob_ws matches Some(s) ==> c.polymarket_clob_ws@ == s@,
        env.gamma_api_url matches Some(s) ==> c.gamma_api_url@ == s@,
        env.series_id matches Some(s) ==> c.series_id@ == s@,
        env.asset matches Some(s) ==> c.asset@ == lowercase(s@),
        env.interval matches Some(s) ==> c.interval == Interval::of_lowercase(lowercase(s@)),
        opt_text(c.tg_bot_token) == opt_text(env.telegram_bot_token),
        opt_text(c.tg_chat_id) == opt_text(env.telegram_chat_id),
        opt_text(c.polymarket_private_key) == opt_text(env.polymarket_private_key),
        opt_text(c.polymarket_funder_address) == opt_text(env.polymarket_funder_address),
        env.max_orders_per_market matches Some(s) ==> integer_within(
            s@,
            false,
            0,
            u32::MAX as int,
        ) matches Some(n) ==> c.max_orders_per_market == n,
        env.cooldown_ms matches Some(s) ==> integer_within(
            s@,
            true,
            i64::MIN as int,
            i64::MAX as int,
        ) matches Some(n) ==> c.cooldown_ms == n,
        env.polymarket_sig_type matches Some(s) ==> integer_within(
            s@,
            false,
            0,
            255,
        ) matches Some(n) ==> c.polymarket_signature_type == n,
{
}

/// The intervals: their lengths, their names, when a run wakes before one and settles after it,
/// how long it counts as opening, and how long around it a recording lasts.
pub proof fn law_intervals()
    ensures
        Interval::M5.secs() == 300 && Interval::M15.secs() == 900 && Interval::H1.secs() == 3_600
            && Interval::H4.secs() == 14_400,
        Interval::M5.name() == "5m"@ && Interval::M15.name() == "15m"@ && Interval::H1.name()
            == "1h"@ && Interval::H4.name() == "4h"@,
        Interval::M5.pre_wake() == 10 && Interval::M15.pre_wake() == 15 && Interval::H1.pre_wake()
            == 30 && Interval::H4.pre_wake() == 60,
        Interval::M5.post_end_buffer() == 10 && Interval::M15.post_end_buffer() == 10
            && Interval::H1.post_end_buffer() == 15 && Interval::H4.post_end_buffer() == 30,
        Interval::M5.open_window() == 15_000 && Interval::M15.open_window() == 30_000
            && Interval::H1.open_window() == 120_000 && Interval::H4.open_window() == 300_000,
        Interval::M5.recorder_post_end() == 30 && Interval::M15.recorder_post_end() == 30
            && Interval::H1.recorder_post_end() == 60 && Interval::H4.recorder_post_end() == 120,
        Interval::M5.recorder_pre_wake() == 5 && Interval::M15.recorder_pre_wake() == 10
            && Interval::H1.recorder_pre_wake() == 20 && Interval::H4.recorder_pre_wake() == 30,
{
}

/// A text that names no other interval stands for five minutes.
pub proof fn law_unknown_interval(s: Seq<char>)
    ensures
        Interval::of_lowercase(s) == Interval::M15 <==> s == "15m"@,
        s != "15m"@ && s != "1h"@ && s != "4h"@ ==> Interval::of_lowercase(s) == Interval::M5,
        Interval::of_lowercase(s) == Interval::H1 ==> s == "1h"@,
        Interval::of_lowercase(s) == Interval::H4 ==> s == "4h"@,
{
}

/// The series of the known markets; any other asset and length has that of BTC over five
/// minutes.
pub proof fn law_series(asset: Seq<char>, interval: Interval)
    ensures
        series_of("btc"@, Interval::M5) == "10684"@,
        series_of("btc"@, Interval::M15) == "10192"@,
        series_of("btc"@, Interval::H1) == "10114"@,
        series_of("btc"@, Interval::H4) == "10331"@,
        series_of("eth"@, Interval::M15) == "10191"@,
        series_of("sol"@, Interval::M15) == "10423"@,
        series_of("xrp"@, Interval::M15) == "10422"@,
        asset != "btc"@ && interval != Interval::M15 ==> series_of(asset, interval) == "10684"@,
        asset != "btc"@ && asset != "eth"@ && asset != "sol"@ && asset != "xrp"@ ==> series_of(
            asset,
            interval,
        ) == "10684"@,
{
    reveal_strlit("btc");
    reveal_strlit("eth");
    reveal_strlit("sol");
    reveal_strlit("xrp");
    assert("btc"@[0] == 'b' && "eth"@[0] == 'e' && "sol"@[0] == 's' && "xrp"@[0] == 'x');
}

/// A slug starts with the asset, then says that it is an up-or-down market, then names the
/// interval.
pub proof fn law_slug_start(c: Config)
    ensures
        c.slug_start() == c.asset@ + "-updown-"@ + c.interval.name() + "-"@,
{
}

/// The characters of an optional string are those of the string.
pub proof fn law_opt_text(s: String)
    ensures
        opt_text(Some(s)) == Some(s@),
        opt_text(None) is None,
{
}

/// A run on recorded data trades nothing and knows no address and no account; it runs the
/// strategies that run by default, under the limits that hold by default.
pub proof fn law_offline(c: Config)
    requires
        c.is_offline(),
    ensures
        c.dry_run,
        c.asset@ == "btc"@ && c.interval == Interval::M5,
        c.binance_ws@.len() == 0 && c.polymarket_clob_ws@.len() == 0 && c.gamma_api_url@.len() == 0,
        c.polymarket_private_key is None && c.tg_bot_token is None,
        c.strategy_latency_arb && c.strategy_certainty_capture && c.strategy_convexity_fade
            && c.strategy_strike_misalign && c.strategy_lp_extreme && !c.strategy_cross_timeframe,
        c.max_orders_per_market == 10 && c.cooldown_ms == 5000,
{
}

} // verus!
