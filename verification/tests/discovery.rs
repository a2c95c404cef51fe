//! Choosing a market from what the discovery service replies.

use polymarket_crypto::config::{Config, Interval};
use polymarket_crypto::json::{parse_json, Json};
use polymarket_crypto::market::dates::{parse_datetime_ms, parse_unix_ms, pick_time, unix_to_ms};
use polymarket_crypto::market::discovery::{after_lookup, best_event_market, candidate_windows};
use polymarket_crypto::market::discovery::{event_from_slug_reply, extract_first_token_id};
use polymarket_crypto::market::discovery::{extract_token_ids, market_from_series_reply};
use polymarket_crypto::market::discovery::{outcome_side, parse_event_to_market_info};
use polymarket_crypto::market::discovery::{series_url, slug_of_window, slug_to_ms, slug_url};
use polymarket_crypto::market::discovery::window_of_market;
use polymarket_crypto::market::discovery::{DiscoveryStep, Lookup};
use polymarket_crypto::types::{MarketInfo, Side};

fn json(text: &str) -> Json {
    parse_json(text).unwrap()
}

fn list(text: &str) -> Vec<Json> {
    match json(text) {
        Json::List(items) => items,
        _ => panic!("no list"),
    }
}

// ── parse_datetime_ms tests ──

/// Scenario: parse_datetime_ms receives a standard RFC3339 date string with Z suffix
/// Expected: returns the correct millisecond timestamp (seconds * 1000)
#[test]
fn test_parse_datetime_rfc3339() {
    let ms = parse_datetime_ms("2024-01-15T12:00:00Z").unwrap();
    // 2024-01-15 12:00:00 UTC = 1705320000 seconds
    assert_eq!(ms, 1705320000 * 1000);
}

/// Scenario: parse_datetime_ms receives an RFC3339 date with explicit +00:00 offset
/// Expected: returns the same timestamp as the Z suffix variant
#[test]
fn test_parse_datetime_rfc3339_with_offset() {
    let ms = parse_datetime_ms("2024-01-15T12:00:00+00:00").unwrap();
    assert_eq!(ms, 1705320000 * 1000);
}

/// Scenario: parse_datetime_ms receives a numeric string representing Unix seconds
/// Expected: detects the value is in seconds (< 1 trillion) and converts to milliseconds
#[test]
fn test_parse_datetime_unix_seconds() {
    let ms = parse_datetime_ms("1700000000").unwrap();
    assert_eq!(ms, 1700000000 * 1000);
}

/// Scenario: parse_datetime_ms receives a numeric string representing Unix milliseconds
/// Expected: detects the value is already in milliseconds (>= 1 trillion) and returns it as-is
#[test]
fn test_parse_datetime_unix_millis() {
    let ms = parse_datetime_ms("1700000000000").unwrap();
    assert_eq!(ms, 1700000000000);
}

/// Scenario: parse_datetime_ms receives a non-date, non-numeric string
/// Expected: returns None because no parsing strategy can handle it
#[test]
fn test_parse_datetime_invalid() {
    assert!(parse_datetime_ms("not-a-date").is_none());
}

// ── extract_token_ids tests ──

/// Scenario: two separate market objects with groupItemTitle "Up"/"Down" and JSON array clobTokenIds
/// Expected: extracts the correct Up and Down token IDs from the multi-market format
#[test]
fn test_extract_token_ids_two_market_format() {
    let markets: Vec<Json> = list(r#"[
        {"groupItemTitle": "Up", "clobTokenIds": "[\"up-tok-123\"]"},
        {"groupItemTitle": "Down", "clobTokenIds": "[\"down-tok-456\"]"}
    ]"#);
    let (up, down) = extract_token_ids(&markets);
    assert_eq!(up, "up-tok-123");
    assert_eq!(down, "down-tok-456");
}

/// Scenario: single market object with outcomes and clobTokenIds as JSON array strings
/// Expected: parses paired outcomes/tokens arrays and maps Up/Down to correct token IDs
#[test]
fn test_extract_token_ids_single_market_format() {
    let markets: Vec<Json> = list(r#"[
        {
            "outcomes": "[\"Up\",\"Down\"]",
            "clobTokenIds": "[\"token-up\",\"token-down\"]"
        }
    ]"#);
    let (up, down) = extract_token_ids(&markets);
    assert_eq!(up, "token-up");
    assert_eq!(down, "token-down");
}

/// Scenario: clobTokenIds is a JSON array encoded as a string (e.g. "[\"tok1\",\"tok2\"]")
/// Expected: deserializes the string and returns the first token ID
#[test]
fn test_extract_first_token_id_json_array_string() {
    let market: Json = json(
        r#"{"clobTokenIds": "[\"tok1\",\"tok2\"]"}"#);
    assert_eq!(extract_first_token_id(&market), "tok1");
}

/// Scenario: clobTokenIds is a plain string value (not a JSON array)
/// Expected: returns the raw string as the token ID
#[test]
fn test_extract_first_token_id_plain_string() {
    let market: Json = json(
        r#"{"clobTokenIds": "plain-token-id"}"#);
    assert_eq!(extract_first_token_id(&market), "plain-token-id");
}

/// Scenario: clobTokenIds is a native JSON array (not a string-encoded array)
/// Expected: reads the first element from the array directly
#[test]
fn test_extract_first_token_id_json_array() {
    let market: Json = json(
        r#"{"clobTokenIds": ["arr-tok1", "arr-tok2"]}"#);
    assert_eq!(extract_first_token_id(&market), "arr-tok1");
}

/// Scenario: market object has no clobTokenIds field at all
/// Expected: returns an empty string since there is no token to extract
#[test]
fn test_extract_first_token_id_missing() {
    let market: Json = json(r#"{}"#);
    assert_eq!(extract_first_token_id(&market), "");
}

// ── parse_event_to_market_info tests ──

/// Scenario: valid event with endDate, two Up/Down markets, and a slug containing a Unix timestamp
/// Expected: returns a MarketInfo with correct slug, start_ms from slug, end_ms from endDate, and token IDs
#[test]
fn test_parse_event_happy_path() {
    let event: Json = json(r#"{
        "endDate": "2024-01-15T12:05:00Z",
        "markets": [
            {"groupItemTitle": "Up", "clobTokenIds": "[\"up-abc\"]"},
            {"groupItemTitle": "Down", "clobTokenIds": "[\"down-xyz\"]"}
        ]
    }"#);
    let slug = "btc-updown-5m-1705320000";
    let result = parse_event_to_market_info(&event, slug, 300_000).unwrap();
    assert!(result.is_some());
    let info = result.unwrap();
    assert_eq!(info.slug, slug);
    assert_eq!(info.start_ms, 1705320000 * 1000);
    assert_eq!(info.up_token_id, "up-abc");
    assert_eq!(info.down_token_id, "down-xyz");
}

/// Scenario: event has a valid endDate but an empty markets array
/// Expected: returns None because there are no markets to extract tokens from
#[test]
fn test_parse_event_no_markets() {
    let event: Json = json(r#"{
        "endDate": "2024-01-15T12:05:00Z",
        "markets": []
    }"#);
    let result = parse_event_to_market_info(&event, "slug-123", 300_000).unwrap();
    assert!(result.is_none());
}

// ── parse_datetime_ms edge cases ──

/// Scenario: parse_datetime_ms receives an RFC3339 date with fractional seconds (.500)
/// Expected: preserves sub-second precision, returning base timestamp plus 500ms
#[test]
fn test_parse_datetime_fractional_seconds() {
    let ms = parse_datetime_ms("2024-01-15T12:00:00.500Z").unwrap();
    assert_eq!(ms, 1705320000 * 1000 + 500);
}

/// Scenario: parse_datetime_ms receives an empty string
/// Expected: returns None because no format can match an empty input
#[test]
fn test_parse_datetime_empty_string() {
    assert!(parse_datetime_ms("").is_none());
}

/// Scenario: parse_datetime_ms receives an RFC3339 date with a negative UTC offset (-05:00)
/// Expected: correctly converts to UTC, producing the same timestamp as the equivalent Z time
#[test]
fn test_parse_datetime_negative_timezone() {
    let ms = parse_datetime_ms("2024-01-15T07:00:00-05:00").unwrap();
    // 7am EST = 12:00 UTC = 1705320000
    assert_eq!(ms, 1705320000 * 1000);
}

/// Scenario: parse_datetime_ms receives a small Unix seconds value (year 2001)
/// Expected: still treated as seconds (< 1 trillion threshold) and multiplied by 1000
#[test]
fn test_parse_datetime_small_unix_seconds() {
    // Small unix timestamp (year 2001)
    let ms = parse_datetime_ms("1000000000").unwrap();
    assert_eq!(ms, 1000000000 * 1000);
}

// ── extract_token_ids edge cases ──

/// Scenario: two-market format with Down listed before Up in the array
/// Expected: matches by keyword regardless of array order, assigning tokens correctly
#[test]
fn test_extract_token_ids_reversed_order() {
    // Down market listed before Up — should still parse correctly
    let markets: Vec<Json> = list(r#"[
        {"groupItemTitle": "Down", "clobTokenIds": "[\"down-first\"]"},
        {"groupItemTitle": "Up", "clobTokenIds": "[\"up-second\"]"}
    ]"#);
    let (up, down) = extract_token_ids(&markets);
    assert_eq!(up, "up-second");
    assert_eq!(down, "down-first");
}

/// Scenario: markets use "Higher"/"Lower" as groupItemTitle instead of "Up"/"Down"
/// Expected: keyword matching recognizes "higher" as Up and "lower" as Down
#[test]
fn test_extract_token_ids_higher_lower_keywords() {
    let markets: Vec<Json> = list(r#"[
        {"groupItemTitle": "Higher", "clobTokenIds": "[\"higher-tok\"]"},
        {"groupItemTitle": "Lower", "clobTokenIds": "[\"lower-tok\"]"}
    ]"#);
    let (up, down) = extract_token_ids(&markets);
    assert_eq!(up, "higher-tok");
    assert_eq!(down, "lower-tok");
}

/// Scenario: markets use "Yes"/"No" as groupItemTitle instead of "Up"/"Down"
/// Expected: keyword matching recognizes "yes" as Up and "no" as Down
#[test]
fn test_extract_token_ids_yes_no_keywords() {
    let markets: Vec<Json> = list(r#"[
        {"groupItemTitle": "Yes", "clobTokenIds": "[\"yes-tok\"]"},
        {"groupItemTitle": "No", "clobTokenIds": "[\"no-tok\"]"}
    ]"#);
    let (up, down) = extract_token_ids(&markets);
    assert_eq!(up, "yes-tok");
    assert_eq!(down, "no-tok");
}

/// Scenario: two markets with groupItemTitles that don't match any known keyword (Up/Down/Yes/No/Higher/Lower)
/// Expected: both Up and Down tokens remain empty since no outcome is recognized
#[test]
fn test_extract_token_ids_unrecognized_outcomes() {
    let markets: Vec<Json> = list(r#"[
        {"groupItemTitle": "Foo", "clobTokenIds": "[\"tok-a\"]"},
        {"groupItemTitle": "Bar", "clobTokenIds": "[\"tok-b\"]"}
    ]"#);
    let (up, down) = extract_token_ids(&markets);
    assert_eq!(up, "", "Unrecognized outcome should not match");
    assert_eq!(down, "", "Unrecognized outcome should not match");
}

/// Scenario: single-market format with outcomes/clobTokenIds arrays where Down appears before Up
/// Expected: zipped iteration maps each outcome to its paired token regardless of order
#[test]
fn test_extract_token_ids_single_market_reversed() {
    let markets: Vec<Json> = list(r#"[
        {
            "outcomes": "[\"Down\",\"Up\"]",
            "clobTokenIds": "[\"down-tok\",\"up-tok\"]"
        }
    ]"#);
    let (up, down) = extract_token_ids(&markets);
    assert_eq!(up, "up-tok");
    assert_eq!(down, "down-tok");
}

// ── extract_first_token_id edge cases ──

/// Scenario: clobTokenIds is a string-encoded empty JSON array ("[]")
/// Expected: deserializes to an empty Vec, so returns empty string
#[test]
fn test_extract_first_token_id_empty_array_string() {
    let market: Json = json(
        r#"{"clobTokenIds": "[]"}"#);
    assert_eq!(extract_first_token_id(&market), "");
}

/// Scenario: clobTokenIds is a native JSON empty array ([])
/// Expected: array has no first element, so returns empty string
#[test]
fn test_extract_first_token_id_empty_native_array() {
    let market: Json = json(
        r#"{"clobTokenIds": []}"#);
    assert_eq!(extract_first_token_id(&market), "");
}

// ── parse_event_to_market_info edge cases ──

/// Scenario: human-readable slug (1h market format) with no Unix timestamp suffix
/// Expected: falls back to computing start_ms as endDate minus window_ms
#[test]
fn test_parse_event_slug_without_unix_suffix() {
    // Human-readable slug (1h format) — no unix timestamp at end
    // Should fall back to endDate - window_ms for start_ms
    let event: Json = json(r#"{
        "endDate": "2024-01-15T13:00:00Z",
        "markets": [
            {"groupItemTitle": "Up", "clobTokenIds": "[\"up-tok\"]"},
            {"groupItemTitle": "Down", "clobTokenIds": "[\"down-tok\"]"}
        ]
    }"#);
    let slug = "bitcoin-up-or-down-january-15-12pm-et";
    let result = parse_event_to_market_info(&event, slug, 3_600_000).unwrap();
    assert!(result.is_some(), "Should fall back to endDate - window for start");
    let info = result.unwrap();
    // end_ms = 2024-01-15 13:00 UTC = 1705323600000
    // start_ms = end_ms - 3_600_000 = 1705320000000
    assert_eq!(info.end_ms, 1705323600 * 1000);
    assert_eq!(info.start_ms, 1705323600 * 1000 - 3_600_000);
}

/// Scenario: event JSON has markets but no endDate field
/// Expected: returns None because end_ms resolves to 0, making the market invalid
#[test]
fn test_parse_event_missing_end_date() {
    let event: Json = json(r#"{
        "markets": [
            {"groupItemTitle": "Up", "clobTokenIds": "[\"up-tok\"]"},
            {"groupItemTitle": "Down", "clobTokenIds": "[\"down-tok\"]"}
        ]
    }"#);
    let result = parse_event_to_market_info(&event, "slug-1705320000", 300_000).unwrap();
    // end_ms = 0 (missing endDate) → returns None
    assert!(result.is_none(), "Missing endDate should return None");
}

/// Scenario: event has endDate and markets with groupItemTitles but no clobTokenIds
/// Expected: returns None because both Up and Down token IDs are empty
#[test]
fn test_parse_event_missing_tokens() {
    // Markets present but no clobTokenIds → both empty → returns None
    let event: Json = json(r#"{
        "endDate": "2024-01-15T12:05:00Z",
        "markets": [
            {"groupItemTitle": "Up"},
            {"groupItemTitle": "Down"}
        ]
    }"#);
    let result = parse_event_to_market_info(&event, "slug-1705320000", 300_000).unwrap();
    assert!(result.is_none(), "Missing tokens should return None");
}

/// Scenario: slug ends with a millisecond timestamp instead of the usual seconds timestamp
/// Expected: detects value > 1 trillion and treats it as milliseconds without multiplying
#[test]
fn test_parse_event_millis_in_slug() {
    // Slug ends with millisecond timestamp instead of seconds
    let event: Json = json(r#"{
        "endDate": "2024-01-15T12:05:00Z",
        "markets": [
            {"groupItemTitle": "Up", "clobTokenIds": "[\"up-abc\"]"},
            {"groupItemTitle": "Down", "clobTokenIds": "[\"down-xyz\"]"}
        ]
    }"#);
    let slug = "btc-updown-5m-1705320000000"; // millis
    let result = parse_event_to_market_info(&event, slug, 300_000).unwrap();
    assert!(result.is_some());
    let info = result.unwrap();
    // > 1_000_000_000_000 → treated as millis already
    assert_eq!(info.start_ms, 1705320000000);
}

/// Scenario: event JSON has an endDate but no "markets" key at all
/// Expected: returns None because there are no markets to parse
#[test]
fn test_parse_event_no_markets_key() {
    let event: Json = json(r#"{
        "endDate": "2024-01-15T12:05:00Z"
    }"#);
    let result = parse_event_to_market_info(&event, "slug-1705320000", 300_000).unwrap();
    assert!(result.is_none(), "Missing markets key should return None");
}

// ── Own cases ──

fn market(slug: &str, start_ms: i64, end_ms: i64) -> MarketInfo {
    MarketInfo {
        slug: slug.to_string(),
        start_ms,
        end_ms,
        up_token_id: "u".to_string(),
        down_token_id: "d".to_string(),
    }
}

#[test]
fn unix_times() {
    assert_eq!(unix_to_ms(1_700_000_000), 1_700_000_000_000);
    assert_eq!(unix_to_ms(999_999_999_999), 999_999_999_999_000);
    assert_eq!(unix_to_ms(1_000_000_000_000), 1_000_000_000_000);
    assert_eq!(parse_datetime_ms("1000000000000"), Some(1_000_000_000_000));
    assert_eq!(slug_to_ms(1_000_000_000_000), 1_000_000_000_000_000);
    assert_eq!(slug_to_ms(1_000_000_000_001), 1_000_000_000_001);
    assert_eq!(parse_unix_ms("12"), Some(12_000));
    assert_eq!(parse_unix_ms("12x"), None);
}

#[test]
fn dates_with_single_digits_are_utc() {
    assert_eq!(parse_datetime_ms("2024-1-15T12:00:00Z"), Some(1_705_320_000_000));
    assert_eq!(parse_datetime_ms("2024-1-15T12:00:00.250Z"), Some(1_705_320_000_250));
    assert_eq!(parse_datetime_ms("2024-01-15 12:00:00"), None);
}

#[test]
fn the_first_format_that_fits_gives_the_time() {
    assert_eq!(pick_time(Some(1), Some(2), Some(3), Some(4)), Some(1));
    assert_eq!(pick_time(None, Some(2), Some(3), Some(4)), Some(2));
    assert_eq!(pick_time(None, None, Some(3), Some(4)), Some(3));
    assert_eq!(pick_time(None, None, None, Some(4)), Some(4));
    assert_eq!(pick_time(None, None, None, None), None);
}

#[test]
fn words_of_the_up_side_come_first() {
    assert_eq!(outcome_side("upside down"), Some(Side::Up));
    assert_eq!(outcome_side("no"), Some(Side::Down));
    assert_eq!(outcome_side("maybe"), None);
}

#[test]
fn outcome_member_stands_in_for_a_title() {
    let markets = list(
        r#"[{"outcome": "Up", "clobTokenIds": "a"}, {"outcome": "DOWN", "clobTokenIds": "b"}]"#,
    );
    assert_eq!(extract_token_ids(&markets), ("a".to_string(), "b".to_string()));
}

#[test]
fn windows_of_markets() {
    assert_eq!(window_of_market("x-1705320000", 1_705_320_300_000, 300_000), Some((1_705_320_000_000, 1_705_320_300_000)));
    assert_eq!(window_of_market("x", 0, 300_000), None);
}

#[test]
fn candidates_contain_now() {
    assert_eq!(candidate_windows(&Interval::M5, 1_700_000_123), (1_700_000_100, 1_700_000_400));
    let c = Config::offline();
    assert_eq!(slug_of_window(&c, 1_700_000_100), "btc-updown-5m-1700000100");
}

#[test]
fn addresses() {
    let mut c = Config::offline();
    c.gamma_api_url = "https://g".to_string();
    c.series_id = "7".to_string();
    assert_eq!(slug_url("https://g", "s-1"), "https://g/events?slug=s-1");
    assert!(series_url(&c).starts_with("https://g/events?series_id=7&"));
}

#[test]
fn a_reply_by_slug() {
    let text = r#"[{"endDate": "2024-01-15T12:05:00Z", "markets": [
        {"outcomes": "[\"Up\",\"Down\"]", "clobTokenIds": "[\"a\",\"b\"]"}]}]"#;
    let m = event_from_slug_reply(text, "btc-updown-5m-1705320000", 300_000).unwrap().unwrap();
    assert_eq!((m.start_ms, m.end_ms), (1_705_320_000_000, 1_705_320_300_000));
    assert_eq!((m.up_token_id.as_str(), m.down_token_id.as_str()), ("a", "b"));
    assert!(event_from_slug_reply("[]", "s", 300_000).unwrap().is_none());
    assert!(event_from_slug_reply("no json", "s", 300_000).is_err());
}

fn event(slug: &str, end: &str) -> String {
    format!(
        r#"{{"slug": "{}", "endDate": "{}", "markets": [
            {{"outcomes": "[\"Up\",\"Down\"]", "clobTokenIds": "[\"{}-u\",\"{}-d\"]"}}]}}"#,
        slug, end, slug, slug
    )
}

#[test]
fn the_earliest_open_market_of_a_series() {
    let reply = json(&format!(
        "[{},{},{}]",
        event("btc-updown-5m-1705320600", "2024-01-15T12:15:00Z"),
        event("btc-updown-5m-1705320000", "2024-01-15T12:05:00Z"),
        event("btc-updown-5m-1705320300", "2024-01-15T12:10:00Z"),
    ));
    let now = 1_705_320_301_000;
    let m = best_event_market(&reply, now, 300_000).unwrap().unwrap();
    assert_eq!(m.slug, "btc-updown-5m-1705320300");
    assert!(best_event_market(&reply, 1_800_000_000_000, 300_000).unwrap().is_none());
}

#[test]
fn a_series_without_an_open_market_is_an_error() {
    let c = Config::offline();
    assert!(market_from_series_reply("[]", 0, &c).is_err());
    assert!(market_from_series_reply("{", 0, &c).is_err());
    let text = format!("[{}]", event("btc-updown-5m-1705320000", "2024-01-15T12:05:00Z"));
    assert_eq!(market_from_series_reply(&text, 1, &c).unwrap().up_token_id, "btc-updown-5m-1705320000-u");
}

#[test]
fn look_ups_in_turn() {
    assert!(matches!(after_lookup(0, Lookup::Found(market("a", 0, 10)), 10), DiscoveryStep::Take(_)));
    assert!(matches!(after_lookup(0, Lookup::Found(market("a", 0, 9)), 10), DiscoveryStep::TryNext));
    assert!(matches!(after_lookup(1, Lookup::NotFound, 10), DiscoveryStep::SearchSeries));
    assert!(matches!(after_lookup(0, Lookup::Failed, 10), DiscoveryStep::TryNext));
}
