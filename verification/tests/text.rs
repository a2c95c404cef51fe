//! Texts, numbers, tables and orders.

use polymarket_crypto::csv::{
    cell_at, col_index, find_char, join, lines, read_csv, split, strip_prefix, trim,
};
use polymarket_crypto::names::sorted_names;
use polymarket_crypto::number::{float_text, word_text, Real};
use polymarket_crypto::sort::stable_order;
use polymarket_crypto::table::NameTable;
use polymarket_crypto::text::{
    contains_text, i64_to_text, last_segment, parse_i64, parse_unsigned, starts_with_text, str_eq,
};

fn r(x: f64) -> Real {
    Real { bits: x.to_bits() }
}

fn strings(v: &[&str]) -> Vec<String> {
    v.iter().map(|s| s.to_string()).collect()
}

// ── Numbers as bits ──

#[test]
fn numbers_compare_as_floats_do() {
    let xs = [
        0.0, -0.0, 1.0, -1.0, 0.5, 1e-310, -1e-310, f64::MAX, f64::MIN, f64::INFINITY,
        f64::NEG_INFINITY, f64::NAN, -f64::NAN, f64::MIN_POSITIVE, 95_000.0, 94_999.999,
    ];
    for a in xs {
        assert_eq!(r(a).is_nan(), a.is_nan());
        assert_eq!(r(a).is_positive(), a > 0.0);
        assert_eq!(r(a).abs().bits, a.abs().to_bits());
        assert_eq!(r(a).neg().bits, (-a).to_bits());
        for b in xs {
            assert_eq!(r(a).less(r(b)), a < b, "{} < {}", a, b);
            assert_eq!(r(a).at_most(r(b)), a <= b, "{} <= {}", a, b);
            assert_eq!(r(a).equals(r(b)), a == b, "{} == {}", a, b);
            let (lo, hi) = (f64::from_bits(r(a).min(r(b)).bits), f64::from_bits(r(a).max(r(b)).bits));
            assert!(lo == a.min(b) || (a.is_nan() && b.is_nan()), "min {} {}", a, b);
            assert!(hi == a.max(b) || (a.is_nan() && b.is_nan()), "max {} {}", a, b);
            if !a.is_nan() && !b.is_nan() {
                assert_eq!(r(a).sort_key() < r(b).sort_key(), a < b);
            }
        }
    }
    assert_eq!(Real::zero().bits, 0.0f64.to_bits());
}

#[test]
fn constants_are_the_numbers_they_stand_for() {
    use_constants(&[
        (polymarket_crypto::strategies::ONE, 1.0),
        (polymarket_crypto::strategies::latency_arb::MIN_EDGE, 0.03),
        (polymarket_crypto::strategies::certainty_capture::Z_MIN, 1.5),
        (polymarket_crypto::strategies::certainty_capture::MIN_EDGE, 0.02),
        (polymarket_crypto::strategies::certainty_capture::MIN_TAU, 30.0),
        (polymarket_crypto::strategies::convexity_fade::MAX_DIST_FRAC, 0.003),
        (polymarket_crypto::strategies::convexity_fade::MIN_TAU, 30.0),
        (polymarket_crypto::strategies::convexity_fade::MIN_EDGE, 0.02),
        (polymarket_crypto::strategies::convexity_fade::MAX_SPREAD, 0.08),
        (polymarket_crypto::strategies::convexity_fade::IMBALANCE_SKIP, 0.25),
        (polymarket_crypto::strategies::cross_timeframe::MIN_VOL_DEVIATION, 0.05),
        (polymarket_crypto::strategies::cross_timeframe::MIN_EDGE, 0.01),
        (polymarket_crypto::strategies::cross_timeframe::MIN_TAU, 30.0),
        (polymarket_crypto::strategies::cross_timeframe::MIN_CROSS_TAU, 10.0),
        (polymarket_crypto::strategies::cross_timeframe::MIN_DENOMINATOR, 1e-10),
        (polymarket_crypto::strategies::lp_extreme::Z_MIN, 1.5),
        (polymarket_crypto::strategies::lp_extreme::MIN_EDGE, 0.02),
        (polymarket_crypto::strategies::lp_extreme::ADVERSE_MIN_EDGE, 0.02 * 2.0),
        (polymarket_crypto::strategies::lp_extreme::MAX_SPREAD, 0.10),
        (polymarket_crypto::strategies::lp_extreme::IMBALANCE_THRESHOLD, 0.30),
        (polymarket_crypto::strategies::lp_extreme::MAX_PRICE, 0.25),
        (polymarket_crypto::strategies::lp_extreme::MIN_SIZE_FRAC, 0.001),
        (polymarket_crypto::strategies::strike_misalign::MIN_DP, 0.02),
        (polymarket_crypto::strategies::strike_misalign::MIN_EDGE, 0.02),
        (polymarket_crypto::strategies::strike_misalign::MIN_TAU, 10.0),
        (polymarket_crypto::strategies::momentum::MIN_VELOCITY_FRAC, 0.00000735),
        (polymarket_crypto::strategies::momentum::MIN_DIST_FRAC, 0.000294),
        (polymarket_crypto::strategies::momentum::MIN_TIME_LEFT, 0.15),
        (polymarket_crypto::strategies::momentum::MAX_PRICE, 0.60),
        (polymarket_crypto::strategies::momentum::MIN_EDGE, 0.05),
        (polymarket_crypto::strategies::settlement_sniper::MIN_DIST_FRAC, 0.000588),
        (polymarket_crypto::strategies::settlement_sniper::MID_DIST_FRAC, 0.000735),
        (polymarket_crypto::strategies::settlement_sniper::HIGH_DIST_FRAC, 0.001471),
        (polymarket_crypto::strategies::settlement_sniper::REVERSAL_VELOCITY_FRAC, 0.0000294),
        (polymarket_crypto::strategies::settlement_sniper::MIN_EDGE, 0.05),
        (polymarket_crypto::strategies::settlement_sniper::FAIR_97, 0.97),
        (polymarket_crypto::strategies::settlement_sniper::FAIR_95, 0.95),
        (polymarket_crypto::strategies::settlement_sniper::FAIR_93, 0.93),
        (polymarket_crypto::strategies::settlement_sniper::FAIR_92, 0.92),
        (polymarket_crypto::strategies::settlement_sniper::FAIR_90, 0.90),
        (polymarket_crypto::strategies::settlement_sniper::FAIR_88, 0.88),
        (polymarket_crypto::strategies::settlement_sniper::FAIR_85, 0.85),
        (polymarket_crypto::strategies::distance_fade::MIN_DIST_FRAC, 0.000441),
        (polymarket_crypto::strategies::distance_fade::MIN_EDGE, 0.08),
        (polymarket_crypto::engine::pipeline::TOP_PRICE, 0.99),
        (polymarket_crypto::engine::runner::DIAG_MIN_Z, 1.5),
        (polymarket_crypto::engine::runner::DIAG_ONE, 1.0),
        (polymarket_crypto::engine::runner::DIAG_MIN_EDGE, 0.02),
        (polymarket_crypto::engine::runner::DIAG_MAX_DISTANCE, 0.003),
        (polymarket_crypto::engine::runner::DIAG_MAX_LOSING_ASK, 0.25),
        (polymarket_crypto::gateway::order::TICK_1, 0.1),
        (polymarket_crypto::gateway::order::TICK_2, 0.01),
        (polymarket_crypto::gateway::order::TICK_3, 0.001),
        (polymarket_crypto::history::events::LEAST_BID, 0.02),
        (polymarket_crypto::history::events::MOST_ASK, 0.98),
    ]);
}

fn use_constants(pairs: &[(u64, f64)]) {
    for (bits, x) in pairs {
        assert_eq!(f64::from_bits(*bits), *x, "{:x}", bits);
    }
}

#[test]
fn the_text_of_a_float() {
    for s in [
        "0", "1.", ".5", "-1.5e10", "+3E-7", "1e5", "inf", "-Infinity", "NaN", "+nan", "007", "1.5E+10",
        "", ".", "e5", "1e", "1e+", "--1", "1.2.3", " 1", "1 ", "0x10", "1_000", "infin", "1,5", "+", "-.e1",
        "\u{0661}",
    ] {
        assert_eq!(float_text(s), s.parse::<f64>().is_ok(), "{:?}", s);
    }
    assert!(word_text("InF", "inf") && !word_text("infx", "inf"));
}

// ── Texts ──

#[test]
fn the_text_of_an_integer() {
    for s in ["0", "-1", "+7", "9223372036854775807", "9223372036854775808", "-9223372036854775808",
        "-9223372036854775809", "", "-", "+", "1a", " 1", "00012", "--1"] {
        assert_eq!(parse_i64(s), s.parse::<i64>().ok(), "{:?}", s);
        assert_eq!(parse_unsigned(s, u64::MAX), s.parse::<u64>().ok(), "{:?}", s);
        assert_eq!(parse_unsigned(s, 255), s.parse::<u8>().ok().map(|x| x as u64), "{:?}", s);
    }
    for i in [0, 7, -7, 1_700_000_000_123, i64::MIN, i64::MAX] {
        assert_eq!(i64_to_text(i), i.to_string());
        assert_eq!(parse_i64(&i64_to_text(i)), Some(i));
    }
}

#[test]
fn parts_of_a_text() {
    assert!(str_eq("ab", "ab") && !str_eq("ab", "abc"));
    assert!(contains_text("btc-updown-5m", "updown") && !contains_text("btc", "updown"));
    assert!(contains_text("btc", ""));
    assert!(starts_with_text("btc-1", "btc") && !starts_with_text("bt", "btc"));
    assert_eq!(last_segment("btc-updown-5m-170", '-'), "170");
    assert_eq!(last_segment("plain", '-'), "plain");
    assert_eq!(find_char(&"a,b,c".chars().collect(), 2, ','), 3);
    assert_eq!(find_char(&"abc".chars().collect(), 0, ','), 3);
}

#[test]
fn splitting_undoes_joining() {
    for s in ["", ",", "a", "a,b", ",a,,b,"] {
        let parts = split(s, ',');
        assert_eq!(parts, s.split(',').map(|x| x.to_string()).collect::<Vec<_>>(), "{:?}", s);
        assert_eq!(join(&parts, ','), s);
    }
    for s in ["", "a", "a\n", "a\nb", "a\r\nb\r\n", "\n\n", "a\rb\n"] {
        assert_eq!(lines(s), s.lines().map(|x| x.to_string()).collect::<Vec<_>>(), "{:?}", s);
    }
    for s in ["", "  ", " a b ", "\t\u{a0}x\u{3000}", "\u{200b}x"] {
        assert_eq!(trim(s), s.trim(), "{:?}", s);
    }
    assert_eq!(strip_prefix("slug=x", "slug="), Some("x".to_string()));
    assert_eq!(strip_prefix("slu", "slug="), None);
}

#[test]
fn a_csv_file() {
    let t = read_csv("a, b ,c\n1,2,3\n\n4,5\n \n\n").unwrap();
    assert_eq!(t.headers, strings(&["a", "b", "c"]));
    assert_eq!(t.rows, strings(&["1,2,3", "", "4,5"]));
    assert_eq!(col_index(&t.headers, "b"), Some(1));
    assert_eq!(col_index(&t.headers, "z"), None);
    let columns = split(&t.rows[2], ',');
    assert_eq!(cell_at(&columns, Some(1)), Some("5".to_string()));
    assert_eq!(cell_at(&columns, Some(2)), None);
    assert_eq!(cell_at(&columns, None), None);
    assert!(read_csv("").is_none());
}

// ── Orders and tables ──

#[test]
fn equal_keys_stay_in_order() {
    assert_eq!(stable_order(&vec![3, 1, 3, -2, 1]), vec![3, 1, 4, 0, 2]);
    assert_eq!(stable_order(&vec![]), Vec::<usize>::new());
}

#[test]
fn names_once_and_sorted() {
    assert_eq!(sorted_names(&strings(&["b", "a", "b", "", "ab"])), strings(&["", "a", "ab", "b"]));
    let mut words = strings(&["zeta", "\u{e9}", "Z", "a\u{1F600}", "a\u{fffd}"]);
    let ours = sorted_names(&words);
    words.sort();
    assert_eq!(ours, words);
}

#[test]
fn a_name_holds_its_last_value() {
    let mut t: NameTable<u32> = NameTable::new();
    t.set("a", 1);
    t.set("b", 2);
    t.set("a", 3);
    assert_eq!(t.get("a"), Some(&3));
    assert_eq!(t.get("c"), None);
    assert_eq!(t.rows(), &vec![("a".to_string(), 3), ("b".to_string(), 2)]);
}
