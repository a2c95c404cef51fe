//! The course of a recording.

use vstd::prelude::*;
use vstd::string::*;

use crate::config::opt_text;
use crate::json::{json_of_text, parse_json, texts, Json, JsonView};
use crate::number::{float_text, is_float_text};
use crate::text::{integer_within, parse_unsigned, str_eq, uppercase};

verus! {

/// How long before the start of a market recording begins, in milliseconds.
pub const LEAD_MS: i64 = 5_000;

/// How long after the end of a market recording goes on, in milliseconds.
pub const TAIL_MS: i64 = 30_000;

/// Trades between two writes to disk.
pub const TRADE_FLUSH: u64 = 1000;

/// Quotes between two writes to disk.
pub const QUOTE_FLUSH: u64 = 100;

/// The word that follows a name for the first time, where one does.
pub open spec fn word_after(words: Seq<Seq<char>>, name: Seq<char>) -> Option<Seq<char>>
    decreases words.len(),
{
    if words.len() < 2 {
        None
    } else if words[0] == name {
        Some(words[1])
    } else {
        word_after(words.skip(1), name)
    }
}

/// How many markets to record: the number after `--cycles`, where there is one.
pub open spec fn cycles_of(words: Seq<Seq<char>>) -> Option<u32> {
    match word_after(words, "--cycles"@) {
        Some(w) => match integer_within(w, false, 0, u32::MAX as int) {
            Some(n) => Some(n as u32),
            None => None,
        },
        None => None,
    }
}

/// How many markets to record, from the words of the command line. Without a number there is no
/// end.
pub fn max_cycles(words: &Vec<String>) -> (r: Option<u32>)
    ensures
        r == cycles_of(texts(words@)),
{
    let ghost all = texts(words@);
    let mut i: usize = 0;
    assert(all.skip(0) =~= all);
    while i < words.len() && i + 1 < words.len()
        invariant
            i <= words@.len(),
            all == texts(words@),
            cycles_of(all) == cycles_of(all.skip(i as int)),
        decreases words@.len() - i,
    {
        assert(all.skip(i as int)[0] == words@[i as int]@);
        assert(all.skip(i as int)[1] == words@[i + 1]@);
        assert(all.skip(i as int).skip(1) =~= all.skip(i + 1));
        if str_eq(words[i].as_str(), "--cycles") {
            return match parse_unsigned(words[i + 1].as_str(), u32::MAX as u64) {
                Some(n) => Some(n as u32),
                None => None,
            };
        }
        i = i + 1;
    }
    None
}

/// Whether all markets have been recorded.
pub fn cycles_done(completed: u32, max: Option<u32>) -> (r: bool)
    ensures
        r == all_recorded(completed, max),
        r == (max matches Some(n) && completed >= n),
{
    match max {
        Some(n) => completed >= n,
        None => false,
    }
}

/// Whether the trades so far are to be written to disk.
pub fn trade_flush_due(count: u64) -> (r: bool)
    ensures
        r == flush_of_trades(count),
        r == (count % TRADE_FLUSH == 0),
{
    count % TRADE_FLUSH == 0
}

/// Whether the quotes so far are to be written to disk.
pub fn quote_flush_due(count: u64) -> (r: bool)
    ensures
        r == flush_of_quotes(count),
        r == (count > 0 && count % QUOTE_FLUSH == 0),
{
    count > 0 && count % QUOTE_FLUSH == 0
}

/// The address that gives the spot price of an asset, from its label in uppercase.
pub fn ticker_url(label: &str) -> (r: String)
    ensures
        r@ == "https://api.binance.com/api/v3/ticker/price?symbol="@ + label@ + "USDT"@,
{
    let s = String::from_str("https://api.binance.com/api/v3/ticker/price?symbol=");
    let s = s.concat(label);
    s.concat("USDT")
}

/// The address that gives the spot price of an asset.
pub fn price_url(asset_label: &str) -> (r: String)
    ensures
        r@ == "https://api.binance.com/api/v3/ticker/price?symbol="@ + uppercase(asset_label@)
            + "USDT"@,
{
    ticker_url(asset_label.to_uppercase().as_str())
}

/// The price of a ticker: the text under `price`, where it is a number.
pub open spec fn ticker_price(v: JsonView) -> Option<Seq<char>> {
    match v.text_at("price"@) {
        Some(s) => if is_float_text(s) {
            Some(s)
        } else {
            None
        },
        None => None,
    }
}

/// The price of a ticker, where it gives one.
pub fn price_from_json(v: &Json) -> (r: Option<String>)
    ensures
        opt_text(r) == ticker_price(v.view()),
{
    match v.text_at("price") {
        Some(s) => if float_text(s.as_str()) {
            Some(s.clone())
        } else {
            None
        },
        None => None,
    }
}

/// The price that a ticker replies, where it gives one.
pub fn price_of_reply(text: &str) -> (r: Option<String>)
    ensures
        opt_text(r) == match json_of_text(text@) {
            Ok(v) => ticker_price(v),
            Err(_) => None,
        },
{
    match parse_json(text) {
        Ok(v) => price_from_json(&v),
        Err(_) => None,
    }
}

/// The word behind the first place where a name stands is the one that counts.
pub proof fn law_word_after(words: Seq<Seq<char>>, name: Seq<char>, i: int)
    requires
        0 <= i,
        i + 1 < words.len(),
        words[i] == name,
        forall|k: int| 0 <= k < i ==> words[k] != name,
    ensures
        word_after(words, name) == Some(words[i + 1]),
    decreases i,
{
    if i > 0 {
        let w = words.skip(1);
        assert forall|k: int| 0 <= k < i - 1 implies w[k] != name by {
            assert(w[k] == words[k + 1]);
        }
        law_word_after(w, name, i - 1);
    }
}

/// Without the name there is no word behind it.
pub proof fn law_no_word_after(words: Seq<Seq<char>>, name: Seq<char>)
    requires
        !words.contains(name),
    ensures
        word_after(words, name) is None,
    decreases words.len(),
{
    if words.len() >= 2 {
        assert(words[0] != name);
        assert forall|t: Seq<char>| words.skip(1).contains(t) implies words.contains(t) by {
            let k = choose|k: int| 0 <= k < words.skip(1).len() && words.skip(1)[k] == t;
            assert(words[k + 1] == t);
        }
        law_no_word_after(words.skip(1), name);
    }
}

/// The number behind `--cycles` is how many markets are recorded.
pub proof fn law_cycles(words: Seq<Seq<char>>)
    ensures
        word_after(words, "--cycles"@) is None ==> cycles_of(words) is None,
        word_after(words, "--cycles"@) matches Some(w) ==> (integer_within(
            w,
            false,
            0,
            u32::MAX as int,
        ) matches Some(n) ==> cycles_of(words) is Some && cycles_of(words)->0 == n),
        word_after(words, "--cycles"@) matches Some(w) ==> (integer_within(
            w,
            false,
            0,
            u32::MAX as int,
        ) is None ==> cycles_of(words) is None),
{
}

/// The price of a ticker is the text under `price`, where that is a number.
pub proof fn law_ticker(v: JsonView, s: Seq<char>)
    ensures
        v.text_at("price"@) == Some(s) && is_float_text(s) ==> ticker_price(v) == Some(s),
        v.text_at("price"@) == Some(s) && !is_float_text(s) ==> ticker_price(v) is None,
        v.text_at("price"@) is None ==> ticker_price(v) is None,
{
}

/// The record starts five seconds before a market and ends half a minute after it.
pub proof fn law_record_times()
    ensures
        LEAD_MS == 5000,
        TAIL_MS == 30_000,
        TRADE_FLUSH == 1000,
        QUOTE_FLUSH == 100,
{
}

pub open spec fn all_recorded(completed: u32, max: Option<u32>) -> bool {
    max matches Some(n) && completed >= n
}

pub open spec fn flush_of_trades(count: u64) -> bool {
    count % TRADE_FLUSH == 0
}

pub open spec fn flush_of_quotes(count: u64) -> bool {
    count > 0 && count % QUOTE_FLUSH == 0
}

/// Without a number of markets recording never ends; with one it ends when so many are recorded,
/// and not before.
pub proof fn law_all_recorded(completed: u32, n: u32)
    ensures
        !all_recorded(completed, None),
        all_recorded(completed, Some(n)) <==> n <= completed,
{
}

/// Trades are written to disk after every thousand and quotes after every hundred; none in
/// between, and quotes not before the first.
pub proof fn law_flush(k: int, r: int, n: u64)
    requires
        0 <= k,
        n == 1000 * k + r,
        0 <= r < 1000,
    ensures
        flush_of_trades(n) <==> r == 0,
        n > 0 && (r == 0 || r == 100 || r == 900) ==> flush_of_quotes(n),
        r % 100 != 0 ==> !flush_of_quotes(n),
        !flush_of_quotes(0),
{
    assert(n % 1000 == r) by (nonlinear_arith)
        requires
            n == 1000 * k + r,
            0 <= r < 1000,
    ;
    assert(n % 100 == r % 100) by (nonlinear_arith)
        requires
            n == 1000 * k + r,
            0 <= r < 1000,
    ;
}

} // verus!
