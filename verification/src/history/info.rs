//! What a recorded market says of itself.

use vstd::prelude::*;
use vstd::string::*;

use crate::analyzer::rows::{i64_text, number_or_none, number_text};
use crate::config::opt_text;
use crate::csv::{find_char, index_of_char, lemma_index_is, lines, lines_of, trim, trimmed};
use crate::json::texts;
use crate::market::dates::{parse_rfc3339, rfc3339_ms};
use crate::number::Real;
use crate::text::{chars_of, parse_i64, str_eq, string_range};

verus! {

/// A recorded market. The strike stands as the text of the record, where it is a number.
#[derive(Debug)]
pub struct LoadedMarketInfo {
    pub slug: String,
    pub start_ms: i64,
    pub end_ms: i64,
    pub strike: Option<String>,
}

/// What a `LoadedMarketInfo` holds.
pub ghost struct InfoView {
    pub slug: Seq<char>,
    pub start_ms: i64,
    pub end_ms: i64,
    pub strike: Option<Seq<char>>,
}

impl View for LoadedMarketInfo {
    type V = InfoView;

    open spec fn view(&self) -> InfoView {
        InfoView {
            slug: self.slug@,
            start_ms: self.start_ms,
            end_ms: self.end_ms,
            strike: opt_text(self.strike),
        }
    }
}

/// Key and value of a line, apart at its first `=` or, where it has none, at its first `:`.
pub open spec fn key_value(line: Seq<char>) -> Option<(Seq<char>, Seq<char>)> {
    let eq = index_of_char(line, '=');
    let colon = index_of_char(line, ':');
    if eq < line.len() {
        Some((trimmed(line.take(eq)), trimmed(line.skip(eq + 1))))
    } else if colon < line.len() {
        Some((trimmed(line.take(colon)), trimmed(line.skip(colon + 1))))
    } else {
        None
    }
}

fn parts_at(v: &Vec<char>, k: usize) -> (r: (String, String))
    requires
        k < v.len(),
    ensures
        r.0@ == trimmed(v@.take(k as int)),
        r.1@ == trimmed(v@.skip(k + 1)),
{
    let key = string_range(v, 0, k);
    let value = string_range(v, k + 1, v.len());
    assert(key@ =~= v@.take(k as int));
    assert(value@ =~= v@.skip(k + 1));
    (trim(key.as_str()), trim(value.as_str()))
}

fn split_line(line: &str) -> (r: Option<(String, String)>)
    ensures
        match r {
            Some(p) => key_value(line@) == Some((p.0@, p.1@)),
            None => key_value(line@) is None,
        },
{
    let v = chars_of(line);
    assert(v@.skip(0) =~= v@);
    let eq: usize = find_char(&v, 0, '=');
    if eq < v.len() {
        return Some(parts_at(&v, eq));
    }
    let colon: usize = find_char(&v, 0, ':');
    if colon < v.len() {
        return Some(parts_at(&v, colon));
    }
    None
}

/// A 64-bit integer, 0 where the text is none.
pub open spec fn i64_or_zero(s: Seq<char>) -> i64 {
    match i64_text(s) {
        Some(x) => x,
        None => 0,
    }
}

fn integer_or_zero(s: &str) -> (r: i64)
    ensures
        r == i64_or_zero(s@),
{
    match parse_i64(s) {
        Some(x) => x,
        None => 0,
    }
}

/// A time: the one that is known already, if it is not zero, or else the one of a date.
pub open spec fn known_or(known: i64, date: Option<i64>) -> i64 {
    match date {
        Some(t) => if known == 0 {
            t
        } else {
            known
        },
        None => known,
    }
}

/// A time: the one that is known already, if it is not zero, or else the one of a date.
pub fn time_or(known: i64, date: Option<i64>) -> (r: i64)
    ensures
        r == known_or(known, date),
{
    match date {
        Some(t) => if known == 0 {
            t
        } else {
            known
        },
        None => known,
    }
}

/// What is known of a market after one more key and value.
pub open spec fn info_entry(m: InfoView, key: Seq<char>, val: Seq<char>) -> InfoView {
    if key == "slug"@ {
        InfoView { slug: val, ..m }
    } else if key == "start_ms"@ {
        InfoView { start_ms: i64_or_zero(val), ..m }
    } else if key == "end_ms"@ {
        InfoView { end_ms: i64_or_zero(val), ..m }
    } else if key == "strike"@ {
        InfoView { strike: number_text(val), ..m }
    } else if key == "start"@ || key == "start_date"@ {
        InfoView { start_ms: known_or(m.start_ms, rfc3339_ms(val)), ..m }
    } else if key == "end"@ || key == "end_date"@ {
        InfoView { end_ms: known_or(m.end_ms, rfc3339_ms(val)), ..m }
    } else {
        m
    }
}

/// What lines say of a market, a later line over an earlier one.
pub open spec fn info_of_lines(ls: Seq<Seq<char>>) -> InfoView
    decreases ls.len(),
{
    if ls.len() == 0 {
        InfoView { slug: Seq::empty(), start_ms: 0, end_ms: 0, strike: None }
    } else {
        let m = info_of_lines(ls.drop_last());
        match key_value(ls.last()) {
            Some((key, val)) => info_entry(m, key, val),
            None => m,
        }
    }
}

/// What a record says of its market.
pub open spec fn info_of(content: Seq<char>) -> InfoView {
    let m = info_of_lines(lines_of(content));
    if m.slug.len() == 0 {
        InfoView { slug: "unknown"@, ..m }
    } else {
        m
    }
}

fn apply_entry(info: &mut LoadedMarketInfo, key: &str, val: String)
    ensures
        final(info)@ == info_entry(old(info)@, key@, val@),
{
    if str_eq(key, "slug") {
        info.slug = val;
    } else if str_eq(key, "start_ms") {
        info.start_ms = integer_or_zero(val.as_str());
    } else if str_eq(key, "end_ms") {
        info.end_ms = integer_or_zero(val.as_str());
    } else if str_eq(key, "strike") {
        info.strike = number_or_none(val);
    } else if str_eq(key, "start") || str_eq(key, "start_date") {
        info.start_ms = time_or(info.start_ms, parse_rfc3339(val.as_str()));
    } else if str_eq(key, "end") || str_eq(key, "end_date") {
        info.end_ms = time_or(info.end_ms, parse_rfc3339(val.as_str()));
    }
}

/// What a record says of its market; without a slug it is "unknown".
pub fn load_market_info(content: &str) -> (info: LoadedMarketInfo)
    ensures
        info@ == info_of(content@),
{
    let ls = lines(content);
    let ghost all = texts(ls@);
    let mut info = LoadedMarketInfo { slug: String::new(), start_ms: 0, end_ms: 0, strike: None };
    let mut i: usize = 0;
    assert(all.take(0) =~= Seq::empty());
    assert(info.slug@ =~= Seq::empty());
    while i < ls.len()
        invariant
            i <= ls.len(),
            all == texts(ls@),
            info@ == info_of_lines(all.take(i as int)),
        decreases ls.len() - i,
    {
        assert(all.take(i + 1).drop_last() =~= all.take(i as int));
        assert(all[i as int] == ls@[i as int]@);
        if let Some((key, val)) = split_line(ls[i].as_str()) {
            apply_entry(&mut info, key.as_str(), val);
        }
        i = i + 1;
    }
    assert(all.take(i as int) =~= all);
    if info.slug.as_str().is_empty() {
        info.slug = String::from_str("unknown");
    }
    info
}

/// The strike of a recorded market, of what is known.
pub open spec fn chosen_strike(recorded: Real, first_price: Option<Real>) -> Option<Real> {
    if recorded.pos() {
        Some(recorded)
    } else {
        first_price
    }
}

/// A recorded strike goes before the first price, which counts only where there is none.
pub proof fn law_strike(recorded: Real, first_price: Option<Real>)
    ensures
        recorded.pos() ==> chosen_strike(recorded, first_price) == Some(recorded),
        !recorded.pos() ==> chosen_strike(recorded, first_price) == first_price,
{
}

/// The strike of a recorded market: the one of the record, if it is above zero, or else the
/// price of the first trade.
pub fn strike_of(recorded: Real, first_price: Option<Real>) -> (r: Option<Real>)
    ensures
        r == (if recorded.pos() {
            Some(recorded)
        } else {
            first_price
        }),
        r == chosen_strike(recorded, first_price),
{
    if recorded.is_positive() {
        Some(recorded)
    } else {
        first_price
    }
}

/// Each key sets its own part of what is known: the times in milliseconds, the strike, the slug;
/// a date only a time that is not known yet. An unknown key changes nothing.
pub proof fn law_info_entries(m: InfoView, key: Seq<char>, val: Seq<char>)
    ensures
        ({
            let r = info_entry(m, key, val);
            &&& r.slug != m.slug ==> key == "slug"@ && r.slug == val
            &&& r.strike != m.strike ==> key == "strike"@ && r.strike == number_text(val)
            &&& r.start_ms != m.start_ms ==> (key == "start_ms"@ && r.start_ms == i64_or_zero(val))
                || ((key == "start"@ || key == "start_date"@) && m.start_ms == 0
                && rfc3339_ms(val) == Some(r.start_ms))
            &&& r.end_ms != m.end_ms ==> (key == "end_ms"@ && r.end_ms == i64_or_zero(val)) || ((key
                == "end"@ || key == "end_date"@) && m.end_ms == 0 && rfc3339_ms(val) == Some(
                r.end_ms,
            ))
        }),
        info_entry(m, "slug"@, val) == (InfoView { slug: val, ..m }),
        info_entry(m, "start_ms"@, val).start_ms == i64_or_zero(val),
        info_entry(m, "end_ms"@, val).end_ms == i64_or_zero(val),
        info_entry(m, "strike"@, val).strike == number_text(val),
        m.start_ms == 0 && rfc3339_ms(val) is Some ==> info_entry(m, "start"@, val).start_ms
            == rfc3339_ms(val)->0 && info_entry(m, "start_date"@, val).start_ms == rfc3339_ms(
            val,
        )->0,
        m.end_ms == 0 && rfc3339_ms(val) is Some ==> info_entry(m, "end"@, val).end_ms
            == rfc3339_ms(val)->0 && info_entry(m, "end_date"@, val).end_ms == rfc3339_ms(val)->0,
{
    reveal_strlit("slug");
    reveal_strlit("start_ms");
    reveal_strlit("end_ms");
    reveal_strlit("strike");
    reveal_strlit("start");
    reveal_strlit("start_date");
    reveal_strlit("end");
    reveal_strlit("end_date");
    assert("slug"@.len() == 4 && "start_ms"@.len() == 8 && "end_ms"@.len() == 6);
    assert("strike"@.len() == 6 && "start"@.len() == 5 && "start_date"@.len() == 10);
    assert("end"@.len() == 3 && "end_date"@.len() == 8);
    assert("strike"@[0] == 's' && "end_ms"@[0] == 'e');
    assert("start_ms"@[0] == 's' && "end_date"@[0] == 'e');
}

/// Key and value stand before and after the first `=`; a line without one is apart at its first
/// colon.
pub proof fn law_key_value(a: Seq<char>, c: Seq<char>)
    requires
        !a.contains('='),
    ensures
        key_value(a.push('=') + c) == Some((trimmed(a), trimmed(c))),
        !a.contains(':') && !c.contains('=') ==> key_value(a.push(':') + c) == Some(
            (trimmed(a), trimmed(c)),
        ),
        !a.contains(':') ==> key_value(a) is None,
{
    let s = a.push('=') + c;
    let k = a.len() as int;
    assert forall|i: int| 0 <= i < k implies s[i] != '=' by {
        assert(a.contains(a[i]));
    }
    lemma_index_is(s, '=', k);
    assert(s.take(k) =~= a && s.skip(k + 1) =~= c);
    assert forall|i: int| 0 <= i < k implies a[i] != '=' by {
        assert(a.contains(a[i]));
    }
    lemma_index_is(a, '=', k);
    if !a.contains(':') {
        assert forall|i: int| 0 <= i < k implies a[i] != ':' by {
            assert(a.contains(a[i]));
        }
        lemma_index_is(a, ':', k);
        if !c.contains('=') {
            let t = a.push(':') + c;
            assert forall|i: int| 0 <= i < k implies t[i] != ':' by {
                assert(t[i] == a[i]);
            }
            lemma_index_is(t, ':', k);
            assert forall|i: int| 0 <= i < t.len() implies t[i] != '=' by {
                if i < k {
                    assert(t[i] == a[i]);
                } else if i > k {
                    assert(t[i] == c[i - k - 1]);
                    assert(c.contains(c[i - k - 1]));
                }
            }
            lemma_index_is(t, '=', t.len() as int);
            assert(t.take(k) =~= a && t.skip(k + 1) =~= c);
        }
    }
}

/// A later line counts over an earlier one; without a slug the market is "unknown", and nothing
/// else changes by that.
pub proof fn law_info_of(ls: Seq<Seq<char>>, line: Seq<char>, content: Seq<char>)
    ensures
        key_value(line) matches Some((key, val)) ==> info_of_lines(ls.push(line)) == info_entry(
            info_of_lines(ls),
            key,
            val,
        ),
        key_value(line) is None ==> info_of_lines(ls.push(line)) == info_of_lines(ls),
        info_of_lines(Seq::empty()).start_ms == 0 && info_of_lines(Seq::empty()).end_ms == 0,
        info_of_lines(Seq::empty()).strike is None && info_of_lines(Seq::empty()).slug.len() == 0,
        info_of(content).start_ms == info_of_lines(lines_of(content)).start_ms,
        info_of(content).end_ms == info_of_lines(lines_of(content)).end_ms,
        info_of(content).strike == info_of_lines(lines_of(content)).strike,
        info_of_lines(lines_of(content)).slug.len() > 0 ==> info_of(content).slug == info_of_lines(
            lines_of(content),
        ).slug,
        info_of_lines(lines_of(content)).slug.len() == 0 ==> info_of(content).slug == "unknown"@,
{
    assert(ls.push(line).drop_last() =~= ls);
}

/// What a recorded market holds is what its fields hold.
pub proof fn law_info_view(m: LoadedMarketInfo)
    ensures
        m@.slug == m.slug@,
        m@.start_ms == m.start_ms,
        m@.end_ms == m.end_ms,
        m@.strike == opt_text(m.strike),
{
}

} // verus!
