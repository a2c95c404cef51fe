//! What is read of a record of a market is what was recorded.

use vstd::prelude::*;

use crate::analyzer::rows::number_text;
use crate::csv::{is_white, lemma_index_is, trimmed};
use crate::history::info::{i64_or_zero, info_entry, info_of, info_of_lines, key_value, InfoView};
use crate::recorder::lines::info_entries;
use crate::telemetry::read_back::{file_text, law_lines_read_back, lemma_nothing_to_trim, one_line};
use crate::text::{decimal, law_decimal_has_only_digits, law_decimal_round_trip};
use crate::types::MarketView;

verus! {

proof fn lemma_key_value(key: Seq<char>, value: Seq<char>)
    requires
        key.len() > 0,
        !key.contains('='),
        !is_white(key[0]),
        !is_white(key.last()),
    ensures
        key_value(key + seq!['='] + value) == Some((key, trimmed(value))),
{
    let line = key + seq!['='] + value;
    let k = key.len() as int;
    assert forall|i: int| 0 <= i < k implies line[i] != '=' by {
        assert(line[i] == key[i]);
    }
    assert(line[k] == '=');
    lemma_index_is(line, '=', k);
    assert(line.take(k) =~= key);
    assert(line.skip(k + 1) =~= value);
    lemma_nothing_to_trim(key);
}

proof fn lemma_step(ls: Seq<Seq<char>>, line: Seq<char>, key: Seq<char>, value: Seq<char>)
    requires
        line == key + seq!['='] + value,
        key.len() > 0,
        !key.contains('='),
        !is_white(key[0]),
        !is_white(key.last()),
    ensures
        info_of_lines(ls.push(line)) == info_entry(info_of_lines(ls), key, trimmed(value)),
{
    lemma_key_value(key, value);
    assert(ls.push(line).drop_last() =~= ls);
}

proof fn lemma_decimal_is_tight(i: int)
    ensures
        trimmed(decimal(i)) == decimal(i),
{
    let n = if i < 0 { -i } else { i };
    law_decimal_has_only_digits(n);
    let d = decimal(n);
    assert(crate::text::is_digit(d[d.len() - 1]));
    assert(crate::text::is_digit(d[0]));
    assert(decimal(i).last() == d.last());
    lemma_nothing_to_trim(decimal(i));
}

/// Whether a text can be the key of a line.
spec fn is_key(key: Seq<char>) -> bool {
    key.len() > 0 && !key.contains('=') && !is_white(key[0]) && !is_white(key.last())
}

proof fn lemma_keys()
    ensures
        is_key("slug"@),
        is_key("start_ms"@),
        is_key("end_ms"@),
        is_key("up_token_id"@),
        is_key("down_token_id"@),
        is_key("strike"@),
{
    reveal_strlit("slug");
    reveal_strlit("start_ms");
    reveal_strlit("end_ms");
    reveal_strlit("up_token_id");
    reveal_strlit("down_token_id");
    reveal_strlit("strike");
}

proof fn lemma_entries_have_keys(m: MarketView, strike: Seq<char>)
    ensures
        info_entries(m, strike)[0] == "slug"@ + seq!['='] + m.slug,
        info_entries(m, strike)[1] == "start_ms"@ + seq!['='] + decimal(m.start_ms as int),
        info_entries(m, strike)[2] == "end_ms"@ + seq!['='] + decimal(m.end_ms as int),
        info_entries(m, strike)[3] == "up_token_id"@ + seq!['='] + m.up_token_id,
        info_entries(m, strike)[4] == "down_token_id"@ + seq!['='] + m.down_token_id,
        info_entries(m, strike)[5] == "strike"@ + seq!['='] + strike,
{
    assert("slug="@ =~= "slug"@ + seq!['=']) by {
        reveal_strlit("slug=");
        reveal_strlit("slug");
    }
    assert("start_ms="@ =~= "start_ms"@ + seq!['=']) by {
        reveal_strlit("start_ms=");
        reveal_strlit("start_ms");
    }
    assert("end_ms="@ =~= "end_ms"@ + seq!['=']) by {
        reveal_strlit("end_ms=");
        reveal_strlit("end_ms");
    }
    assert("up_token_id="@ =~= "up_token_id"@ + seq!['=']) by {
        reveal_strlit("up_token_id=");
        reveal_strlit("up_token_id");
    }
    assert("down_token_id="@ =~= "down_token_id"@ + seq!['=']) by {
        reveal_strlit("down_token_id=");
        reveal_strlit("down_token_id");
    }
    assert("strike="@ =~= "strike"@ + seq!['=']) by {
        reveal_strlit("strike=");
        reveal_strlit("strike");
    }
}

proof fn lemma_meanings(m: InfoView, v: Seq<char>)
    ensures
        info_entry(m, "slug"@, v) == (InfoView { slug: v, ..m }),
        info_entry(m, "start_ms"@, v) == (InfoView { start_ms: i64_or_zero(v), ..m }),
        info_entry(m, "end_ms"@, v) == (InfoView { end_ms: i64_or_zero(v), ..m }),
        info_entry(m, "up_token_id"@, v) == m,
        info_entry(m, "down_token_id"@, v) == m,
        info_entry(m, "strike"@, v) == (InfoView { strike: number_text(v), ..m }),
{
    reveal_strlit("slug");
    reveal_strlit("start_ms");
    reveal_strlit("end_ms");
    reveal_strlit("up_token_id");
    reveal_strlit("down_token_id");
    reveal_strlit("strike");
    reveal_strlit("start");
    reveal_strlit("start_date");
    reveal_strlit("end");
    reveal_strlit("end_date");
    assert("slug"@.len() == 4 && "start_ms"@.len() == 8 && "end_ms"@.len() == 6);
    assert("up_token_id"@.len() == 11 && "down_token_id"@.len() == 13 && "strike"@.len() == 6);
    assert("start"@.len() == 5 && "start_date"@.len() == 10);
    assert("end"@.len() == 3 && "end_date"@.len() == 8);
    assert("strike"@[0] != "end_ms"@[0]);
}

/// A record of a market is read as it was recorded: slug, times and strike, without white space
/// around the texts.
pub proof fn law_info_reads_back(m: MarketView, strike: Seq<char>)
    requires
        trimmed(m.slug).len() > 0,
        forall|i: int|
            0 <= i < info_entries(m, strike).len() ==> one_line(
                #[trigger] info_entries(m, strike)[i],
            ),
    ensures
        info_of(file_text(info_entries(m, strike))) == (InfoView {
            slug: trimmed(m.slug),
            start_ms: m.start_ms,
            end_ms: m.end_ms,
            strike: number_text(trimmed(strike)),
        }),
{
    let e = info_entries(m, strike);
    law_lines_read_back(e);
    lemma_keys();
    lemma_entries_have_keys(m, strike);
    let l0 = Seq::<Seq<char>>::empty();
    let l1 = l0.push(e[0]);
    let l2 = l1.push(e[1]);
    let l3 = l2.push(e[2]);
    let l4 = l3.push(e[3]);
    let l5 = l4.push(e[4]);
    let l6 = l5.push(e[5]);
    lemma_step(l0, e[0], "slug"@, m.slug);
    lemma_meanings(info_of_lines(l0), trimmed(m.slug));
    lemma_step(l1, e[1], "start_ms"@, decimal(m.start_ms as int));
    lemma_decimal_is_tight(m.start_ms as int);
    lemma_meanings(info_of_lines(l1), decimal(m.start_ms as int));
    lemma_step(l2, e[2], "end_ms"@, decimal(m.end_ms as int));
    lemma_decimal_is_tight(m.end_ms as int);
    lemma_meanings(info_of_lines(l2), decimal(m.end_ms as int));
    lemma_step(l3, e[3], "up_token_id"@, m.up_token_id);
    lemma_meanings(info_of_lines(l3), trimmed(m.up_token_id));
    lemma_step(l4, e[4], "down_token_id"@, m.down_token_id);
    lemma_meanings(info_of_lines(l4), trimmed(m.down_token_id));
    lemma_step(l5, e[5], "strike"@, strike);
    lemma_meanings(info_of_lines(l5), trimmed(strike));
    assert(l6 =~= e);
    law_decimal_round_trip(m.start_ms as int, i64::MIN as int, i64::MAX as int);
    law_decimal_round_trip(m.end_ms as int, i64::MIN as int, i64::MAX as int);
}

} // verus!
