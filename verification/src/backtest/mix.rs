//! Which strategies traded in a market, in short.

use vstd::prelude::*;
use vstd::string::*;

use crate::csv::{join, joined};
use crate::json::texts;
use crate::text::{decimal, push_decimal, str_eq};

verus! {

pub open spec fn short_name(name: Seq<char>) -> Seq<char> {
    if name == "latency_arb"@ {
        "LA"@
    } else if name == "certainty_capture"@ {
        "CC"@
    } else if name == "convexity_fade"@ {
        "CF"@
    } else if name == "cross_timeframe"@ {
        "CT"@
    } else if name == "strike_misalign"@ {
        "SM"@
    } else if name == "lp_extreme"@ {
        "LP"@
    } else {
        "??"@
    }
}

/// Two letters for a strategy.
pub fn strategy_short(name: &str) -> (r: &'static str)
    ensures
        r@ == short_name(name@),
{
    if str_eq(name, "latency_arb") {
        "LA"
    } else if str_eq(name, "certainty_capture") {
        "CC"
    } else if str_eq(name, "convexity_fade") {
        "CF"
    } else if str_eq(name, "cross_timeframe") {
        "CT"
    } else if str_eq(name, "strike_misalign") {
        "SM"
    } else if str_eq(name, "lp_extreme") {
        "LP"
    } else {
        "??"
    }
}

/// The different names of a list in the order in which they first come, each with how often it
/// comes.
pub open spec fn name_counts(list: Seq<Seq<char>>) -> Seq<(Seq<char>, int)>
    decreases list.len(),
{
    if list.len() == 0 {
        Seq::empty()
    } else {
        counted(name_counts(list.drop_last()), list.last())
    }
}

/// Counts with one more name.
pub open spec fn counted(counts: Seq<(Seq<char>, int)>, name: Seq<char>) -> Seq<(Seq<char>, int)>
    decreases counts.len(),
{
    if counts.len() == 0 {
        seq![(name, 1)]
    } else if counts[0].0 == name {
        counts.update(0, (name, counts[0].1 + 1))
    } else {
        seq![counts[0]] + counted(counts.skip(1), name)
    }
}

proof fn lemma_counted_at(counts: Seq<(Seq<char>, int)>, name: Seq<char>, k: int)
    requires
        0 <= k <= counts.len(),
        forall|i: int| 0 <= i < k ==> (#[trigger] counts[i]).0 != name,
        k < counts.len() ==> counts[k].0 == name,
    ensures
        k < counts.len() ==> counted(counts, name) == counts.update(k, (name, counts[k].1 + 1)),
        k == counts.len() ==> counted(counts, name) == counts.push((name, 1)),
    decreases counts.len(),
{
    if counts.len() == 0 {
        assert(seq![(name, 1int)] =~= counts.push((name, 1)));
    } else if k > 0 {
        assert(counts[0].0 != name);
        let rest = counts.skip(1);
        assert forall|i: int| 0 <= i < k - 1 implies (#[trigger] rest[i]).0 != name by {
            assert(rest[i] == counts[i + 1]);
        }
        if k < counts.len() {
            assert(rest[k - 1] == counts[k]);
        }
        lemma_counted_at(rest, name, k - 1);
        if k < counts.len() {
            assert(seq![counts[0]] + rest.update(k - 1, (name, rest[k - 1].1 + 1)) =~= counts.update(
                k,
                (name, counts[k].1 + 1),
            ));
        } else {
            assert(seq![counts[0]] + rest.push((name, 1)) =~= counts.push((name, 1)));
        }
    }
}

/// A name stands in the counts exactly if the list holds it, once, and the counts add up to
/// the length of the list.
pub proof fn law_name_counts(list: Seq<Seq<char>>, name: Seq<char>)
    ensures
        list.contains(name) <==> exists|i: int|
            0 <= i < name_counts(list).len() && (#[trigger] name_counts(list)[i]).0 == name,
        forall|i: int, j: int|
            0 <= i < j < name_counts(list).len() ==> (#[trigger] name_counts(list)[i]).0 != (
            #[trigger] name_counts(list)[j]).0,
        total(name_counts(list)) == list.len(),
    decreases list.len(),
{
    if list.len() > 0 {
        let before = list.drop_last();
        let c = name_counts(before);
        let n = list.last();
        law_name_counts(before, name);
        law_name_counts(before, n);
        let k = place_in(c, n);
        lemma_place_in(c, n);
        lemma_counted_at(c, n, k);
        lemma_total_counted(c, n);
        let d = name_counts(list);
        assert(d == counted(c, n));
        if list.contains(name) {
            let i = choose|i: int| 0 <= i < list.len() && list[i] == name;
            if i < before.len() {
                assert(before[i] == name);
                let j = choose|j: int| 0 <= j < c.len() && (#[trigger] c[j]).0 == name;
                assert(d[j].0 == name);
            } else {
                assert(d[k].0 == name);
            }
        }
        if exists|i: int| 0 <= i < d.len() && (#[trigger] d[i]).0 == name {
            let i = choose|i: int| 0 <= i < d.len() && (#[trigger] d[i]).0 == name;
            if i < c.len() && c[i].0 == name {
                assert(before.contains(name));
                let p = choose|p: int| 0 <= p < before.len() && before[p] == name;
                assert(list[p] == name);
            } else {
                assert(list[list.len() - 1] == name);
            }
        }
        assert forall|i: int, j: int| 0 <= i < j < d.len() implies (#[trigger] d[i]).0 != (
        #[trigger] d[j]).0 by {
            assert(d[i].0 == c[i].0);
            if j < c.len() {
                assert(d[j].0 == c[j].0);
            }
        }
    }
}

/// The sum of counts.
pub open spec fn total(counts: Seq<(Seq<char>, int)>) -> int
    decreases counts.len(),
{
    if counts.len() == 0 {
        0
    } else {
        counts[0].1 + total(counts.skip(1))
    }
}

proof fn lemma_total_counted(counts: Seq<(Seq<char>, int)>, name: Seq<char>)
    ensures
        total(counted(counts, name)) == total(counts) + 1,
    decreases counts.len(),
{
    let after = counted(counts, name);
    if counts.len() == 0 {
        assert(after.skip(1) =~= counts);
    } else if counts[0].0 == name {
        assert(after.skip(1) =~= counts.skip(1));
    } else {
        lemma_total_counted(counts.skip(1), name);
        assert(after.skip(1) =~= counted(counts.skip(1), name));
    }
}

/// Where a name first stands in counts, or their length.
pub open spec fn place_in(counts: Seq<(Seq<char>, int)>, name: Seq<char>) -> int
    decreases counts.len(),
{
    if counts.len() == 0 || counts[0].0 == name {
        0
    } else {
        1 + place_in(counts.skip(1), name)
    }
}

proof fn lemma_place_in(counts: Seq<(Seq<char>, int)>, name: Seq<char>)
    ensures
        0 <= place_in(counts, name) <= counts.len(),
        forall|i: int| 0 <= i < place_in(counts, name) ==> (#[trigger] counts[i]).0 != name,
        place_in(counts, name) < counts.len() ==> counts[place_in(counts, name)].0 == name,
    decreases counts.len(),
{
    if counts.len() > 0 && counts[0].0 != name {
        let rest = counts.skip(1);
        lemma_place_in(rest, name);
        assert forall|i: int| 0 <= i < place_in(counts, name) implies (#[trigger] counts[i]).0
            != name by {
            if i > 0 {
                assert(rest[i - 1] == counts[i]);
            }
        }
    }
}

/// Names with how often they come.
pub open spec fn count_views(v: Seq<(String, u64)>) -> Seq<(Seq<char>, int)> {
    v.map_values(|p: (String, u64)| (p.0@, p.1 as int))
}

fn count_name(counts: &mut Vec<(String, u64)>, name: &str)
    requires
        forall|i: int| 0 <= i < old(counts)@.len() ==> (#[trigger] old(counts)@[i]).1 < u64::MAX,
    ensures
        count_views(final(counts)@) == counted(count_views(old(counts)@), name@),
{
    let ghost before = count_views(counts@);
    let mut k: usize = 0;
    while k < counts.len()
        invariant
            k <= counts@.len(),
            counts@ == old(counts)@,
            before == count_views(counts@),
            forall|i: int| 0 <= i < k ==> (#[trigger] before[i]).0 != name@,
            forall|i: int|
                0 <= i < counts@.len() ==> (#[trigger] counts@[i]).1 < u64::MAX,
        decreases counts@.len() - k,
    {
        assert(before[k as int].0 == counts@[k as int].0@);
        if str_eq(counts[k].0.as_str(), name) {
            let n: u64 = counts[k].1;
            let s = counts[k].0.clone();
            counts.set(k, (s, n + 1));
            proof {
                lemma_counted_at(before, name@, k as int);
                assert(count_views(counts@) =~= before.update(
                    k as int,
                    (name@, before[k as int].1 + 1),
                ));
            }
            return;
        }
        k = k + 1;
    }
    counts.push((String::from_str(name), 1));
    proof {
        lemma_counted_at(before, name@, k as int);
        assert(count_views(counts@) =~= before.push((name@, 1)));
    }
}

proof fn lemma_counts_small(list: Seq<Seq<char>>)
    ensures
        forall|i: int|
            0 <= i < name_counts(list).len() ==> 0 < (#[trigger] name_counts(list)[i]).1
                <= list.len(),
    decreases list.len(),
{
    if list.len() > 0 {
        let c = name_counts(list.drop_last());
        lemma_counts_small(list.drop_last());
        lemma_place_in(c, list.last());
        lemma_counted_at(c, list.last(), place_in(c, list.last()));
    }
}

/// The different names of a list in the order in which they first come, each with how often it
/// comes.
pub fn count_strategies(list: &Vec<String>) -> (counts: Vec<(String, u64)>)
    ensures
        count_views(counts@) == name_counts(texts(list@)),
{
    let ghost all = texts(list@);
    let mut counts: Vec<(String, u64)> = Vec::new();
    let mut i: usize = 0;
    assert(all.take(0) =~= Seq::empty());
    assert(count_views(counts@) =~= Seq::empty());
    while i < list.len()
        invariant
            i <= list@.len(),
            all == texts(list@),
            count_views(counts@) == name_counts(all.take(i as int)),
        decreases list@.len() - i,
    {
        proof {
            assert(all.take(i + 1).drop_last() =~= all.take(i as int));
            assert(all[i as int] == list@[i as int]@);
            lemma_counts_small(all.take(i as int));
            assert forall|k: int| 0 <= k < counts@.len() implies (#[trigger] counts@[k]).1
                < u64::MAX by {
                assert(count_views(counts@)[k].1 == counts@[k].1);
            }
        }
        count_name(&mut counts, list[i].as_str());
        i = i + 1;
    }
    assert(all.take(i as int) =~= all);
    counts
}

/// A strategy in short with a count.
pub open spec fn count_text(p: (Seq<char>, int)) -> Seq<char> {
    short_name(p.0) + seq![':'] + decimal(p.1)
}

/// The strategies of a list in short, each with how often it comes: "LA:2 LP:1".
pub fn strategy_mix(list: &Vec<String>) -> (r: String)
    ensures
        r@ == joined(
            name_counts(texts(list@)).map_values(|p: (Seq<char>, int)| count_text(p)),
            ' ',
        ),
{
    let ghost all = texts(list@);
    let counts = count_strategies(list);
    let ghost want = name_counts(all).map_values(|p: (Seq<char>, int)| count_text(p));
    let mut parts: Vec<String> = Vec::new();
    let mut k: usize = 0;
    assert(texts(parts@) =~= want.take(0));
    proof {
        lemma_counts_small(all);
    }
    while k < counts.len()
        invariant
            k <= counts@.len(),
            count_views(counts@) == name_counts(all),
            want == name_counts(all).map_values(|p: (Seq<char>, int)| count_text(p)),
            forall|i: int|
                0 <= i < name_counts(all).len() ==> 0 < (#[trigger] name_counts(all)[i]).1,
            texts(parts@) == want.take(k as int),
        decreases counts@.len() - k,
    {
        let mut s = String::from_str(strategy_short(counts[k].0.as_str()));
        s.push(':');
        let ghost head = s@;
        let n: u64 = counts[k].1;
        push_decimal(&mut s, n);
        proof {
            let p = name_counts(all)[k as int];
            assert(count_views(counts@)[k as int] == p);
            assert(p == (counts@[k as int].0@, n as int));
            assert(s@ =~= count_text(p));
            assert(want[k as int] == s@);
            assert(want.take(k + 1) =~= want.take(k as int).push(s@));
        }
        let ghost before = texts(parts@);
        parts.push(s);
        assert(texts(parts@) =~= before.push(s@));
        k = k + 1;
    }
    assert(want.take(k as int) =~= want);
    join(&parts, ' ')
}

/// How often a name comes in a list.
pub open spec fn times(list: Seq<Seq<char>>, name: Seq<char>) -> int
    decreases list.len(),
{
    if list.len() == 0 {
        0
    } else {
        times(list.drop_last(), name) + if list.last() == name {
            1int
        } else {
            0
        }
    }
}

/// Each name is counted as often as it comes.
pub proof fn law_counts_are_times(list: Seq<Seq<char>>, i: int)
    requires
        0 <= i < name_counts(list).len(),
    ensures
        name_counts(list)[i].1 == times(list, name_counts(list)[i].0),
    decreases list.len(),
{
    if list.len() > 0 {
        let p = list.drop_last();
        let c = name_counts(p);
        let n = list.last();
        let k = place_in(c, n);
        lemma_place_in(c, n);
        lemma_counted_at(c, n, k);
        if i < c.len() {
            law_counts_are_times(p, i);
            law_name_counts(p, n);
            if i != k {
                if k < c.len() {
                    assert(c[i].0 != n);
                } else {
                    assert(c[i].0 != n);
                }
            }
        } else {
            law_name_counts(p, n);
            lemma_no_times(p, n);
        }
    }
}

proof fn lemma_no_times(list: Seq<Seq<char>>, name: Seq<char>)
    requires
        !list.contains(name),
    ensures
        times(list, name) == 0,
    decreases list.len(),
{
    if list.len() > 0 {
        let p = list.drop_last();
        assert(list[list.len() - 1] == list.last());
        assert forall|i: int| 0 <= i < p.len() implies p[i] != name by {
            assert(list[i] == p[i]);
        }
        lemma_no_times(p, name);
    }
}

/// The short form of a count: two letters, a colon and the number.
pub proof fn law_count_text(name: Seq<char>, n: int)
    ensures
        short_name("latency_arb"@) == "LA"@,
        short_name("certainty_capture"@) == "CC"@,
        short_name("convexity_fade"@) == "CF"@,
        short_name("cross_timeframe"@) == "CT"@,
        short_name("strike_misalign"@) == "SM"@,
        short_name("lp_extreme"@) == "LP"@,
        name != "latency_arb"@ && name != "certainty_capture"@ && name != "convexity_fade"@ && name
            != "cross_timeframe"@ && name != "strike_misalign"@ && name != "lp_extreme"@
            ==> short_name(name) == "??"@,
        count_text((name, n)) == short_name(name) + seq![':'] + decimal(n),
        count_text(("lp_extreme"@, n)) == "LP"@ + seq![':'] + decimal(n),
{
    reveal_strlit("latency_arb");
    reveal_strlit("certainty_capture");
    reveal_strlit("convexity_fade");
    reveal_strlit("cross_timeframe");
    reveal_strlit("strike_misalign");
    reveal_strlit("lp_extreme");
    assert("latency_arb"@.len() == 11 && "certainty_capture"@.len() == 17);
    assert("convexity_fade"@.len() == 14 && "lp_extreme"@.len() == 10);
    assert("cross_timeframe"@.len() == 15 && "strike_misalign"@.len() == 15);
    assert("cross_timeframe"@[0] == 'c' && "strike_misalign"@[0] == 's');
}

} // verus!
