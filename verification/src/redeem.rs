//! Redemption of resolved positions.

use vstd::prelude::*;
use vstd::string::*;

use crate::json::texts;
use crate::text::str_eq;

verus! {

/// The positions of the entries that no earlier one equals.
pub open spec fn firsts(ids: Seq<Seq<char>>) -> Seq<usize>
    decreases ids.len(),
{
    if ids.len() == 0 {
        Seq::empty()
    } else {
        let before = firsts(ids.drop_last());
        if ids.drop_last().contains(ids.last()) {
            before
        } else {
            before.push((ids.len() - 1) as usize)
        }
    }
}

/// Each condition is redeemed once: at every position that is taken stands one that was not
/// there before, and every condition stands at one of them.
pub proof fn law_each_condition_once(ids: Seq<Seq<char>>, k: int)
    requires
        0 <= k < ids.len(),
        ids.len() <= usize::MAX,
    ensures
        exists|i: int| 0 <= i < firsts(ids).len() && ids[#[trigger] firsts(ids)[i] as int] == ids[k],
        forall|i: int, j: int|
            0 <= i < j < firsts(ids).len() ==> firsts(ids)[i] < firsts(ids)[j] && ids[
                #[trigger] firsts(ids)[i] as int] != ids[#[trigger] firsts(ids)[j] as int],
        forall|i: int| 0 <= i < firsts(ids).len() ==> #[trigger] firsts(ids)[i] < ids.len(),
    decreases ids.len(),
{
    let d = ids.drop_last();
    let f = firsts(d);
    let g = firsts(ids);
    let last = ids.len() - 1;
    if d.len() > 0 {
        law_each_condition_once(d, 0);
    } else {
        assert(f.len() == 0);
    }
    assert forall|i: int| 0 <= i < g.len() implies #[trigger] g[i] < ids.len() by {
        if i < f.len() {
            assert(f[i] < d.len());
        }
    }
    assert forall|i: int, j: int| 0 <= i < j < g.len() implies g[i] < g[j] && ids[
        #[trigger] g[i] as int] != ids[#[trigger] g[j] as int] by {
        assert(f[i] < d.len());
        assert(ids[g[i] as int] == d[f[i] as int]);
        if j < f.len() {
            assert(f[j] < d.len());
            assert(ids[g[j] as int] == d[f[j] as int]);
        } else {
            assert(g[j] == last);
            assert(!d.contains(ids.last()));
        }
    }
    if k < last {
        law_each_condition_once(d, k);
        let i = choose|i: int| 0 <= i < f.len() && d[#[trigger] f[i] as int] == d[k];
        assert(f[i] < d.len());
        assert(ids[g[i] as int] == ids[k]);
    } else if d.contains(ids.last()) {
        let p = choose|p: int| 0 <= p < d.len() && d[p] == ids.last();
        law_each_condition_once(d, p);
        let i = choose|i: int| 0 <= i < f.len() && d[#[trigger] f[i] as int] == d[p];
        assert(f[i] < d.len());
        assert(ids[g[i] as int] == ids[k]);
    } else {
        assert(g[g.len() - 1] == last);
    }
}

fn seen_before(ids: &Vec<String>, at: usize) -> (r: bool)
    requires
        at < ids@.len(),
    ensures
        r == texts(ids@).take(at as int).contains(ids@[at as int]@),
{
    let ghost all = texts(ids@);
    let mut i: usize = 0;
    while i < at
        invariant
            i <= at < ids@.len(),
            all == texts(ids@),
            forall|j: int| 0 <= j < i ==> #[trigger] all[j] != ids@[at as int]@,
        decreases at - i,
    {
        assert(all[i as int] == ids@[i as int]@);
        if str_eq(ids[i].as_str(), ids[at].as_str()) {
            assert(all.take(at as int)[i as int] == ids@[at as int]@);
            return true;
        }
        i = i + 1;
    }
    false
}

/// The positions to redeem: of several that share a condition the first, as one transaction
/// redeems both outcomes.
pub fn redemptions(condition_ids: &Vec<String>) -> (r: Vec<usize>)
    ensures
        r@ == firsts(texts(condition_ids@)),
{
    let ghost all = texts(condition_ids@);
    let mut out: Vec<usize> = Vec::new();
    let mut i: usize = 0;
    assert(all.take(0) =~= Seq::empty());
    while i < condition_ids.len()
        invariant
            i <= condition_ids@.len(),
            all == texts(condition_ids@),
            out@ == firsts(all.take(i as int)),
        decreases condition_ids@.len() - i,
    {
        assert(all.take(i + 1).drop_last() =~= all.take(i as int));
        assert(all[i as int] == condition_ids@[i as int]@);
        if !seen_before(condition_ids, i) {
            out.push(i);
        }
        i = i + 1;
    }
    assert(all.take(i as int) =~= all);
    out
}

/// Where alerts go: only where both the token and the chat are set and not empty.
pub open spec fn alert_target(token: Option<Seq<char>>, chat: Option<Seq<char>>) -> bool {
    match (token, chat) {
        (Some(t), Some(c)) => t.len() > 0 && c.len() > 0,
        _ => false,
    }
}

/// The text of the alert for a redeemed position.
pub fn redeemed_text(title: &str, outcome: &str, tx_hash: &str) -> (r: String)
    ensures
        r@ == "💰 *Redeemed*\n"@ + title@ + "\nOutcome: "@ + outcome@
            + "\n[View tx](https://polygonscan.com/tx/"@ + tx_hash@ + ")"@,
{
    String::from_str("💰 *Redeemed*\n").concat(title).concat("\nOutcome: ").concat(
        outcome,
    ).concat("\n[View tx](https://polygonscan.com/tx/").concat(tx_hash).concat(")")
}

/// Whether alerts are sent.
pub fn sends_alerts(token: Option<&str>, chat: Option<&str>) -> (r: bool)
    ensures
        r == alert_target(
            crate::analyzer::rows::opt_str(token),
            crate::analyzer::rows::opt_str(chat),
        ),
{
    match (token, chat) {
        (Some(t), Some(c)) => !t.is_empty() && !c.is_empty(),
        _ => false,
    }
}

/// Alerts are sent exactly where there is a token and a chat and neither is empty.
pub proof fn law_alert_target(token: Option<Seq<char>>, chat: Option<Seq<char>>)
    ensures
        alert_target(token, chat) <==> token is Some && chat is Some && token->0.len() > 0
            && chat->0.len() > 0,
{
}

/// A condition that was there before adds nothing; a new one adds its own position at the end.
pub proof fn law_next_condition(ids: Seq<Seq<char>>, id: Seq<char>)
    requires
        ids.len() < usize::MAX,
    ensures
        ids.contains(id) ==> firsts(ids.push(id)) == firsts(ids),
        !ids.contains(id) ==> firsts(ids.push(id)) == firsts(ids).push(ids.len() as usize),
{
    assert(ids.push(id).drop_last() =~= ids);
}

} // verus!
