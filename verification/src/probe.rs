//! The connection test: which tokens it listens to and when it has seen enough.

use vstd::prelude::*;
use vstd::string::*;

use crate::json::{json_of_text, list_view, parse_json, parse_string_list, string_list_of_text, texts};
use crate::json::{Json, JsonView};

verus! {

/// How many trades are enough.
pub const ENOUGH_TRADES: u32 = 50;

/// How many messages of a feed are shown.
pub const SHOWN_MESSAGES: u32 = 3;

/// How long the order book stream is listened to, in seconds.
pub const LISTEN_SECS: u64 = 15;

/// Two tokens, the first two of a list, where outcomes and tokens are both at least two.
pub open spec fn pair_of(outcomes: Option<Seq<Seq<char>>>, tokens: Option<Seq<Seq<char>>>) -> Option<
    (Seq<char>, Seq<char>),
> {
    match (outcomes, tokens) {
        (Some(o), Some(t)) => if o.len() >= 2 && t.len() >= 2 {
            Some((t[0], t[1]))
        } else {
            None
        },
        _ => None,
    }
}

/// The tokens of the first of the markets that names two.
pub open spec fn first_pair(markets: Seq<JsonView>) -> Option<(Seq<char>, Seq<char>)>
    decreases markets.len(),
{
    if markets.len() == 0 {
        None
    } else {
        let m = markets[0];
        match pair_of(
            string_list_of_text(m.text_or_empty("outcomes"@)),
            string_list_of_text(m.text_or_empty("clobTokenIds"@)),
        ) {
            Some(p) => Some(p),
            None => first_pair(markets.skip(1)),
        }
    }
}

/// The tokens of an event.
pub open spec fn event_pair(event: JsonView) -> Option<(Seq<char>, Seq<char>)> {
    match event.get("markets"@) {
        Some(v) => match v.as_list() {
            Some(markets) => first_pair(markets),
            None => None,
        },
        None => None,
    }
}

/// The tokens that events name, the first token of which is not empty; those of the last event
/// that names any where there are no such, and empty ones where none does. `so_far` are the
/// tokens known before.
pub open spec fn tokens_of_events(so_far: (Seq<char>, Seq<char>), events: Seq<JsonView>) -> (
    Seq<char>,
    Seq<char>,
)
    decreases events.len(),
{
    if events.len() == 0 {
        so_far
    } else {
        let now = match event_pair(events[0]) {
            Some(p) => p,
            None => so_far,
        };
        if now.0.len() > 0 {
            now
        } else {
            tokens_of_events(now, events.skip(1))
        }
    }
}

/// The tokens that a reply names.
pub open spec fn tokens_of_reply(v: JsonView) -> (Seq<char>, Seq<char>) {
    match v.as_list() {
        Some(events) => tokens_of_events((Seq::empty(), Seq::empty()), events),
        None => (Seq::empty(), Seq::empty()),
    }
}

/// Two tokens, the first two of a list, where outcomes and tokens are both at least two.
pub fn token_pair(outcomes: Option<Vec<String>>, tokens: Option<Vec<String>>) -> (r: Option<
    (String, String),
>)
    ensures
        (match r {
            Some(p) => Some((p.0@, p.1@)),
            None => None,
        }) == pair_of(
            match outcomes {
                Some(v) => Some(texts(v@)),
                None => None,
            },
            match tokens {
                Some(v) => Some(texts(v@)),
                None => None,
            },
        ),
{
    if let (Some(o), Some(t)) = (outcomes, tokens) {
        if o.len() >= 2 && t.len() >= 2 {
            assert(texts(t@)[0] == t@[0]@ && texts(t@)[1] == t@[1]@);
            return Some((t[0].clone(), t[1].clone()));
        }
    }
    None
}

fn pair_of_event(event: &Json) -> (r: Option<(String, String)>)
    ensures
        (match r {
            Some(p) => Some((p.0@, p.1@)),
            None => None,
        }) == event_pair(event.view()),
{
    if let Some(v) = event.get("markets") {
        if let Some(markets) = v.as_list() {
            let ghost all = list_view(markets@);
            let mut i: usize = 0;
            assert(all.skip(0) =~= all);
            while i < markets.len()
                invariant
                    i <= markets@.len(),
                    all == list_view(markets@),
                    event_pair(event.view()) == first_pair(all.skip(i as int)),
                decreases markets@.len() - i,
            {
                assert(all.skip(i as int)[0] == markets@[i as int].view());
                assert(all.skip(i as int).skip(1) =~= all.skip(i + 1));
                let outcomes = parse_string_list(markets[i].text_or_empty("outcomes").as_str());
                let tokens = parse_string_list(markets[i].text_or_empty("clobTokenIds").as_str());
                if let Some(p) = token_pair(outcomes, tokens) {
                    return Some(p);
                }
                i = i + 1;
            }
        }
    }
    None
}

/// The tokens that a reply names: up, then down.
pub fn tokens_from_json(v: &Json) -> (r: (String, String))
    ensures
        (r.0@, r.1@) == tokens_of_reply(v.view()),
{
    let mut up = String::new();
    let mut down = String::new();
    assert(up@ =~= Seq::empty() && down@ =~= Seq::empty());
    if let Some(events) = v.as_list() {
        let ghost all = list_view(events@);
        let mut i: usize = 0;
        assert(all.skip(0) =~= all);
        while i < events.len()
            invariant
                i <= events@.len(),
                all == list_view(events@),
                tokens_of_reply(v.view()) == tokens_of_events(
                    (up@, down@),
                    all.skip(i as int),
                ),
            decreases events@.len() - i,
        {
            assert(all.skip(i as int)[0] == events@[i as int].view());
            assert(all.skip(i as int).skip(1) =~= all.skip(i + 1));
            if let Some(p) = pair_of_event(&events[i]) {
                up = p.0;
                down = p.1;
            }
            if !up.as_str().is_empty() {
                return (up, down);
            }
            i = i + 1;
        }
    }
    (up, down)
}

/// The tokens that the text of a reply names; empty ones where it cannot be read.
pub fn reply_tokens(text: &str) -> (r: (String, String))
    ensures
        (r.0@, r.1@) == match json_of_text(text@) {
            Ok(v) => tokens_of_reply(v),
            Err(_) => (Seq::empty(), Seq::empty()),
        },
{
    match parse_json(text) {
        Ok(v) => tokens_from_json(&v),
        Err(_) => {
            let up = String::new();
            let down = String::new();
            assert(up@ =~= Seq::empty() && down@ =~= Seq::empty());
            (up, down)
        },
    }
}

/// Whether the order book stream passed: it spoke, or there was nothing to listen to.
pub fn stream_passed(messages: u32, has_tokens: bool) -> (r: bool)
    ensures
        r == passed(messages, has_tokens),
        r == (messages > 0 || !has_tokens),
{
    messages > 0 || !has_tokens
}

/// A market with at least two outcomes and two tokens gives its first token as that of the up
/// side and its second as that of the down side; one with fewer gives none.
pub proof fn law_pair(outcomes: Seq<Seq<char>>, tokens: Seq<Seq<char>>)
    ensures
        outcomes.len() >= 2 && tokens.len() >= 2 ==> pair_of(Some(outcomes), Some(tokens)) == Some(
            (tokens[0], tokens[1]),
        ),
        outcomes.len() < 2 || tokens.len() < 2 ==> pair_of(Some(outcomes), Some(tokens)) is None,
        pair_of(None, Some(tokens)) is None,
        pair_of(Some(outcomes), None) is None,
{
}

/// The first market that names two tokens counts.
pub proof fn law_first_pair(markets: Seq<JsonView>)
    requires
        markets.len() > 0,
    ensures
        ({
            let outcomes = string_list_of_text(markets[0].text_or_empty("outcomes"@));
            let tokens = string_list_of_text(markets[0].text_or_empty("clobTokenIds"@));
            if outcomes is Some && tokens is Some && outcomes->0.len() >= 2 && tokens->0.len() >= 2 {
                first_pair(markets) == Some((tokens->0[0], tokens->0[1]))
            } else {
                first_pair(markets) == first_pair(markets.skip(1))
            }
        }),
{
}

/// The first event that names a token counts, and none after it is read.
pub proof fn law_first_event(
    so_far: (Seq<char>, Seq<char>),
    events: Seq<JsonView>,
    p: (Seq<char>, Seq<char>),
)
    requires
        events.len() > 0,
    ensures
        event_pair(events[0]) == Some(p) && p.0.len() > 0 ==> tokens_of_events(so_far, events) == p,
        event_pair(events[0]) == Some(p) && p.0.len() == 0 ==> tokens_of_events(so_far, events)
            == tokens_of_events(p, events.skip(1)),
        event_pair(events[0]) is None && so_far.0.len() == 0 ==> tokens_of_events(so_far, events)
            == tokens_of_events(so_far, events.skip(1)),
        tokens_of_reply(JsonView::List(events)) == tokens_of_events(
            (Seq::empty(), Seq::empty()),
            events,
        ),
        tokens_of_events(so_far, Seq::empty()) == so_far,
        ({
            let markets = events[0].get("markets"@);
            &&& markets matches Some(JsonView::List(l)) ==> event_pair(events[0]) == first_pair(l)
            &&& markets is None ==> event_pair(events[0]) is None
        }),
{
}

/// Whether the order book stream passed.
pub open spec fn passed(messages: u32, has_tokens: bool) -> bool {
    messages > 0 || !has_tokens
}

/// A stream passes where it spoke; a silent one only where there was nothing to listen to.
pub proof fn law_passed(messages: u32, has_tokens: bool)
    ensures
        messages > 0 ==> passed(messages, has_tokens),
        passed(0, has_tokens) <==> !has_tokens,
{
}

/// Fifty trades are enough, three messages of a feed are shown, and the order book stream is
/// listened to for a quarter of a minute.
pub proof fn law_probe_limits()
    ensures
        ENOUGH_TRADES == 50,
        SHOWN_MESSAGES == 3,
        LISTEN_SECS == 15,
{
}

} // verus!
