//! Choosing the current or next Up/Down market from what the Gamma API replies.

use vstd::prelude::*;
use vstd::string::*;

use crate::config::{floor_to, floor_to_multiple, Config, Interval};
use crate::json::{json_of_text, list_view, parse_json, parse_string_list, string_list_of_text, texts};
use crate::json::{Json, JsonView};
use crate::market::dates::{datetime_ms, parse_datetime_ms};
use crate::text::{after_last, contains_text, decimal, has_text, i64_to_text, integer_within};
use crate::text::{last_segment, lowercase, parse_i64, uppercase};
use crate::types::{opt_market, MarketInfo, MarketView, Side};

verus! {

/// The side that a lowercase outcome title speaks of. The words of the up side are looked for
/// first.
pub open spec fn title_side(lower: Seq<char>) -> Option<Side> {
    if has_text(lower, "up"@) || has_text(lower, "yes"@) || has_text(lower, "higher"@) {
        Some(Side::Up)
    } else if has_text(lower, "down"@) || has_text(lower, "no"@) || has_text(lower, "lower"@) {
        Some(Side::Down)
    } else {
        None
    }
}

/// The side that a lowercase outcome title speaks of.
pub fn outcome_side(lower: &str) -> (r: Option<Side>)
    ensures
        r == title_side(lower@),
{
    if contains_text(lower, "up") || contains_text(lower, "yes") || contains_text(
        lower,
        "higher",
    ) {
        Some(Side::Up)
    } else if contains_text(lower, "down") || contains_text(lower, "no") || contains_text(
        lower,
        "lower",
    ) {
        Some(Side::Down)
    } else {
        None
    }
}

/// A pair of token IDs with one of them replaced by the token of an outcome, as far as the
/// outcome speaks of a side.
pub open spec fn with_token(
    pair: (Seq<char>, Seq<char>),
    side: Option<Side>,
    token: Seq<char>,
) -> (Seq<char>, Seq<char>) {
    match side {
        Some(Side::Up) => (token, pair.1),
        Some(Side::Down) => (pair.0, token),
        None => pair,
    }
}

/// The text of an optional document, or the empty text.
pub open spec fn text_of(v: Option<JsonView>) -> Seq<char> {
    match v {
        Some(JsonView::Text(s)) => s,
        _ => Seq::empty(),
    }
}

/// The first of a list of strings, or the empty text.
pub open spec fn first_text(v: Seq<Seq<char>>) -> Seq<char> {
    if v.len() > 0 {
        v[0]
    } else {
        Seq::empty()
    }
}

/// The first token ID of a market.
pub open spec fn first_token(market: JsonView) -> Seq<char> {
    match market.get("clobTokenIds"@) {
        Some(JsonView::Text(s)) => if s.len() > 0 && s[0] == '[' {
            match string_list_of_text(s) {
                Some(v) => first_text(v),
                None => s,
            }
        } else {
            s
        },
        Some(JsonView::List(v)) => if v.len() > 0 {
            text_of(Some(v[0]))
        } else {
            Seq::empty()
        },
        _ => Seq::empty(),
    }
}

/// Extract the first token ID from a market object.
/// Handles both plain string and JSON array string formats.
pub fn extract_first_token_id(market: &Json) -> (r: String)
    ensures
        r@ == first_token(market.view()),
{
    if let Some(raw) = market.get("clobTokenIds") {
        if let Some(s) = raw.as_text() {
            if s.as_str().unicode_len() > 0 && s.as_str().get_char(0) == '[' {
                if let Some(tokens) = parse_string_list(s.as_str()) {
                    if tokens.len() > 0 {
                        return tokens[0].clone();
                    }
                    return String::new();
                }
            }
            return s.clone();
        }
        if let Some(list) = raw.as_list() {
            if list.len() > 0 {
                if let Some(s) = list[0].as_text() {
                    return s.clone();
                }
            }
        }
    }
    String::new()
}

/// The title of a market: its `groupItemTitle`, or its `outcome` where it has no such member.
pub open spec fn market_title(market: JsonView) -> Seq<char> {
    match market.get("groupItemTitle"@) {
        Some(v) => text_of(Some(v)),
        None => text_of(market.get("outcome"@)),
    }
}

fn title_of(market: &Json) -> (r: String)
    ensures
        r@ == market_title(market.view()),
{
    match market.get("groupItemTitle") {
        Some(Json::Text(s)) => s.clone(),
        Some(_) => String::new(),
        None => market.text_or_empty("outcome"),
    }
}

/// The tokens that the titles of the markets assign, a later market over an earlier one.
pub open spec fn titled_tokens(markets: Seq<JsonView>) -> (Seq<char>, Seq<char>)
    decreases markets.len(),
{
    if markets.len() == 0 {
        (Seq::empty(), Seq::empty())
    } else {
        with_token(
            titled_tokens(markets.drop_last()),
            title_side(lowercase(market_title(markets.last()))),
            first_token(markets.last()),
        )
    }
}

/// The tokens after the first `n` outcomes have been paired with the tokens of their place.
pub open spec fn paired_tokens(
    start: (Seq<char>, Seq<char>),
    outcomes: Seq<Seq<char>>,
    tokens: Seq<Seq<char>>,
    n: int,
) -> (Seq<char>, Seq<char>)
    decreases n,
{
    if n <= 0 {
        start
    } else {
        with_token(
            paired_tokens(start, outcomes, tokens, n - 1),
            title_side(lowercase(outcomes[n - 1])),
            tokens[n - 1],
        )
    }
}

pub open spec fn shorter<A, B>(a: Seq<A>, b: Seq<B>) -> int {
    if a.len() <= b.len() {
        a.len() as int
    } else {
        b.len() as int
    }
}

/// Assigns each token to the side that the outcome of its place speaks of, a later outcome
/// over an earlier one. Where one list is longer, its end is left alone.
pub fn assign_tokens(
    up_token: String,
    down_token: String,
    outcomes: &Vec<String>,
    tokens: &Vec<String>,
) -> (r: (String, String))
    ensures
        (r.0@, r.1@) == paired_tokens(
            (up_token@, down_token@),
            texts(outcomes@),
            texts(tokens@),
            shorter(outcomes@, tokens@),
        ),
{
    let ghost start = (up_token@, down_token@);
    let mut up = up_token;
    let mut down = down_token;
    let n: usize = if outcomes.len() <= tokens.len() {
        outcomes.len()
    } else {
        tokens.len()
    };
    let mut i: usize = 0;
    while i < n
        invariant
            i <= n,
            n == shorter(outcomes@, tokens@),
            (up@, down@) == paired_tokens(start, texts(outcomes@), texts(tokens@), i as int),
        decreases n - i,
    {
        let lower = outcomes[i].as_str().to_lowercase();
        match outcome_side(lower.as_str()) {
            Some(Side::Up) => {
                up = tokens[i].clone();
            },
            Some(Side::Down) => {
                down = tokens[i].clone();
            },
            None => {},
        }
        i = i + 1;
    }
    (up, down)
}

/// The tokens after one more market has been read in the format where `outcomes` and
/// `clobTokenIds` are lists written as text.
pub open spec fn listed_step(
    pair: (Seq<char>, Seq<char>),
    market: JsonView,
) -> (Seq<char>, Seq<char>) {
    match (
        string_list_of_text(market.text_or_empty("outcomes"@)),
        string_list_of_text(market.text_or_empty("clobTokenIds"@)),
    ) {
        (Some(outcomes), Some(tokens)) => paired_tokens(
            pair,
            outcomes,
            tokens,
            shorter(outcomes, tokens),
        ),
        _ => pair,
    }
}

pub open spec fn listed_tokens(
    start: (Seq<char>, Seq<char>),
    markets: Seq<JsonView>,
) -> (Seq<char>, Seq<char>)
    decreases markets.len(),
{
    if markets.len() == 0 {
        start
    } else {
        listed_step(listed_tokens(start, markets.drop_last()), markets.last())
    }
}

/// The UP and DOWN tokens of a list of markets: two markets are read by their titles; where
/// that leaves a side open, each market is read as lists of outcomes and tokens.
pub open spec fn market_tokens(markets: Seq<JsonView>) -> (Seq<char>, Seq<char>) {
    let titled = if markets.len() == 2 {
        titled_tokens(markets)
    } else {
        (Seq::empty(), Seq::empty())
    };
    if titled.0.len() == 0 || titled.1.len() == 0 {
        listed_tokens(titled, markets)
    } else {
        titled
    }
}

/// Extract UP and DOWN token IDs from the markets array.
/// Handles both 2-market format and 1-market with JSON array tokens.
pub fn extract_token_ids(markets: &Vec<Json>) -> (r: (String, String))
    ensures
        (r.0@, r.1@) == market_tokens(list_view(markets@)),
{
    let ghost m = list_view(markets@);
    let mut up = String::new();
    let mut down = String::new();

    // Format 1: two separate markets with groupItemTitle
    if markets.len() == 2 {
        let mut i: usize = 0;
        assert(m.take(0) =~= Seq::empty());
        while i < markets.len()
            invariant
                i <= markets.len(),
                m == list_view(markets@),
                (up@, down@) == titled_tokens(m.take(i as int)),
            decreases markets.len() - i,
        {
            assert(m.take(i + 1).drop_last() =~= m.take(i as int));
            let lower = title_of(&markets[i]).as_str().to_lowercase();
            let token = extract_first_token_id(&markets[i]);
            match outcome_side(lower.as_str()) {
                Some(Side::Up) => {
                    up = token;
                },
                Some(Side::Down) => {
                    down = token;
                },
                None => {},
            }
            i = i + 1;
        }
        assert(m.take(i as int) =~= m);
    }

    if up.as_str().is_empty() || down.as_str().is_empty() {
        // Format 2: outcomes and clobTokenIds as JSON array strings, in the same order
        let ghost start = (up@, down@);
        let mut i: usize = 0;
        assert(m.take(0) =~= Seq::empty());
        while i < markets.len()
            invariant
                i <= markets.len(),
                m == list_view(markets@),
                (up@, down@) == listed_tokens(start, m.take(i as int)),
            decreases markets.len() - i,
        {
            assert(m.take(i + 1).drop_last() =~= m.take(i as int));
            let outcomes = parse_string_list(markets[i].text_or_empty("outcomes").as_str());
            let tokens = parse_string_list(markets[i].text_or_empty("clobTokenIds").as_str());
            if let (Some(outcomes), Some(tokens)) = (outcomes, tokens) {
                let pair = assign_tokens(up, down, &outcomes, &tokens);
                up = pair.0;
                down = pair.1;
            }
            i = i + 1;
        }
        assert(m.take(i as int) =~= m);
    }
    (up, down)
}

/// The Unix time of a slug in milliseconds: above a trillion it already is one, otherwise it
/// counts seconds. Seconds that leave the 64-bit range wrap around.
pub open spec fn slug_ms(ts: i64) -> i64 {
    if ts > 1_000_000_000_000 {
        ts
    } else {
        ts.wrapping_mul(1000)
    }
}

/// The Unix time of a slug in milliseconds.
pub fn slug_to_ms(ts: i64) -> (r: i64)
    ensures
        r == slug_ms(ts),
{
    if ts > 1_000_000_000_000 {
        ts
    } else {
        ts.wrapping_mul(1000)
    }
}

/// When a market starts and ends: the start is the Unix time at the end of the slug, where
/// there is a positive one; otherwise it lies one window before a known end. There is no
/// answer where either time would be zero.
pub open spec fn market_times(slug: Seq<char>, end_ms: i64, window_ms: i64) -> Option<(i64, i64)> {
    let from_slug = match integer_within(
        after_last(slug, '-'),
        true,
        i64::MIN as int,
        i64::MAX as int,
    ) {
        Some(ts) => slug_ms(ts as i64),
        None => 0,
    };
    let start_ms = if from_slug > 0 {
        from_slug
    } else if end_ms > 0 {
        end_ms.wrapping_sub(window_ms)
    } else {
        0
    };
    if start_ms == 0 || end_ms == 0 {
        None
    } else {
        Some((start_ms, end_ms))
    }
}

/// When a market starts and ends, by its slug and by the end that the event gives (zero where
/// it gives none).
pub fn window_of_market(slug: &str, end_ms: i64, window_ms: i64) -> (r: Option<(i64, i64)>)
    ensures
        r == market_times(slug@, end_ms, window_ms),
{
    let from_slug: i64 = match parse_i64(last_segment(slug, '-').as_str()) {
        Some(ts) => slug_to_ms(ts),
        None => 0,
    };
    let start_ms: i64 = if from_slug > 0 {
        from_slug
    } else if end_ms > 0 {
        end_ms.wrapping_sub(window_ms)
    } else {
        0
    };
    if start_ms == 0 || end_ms == 0 {
        None
    } else {
        Some((start_ms, end_ms))
    }
}

/// When the event of a market ends, or zero where it gives no readable end.
pub open spec fn event_end(event: JsonView) -> i64 {
    match datetime_ms(event.text_or_empty("endDate"@)) {
        Some(ms) => ms,
        None => 0,
    }
}

/// The market that an event describes.
pub open spec fn event_market(
    event: JsonView,
    slug: Seq<char>,
    window_ms: i64,
) -> Option<MarketView> {
    match event.get("markets"@) {
        Some(JsonView::List(markets)) => if markets.len() == 0 {
            None
        } else {
            match market_times(slug, event_end(event), window_ms) {
                None => None,
                Some((start_ms, end_ms)) => {
                    let tokens = market_tokens(markets);
                    if tokens.0.len() == 0 || tokens.1.len() == 0 {
                        None
                    } else {
                        Some(
                            MarketView {
                                slug,
                                start_ms,
                                end_ms,
                                up_token_id: tokens.0,
                                down_token_id: tokens.1,
                            },
                        )
                    }
                },
            }
        },
        _ => None,
    }
}

/// Parse a Gamma API event into MarketInfo
pub fn parse_event_to_market_info(event: &Json, slug: &str, window_ms: i64) -> (r: Result<
    Option<MarketInfo>,
    String,
>)
    ensures
        r is Ok,
        opt_market(r->Ok_0) == event_market(event.view(), slug@, window_ms),
{
    let markets = match event.get("markets") {
        Some(v) => match v.as_list() {
            Some(m) => m,
            None => return Ok(None),
        },
        None => return Ok(None),
    };
    if markets.len() == 0 {
        return Ok(None);
    }
    let end_date = event.text_or_empty("endDate");
    let end_ms: i64 = match parse_datetime_ms(end_date.as_str()) {
        Some(ms) => ms,
        None => 0,
    };
    let (start_ms, end_ms) = match window_of_market(slug, end_ms, window_ms) {
        Some(times) => times,
        None => return Ok(None),
    };

    // Find UP and DOWN token IDs
    let (up_token, down_token) = extract_token_ids(markets);
    if up_token.as_str().is_empty() || down_token.as_str().is_empty() {
        return Ok(None);
    }
    Ok(
        Some(
            MarketInfo {
                slug: String::from_str(slug),
                start_ms,
                end_ms,
                up_token_id: up_token,
                down_token_id: down_token,
            },
        ),
    )
}


/// What the reply to a search by slug gives: the market of the first event, where the reply is
/// a list that has one.
pub open spec fn slug_reply_market(
    reply: JsonView,
    slug: Seq<char>,
    window_ms: i64,
) -> Option<MarketView> {
    match reply {
        JsonView::List(events) => if events.len() == 0 {
            None
        } else {
            event_market(events[0], slug, window_ms)
        },
        _ => None,
    }
}

/// The market of the first event of a reply, where the reply is a list that has one.
pub fn first_event_market(reply: &Json, slug: &str, window_ms: i64) -> (r: Option<MarketInfo>)
    ensures
        opt_market(r) == slug_reply_market(reply.view(), slug@, window_ms),
{
    match reply.as_list() {
        Some(events) => {
            if events.len() == 0 {
                return None;
            }
            match parse_event_to_market_info(&events[0], slug, window_ms) {
                Ok(m) => m,
                Err(_) => None,
            }
        },
        None => None,
    }
}

/// Reads the reply to a search by exact slug.
pub fn event_from_slug_reply(text: &str, slug: &str, window_ms: i64) -> (r: Result<
    Option<MarketInfo>,
    String,
>)
    ensures
        match json_of_text(text@) {
            Ok(reply) => r is Ok && opt_market(r->Ok_0) == slug_reply_market(
                reply,
                slug@,
                window_ms,
            ),
            Err(e) => r is Err && r->Err_0@ == "JSON error: "@ + e,
        },
{
    match parse_json(text) {
        Ok(reply) => Ok(first_event_market(&reply, slug, window_ms)),
        Err(e) => Err(String::from_str("JSON error: ").concat(e.as_str())),
    }
}

/// The better of the best market so far and one more: a market that has not ended by `now_ms`
/// and starts before the best one, which starts at the end of time where there is none yet.
pub open spec fn better_market(
    best: Option<MarketView>,
    next: Option<MarketView>,
    now_ms: i64,
) -> Option<MarketView> {
    match next {
        Some(m) => if m.end_ms >= now_ms && m.start_ms < best_start(best) {
            Some(m)
        } else {
            best
        },
        None => best,
    }
}

pub open spec fn best_start(best: Option<MarketView>) -> i64 {
    match best {
        Some(m) => m.start_ms,
        None => i64::MAX,
    }
}

/// The market of each event of a list, by the slug that the event carries.
pub open spec fn series_markets(events: Seq<JsonView>, window_ms: i64) -> Seq<
    Option<MarketView>,
> {
    events.map_values(|e: JsonView| event_market(e, e.text_or_empty("slug"@), window_ms))
}

/// The best of a list of markets, taken from the front.
pub open spec fn best_market(markets: Seq<Option<MarketView>>, now_ms: i64) -> Option<MarketView>
    decreases markets.len(),
{
    if markets.len() == 0 {
        None
    } else {
        better_market(best_market(markets.drop_last(), now_ms), markets.last(), now_ms)
    }
}

/// Whether a market is one of the list that has not ended by `now_ms`.
pub open spec fn is_open_market(
    markets: Seq<Option<MarketView>>,
    i: int,
    now_ms: i64,
) -> bool {
    0 <= i < markets.len() && markets[i] is Some && markets[i]->0.end_ms >= now_ms
        && markets[i]->0.start_ms < i64::MAX
}

/// The best of a list of markets is the first of those that have not ended and that start
/// earliest; there is none exactly where none qualifies.
pub proof fn law_best_market_is_earliest_open(markets: Seq<Option<MarketView>>, now_ms: i64)
    ensures
        best_market(markets, now_ms) is None <==> forall|i: int|
            !is_open_market(markets, i, now_ms),
        best_market(markets, now_ms) is Some ==> exists|i: int|
            {
                &&& #[trigger] is_open_market(markets, i, now_ms)
                &&& markets[i] == best_market(markets, now_ms)
                &&& forall|j: int| #[trigger]
                    is_open_market(markets, j, now_ms) ==> markets[i]->0.start_ms
                        <= markets[j]->0.start_ms
                &&& forall|j: int| #[trigger]
                    is_open_market(markets, j, now_ms) && j < i ==> markets[i]->0.start_ms
                        < markets[j]->0.start_ms
            },
    decreases markets.len(),
{
    if markets.len() > 0 {
        let p = markets.drop_last();
        let n = markets.len() - 1;
        law_best_market_is_earliest_open(p, now_ms);
        assert forall|j: int| is_open_market(p, j, now_ms) implies is_open_market(
            markets,
            j,
            now_ms,
        ) by {}
        assert forall|j: int| is_open_market(markets, j, now_ms) && j != n implies is_open_market(
            p,
            j,
            now_ms,
        ) by {}
        let b = best_market(p, now_ms);
        if better_market(b, markets.last(), now_ms) != b {
            assert(is_open_market(markets, n, now_ms));
        } else if b is Some {
            let i = choose|i: int|
                {
                    &&& #[trigger] is_open_market(p, i, now_ms)
                    &&& p[i] == b
                    &&& forall|j: int| #[trigger]
                        is_open_market(p, j, now_ms) ==> p[i]->0.start_ms <= p[j]->0.start_ms
                    &&& forall|j: int| #[trigger]
                        is_open_market(p, j, now_ms) && j < i ==> p[i]->0.start_ms
                            < p[j]->0.start_ms
                };
            assert(is_open_market(markets, i, now_ms));
        }
    } else {
        assert forall|i: int| !is_open_market(markets, i, now_ms) by {}
    }
}

/// What the reply to a search by series gives: an error where it is no list, otherwise the
/// best of the markets of its events.
pub open spec fn series_reply_market(
    reply: JsonView,
    now_ms: i64,
    window_ms: i64,
) -> Result<Option<MarketView>, Seq<char>> {
    match reply {
        JsonView::List(events) => Ok(best_market(series_markets(events, window_ms), now_ms)),
        _ => Err("Expected array of events"@),
    }
}

/// The best market of the events of a reply.
pub fn best_event_market(reply: &Json, now_ms: i64, window_ms: i64) -> (r: Result<
    Option<MarketInfo>,
    String,
>)
    ensures
        match series_reply_market(reply.view(), now_ms, window_ms) {
            Ok(m) => r is Ok && opt_market(r->Ok_0) == m,
            Err(e) => r is Err && r->Err_0@ == e,
        },
{
    let events = match reply.as_list() {
        Some(events) => events,
        None => return Err(String::from_str("Expected array of events")),
    };
    let ghost all = series_markets(list_view(events@), window_ms);
    let mut best: Option<MarketInfo> = None;
    let mut best_start_ms: i64 = i64::MAX;
    let mut i: usize = 0;
    assert(all.take(0) =~= Seq::empty());
    while i < events.len()
        invariant
            i <= events.len(),
            all == series_markets(list_view(events@), window_ms),
            opt_market(best) == best_market(all.take(i as int), now_ms),
            best_start_ms == best_start(opt_market(best)),
        decreases events.len() - i,
    {
        assert(all.take(i + 1).drop_last() =~= all.take(i as int));
        let slug = events[i].text_or_empty("slug");
        if let Ok(Some(market)) = parse_event_to_market_info(&events[i], slug.as_str(), window_ms) {
            if market.end_ms >= now_ms && market.start_ms < best_start_ms {
                best_start_ms = market.start_ms;
                best = Some(market);
            }
        }
        i = i + 1;
    }
    assert(all.take(i as int) =~= all);
    Ok(best)
}

/// Fallback discovery: reads the reply to a search by series for pre-created future markets.
pub fn market_from_series_reply(text: &str, now_ms: i64, config: &Config) -> (r: Result<
    MarketInfo,
    String,
>)
    ensures
        match json_of_text(text@) {
            Err(e) => r is Err && r->Err_0@ == "JSON error: "@ + e,
            Ok(reply) => match series_reply_market(
                reply,
                now_ms,
                (config.interval.secs() * 1000) as i64,
            ) {
                Err(e) => r is Err && r->Err_0@ == e,
                Ok(None) => r is Err && r->Err_0@ == "No active "@ + uppercase(config.asset@)
                    + " "@ + config.interval.name() + " market found"@,
                Ok(Some(m)) => r is Ok && r->Ok_0@ == m,
            },
        },
{
    let reply = match parse_json(text) {
        Ok(reply) => reply,
        Err(e) => return Err(String::from_str("JSON error: ").concat(e.as_str())),
    };
    match best_event_market(&reply, now_ms, config.interval.window_ms()) {
        Err(e) => Err(e),
        Ok(Some(m)) => Ok(m),
        Ok(None) => Err(
            String::from_str("No active ").concat(config.asset_label().as_str()).concat(
                " ",
            ).concat(config.interval.label()).concat(" market found"),
        ),
    }
}

/// Where to ask for the event of a slug.
pub fn slug_url(gamma_api_url: &str, slug: &str) -> (r: String)
    ensures
        r@ == gamma_api_url@ + "/events?slug="@ + slug@,
{
    String::from_str(gamma_api_url).concat("/events?slug=").concat(slug)
}

/// Where to ask for the events of a series.
pub fn series_url(config: &Config) -> (r: String)
    ensures
        r@ == config.gamma_api_url@ + "/events?series_id="@ + config.series_id@
            + "&active=true&closed=false&limit=100&order=endDate&ascending=false"@,
{
    config.gamma_api_url.clone().concat("/events?series_id=").concat(
        config.series_id.as_str(),
    ).concat("&active=true&closed=false&limit=100&order=endDate&ascending=false")
}

/// The starts of the current window and of the next one, in seconds.
pub fn candidate_windows(interval: &Interval, now_s: i64) -> (r: (i64, i64))
    requires
        floor_to(now_s as int, interval.secs()) >= i64::MIN,
        floor_to(now_s as int, interval.secs()) + interval.secs() <= i64::MAX,
    ensures
        r.0 == floor_to(now_s as int, interval.secs()),
        r.1 == r.0 + interval.secs(),
        r.0 <= now_s < r.1,
{
    let ws: i64 = interval.window_secs();
    let current: i64 = floor_to_multiple(now_s, ws);
    (current, current + ws)
}

/// The slug of the market whose window starts at a Unix time in seconds.
pub fn slug_of_window(config: &Config, window_start: i64) -> (r: String)
    ensures
        r@ == config.slug_start() + decimal(window_start as int),
{
    config.slug_prefix().concat(i64_to_text(window_start).as_str())
}

/// The slug of a window starts its market at that window: the times that are read back from
/// the slug are the start in milliseconds and the end that the event gives.
pub proof fn law_slug_gives_window_start(
    config: Config,
    window_start: i64,
    end_ms: i64,
    window_ms: i64,
)
    requires
        0 < window_start <= 1_000_000_000_000,
        end_ms != 0,
    ensures
        market_times(config.slug_start() + decimal(window_start as int), end_ms, window_ms) == Some(
            ((window_start * 1000) as i64, end_ms),
        ),
{
    reveal_strlit("-");
    let a = config.asset@ + "-updown-"@ + config.interval.name();
    let b = decimal(window_start as int);
    assert(config.slug_start() + b =~= a.push('-') + b);
    crate::text::law_decimal_has_only_digits(window_start as int);
    assert(!b.contains('-'));
    crate::text::law_after_last_of_join(a, '-', b);
    crate::text::law_decimal_round_trip(window_start as int, i64::MIN as int, i64::MAX as int);
}

/// What became of one look-up by slug.
pub enum Lookup {
    Found(MarketInfo),
    NotFound,
    Failed,
}

/// What discovery does after a look-up by slug.
pub enum DiscoveryStep {
    /// Trade this market.
    Take(MarketInfo),
    /// Look up the next candidate slug.
    TryNext,
    /// Ask for the events of the series.
    SearchSeries,
}

/// Whether a look-up gave a market that has not ended.
pub open spec fn lookup_is_open(outcome: Lookup, now_ms: i64) -> bool {
    outcome matches Lookup::Found(m) && m.end_ms >= now_ms
}

/// Decides on the outcome of looking up candidate number `candidate` of two: a market that has
/// not ended is taken; otherwise the next candidate is tried, and after the last one the
/// series is searched.
pub fn after_lookup(candidate: usize, outcome: Lookup, now_ms: i64) -> (step: DiscoveryStep)
    ensures
        step == lookup_step(candidate, outcome, now_ms),
        lookup_is_open(outcome, now_ms) ==> step == DiscoveryStep::Take(outcome->Found_0),
        !lookup_is_open(outcome, now_ms) ==> step == (if candidate < 1 {
            DiscoveryStep::TryNext
        } else {
            DiscoveryStep::SearchSeries
        }),
{
    if let Lookup::Found(market) = outcome {
        if market.end_ms >= now_ms {
            return DiscoveryStep::Take(market);
        }
    }
    if candidate < 1 {
        DiscoveryStep::TryNext
    } else {
        DiscoveryStep::SearchSeries
    }
}

/// A title speaks of the up side where it says up, yes or higher, and otherwise of the down side
/// where it says down, no or lower; no other title speaks of a side.
pub proof fn law_title_side(t: Seq<char>)
    ensures
        title_side(t) == Some(Side::Up) <==> has_text(t, "up"@) || has_text(t, "yes"@) || has_text(
            t,
            "higher"@,
        ),
        title_side(t) == Some(Side::Down) ==> has_text(t, "down"@) || has_text(t, "no"@) || has_text(
            t,
            "lower"@,
        ),
        title_side(t) is None ==> !has_text(t, "up"@) && !has_text(t, "down"@),
        has_text(t, "down"@) && !has_text(t, "up"@) && !has_text(t, "yes"@) && !has_text(
            t,
            "higher"@,
        ) ==> title_side(t) == Some(Side::Down),
{
}

/// One more outcome gives the token of its place to the side that it speaks of, and to no other.
pub proof fn law_pairing(
    start: (Seq<char>, Seq<char>),
    outcomes: Seq<Seq<char>>,
    tokens: Seq<Seq<char>>,
    n: int,
)
    requires
        0 <= n < outcomes.len(),
        n < tokens.len(),
    ensures
        ({
            let a = paired_tokens(start, outcomes, tokens, n);
            let z = paired_tokens(start, outcomes, tokens, n + 1);
            let side = title_side(lowercase(outcomes[n]));
            &&& side == Some(Side::Up) ==> z.0 == tokens[n] && z.1 == a.1
            &&& side == Some(Side::Down) ==> z.1 == tokens[n] && z.0 == a.0
            &&& side is None ==> z == a
        }),
        paired_tokens(start, outcomes, tokens, 0) == start,
{
}

/// Of two markets read by their titles, each gives its first token to the side that its title
/// speaks of.
pub proof fn law_titled(markets: Seq<JsonView>, m: JsonView)
    ensures
        ({
            let a = titled_tokens(markets);
            let z = titled_tokens(markets.push(m));
            let side = title_side(lowercase(market_title(m)));
            &&& side == Some(Side::Up) ==> z.0 == first_token(m) && z.1 == a.1
            &&& side == Some(Side::Down) ==> z.1 == first_token(m) && z.0 == a.0
            &&& side is None ==> z == a
        }),
        titled_tokens(Seq::empty()).0.len() == 0 && titled_tokens(Seq::empty()).1.len() == 0,
{
    assert(markets.push(m).drop_last() =~= markets);
}

/// Two markets whose titles give both sides a token are read by their titles; any other list is
/// read as lists of outcomes and tokens.
pub proof fn law_market_tokens(markets: Seq<JsonView>)
    ensures
        markets.len() == 2 && titled_tokens(markets).0.len() > 0 && titled_tokens(markets).1.len()
            > 0 ==> market_tokens(markets) == titled_tokens(markets),
        markets.len() != 2 ==> market_tokens(markets) == listed_tokens(
            (Seq::empty(), Seq::empty()),
            markets,
        ),
        ({
            let m = seq![markets[0]];
            let outcomes = string_list_of_text(markets[0].text_or_empty("outcomes"@));
            let tokens = string_list_of_text(markets[0].text_or_empty("clobTokenIds"@));
            &&& outcomes is Some && tokens is Some && outcomes->0.len() == tokens->0.len()
                ==> market_tokens(m) == paired_tokens(
                (Seq::empty(), Seq::empty()),
                outcomes->0,
                tokens->0,
                tokens->0.len() as int,
            )
        }),
{
    let m = seq![markets[0]];
    let none = (Seq::<char>::empty(), Seq::<char>::empty());
    assert(m.drop_last() =~= Seq::empty());
    assert(listed_tokens(none, m.drop_last()) == none);
    assert(listed_tokens(none, m) == listed_step(none, m.last()));
}

/// The first token of a market is that of its list of tokens, or the text that stands in place
/// of a list.
pub proof fn law_first_token(market: JsonView)
    ensures
        market.get("clobTokenIds"@) matches Some(JsonView::List(v)) ==> v.len() > 0
            ==> (v[0] matches JsonView::Text(s) ==> first_token(market) == s),
        market.get("clobTokenIds"@) matches Some(JsonView::Text(s)) ==> (s.len() > 0 && s[0] == '['
            && (string_list_of_text(s) matches Some(l) && l.len() > 0)) ==> first_token(market)
            == string_list_of_text(s)->0[0],
        market.get("clobTokenIds"@) matches Some(JsonView::Text(s)) ==> (s.len() > 0 && s[0] != '[')
            ==> first_token(market) == s,
        market.get("clobTokenIds"@) is None ==> first_token(market).len() == 0,
        market.get("clobTokenIds"@) matches Some(JsonView::List(v)) ==> (v.len() == 0
            ==> first_token(market).len() == 0),
        market.get("clobTokenIds"@) matches Some(JsonView::Text(s)) ==> (s.len() > 0 && s[0] == '['
            && (string_list_of_text(s) matches Some(l) && l.len() == 0) ==> first_token(market).len()
            == 0),
        market.get("groupItemTitle"@) matches Some(JsonView::Text(s)) ==> market_title(market) == s,
        market.get("groupItemTitle"@) is None ==> (market.get("outcome"@) matches Some(
            JsonView::Text(s),
        ) ==> market_title(market) == s),
{
}

/// A market has the slug that was looked for, the times that follow from it and from the end of
/// its event, the up token for the up side and the down token for the down side, and neither
/// token is missing.
pub proof fn law_event_market(event: JsonView, slug: Seq<char>, window_ms: i64)
    ensures
        event_market(event, slug, window_ms) matches Some(m) ==> {
            &&& m.slug == slug
            &&& market_times(slug, event_end(event), window_ms) == Some((m.start_ms, m.end_ms))
            &&& event.get("markets"@) matches Some(JsonView::List(l)) && l.len() > 0
                && m.up_token_id == market_tokens(l).0 && m.down_token_id == market_tokens(l).1
            &&& m.up_token_id.len() > 0 && m.down_token_id.len() > 0
            &&& m.end_ms == event_end(event) && m.end_ms != 0
        },
        (event.get("markets"@) matches Some(JsonView::List(l)) && l.len() > 0 && market_tokens(
            l,
        ).0.len() > 0 && market_tokens(l).1.len() > 0) && market_times(
            slug,
            event_end(event),
            window_ms,
        ) is Some ==> event_market(event, slug, window_ms) is Some,
        datetime_ms(event.text_or_empty("endDate"@)) matches Some(ms) ==> event_end(event) == ms,
        datetime_ms(event.text_or_empty("endDate"@)) is None ==> event_end(event) == 0,
{
}

/// A market starts at the time that its slug ends with, in seconds or, above a trillion, in
/// milliseconds; without such a time it starts one window before its end.
pub proof fn law_market_times(slug: Seq<char>, end_ms: i64, window_ms: i64)
    ensures
        ({
            let at = integer_within(
                after_last(slug, '-'),
                true,
                i64::MIN as int,
                i64::MAX as int,
            );
            let r = market_times(slug, end_ms, window_ms);
            &&& end_ms == 0 ==> r is None
            &&& r is Some ==> (r->0).1 == end_ms
            &&& end_ms != 0 && (at matches Some(t) && 0 < t <= 1_000_000_000_000) ==> r is Some
                && (r->0).0 == at->0 * 1000
            &&& end_ms != 0 && (at matches Some(t) && 1_000_000_000_000 < t) ==> r is Some && (r->0).0
                == at->0
            &&& end_ms > 0 && at is None && 0 < window_ms < end_ms ==> r is Some && (r->0).0 == end_ms
                - window_ms
            &&& end_ms < 0 && at is None ==> r is None
        }),
{
}

/// Of the markets of a reply the one that is taken has not ended, and no other that has not ended
/// starts before it.
pub proof fn law_taken_market(markets: Seq<Option<MarketView>>, now_ms: i64, i: int)
    requires
        0 <= i < markets.len(),
    ensures
        best_market(markets, now_ms) matches Some(m) ==> m.end_ms >= now_ms && markets.contains(
            Some(m),
        ),
        markets[i] matches Some(x) ==> (x.end_ms >= now_ms && x.start_ms < i64::MAX) ==> best_market(
            markets,
            now_ms,
        ) is Some && best_market(markets, now_ms)->0.start_ms <= x.start_ms,
    decreases markets.len(),
{
    let p = markets.drop_last();
    let n = markets.len() - 1;
    if p.len() > 0 {
        law_taken_market(p, now_ms, if i < n { i } else { 0 });
        if best_market(p, now_ms) is Some {
            let k = choose|k: int| 0 <= k < p.len() && p[k] == best_market(p, now_ms);
            assert(markets[k] == p[k]);
        }
    } else {
        assert(best_market(p, now_ms) is None);
    }
    assert(markets[n] == markets.last());
    if i < n {
        assert(p[i] == markets[i]);
    }
}

/// The reply to a search by slug gives the market of its first event; a search by series gives
/// each event the slug that it carries.
pub proof fn law_replies(events: Seq<JsonView>, slug: Seq<char>, window_ms: i64, now_ms: i64, i: int)
    ensures
        events.len() > 0 ==> slug_reply_market(JsonView::List(events), slug, window_ms)
            == event_market(events[0], slug, window_ms),
        slug_reply_market(JsonView::List(Seq::empty()), slug, window_ms) is None,
        0 <= i < events.len() ==> series_markets(events, window_ms)[i] == event_market(
            events[i],
            events[i].text_or_empty("slug"@),
            window_ms,
        ),
        series_markets(events, window_ms).len() == events.len(),
        series_reply_market(JsonView::List(events), now_ms, window_ms) == Ok::<
            Option<MarketView>,
            Seq<char>,
        >(best_market(series_markets(events, window_ms), now_ms)),
        series_reply_market(JsonView::Null, now_ms, window_ms) == Err::<
            Option<MarketView>,
            Seq<char>,
        >("Expected array of events"@),
{
}

/// What follows a lookup.
pub open spec fn lookup_step(candidate: usize, outcome: Lookup, now_ms: i64) -> DiscoveryStep {
    if lookup_is_open(outcome, now_ms) {
        DiscoveryStep::Take(outcome->Found_0)
    } else if candidate < 1 {
        DiscoveryStep::TryNext
    } else {
        DiscoveryStep::SearchSeries
    }
}

/// A market that was found and has not ended is taken as it was found. Otherwise the next window
/// is tried after the first one, and the series after the second.
pub proof fn law_lookup(candidate: usize, outcome: Lookup, now_ms: i64)
    ensures
        ({
            let step = lookup_step(candidate, outcome, now_ms);
            &&& outcome matches Lookup::Found(m) ==> (m.end_ms >= now_ms ==> step
                == DiscoveryStep::Take(m))
            &&& outcome matches Lookup::Found(m) ==> (m.end_ms < now_ms ==> !(step is Take))
            &&& !(outcome is Found) ==> !(step is Take)
            &&& !(step is Take) && candidate == 0 ==> step == DiscoveryStep::TryNext
            &&& !(step is Take) && candidate >= 1 ==> step == DiscoveryStep::SearchSeries
        }),
{
}

/// A market that lists more outcomes than tokens, or more tokens than outcomes, is read as far as
/// both go.
pub proof fn law_listed_pairs(pair: (Seq<char>, Seq<char>), market: JsonView)
    ensures
        ({
            let outcomes = string_list_of_text(market.text_or_empty("outcomes"@));
            let tokens = string_list_of_text(market.text_or_empty("clobTokenIds"@));
            &&& outcomes is None || tokens is None ==> listed_step(pair, market) == pair
            &&& outcomes is Some && tokens is Some && outcomes->0.len() <= tokens->0.len()
                ==> listed_step(pair, market) == paired_tokens(
                pair,
                outcomes->0,
                tokens->0,
                outcomes->0.len() as int,
            )
            &&& outcomes is Some && tokens is Some && tokens->0.len() <= outcomes->0.len()
                ==> listed_step(pair, market) == paired_tokens(
                pair,
                outcomes->0,
                tokens->0,
                tokens->0.len() as int,
            )
        }),
{
}

} // verus!
