//! Points in time written as text.

use vstd::prelude::*;

use crate::text::{integer_within, parse_i64};

verus! {

/// Milliseconds since the epoch of an RFC 3339 date and time.
pub uninterp spec fn rfc3339_ms(s: Seq<char>) -> Option<i64>;

/// Milliseconds since the epoch of a date and time without zone, read as UTC in a format.
pub uninterp spec fn formatted_utc_ms(s: Seq<char>, format: Seq<char>) -> Option<i64>;

/// `chrono::DateTime::parse_from_rfc3339`, then `timestamp_millis`: the outcome is a function
/// of the text alone.
#[verifier::external_body]
pub(crate) fn parse_rfc3339(s: &str) -> (r: Option<i64>)
    ensures
        r == rfc3339_ms(s@),
{
    chrono::DateTime::parse_from_rfc3339(s).ok().map(|d| d.timestamp_millis())
}

/// `chrono::NaiveDateTime::parse_from_str`, taken as UTC, then `timestamp_millis`: the outcome
/// is a function of the text and the format alone. Only the two formats by calendar date are
/// let in: the arithmetic on a date by week can overflow.
#[verifier::external_body]
fn parse_formatted_utc(s: &str, format: &str) -> (r: Option<i64>)
    requires
        format@ == "%Y-%m-%dT%H:%M:%SZ"@ || format@ == "%Y-%m-%dT%H:%M:%S%.fZ"@,
    ensures
        r == formatted_utc_ms(s@, format@),
{
    chrono::NaiveDateTime::parse_from_str(s, format).ok().map(|d| d.and_utc().timestamp_millis())
}

/// A Unix time in milliseconds: from a trillion on it already is one, below it counts seconds.
/// Seconds that leave the 64-bit range wrap around.
pub open spec fn unix_ms(ts: i64) -> i64 {
    if ts >= 1_000_000_000_000 {
        ts
    } else {
        ts.wrapping_mul(1000)
    }
}

/// A Unix time in milliseconds: from a trillion on it already is one, below it counts seconds.
pub fn unix_to_ms(ts: i64) -> (r: i64)
    ensures
        r == unix_ms(ts),
{
    if ts >= 1_000_000_000_000 {
        ts
    } else {
        ts.wrapping_mul(1000)
    }
}

/// Whole seconds below a trillion come out a thousandfold, and from a trillion on a time comes
/// out as it is.
pub proof fn law_unix_seconds(ts: i64)
    requires
        0 <= ts,
    ensures
        ts < 1_000_000_000_000 ==> unix_ms(ts) == ts * 1000,
        ts >= 1_000_000_000_000 ==> unix_ms(ts) == ts,
{
}

/// The Unix time that an integer text gives, in milliseconds.
pub open spec fn unix_text_ms(s: Seq<char>) -> Option<i64> {
    match integer_within(s, true, i64::MIN as int, i64::MAX as int) {
        Some(ts) => Some(unix_ms(ts as i64)),
        None => None,
    }
}

/// The Unix time that an integer text gives, in milliseconds.
pub fn parse_unix_ms(s: &str) -> (r: Option<i64>)
    ensures
        r == unix_text_ms(s@),
{
    match parse_i64(s) {
        Some(ts) => Some(unix_to_ms(ts)),
        None => None,
    }
}

/// The time that a text gives, given what the calendar formats made of it: RFC 3339 first,
/// then the plain and the fractional UTC formats, then a Unix time.
pub open spec fn choose_time(
    rfc3339: Option<i64>,
    plain: Option<i64>,
    fractional: Option<i64>,
    unix: Option<i64>,
) -> Option<i64> {
    if rfc3339 is Some {
        rfc3339
    } else if plain is Some {
        plain
    } else if fractional is Some {
        fractional
    } else {
        unix
    }
}

/// Milliseconds since the epoch of a date and time text.
pub open spec fn datetime_ms(s: Seq<char>) -> Option<i64> {
    choose_time(
        rfc3339_ms(s),
        formatted_utc_ms(s, "%Y-%m-%dT%H:%M:%SZ"@),
        formatted_utc_ms(s, "%Y-%m-%dT%H:%M:%S%.fZ"@),
        unix_text_ms(s),
    )
}

/// The time that a text gives, given what the calendar formats made of it.
pub fn pick_time(
    rfc3339: Option<i64>,
    plain: Option<i64>,
    fractional: Option<i64>,
    unix: Option<i64>,
) -> (r: Option<i64>)
    ensures
        r == choose_time(rfc3339, plain, fractional, unix),
{
    if rfc3339.is_some() {
        rfc3339
    } else if plain.is_some() {
        plain
    } else if fractional.is_some() {
        fractional
    } else {
        unix
    }
}

/// Milliseconds since the epoch of a date and time text: RFC 3339, the same without a zone but
/// with a literal `Z`, or a Unix time in seconds or milliseconds.
pub fn parse_datetime_ms(s: &str) -> (r: Option<i64>)
    ensures
        r == datetime_ms(s@),
{
    pick_time(
        parse_rfc3339(s),
        parse_formatted_utc(s, "%Y-%m-%dT%H:%M:%SZ"),
        parse_formatted_utc(s, "%Y-%m-%dT%H:%M:%S%.fZ"),
        parse_unix_ms(s),
    )
}

/// The first of the formats that gives a time counts, and a text that none of them takes gives
/// no time.
pub proof fn law_first_time_counts(
    rfc3339: Option<i64>,
    plain: Option<i64>,
    fractional: Option<i64>,
    unix: Option<i64>,
    t: i64,
)
    ensures
        choose_time(Some(t), plain, fractional, unix) == Some(t),
        choose_time(None, Some(t), fractional, unix) == Some(t),
        choose_time(None, None, Some(t), unix) == Some(t),
        choose_time(None, None, None, unix) == unix,
{
}

/// A text that is an RFC 3339 time is that time; one that no calendar format takes counts the
/// seconds, or from a trillion on the milliseconds, since the epoch.
pub proof fn law_datetime(s: Seq<char>)
    ensures
        rfc3339_ms(s) is Some ==> datetime_ms(s) == rfc3339_ms(s),
        rfc3339_ms(s) is None && formatted_utc_ms(s, "%Y-%m-%dT%H:%M:%SZ"@) is Some ==> datetime_ms(s)
            == formatted_utc_ms(s, "%Y-%m-%dT%H:%M:%SZ"@),
        ({
            let n = integer_within(s, true, i64::MIN as int, i64::MAX as int);
            rfc3339_ms(s) is None && formatted_utc_ms(s, "%Y-%m-%dT%H:%M:%SZ"@) is None
                && formatted_utc_ms(s, "%Y-%m-%dT%H:%M:%S%.fZ"@) is None ==> {
                &&& n is None ==> datetime_ms(s) is None
                &&& n matches Some(t) ==> (0 <= t < 1_000_000_000_000 ==> datetime_ms(s) is Some
                    && datetime_ms(s)->0 == t * 1000)
                &&& n matches Some(t) ==> (1_000_000_000_000 <= t ==> datetime_ms(s) is Some
                    && datetime_ms(s)->0 == t)
            }
        }),
{
}

} // verus!
