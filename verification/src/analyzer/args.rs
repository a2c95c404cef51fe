//! Command line of the analyzer.

use vstd::prelude::*;
use vstd::string::*;

use crate::config::opt_text;
use crate::csv::{split, split_text};
use crate::json::texts;
use crate::text::{integer_within, lowercase, parse_i64, parse_unsigned, str_eq};

verus! {

/// Midnight UTC of a calendar date, in milliseconds since the epoch; none where there is no
/// such date.
pub uninterp spec fn utc_midnight_ms(year: int, month: int, day: int) -> Option<i64>;

/// The UTC date of a time in milliseconds since the epoch, as "YYYY-MM-DD"; none where the time
/// is out of range.
pub uninterp spec fn utc_date_text(ms: int) -> Option<Seq<char>>;

/// `chrono::NaiveDate::from_ymd_opt`, then midnight, UTC and `timestamp_millis`: a function of
/// the three numbers alone.
#[verifier::external_body]
fn midnight_ms(year: i32, month: u32, day: u32) -> (r: Option<i64>)
    ensures
        r == utc_midnight_ms(year as int, month as int, day as int),
{
    chrono::NaiveDate::from_ymd_opt(year, month, day)
        .and_then(|d| d.and_hms_opt(0, 0, 0))
        .map(|d| d.and_utc().timestamp_millis())
}

/// `chrono::DateTime::from_timestamp_millis`, then `format` with "%Y-%m-%d": a function of the
/// number alone.
#[verifier::external_body]
fn date_text(ms: i64) -> (r: Option<String>)
    ensures
        opt_text(r) == utc_date_text(ms as int),
{
    chrono::DateTime::from_timestamp_millis(ms).map(|d| d.format("%Y-%m-%d").to_string())
}

/// The year, month and day that a text "YYYY-MM-DD" names.
pub open spec fn date_parts(s: Seq<char>) -> Option<(int, int, int)> {
    let parts = split_text(s, '-');
    if parts.len() != 3 {
        None
    } else {
        match (
            integer_within(parts[0], true, i32::MIN as int, i32::MAX as int),
            integer_within(parts[1], false, 0, u32::MAX as int),
            integer_within(parts[2], false, 0, u32::MAX as int),
        ) {
            (Some(y), Some(m), Some(d)) => Some((y, m, d)),
            _ => None,
        }
    }
}

/// The year, month and day that a text "YYYY-MM-DD" names.
pub fn parse_date(s: &str) -> (r: Option<(i32, u32, u32)>)
    ensures
        match r {
            Some((y, m, d)) => date_parts(s@) == Some((y as int, m as int, d as int)),
            None => date_parts(s@) is None,
        },
{
    let parts = split(s, '-');
    let ghost view = texts(parts@);
    if parts.len() != 3 {
        return None;
    }
    assert(view[0] == parts@[0]@ && view[1] == parts@[1]@ && view[2] == parts@[2]@);
    let year: i64 = match parse_i64(parts[0].as_str()) {
        Some(y) => y,
        None => return None,
    };
    if year < i32::MIN as i64 || year > i32::MAX as i64 {
        return None;
    }
    let month: u64 = match parse_unsigned(parts[1].as_str(), u32::MAX as u64) {
        Some(m) => m,
        None => return None,
    };
    let day: u64 = match parse_unsigned(parts[2].as_str(), u32::MAX as u64) {
        Some(d) => d,
        None => return None,
    };
    Some((year as i32, month as u32, day as u32))
}

/// Midnight UTC of the date that a text names.
pub open spec fn date_ms(s: Seq<char>) -> Option<i64> {
    match date_parts(s) {
        Some((y, m, d)) => utc_midnight_ms(y, m, d),
        None => None,
    }
}

/// Midnight UTC of the date "YYYY-MM-DD", in milliseconds since the epoch.
pub fn parse_date_to_ms(s: &str) -> (r: Option<i64>)
    ensures
        r == date_ms(s@),
{
    match parse_date(s) {
        Some((y, m, d)) => midnight_ms(y, m, d),
        None => None,
    }
}

/// The dates of the first and the last market: "first..last", with "?" where a date is out of
/// range, or "no dates".
pub open spec fn range_text(earliest: Option<i64>, latest: Option<i64>) -> Seq<char> {
    match (earliest, latest) {
        (Some(e), Some(l)) => date_or_mark(utc_date_text(e as int)) + ".."@ + date_or_mark(
            utc_date_text(l as int),
        ),
        _ => "no dates"@,
    }
}

pub open spec fn date_or_mark(d: Option<Seq<char>>) -> Seq<char> {
    match d {
        Some(t) => t,
        None => "?"@,
    }
}

fn shown_date(ms: i64) -> (r: String)
    ensures
        r@ == date_or_mark(utc_date_text(ms as int)),
{
    match date_text(ms) {
        Some(t) => t,
        None => String::from_str("?"),
    }
}

/// The dates of the first and the last market.
pub fn date_range(earliest: Option<i64>, latest: Option<i64>) -> (r: String)
    ensures
        r@ == range_text(earliest, latest),
{
    match (earliest, latest) {
        (Some(e), Some(l)) => shown_date(e).concat("..").concat(shown_date(l).as_str()),
        _ => String::from_str("no dates"),
    }
}

/// Which markets to look at, and how much to say.
#[derive(Debug)]
pub struct Args {
    pub logs_dir: String,
    pub interval_filter: Option<String>,
    pub asset_filter: Option<String>,
    pub since_ms: Option<i64>,
    pub verbose: bool,
}

/// What an `Args` holds.
pub ghost struct ArgsView {
    pub logs_dir: Seq<char>,
    pub interval_filter: Option<Seq<char>>,
    pub asset_filter: Option<Seq<char>>,
    pub since_ms: Option<i64>,
    pub verbose: bool,
}

impl View for Args {
    type V = ArgsView;

    open spec fn view(&self) -> ArgsView {
        ArgsView {
            logs_dir: self.logs_dir@,
            interval_filter: opt_text(self.interval_filter),
            asset_filter: opt_text(self.asset_filter),
            since_ms: self.since_ms,
            verbose: self.verbose,
        }
    }
}

/// What a command line asks for.
#[derive(Debug)]
pub enum Command {
    Run(Args),
    Help,
    /// An option that there is not.
    Unknown(String),
    /// An option without its value.
    MissingValue(String),
}

/// What a `Command` holds.
pub ghost enum CommandView {
    Run(ArgsView),
    Help,
    Unknown(Seq<char>),
    MissingValue(Seq<char>),
}

impl View for Command {
    type V = CommandView;

    open spec fn view(&self) -> CommandView {
        match self {
            Command::Run(a) => CommandView::Run(a@),
            Command::Help => CommandView::Help,
            Command::Unknown(s) => CommandView::Unknown(s@),
            Command::MissingValue(s) => CommandView::MissingValue(s@),
        }
    }
}

/// Whether an option takes a value.
pub open spec fn takes_value(option: Seq<char>) -> bool {
    option == "--logs-dir"@ || option == "--interval"@ || option == "--asset"@ || option
        == "--since"@
}

/// The arguments with the value of an option filled in.
pub open spec fn with_value(a: ArgsView, option: Seq<char>, value: Seq<char>) -> ArgsView {
    if option == "--logs-dir"@ {
        ArgsView { logs_dir: value, ..a }
    } else if option == "--interval"@ {
        ArgsView { interval_filter: Some(value), ..a }
    } else if option == "--asset"@ {
        ArgsView { asset_filter: Some(lowercase(value)), ..a }
    } else {
        ArgsView { since_ms: date_ms(value), ..a }
    }
}

/// What the words of a command line from `i` on make of the arguments so far.
pub open spec fn command_from(words: Seq<Seq<char>>, i: int, a: ArgsView) -> CommandView
    decreases words.len() - i,
{
    if i < 0 || i >= words.len() {
        CommandView::Run(a)
    } else {
        let w = words[i];
        if takes_value(w) {
            if i + 1 >= words.len() {
                CommandView::MissingValue(w)
            } else {
                command_from(words, i + 2, with_value(a, w, words[i + 1]))
            }
        } else if w == "--verbose"@ || w == "-v"@ {
            command_from(words, i + 1, ArgsView { verbose: true, ..a })
        } else if w == "--help"@ || w == "-h"@ {
            CommandView::Help
        } else {
            CommandView::Unknown(w)
        }
    }
}

pub open spec fn default_args() -> ArgsView {
    ArgsView {
        logs_dir: "logs"@,
        interval_filter: None,
        asset_filter: None,
        since_ms: None,
        verbose: false,
    }
}

/// Reads a command line; its first word is the program.
pub fn from_cli(words: &Vec<String>) -> (r: Command)
    ensures
        r@ == command_from(texts(words@), 1, default_args()),
{
    let ghost all = texts(words@);
    let mut a = Args {
        logs_dir: String::from_str("logs"),
        interval_filter: None,
        asset_filter: None,
        since_ms: None,
        verbose: false,
    };
    let mut i: usize = 1;
    while i < words.len()
        invariant
            1 <= i,
            i <= words.len() || i == 1,
            all == texts(words@),
            command_from(all, 1, default_args()) == command_from(all, i as int, a@),
        decreases words.len() - i,
    {
        let w = words[i].as_str();
        assert(all[i as int] == w@);
        let valued = str_eq(w, "--logs-dir") || str_eq(w, "--interval") || str_eq(w, "--asset")
            || str_eq(w, "--since");
        if valued {
            if i + 1 >= words.len() {
                return Command::MissingValue(words[i].clone());
            }
            let value = words[i + 1].as_str();
            assert(all[i + 1] == value@);
            if str_eq(w, "--logs-dir") {
                a.logs_dir = words[i + 1].clone();
            } else if str_eq(w, "--interval") {
                a.interval_filter = Some(words[i + 1].clone());
            } else if str_eq(w, "--asset") {
                a.asset_filter = Some(value.to_lowercase());
            } else {
                a.since_ms = parse_date_to_ms(value);
            }
            i = i + 2;
        } else if str_eq(w, "--verbose") || str_eq(w, "-v") {
            a.verbose = true;
            i = i + 1;
        } else if str_eq(w, "--help") || str_eq(w, "-h") {
            return Command::Help;
        } else {
            return Command::Unknown(words[i].clone());
        }
    }
    Command::Run(a)
}

/// Whether the directory of an interval is looked at.
pub fn interval_selected(args: &Args, interval: &str) -> (r: bool)
    ensures
        r == selects_interval(args@, interval@),
        r == (match opt_text(args.interval_filter) {
            Some(f) => interval@ == f,
            None => true,
        }),
{
    match &args.interval_filter {
        Some(f) => str_eq(interval, f.as_str()),
        None => true,
    }
}

/// Whether a market is looked at, by the asset that its slug starts with.
pub fn slug_selected(args: &Args, slug: &str) -> (r: bool)
    ensures
        r == selects_slug(args@, slug@),
        r == (match opt_text(args.asset_filter) {
            Some(f) => crate::text::occurs_at(slug@, f, 0),
            None => true,
        }),
{
    match &args.asset_filter {
        Some(f) => crate::text::starts_with_text(slug, f.as_str()),
        None => true,
    }
}

/// Whether a market is looked at, by its start; one without a start is.
pub fn start_selected(args: &Args, start_ms: Option<i64>) -> (r: bool)
    ensures
        r == selects_start(args@, start_ms),
        r == (match (args.since_ms, start_ms) {
            (Some(since), Some(start)) => start >= since,
            _ => true,
        }),
{
    match (args.since_ms, start_ms) {
        (Some(since), Some(start)) => start >= since,
        _ => true,
    }
}

/// An option that takes a value takes the next word for it, and each fills in its own argument
/// and no other; the asset in lowercase, and a date as its midnight.
pub proof fn law_option_values(a: ArgsView, value: Seq<char>)
    ensures
        takes_value("--logs-dir"@) && with_value(a, "--logs-dir"@, value) == (ArgsView {
            logs_dir: value,
            ..a
        }),
        takes_value("--interval"@) && with_value(a, "--interval"@, value) == (ArgsView {
            interval_filter: Some(value),
            ..a
        }),
        takes_value("--asset"@) && with_value(a, "--asset"@, value) == (ArgsView {
            asset_filter: Some(lowercase(value)),
            ..a
        }),
        takes_value("--since"@) && with_value(a, "--since"@, value) == (ArgsView {
            since_ms: date_ms(value),
            ..a
        }),
        !takes_value("--verbose"@) && !takes_value("-v"@) && !takes_value("--help"@) && !takes_value(
            "-h"@,
        ),
{
    reveal_strlit("--logs-dir");
    reveal_strlit("--interval");
    reveal_strlit("--asset");
    reveal_strlit("--since");
    reveal_strlit("--verbose");
    reveal_strlit("-v");
    reveal_strlit("--help");
    reveal_strlit("-h");
    assert("--logs-dir"@[2] == 'l' && "--interval"@[2] == 'i' && "--asset"@[2] == 'a' && "--since"@[2]
        == 's' && "--verbose"@[2] == 'v' && "--help"@[2] == 'h');
    assert("-v"@.len() == 2 && "-h"@.len() == 2 && "--asset"@.len() == 7 && "--since"@.len() == 7);
    assert("--logs-dir"@.len() == 10 && "--interval"@.len() == 10);
}

/// Words are read one after the other: an option with its value, `--verbose`, `--help`, which
/// ends the reading, and anything else, which is unknown.
pub proof fn law_words_in_turn(words: Seq<Seq<char>>, i: int, a: ArgsView)
    requires
        0 <= i < words.len(),
    ensures
        ({
            let r = command_from(words, i, a);
            let w = words[i];
            &&& takes_value(w) && i + 1 < words.len() ==> r == command_from(
                words,
                i + 2,
                with_value(a, w, words[i + 1]),
            )
            &&& takes_value(w) && i + 1 == words.len() ==> r == CommandView::MissingValue(w)
            &&& w == "--verbose"@ || w == "-v"@ ==> r == command_from(
                words,
                i + 1,
                ArgsView { verbose: true, ..a },
            )
            &&& w == "--help"@ || w == "-h"@ ==> r == CommandView::Help
            &&& w != "--logs-dir"@ && w != "--interval"@ && w != "--asset"@ && w != "--since"@ && w
                != "--verbose"@ && w != "-v"@ && w != "--help"@ && w != "-h"@ ==> r
                == CommandView::Unknown(w)
        }),
        command_from(words, words.len() as int, a) == CommandView::Run(a),
{
    law_option_values(a, words[i]);
    reveal_strlit("--verbose");
    reveal_strlit("-v");
    reveal_strlit("--help");
    reveal_strlit("-h");
    assert("--verbose"@[2] == 'v' && "--help"@[2] == 'h');
    assert("-v"@[1] == 'v' && "-h"@[1] == 'h');
    assert("--verbose"@.len() == 9 && "--help"@.len() == 6 && "-v"@.len() == 2 && "-h"@.len() == 2);
}

/// Without options the logs of all markets under `logs` are looked at, briefly.
pub proof fn law_default_args()
    ensures
        default_args().logs_dir == "logs"@,
        default_args().interval_filter is None,
        default_args().asset_filter is None,
        default_args().since_ms is None,
        !default_args().verbose,
{
}

/// A date is year, month and day, with a hyphen between them.
pub proof fn law_date_parts(s: Seq<char>, y: Seq<char>, m: Seq<char>, d: Seq<char>)
    requires
        split_text(s, '-') == seq![y, m, d],
    ensures
        date_parts(s) is Some <==> integer_within(y, true, i32::MIN as int, i32::MAX as int) is Some
            && integer_within(m, false, 0, u32::MAX as int) is Some && integer_within(
            d,
            false,
            0,
            u32::MAX as int,
        ) is Some,
        date_parts(s) matches Some(p) ==> Some(p.0) == integer_within(
            y,
            true,
            i32::MIN as int,
            i32::MAX as int,
        ) && Some(p.1) == integer_within(m, false, 0, u32::MAX as int) && Some(p.2)
            == integer_within(d, false, 0, u32::MAX as int),
        date_parts(s) matches Some(p) ==> date_ms(s) == utc_midnight_ms(p.0, p.1, p.2),
        date_parts(s) is None ==> date_ms(s) is None,
{
}

/// A range of dates tells the first before the last.
pub proof fn law_range_text(e: i64, l: i64, first: Seq<char>, last: Seq<char>)
    ensures
        utc_date_text(e as int) == Some(first) && utc_date_text(l as int) == Some(last)
            ==> range_text(Some(e), Some(l)) == first + ".."@ + last,
        utc_date_text(e as int) is None ==> date_or_mark(utc_date_text(e as int)) == "?"@,
        range_text(None, Some(l)) == "no dates"@,
        range_text(Some(e), None) == "no dates"@,
{
}

/// What a command line asks for is what its fields hold.
pub proof fn law_args_view(a: Args, s: String)
    ensures
        a@.logs_dir == a.logs_dir@,
        a@.interval_filter == opt_text(a.interval_filter),
        a@.asset_filter == opt_text(a.asset_filter),
        a@.since_ms == a.since_ms,
        a@.verbose == a.verbose,
        Command::Run(a)@ == CommandView::Run(a@),
        Command::Unknown(s)@ == CommandView::Unknown(s@),
        Command::MissingValue(s)@ == CommandView::MissingValue(s@),
{
}

pub open spec fn selects_interval(a: ArgsView, interval: Seq<char>) -> bool {
    match a.interval_filter {
        Some(f) => interval == f,
        None => true,
    }
}

pub open spec fn selects_slug(a: ArgsView, slug: Seq<char>) -> bool {
    match a.asset_filter {
        Some(f) => crate::text::occurs_at(slug, f, 0),
        None => true,
    }
}

pub open spec fn selects_start(a: ArgsView, start_ms: Option<i64>) -> bool {
    match (a.since_ms, start_ms) {
        (Some(since), Some(start)) => start >= since,
        _ => true,
    }
}

/// Without a filter everything is looked at. With one, an interval is where it is that of the
/// filter, a slug where it starts with the asset, and a market where it starts no earlier than
/// the date; a market without a start is.
pub proof fn law_filters(a: ArgsView, interval: Seq<char>, rest: Seq<char>, start: i64)
    ensures
        a.interval_filter is None ==> selects_interval(a, interval),
        a.interval_filter matches Some(f) ==> (selects_interval(a, interval) <==> interval == f),
        a.asset_filter is None ==> selects_slug(a, rest),
        a.asset_filter matches Some(f) ==> selects_slug(a, f + rest),
        a.asset_filter matches Some(f) ==> (selects_slug(a, rest) ==> f.len() <= rest.len()
            && rest.subrange(0, f.len() as int) == f),
        a.since_ms is None ==> selects_start(a, Some(start)),
        selects_start(a, None),
        a.since_ms matches Some(since) ==> (selects_start(a, Some(start)) <==> since <= start),
{
    if let Some(f) = a.asset_filter {
        assert((f + rest).subrange(0, f.len() as int) =~= f);
    }
}

} // verus!
