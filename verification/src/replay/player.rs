//! Stepping through a timeline.

use std::collections::VecDeque;

use vstd::prelude::*;

use crate::history::events::{event_views, EventView, ReplayEvent};
use crate::keys::{Key, KeyPress};
use crate::number::Real;
use crate::types::{Side, Signal};

verus! {

/// How many prices the charts show.
pub const CHART_HISTORY_CAP: usize = 500;

/// How many volumes the charts show.
pub const VOLUME_HISTORY_CAP: usize = 200;

/// How many quotes the charts show.
pub const PM_QUOTE_CHART_CAP: usize = 500;

/// Events between two snapshots.
pub const SNAPSHOT_INTERVAL: usize = 1000;

/// How far back signals are collected after a step back.
pub const SIGNAL_LOOKBACK: usize = 1000;

/// The fastest speed, in events at a time.
pub const TOP_SPEED: usize = 32;

/// Where a replay stands.
#[derive(Clone, Copy, Debug, PartialEq, Eq, Structural)]
pub struct Player {
    /// The number of events.
    pub len: usize,
    /// How many of them have been applied.
    pub cursor: usize,
    pub playing: bool,
    /// How many events a tick applies.
    pub speed: usize,
}

/// What a key or a tick asks for.
#[derive(Clone, Copy, Debug, PartialEq, Eq, Structural)]
pub enum Action {
    Nothing,
    Quit,
    /// Apply the events from one position up to another.
    Forward { from: usize, to: usize },
    /// Go back to a position, with a fresh account, and collect the signals that led there from
    /// an earlier one.
    Back { to: usize, signals_from: usize },
    /// Go back to the start, with a fresh account.
    Restart,
    Export,
}

pub open spec fn least(a: int, b: int) -> int {
    if a < b {
        a
    } else {
        b
    }
}

pub open spec fn less_at_least_zero(a: int, b: int) -> int {
    if a < b {
        0
    } else {
        a - b
    }
}

impl Player {
    pub open spec fn wf(&self) -> bool {
        self.cursor <= self.len && 1 <= self.speed <= TOP_SPEED
    }

    pub fn new(len: usize) -> (p: Self)
        ensures
            p == (Player { len, cursor: 0, playing: false, speed: 1 }),
            p.wf(),
    {
        Player { len, cursor: 0, playing: false, speed: 1 }
    }

    pub open spec fn forward(self, n: int) -> (Player, Action) {
        let to = least(self.cursor + n, self.len as int) as usize;
        (Player { cursor: to, ..self }, Action::Forward { from: self.cursor, to })
    }

    pub open spec fn back(self, n: int) -> (Player, Action) {
        let to = less_at_least_zero(self.cursor as int, n);
        (
            Player { cursor: to as usize, ..self },
            Action::Back {
                to: to as usize,
                signals_from: less_at_least_zero(to, SIGNAL_LOOKBACK as int) as usize,
            },
        )
    }

    /// Goes on by some events, at most to the end.
    pub fn step_forward(&mut self, n: usize) -> (a: Action)
        requires
            old(self).wf(),
        ensures
            (*final(self), a) == old(self).forward(n as int),
            final(self).wf(),
    {
        let from: usize = self.cursor;
        let to: usize = if n < self.len - from {
            from + n
        } else {
            self.len
        };
        self.cursor = to;
        Action::Forward { from, to }
    }

    /// Goes back by some events, at most to the start.
    pub fn step_back(&mut self, n: usize) -> (a: Action)
        requires
            old(self).wf(),
        ensures
            (*final(self), a) == old(self).back(n as int),
            final(self).wf(),
    {
        let to: usize = if self.cursor < n {
            0
        } else {
            self.cursor - n
        };
        let signals_from: usize = if to < SIGNAL_LOOKBACK {
            0
        } else {
            to - SIGNAL_LOOKBACK
        };
        self.cursor = to;
        Action::Back { to, signals_from }
    }

    pub open spec fn after_tick(self) -> (Player, Action) {
        if self.playing && self.cursor < self.len {
            self.forward(self.speed as int)
        } else {
            (self, Action::Nothing)
        }
    }

    /// A tick of the clock: a playing replay goes on by its speed.
    pub fn tick(&mut self) -> (a: Action)
        requires
            old(self).wf(),
        ensures
            (*final(self), a) == old(self).after_tick(),
            final(self).wf(),
    {
        if self.playing && self.cursor < self.len {
            let n: usize = self.speed;
            self.step_forward(n)
        } else {
            Action::Nothing
        }
    }

    pub open spec fn after_key(self, k: KeyPress) -> (Player, Action) {
        match k.key {
            Key::Char('q') | Key::Esc => (self, Action::Quit),
            Key::Right => self.forward(1),
            Key::Left => self.back(1),
            Key::Char(' ') => (Player { playing: !self.playing, ..self }, Action::Nothing),
            Key::Char('+') | Key::Char('=') => (
                Player { speed: least(self.speed * 2, TOP_SPEED as int) as usize, ..self },
                Action::Nothing,
            ),
            Key::Char('-') => (
                Player {
                    speed: if self.speed / 2 < 1 {
                        1
                    } else {
                        self.speed / 2
                    },
                    ..self
                },
                Action::Nothing,
            ),
            Key::PageDown => self.forward(100),
            Key::PageUp => self.back(100),
            Key::Home => (Player { cursor: 0, ..self }, Action::Restart),
            Key::End | Key::Char('G') => self.forward(self.len - self.cursor),
            Key::Char('l') => if k.plain {
                self.forward(1)
            } else {
                (self, Action::Nothing)
            },
            Key::Char('h') => if k.plain {
                self.back(1)
            } else {
                (self, Action::Nothing)
            },
            Key::Char('n') => if k.plain {
                self.forward(100)
            } else {
                (self, Action::Nothing)
            },
            Key::Char('b') => if k.plain {
                self.back(100)
            } else {
                (self, Action::Nothing)
            },
            Key::Char('g') => if k.plain {
                (Player { cursor: 0, ..self }, Action::Restart)
            } else {
                (self, Action::Nothing)
            },
            Key::Char('s') => if k.plain {
                (Player { playing: false, ..self }, Action::Export)
            } else {
                (self, Action::Nothing)
            },
            _ => (self, Action::Nothing),
        }
    }

    /// Takes a key in.
    pub fn handle_key(&mut self, k: KeyPress) -> (a: Action)
        requires
            old(self).wf(),
        ensures
            (*final(self), a) == old(self).after_key(k),
            final(self).wf(),
    {
        match k.key {
            Key::Char(c) => {
                if c == 'q' {
                    return Action::Quit;
                } else if c == ' ' {
                    self.playing = !self.playing;
                } else if c == '+' || c == '=' {
                    self.speed = if self.speed * 2 < TOP_SPEED {
                        self.speed * 2
                    } else {
                        TOP_SPEED
                    };
                } else if c == '-' {
                    self.speed = if self.speed / 2 < 1 {
                        1
                    } else {
                        self.speed / 2
                    };
                } else if c == 'G' {
                    let rest: usize = self.len - self.cursor;
                    return self.step_forward(rest);
                } else if k.plain {
                    if c == 'l' {
                        return self.step_forward(1);
                    } else if c == 'h' {
                        return self.step_back(1);
                    } else if c == 'n' {
                        return self.step_forward(100);
                    } else if c == 'b' {
                        return self.step_back(100);
                    } else if c == 'g' {
                        self.cursor = 0;
                        return Action::Restart;
                    } else if c == 's' {
                        self.playing = false;
                        return Action::Export;
                    }
                }
                Action::Nothing
            },
            Key::Esc => Action::Quit,
            Key::Right => self.step_forward(1),
            Key::Left => self.step_back(1),
            Key::PageDown => self.step_forward(100),
            Key::PageUp => self.step_back(100),
            Key::Home => {
                self.cursor = 0;
                Action::Restart
            },
            Key::End => {
                let rest: usize = self.len - self.cursor;
                self.step_forward(rest)
            },
            _ => Action::Nothing,
        }
    }

    /// The time of the last event that was applied; of the first one before any was, and 0 in an
    /// empty timeline.
    pub fn current_event_ts(&self, events: &Vec<ReplayEvent>) -> (r: i64)
        ensures
            r == self.time_shown(event_views(events@)),
            r == (if 0 < self.cursor <= events@.len() {
                event_views(events@)[self.cursor - 1].time()
            } else if events@.len() > 0 {
                event_views(events@)[0].time()
            } else {
                0
            }),
    {
        if self.cursor > 0 && self.cursor <= events.len() {
            events[self.cursor - 1].ts_ms()
        } else if events.len() > 0 {
            events[0].ts_ms()
        } else {
            0
        }
    }

    /// What the last event that was applied is.
    pub fn current_event_label(&self, events: &Vec<ReplayEvent>) -> (r: &'static str)
        ensures
            r@ == self.label_shown(event_views(events@)),
            r@ == (if 0 < self.cursor <= events@.len() {
                event_views(events@)[self.cursor - 1].label()
            } else {
                "---"@
            }),
    {
        if self.cursor > 0 && self.cursor <= events.len() {
            events[self.cursor - 1].type_label()
        } else {
            "---"
        }
    }
}

/// As long as neither end is reached, a step back undoes a step forward.
pub proof fn law_back_undoes_forward(p: Player, n: int)
    requires
        p.wf(),
        0 <= n,
        p.cursor + n <= p.len,
    ensures
        p.forward(n).0.back(n).0 == p,
{
}

// ── Snapshots ──

/// Whether a snapshot is due after so many events.
pub fn snapshot_due(applied: usize, interval: usize) -> (r: bool)
    requires
        interval > 0,
    ensures
        r == (applied % interval == 0),
{
    applied % interval == 0
}

/// Whether positions go up.
pub open spec fn going_up(at: Seq<usize>) -> bool {
    forall|i: int, j: int| 0 <= i < j < at.len() ==> #[trigger] at[i] < #[trigger] at[j]
}

/// The snapshot to start from: the last one at or before a position; the first one where all
/// are behind it.
pub fn nearest_snapshot(at: &Vec<usize>, target: usize) -> (r: usize)
    requires
        at@.len() > 0,
        going_up(at@),
    ensures
        r < at@.len(),
        at@[0] <= target ==> at@[r as int] <= target,
        at@[0] > target ==> r == 0,
        r + 1 < at@.len() ==> at@[r + 1] > target,
{
    let mut lo: usize = 0;
    let mut hi: usize = at.len();
    while hi - lo > 1
        invariant
            lo < hi <= at@.len(),
            going_up(at@),
            at@[0] <= target ==> at@[lo as int] <= target,
            at@[0] > target ==> lo == 0,
            hi < at@.len() ==> at@[hi as int] > target,
        decreases hi - lo,
    {
        let mid: usize = lo + (hi - lo) / 2;
        if at[mid] <= target {
            assert(at@[0] < at@[mid as int]);
            lo = mid;
        } else {
            hi = mid;
        }
    }
    lo
}

/// A way to a position: the snapshot to start from, and the events to apply to it.
#[derive(Clone, Copy, Debug, PartialEq, Eq, Structural)]
pub struct Jump {
    pub snapshot: usize,
    pub from: usize,
    pub to: usize,
}

/// The way to a position, from the nearest snapshot on. `at` holds after how many events each
/// snapshot was taken, the first one before any. A position behind the last event is the end.
pub fn jump_to(at: &Vec<usize>, n_events: usize, target: usize) -> (j: Jump)
    requires
        at@.len() > 0,
        at@[0] == 0,
        going_up(at@),
    ensures
        j.to == (if target < n_events {
            target
        } else {
            n_events
        }),
        j.snapshot < at@.len(),
        j.from == at@[j.snapshot as int],
        j.from <= j.to,
        j.snapshot + 1 < at@.len() ==> at@[j.snapshot + 1] > j.to,
{
    let to = if target < n_events {
        target
    } else {
        n_events
    };
    let snapshot: usize = nearest_snapshot(at, to);
    Jump { snapshot, from: at[snapshot], to }
}

/// A jump leads where playing from the start leads: what the first `from` events make of a
/// state, with the events up to `to` applied, is what the first `to` events make of it.
pub proof fn law_jump_is_replay<S, E>(
    start: S,
    events: Seq<E>,
    apply: spec_fn(S, E) -> S,
    from: int,
    to: int,
)
    requires
        0 <= from <= to <= events.len(),
    ensures
        events.subrange(from, to).fold_left(events.take(from).fold_left(start, apply), apply)
            == events.take(to).fold_left(start, apply),
{
    let e = events.take(to);
    e.lemma_fold_left_split(start, apply, from);
    assert(e.subrange(0, from) =~= events.take(from));
    assert(e.subrange(from, to) =~= events.subrange(from, to));
}

// ── Charts ──

/// A list with one more entry, of which only so many of the newest are kept.
pub open spec fn capped<T>(before: Seq<T>, cap: int, val: T) -> Seq<T> {
    if before.len() >= cap && before.len() > 0 {
        before.skip(1).push(val)
    } else {
        before.push(val)
    }
}

/// The new entry comes last. Of a full list the oldest entry goes, and nothing else; from one
/// that is not full none does.
pub proof fn law_newest_are_kept<T>(before: Seq<T>, cap: int, val: T, i: int)
    requires
        0 < cap,
    ensures
        capped(before, cap, val).last() == val,
        before.len() < cap ==> capped(before, cap, val).len() == before.len() + 1,
        before.len() >= cap ==> capped(before, cap, val).len() == before.len(),
        before.len() < cap && 0 <= i < before.len() ==> capped(before, cap, val)[i] == before[i],
        before.len() >= cap && 0 < i < before.len() ==> capped(before, cap, val)[i - 1] == before[i],
{
}

/// A list that keeps its newest entries only.
pub fn push_capped<T>(deque: &mut VecDeque<T>, cap: usize, val: T)
    ensures
        final(deque)@ == (if old(deque)@.len() >= cap && old(deque)@.len() > 0 {
            old(deque)@.skip(1)
        } else {
            old(deque)@
        }).push(val),
        final(deque)@ == capped(old(deque)@, cap as int, val),
{
    if deque.len() >= cap && deque.len() > 0 {
        let _ = deque.pop_front();
        assert(deque@ =~= old(deque)@.skip(1));
    }
    deque.push_back(val);
}

/// A list of `cap` entries or fewer has at most `cap` after one more.
pub proof fn law_capped<T>(before: Seq<T>, cap: int, val: T)
    requires
        0 < cap,
        before.len() <= cap,
    ensures
        (if before.len() >= cap && before.len() > 0 {
            before.skip(1)
        } else {
            before
        }).push(val).len() <= cap,
{
}

/// A bid up to this is not charted: 0.01.
pub const CHART_LEAST_BID: u64 = 0x3F847AE147AE147B;

/// An ask from this on is not charted: 0.99.
pub const CHART_MOST_ASK: u64 = 0x3FEFAE147AE147AE;

pub open spec fn bid_charted(v: Real) -> bool {
    (Real { bits: CHART_LEAST_BID }).lt(v)
}

pub open spec fn ask_charted(v: Real) -> bool {
    v.pos() && v.lt(Real { bits: CHART_MOST_ASK })
}

/// A bid is charted above one cent, and an ask above zero and below 99 cents.
pub proof fn law_charted(v: Real)
    ensures
        bid_charted(v) <==> (Real { bits: 0x3F847AE147AE147B }).lt(v),
        ask_charted(v) <==> (Real { bits: 0 }).lt(v) && v.lt(Real { bits: 0x3FEFAE147AE147AE }),
{
}

/// Whether a bid is charted.
pub fn charts_bid(v: Real) -> (r: bool)
    ensures
        r == bid_charted(v),
        r == (Real { bits: CHART_LEAST_BID }).lt(v),
{
    let least = Real { bits: CHART_LEAST_BID };
    least.less(v)
}

/// Whether an ask is charted.
pub fn charts_ask(v: Real) -> (r: bool)
    ensures
        r == ask_charted(v),
        r == (v.pos() && v.lt(Real { bits: CHART_MOST_ASK })),
{
    v.is_positive() && v.less(Real { bits: CHART_MOST_ASK })
}

/// The first event that the charts show at a position.
pub fn history_start(at: usize) -> (r: usize)
    ensures
        r == chart_start(at as int),
        r == less_at_least_zero(at as int, CHART_HISTORY_CAP as int),
{
    if at < CHART_HISTORY_CAP {
        0
    } else {
        at - CHART_HISTORY_CAP
    }
}

// ── Signals ──

/// The signals that the side of the house lets through: passive ones and those on that side;
/// all, as long as it has taken none.
pub open spec fn let_through(signals: Seq<Signal>, house: Option<Side>) -> Seq<Signal>
    decreases signals.len(),
{
    if signals.len() == 0 {
        Seq::empty()
    } else {
        let s = signals.last();
        let before = let_through(signals.drop_last(), house);
        if house is None || s.is_passive || house == Some(s.side) {
            before.push(s)
        } else {
            before
        }
    }
}

/// The signals that the side of the house lets through.
pub fn house_filter(signals: &Vec<Signal>, house: Option<Side>) -> (r: Vec<Signal>)
    ensures
        r@ == let_through(signals@, house),
{
    let mut out: Vec<Signal> = Vec::new();
    let mut i: usize = 0;
    assert(signals@.take(0) =~= Seq::empty());
    while i < signals.len()
        invariant
            i <= signals@.len(),
            out@ == let_through(signals@.take(i as int), house),
        decreases signals@.len() - i,
    {
        assert(signals@.take(i + 1).drop_last() =~= signals@.take(i as int));
        let s = signals[i];
        let pass = match house {
            Some(side) => s.is_passive || side == s.side,
            None => true,
        };
        if pass {
            out.push(s);
        }
        i = i + 1;
    }
    assert(signals@.take(i as int) =~= signals@);
    out
}

/// The side of the house after an order.
pub open spec fn house_with(house: Option<Side>, signal: Signal) -> Option<Side> {
    if house is None && !signal.is_passive {
        Some(signal.side)
    } else {
        house
    }
}

/// The first order of an active signal sets the side of the house, to the side of the signal; a
/// passive one leaves it open, and once it is taken it stays.
pub proof fn law_house_is_set_once(house: Option<Side>, signal: Signal)
    ensures
        house is None && !signal.is_passive ==> house_with(house, signal) == Some(signal.side),
        house is None && signal.is_passive ==> house_with(house, signal) is None,
        house is Some ==> house_with(house, signal) == house,
{
}

/// The side of the house after an order: the first order of an active signal sets it.
pub fn house_after_order(house: Option<Side>, signal: &Signal) -> (r: Option<Side>)
    ensures
        r == house_with(house, *signal),
        r == (if house is None && !signal.is_passive {
            Some(signal.side)
        } else {
            house
        }),
{
    if house.is_none() && !signal.is_passive {
        Some(signal.side)
    } else {
        house
    }
}

/// A signal is let through exactly where the house has taken no side, the signal is passive or
/// its side is that of the house; signals keep their order.
pub proof fn law_let_through(signals: Seq<Signal>, s: Signal, house: Option<Side>)
    ensures
        house is None || s.is_passive || house == Some(s.side) ==> let_through(signals.push(s), house)
            == let_through(signals, house).push(s),
        house is Some && !s.is_passive && house != Some(s.side) ==> let_through(
            signals.push(s),
            house,
        ) == let_through(signals, house),
        let_through(Seq::empty(), house).len() == 0,
{
    assert(signals.push(s).drop_last() =~= signals);
}

/// A step forward applies the events from where the replay stands, as many as asked for, up to
/// the end.
pub proof fn law_forward(p: Player, n: int)
    requires
        p.wf(),
        0 <= n,
    ensures
        p.forward(n).1 == (Action::Forward { from: p.cursor, to: p.forward(n).0.cursor }),
        p.cursor + n <= p.len ==> p.forward(n).0.cursor == p.cursor + n,
        p.cursor + n > p.len ==> p.forward(n).0.cursor == p.len,
        p.forward(n).0.len == p.len && p.forward(n).0.playing == p.playing && p.forward(n).0.speed
            == p.speed,
{
}

/// A step back leads as far as asked for, at most to the start, and collects the signals of the
/// last thousand events before.
pub proof fn law_back(p: Player, n: int)
    requires
        p.wf(),
        0 <= n,
    ensures
        ({
            let z = p.back(n).0;
            &&& n <= p.cursor ==> z.cursor == p.cursor - n
            &&& n > p.cursor ==> z.cursor == 0
            &&& z.len == p.len && z.playing == p.playing && z.speed == p.speed
            &&& p.back(n).1 matches Action::Back { to, signals_from } && to == z.cursor && (
            signals_from == to - 1000 || (to < 1000 && signals_from == 0))
        }),
{
}

/// A tick moves a replay that plays by its speed, and one that does not, or is at the end, not at
/// all.
pub proof fn law_tick(p: Player)
    requires
        p.wf(),
    ensures
        p.playing && p.cursor + p.speed <= p.len ==> p.after_tick().0.cursor == p.cursor + p.speed
            && p.after_tick().1 is Forward,
        p.playing && p.cursor + p.speed > p.len ==> p.after_tick().0.cursor == p.len,
        !p.playing || p.cursor == p.len ==> p.after_tick() == (p, Action::Nothing),
{
}

/// What the keys do: arrows step by one event, pages by a hundred, Home and End lead to the ends,
/// space starts and stops, plus and minus double and halve the speed within 1 to 32, and only
/// `q` and Escape quit.
pub proof fn law_replay_keys(p: Player, k: KeyPress)
    requires
        p.wf(),
    ensures
        ({
            let (z, a) = p.after_key(k);
            &&& a == Action::Quit <==> k.key == Key::Char('q') || k.key == Key::Esc
            &&& k.key == Key::Right ==> (z, a) == p.forward(1)
            &&& k.key == Key::Left ==> (z, a) == p.back(1)
            &&& k.key == Key::PageDown ==> (z, a) == p.forward(100)
            &&& k.key == Key::PageUp ==> (z, a) == p.back(100)
            &&& k.key == Key::Home ==> z.cursor == 0 && a == Action::Restart
            &&& k.key == Key::End ==> z.cursor == p.len && a is Forward
            &&& k.key == Key::Char('G') ==> z.cursor == p.len && a is Forward
            &&& k.key == Key::Char(' ') ==> z == (Player { playing: !p.playing, ..p }) && a
                == Action::Nothing
            &&& k.key == Key::Char('+') && p.speed <= 16 ==> z == (Player {
                speed: (2 * p.speed) as usize,
                ..p
            })
            &&& k.key == Key::Char('+') && p.speed > 16 ==> z.speed == 32
            &&& k.key == Key::Char('-') && p.speed >= 2 ==> z == (Player { speed: p.speed / 2, ..p })
            &&& k.key == Key::Char('-') && p.speed == 1 ==> z == p
            &&& k.key == Key::Char('s') && k.plain ==> a == Action::Export && !z.playing && z.cursor
                == p.cursor
            &&& k.key == Key::Char('l') && k.plain ==> (z, a) == p.forward(1)
            &&& k.key == Key::Char('h') && k.plain ==> (z, a) == p.back(1)
            &&& k.key == Key::Char('n') && k.plain ==> (z, a) == p.forward(100)
            &&& k.key == Key::Char('b') && k.plain ==> (z, a) == p.back(100)
            &&& k.key == Key::Char('g') && k.plain ==> z.cursor == 0 && a == Action::Restart
            &&& a == Action::Export ==> k.key == Key::Char('s') && k.plain
            &&& a == Action::Restart ==> z.cursor == 0
        }),
{
}

impl Player {
    pub open spec fn time_shown(self, events: Seq<EventView>) -> i64 {
        if 0 < self.cursor <= events.len() {
            events[self.cursor - 1].time()
        } else if events.len() > 0 {
            events[0].time()
        } else {
            0
        }
    }

    pub open spec fn label_shown(self, events: Seq<EventView>) -> Seq<char> {
        if 0 < self.cursor <= events.len() {
            events[self.cursor - 1].label()
        } else {
            "---"@
        }
    }
}

/// After a step forward by one event that event is shown; at the start the time of the first one
/// is, and no kind.
pub proof fn law_event_shown(p: Player, events: Seq<EventView>)
    requires
        p.wf(),
        p.len == events.len(),
    ensures
        p.cursor < p.len ==> p.forward(1).0.time_shown(events) == events[p.cursor as int].time()
            && p.forward(1).0.label_shown(events) == events[p.cursor as int].label(),
        p.cursor == 0 ==> p.label_shown(events) == "---"@,
        p.cursor == 0 && events.len() > 0 ==> p.time_shown(events) == events[0].time(),
        events.len() == 0 ==> p.time_shown(events) == 0,
{
}

/// The first event that the charts show at a position.
pub open spec fn chart_start(at: int) -> int {
    less_at_least_zero(at, CHART_HISTORY_CAP as int)
}

/// The charts show the last five hundred events, and all as long as there are fewer.
pub proof fn law_chart_start(at: int)
    requires
        0 <= at,
    ensures
        at <= 500 ==> chart_start(at) == 0,
        at >= 500 ==> chart_start(at) == at - 500,
        CHART_HISTORY_CAP == 500,
        VOLUME_HISTORY_CAP == 200,
        PM_QUOTE_CHART_CAP == 500,
        SNAPSHOT_INTERVAL == 1000,
        SIGNAL_LOOKBACK == 1000,
        TOP_SPEED == 32,
{
}

} // verus!
