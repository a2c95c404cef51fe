//! The dashboard of a backtest: tabs, scrolling, filters.

use vstd::prelude::*;
use vstd::string::*;

use crate::json::texts;
use crate::keys::{Key, KeyPress};
use crate::names::{increasing, sorted_names};
use crate::text::str_eq;

verus! {

/// The pages of the dashboard.
#[derive(Clone, Copy, Debug, PartialEq, Eq, Structural)]
pub enum Tab {
    Summary,
    Strategies,
    Markets,
    Trades,
    Equity,
    Risk,
    Timing,
    Correlation,
}

impl Tab {
    /// All pages, in their order.
    pub open spec fn ring() -> Seq<Tab> {
        seq![
            Tab::Summary,
            Tab::Strategies,
            Tab::Markets,
            Tab::Trades,
            Tab::Equity,
            Tab::Risk,
            Tab::Timing,
            Tab::Correlation,
        ]
    }

    /// The place of a page among all.
    pub open spec fn place(self) -> int {
        match self {
            Tab::Summary => 0,
            Tab::Strategies => 1,
            Tab::Markets => 2,
            Tab::Trades => 3,
            Tab::Equity => 4,
            Tab::Risk => 5,
            Tab::Timing => 6,
            Tab::Correlation => 7,
        }
    }

    /// All pages, in their order.
    pub fn all() -> (r: [Tab; 8])
        ensures
            r@ == Tab::ring(),
    {
        let r = [
            Tab::Summary,
            Tab::Strategies,
            Tab::Markets,
            Tab::Trades,
            Tab::Equity,
            Tab::Risk,
            Tab::Timing,
            Tab::Correlation,
        ];
        assert(r@ =~= Tab::ring());
        r
    }

    pub open spec fn title(self) -> Seq<char> {
        match self {
            Tab::Summary => "Summary"@,
            Tab::Strategies => "Strategies"@,
            Tab::Markets => "Markets"@,
            Tab::Trades => "Trades"@,
            Tab::Equity => "Equity"@,
            Tab::Risk => "Risk"@,
            Tab::Timing => "Timing"@,
            Tab::Correlation => "Correl"@,
        }
    }

    pub fn label(&self) -> (r: &'static str)
        ensures
            r@ == self.title(),
    {
        match self {
            Tab::Summary => "Summary",
            Tab::Strategies => "Strategies",
            Tab::Markets => "Markets",
            Tab::Trades => "Trades",
            Tab::Equity => "Equity",
            Tab::Risk => "Risk",
            Tab::Timing => "Timing",
            Tab::Correlation => "Correl",
        }
    }

    fn position(&self) -> (r: usize)
        ensures
            r == self.place(),
            r < 8,
    {
        match self {
            Tab::Summary => 0,
            Tab::Strategies => 1,
            Tab::Markets => 2,
            Tab::Trades => 3,
            Tab::Equity => 4,
            Tab::Risk => 5,
            Tab::Timing => 6,
            Tab::Correlation => 7,
        }
    }

    /// The page after this one; after the last comes the first.
    pub open spec fn following(self) -> Tab {
        Tab::ring()[(self.place() + 1) % 8]
    }

    /// The page before this one; before the first comes the last.
    pub open spec fn preceding(self) -> Tab {
        Tab::ring()[(self.place() + 7) % 8]
    }

    /// The page after this one; after the last comes the first.
    pub fn next(&self) -> (r: Tab)
        ensures
            r == self.following(),
    {
        let tabs = Tab::all();
        tabs[(self.position() + 1) % 8]
    }

    /// The page before this one; before the first comes the last.
    pub fn prev(&self) -> (r: Tab)
        ensures
            r == self.preceding(),
    {
        let tabs = Tab::all();
        tabs[(self.position() + 7) % 8]
    }
}

/// A page stands at its place; going on leads to the next place around, and going back undoes
/// it.
pub proof fn law_tab_ring(t: Tab)
    ensures
        Tab::ring()[t.place()] == t,
        t.following().preceding() == t,
        t.preceding().following() == t,
        t.following().place() == (t.place() + 1) % 8,
{
}

/// Where the dashboard stands.
pub struct BacktestApp {
    pub tab: Tab,
    pub n_markets: usize,
    /// The strategy of each trade.
    pub trade_strategies: Vec<String>,
    /// The strategies that traded, in the order of their characters.
    pub strategy_names: Vec<String>,
    pub market_scroll: usize,
    pub trade_scroll: usize,
    pub strategy_scroll: usize,
    /// 0 shows all trades, `k` those of the `k`-th strategy.
    pub filter_idx: usize,
    /// The market that is shown in detail.
    pub market_drill_down: Option<usize>,
}

/// Whether a position is in a list, or the list is empty and the position its start.
pub open spec fn in_list(at: int, len: int) -> bool {
    0 <= at && (at < len || at == 0)
}

/// The last position of a list, 0 for an empty one.
pub open spec fn last_of(len: int) -> int {
    if len == 0 {
        0
    } else {
        len - 1
    }
}

/// A position one step further down a list.
pub open spec fn one_down(at: int, len: int) -> int {
    if at < last_of(len) {
        at + 1
    } else {
        at
    }
}

/// A position some steps further up.
pub open spec fn steps_up(at: int, n: int) -> int {
    if at < n {
        0
    } else {
        at - n
    }
}

/// A position twenty steps further down, at most at the end of the list.
pub open spec fn page_down(at: int, len: int) -> int {
    if at + 20 < last_of(len) {
        at + 20
    } else {
        last_of(len)
    }
}

fn last(len: usize) -> (r: usize)
    ensures
        r == last_of(len as int),
{
    if len == 0 {
        0
    } else {
        len - 1
    }
}

fn down_one(at: usize, len: usize) -> (r: usize)
    ensures
        r == one_down(at as int, len as int),
{
    if at < last(len) {
        at + 1
    } else {
        at
    }
}

fn up_by(at: usize, n: usize) -> (r: usize)
    ensures
        r == steps_up(at as int, n as int),
{
    if at < n {
        0
    } else {
        at - n
    }
}

fn down_page(at: usize, len: usize) -> (r: usize)
    ensures
        r == page_down(at as int, len as int),
{
    let end: usize = last(len);
    if end > 20 && at < end - 20 {
        at + 20
    } else {
        end
    }
}

/// The positions at which a list holds a text.
pub open spec fn positions_of(list: Seq<Seq<char>>, t: Seq<char>) -> Seq<usize>
    decreases list.len(),
{
    if list.len() == 0 {
        Seq::empty()
    } else if list.last() == t {
        positions_of(list.drop_last(), t).push((list.len() - 1) as usize)
    } else {
        positions_of(list.drop_last(), t)
    }
}

impl BacktestApp {
    /// The strategies that traded stand in order, the filter is one of them or all, and every
    /// position is in its list.
    pub open spec fn wf(&self) -> bool {
        &&& increasing(texts(self.strategy_names@))
        &&& forall|t: Seq<char>| #[trigger]
            texts(self.strategy_names@).contains(t) <==> texts(self.trade_strategies@).contains(t)
        &&& self.filter_idx <= self.strategy_names@.len()
        &&& in_list(self.market_scroll as int, self.n_markets as int)
        &&& in_list(self.trade_scroll as int, self.shown().len() as int)
        &&& in_list(self.strategy_scroll as int, self.strategy_names@.len() as int)
        &&& self.market_drill_down matches Some(m) ==> m < self.n_markets
    }

    /// The strategy whose trades are shown, where it is not all.
    pub open spec fn trade_filter(&self) -> Option<Seq<char>> {
        if self.filter_idx == 0 {
            None
        } else {
            Some(self.strategy_names@[self.filter_idx - 1]@)
        }
    }

    /// The positions of the trades that are shown.
    pub open spec fn shown(&self) -> Seq<usize> {
        match self.trade_filter() {
            None => Seq::new(self.trade_strategies@.len(), |i: int| i as usize),
            Some(name) => positions_of(texts(self.trade_strategies@), name),
        }
    }

    pub fn new(n_markets: usize, trade_strategies: Vec<String>) -> (app: Self)
        ensures
            app.wf(),
            app.tab == Tab::Summary,
            app.n_markets == n_markets,
            app.trade_strategies == trade_strategies,
            app.market_scroll == 0,
            app.trade_scroll == 0,
            app.strategy_scroll == 0,
            app.filter_idx == 0,
            app.market_drill_down is None,
    {
        let strategy_names = sorted_names(&trade_strategies);
        BacktestApp {
            tab: Tab::Summary,
            n_markets,
            trade_strategies,
            strategy_names,
            market_scroll: 0,
            trade_scroll: 0,
            strategy_scroll: 0,
            filter_idx: 0,
            market_drill_down: None,
        }
    }

    /// The positions of the trades that are shown.
    pub fn filtered_trades(&self) -> (r: Vec<usize>)
        requires
            self.filter_idx <= self.strategy_names@.len(),
        ensures
            r@ == self.shown(),
    {
        let mut out: Vec<usize> = Vec::new();
        let ghost all = texts(self.trade_strategies@);
        let mut i: usize = 0;
        if self.filter_idx == 0 {
            while i < self.trade_strategies.len()
                invariant
                    i <= self.trade_strategies@.len(),
                    out@ == Seq::new(i as nat, |j: int| j as usize),
                decreases self.trade_strategies@.len() - i,
            {
                out.push(i);
                assert(out@ =~= Seq::new((i + 1) as nat, |j: int| j as usize));
                i = i + 1;
            }
        } else {
            let name = self.strategy_names[self.filter_idx - 1].as_str();
            assert(all.take(0) =~= Seq::empty());
            while i < self.trade_strategies.len()
                invariant
                    i <= self.trade_strategies@.len(),
                    all == texts(self.trade_strategies@),
                    out@ == positions_of(all.take(i as int), name@),
                decreases self.trade_strategies@.len() - i,
            {
                assert(all.take(i + 1).drop_last() =~= all.take(i as int));
                assert(all[i as int] == self.trade_strategies@[i as int]@);
                if str_eq(self.trade_strategies[i].as_str(), name) {
                    out.push(i);
                }
                i = i + 1;
            }
            assert(all.take(i as int) =~= all);
        }
        out
    }

    /// The dashboard with the next filter: all trades, then one strategy after the other.
    pub open spec fn next_filter(self) -> BacktestApp {
        BacktestApp {
            filter_idx: ((self.filter_idx + 1) % (self.strategy_names@.len() as int + 1)) as usize,
            trade_scroll: 0,
            ..self
        }
    }

    /// Goes on to the next filter: all trades, then one strategy after the other.
    pub fn cycle_filter_forward(&mut self)
        requires
            old(self).wf(),
        ensures
            *final(self) == old(self).next_filter(),
            final(self).wf(),
    {
        let n: usize = self.strategy_names.len();
        if self.filter_idx < n {
            self.filter_idx = self.filter_idx + 1;
        } else {
            self.filter_idx = 0;
        }
        self.trade_scroll = 0;
        proof {
            let k = old(self).filter_idx as int;
            if k < n {
                vstd::arithmetic::div_mod::lemma_small_mod((k + 1) as nat, (n + 1) as nat);
            } else {
                vstd::arithmetic::div_mod::lemma_mod_self_0(n + 1);
            }
        }
    }
}

/// The dashboard after a key, and whether the key ends it.
pub open spec fn pressed(a: BacktestApp, k: KeyPress) -> (BacktestApp, bool) {
    let markets = a.n_markets as int;
    let trades = a.shown().len() as int;
    let strategies = a.strategy_names@.len() as int;
    let market = a.market_scroll as int;
    let trade = a.trade_scroll as int;
    let strategy = a.strategy_scroll as int;
    match k.key {
        Key::Char('q') => (a, true),
        Key::Char('c') => (a, k.control),
        Key::Tab => (BacktestApp { tab: a.tab.following(), ..a }, false),
        Key::BackTab => (BacktestApp { tab: a.tab.preceding(), ..a }, false),
        Key::Char('1') => (BacktestApp { tab: Tab::Summary, ..a }, false),
        Key::Char('2') => (BacktestApp { tab: Tab::Strategies, ..a }, false),
        Key::Char('3') => (BacktestApp { tab: Tab::Markets, ..a }, false),
        Key::Char('4') => (BacktestApp { tab: Tab::Trades, ..a }, false),
        Key::Char('5') => (BacktestApp { tab: Tab::Equity, ..a }, false),
        Key::Char('6') => (BacktestApp { tab: Tab::Risk, ..a }, false),
        Key::Char('7') => (BacktestApp { tab: Tab::Timing, ..a }, false),
        Key::Char('8') => (BacktestApp { tab: Tab::Correlation, ..a }, false),
        Key::Esc | Key::Backspace => (
            BacktestApp { market_drill_down: None, ..a },
            a.market_drill_down is None,
        ),
        Key::Enter => if a.tab == Tab::Markets && market < markets {
            (BacktestApp { market_drill_down: Some(a.market_scroll), ..a }, false)
        } else {
            (a, false)
        },
        Key::Char('j') | Key::Down => (
            moved(
                a,
                one_down(market, markets),
                one_down(trade, trades),
                one_down(strategy, strategies),
            ),
            false,
        ),
        Key::Char('k') | Key::Up => (
            moved(a, steps_up(market, 1), steps_up(trade, 1), steps_up(strategy, 1)),
            false,
        ),
        Key::PageDown => (
            moved(a, page_down(market, markets), page_down(trade, trades), strategy),
            false,
        ),
        Key::PageUp => (moved(a, steps_up(market, 20), steps_up(trade, 20), strategy), false),
        Key::Char('f') => if a.tab == Tab::Trades {
            (a.next_filter(), false)
        } else {
            (a, false)
        },
        Key::Home => (moved(a, 0, 0, 0), false),
        Key::End => (moved(a, last_of(markets), last_of(trades), last_of(strategies)), false),
        _ => (a, false),
    }
}

/// The dashboard with the list of its page at a new position; other lists stay.
pub open spec fn moved(a: BacktestApp, market: int, trade: int, strategy: int) -> BacktestApp {
    match a.tab {
        Tab::Markets => BacktestApp { market_scroll: market as usize, ..a },
        Tab::Trades => BacktestApp { trade_scroll: trade as usize, ..a },
        Tab::Strategies => BacktestApp { strategy_scroll: strategy as usize, ..a },
        _ => a,
    }
}

impl BacktestApp {
    fn move_to(&mut self, market: usize, trade: usize, strategy: usize)
        ensures
            *final(self) == moved(*old(self), market as int, trade as int, strategy as int),
    {
        match self.tab {
            Tab::Markets => {
                self.market_scroll = market;
            },
            Tab::Trades => {
                self.trade_scroll = trade;
            },
            Tab::Strategies => {
                self.strategy_scroll = strategy;
            },
            _ => {},
        }
    }
}

/// Takes a key in; says whether it ends the dashboard.
pub fn handle_key(app: &mut BacktestApp, key: KeyPress) -> (quit: bool)
    requires
        old(app).wf(),
    ensures
        (*final(app), quit) == pressed(*old(app), key),
        final(app).wf(),
{
    let markets: usize = app.n_markets;
    let strategies: usize = app.strategy_names.len();
    let trades: usize = app.filtered_trades().len();
    let market: usize = app.market_scroll;
    let trade: usize = app.trade_scroll;
    let strategy: usize = app.strategy_scroll;
    match key.key {
        Key::Char(c) => {
            if c == 'q' {
                return true;
            } else if c == 'c' {
                return key.control;
            } else if c == '1' {
                app.tab = Tab::Summary;
            } else if c == '2' {
                app.tab = Tab::Strategies;
            } else if c == '3' {
                app.tab = Tab::Markets;
            } else if c == '4' {
                app.tab = Tab::Trades;
            } else if c == '5' {
                app.tab = Tab::Equity;
            } else if c == '6' {
                app.tab = Tab::Risk;
            } else if c == '7' {
                app.tab = Tab::Timing;
            } else if c == '8' {
                app.tab = Tab::Correlation;
            } else if c == 'j' {
                app.move_to(
                    down_one(market, markets),
                    down_one(trade, trades),
                    down_one(strategy, strategies),
                );
            } else if c == 'k' {
                app.move_to(up_by(market, 1), up_by(trade, 1), up_by(strategy, 1));
            } else if c == 'f' && app.tab == Tab::Trades {
                app.cycle_filter_forward();
            }
        },
        Key::Tab => {
            app.tab = app.tab.next();
        },
        Key::BackTab => {
            app.tab = app.tab.prev();
        },
        Key::Esc | Key::Backspace => {
            if app.market_drill_down.is_none() {
                return true;
            }
            app.market_drill_down = None;
        },
        Key::Enter => {
            if app.tab == Tab::Markets && market < markets {
                app.market_drill_down = Some(market);
            }
        },
        Key::Down => {
            app.move_to(
                down_one(market, markets),
                down_one(trade, trades),
                down_one(strategy, strategies),
            );
        },
        Key::Up => {
            app.move_to(up_by(market, 1), up_by(trade, 1), up_by(strategy, 1));
        },
        Key::PageDown => {
            app.move_to(down_page(market, markets), down_page(trade, trades), strategy);
        },
        Key::PageUp => {
            app.move_to(up_by(market, 20), up_by(trade, 20), strategy);
        },
        Key::Home => {
            app.move_to(0, 0, 0);
        },
        Key::End => {
            app.move_to(last(markets), last(trades), last(strategies));
        },
        _ => {},
    }
    false
}

/// The pages in their order, with their titles.
pub proof fn law_tabs()
    ensures
        Tab::Summary.place() == 0 && Tab::Summary.title() == "Summary"@,
        Tab::Strategies.place() == 1 && Tab::Strategies.title() == "Strategies"@,
        Tab::Markets.place() == 2 && Tab::Markets.title() == "Markets"@,
        Tab::Trades.place() == 3 && Tab::Trades.title() == "Trades"@,
        Tab::Equity.place() == 4 && Tab::Equity.title() == "Equity"@,
        Tab::Risk.place() == 5 && Tab::Risk.title() == "Risk"@,
        Tab::Timing.place() == 6 && Tab::Timing.title() == "Timing"@,
        Tab::Correlation.place() == 7 && Tab::Correlation.title() == "Correl"@,
{
}

/// A digit shows the page of its place, and Tab the next page; neither touches anything else.
pub proof fn law_page_keys(a: BacktestApp, k: KeyPress, d: int)
    requires
        0 <= d < 8,
    ensures
        k.key == Key::Char(('1' as int + d) as char) ==> {
            &&& pressed(a, k) == (BacktestApp { tab: pressed(a, k).0.tab, ..a }, false)
            &&& pressed(a, k).0.tab.place() == d
        },
        k.key == Key::Tab ==> {
            &&& pressed(a, k) == (BacktestApp { tab: pressed(a, k).0.tab, ..a }, false)
            &&& pressed(a, k).0.tab.place() == (a.tab.place() + 1) % 8
        },
        k.key == Key::BackTab ==> {
            &&& pressed(a, k) == (BacktestApp { tab: pressed(a, k).0.tab, ..a }, false)
            &&& (pressed(a, k).0.tab.place() + 1) % 8 == a.tab.place()
        },
{
}

/// The dashboard ends on `q`, on Control-C, and on Escape where no market is shown in detail, and
/// on nothing else; where one is, Escape goes back to the list.
pub proof fn law_quit_keys(a: BacktestApp, k: KeyPress)
    ensures
        pressed(a, k).1 <==> k.key == Key::Char('q') || (k.key == Key::Char('c') && k.control) || ((
        k.key == Key::Esc || k.key == Key::Backspace) && a.market_drill_down is None),
        k.key == Key::Esc ==> pressed(a, k).0.market_drill_down is None,
        k.key != Key::Esc && k.key != Key::Backspace && k.key != Key::Enter ==> pressed(
            a,
            k,
        ).0.market_drill_down == a.market_drill_down,
        k.key == Key::Enter && a.tab == Tab::Markets && a.market_scroll < a.n_markets ==> pressed(
            a,
            k,
        ).0.market_drill_down == Some(a.market_scroll),
        k.key == Key::Enter && a.tab != Tab::Markets ==> pressed(a, k).0 == a,
{
}

/// A key moves the list of the page that is shown, and no other; one step down and one step up
/// lead back, and nothing leads out of the list.
pub proof fn law_scrolling(a: BacktestApp, k: KeyPress)
    requires
        a.wf(),
        a.shown().len() <= usize::MAX,
        k.key == Key::Down || k.key == Key::Up || k.key == Key::PageDown || k.key == Key::PageUp
            || k.key == Key::Home || k.key == Key::End,
    ensures
        ({
            let z = pressed(a, k).0;
            &&& z.tab == a.tab && z.filter_idx == a.filter_idx
            &&& a.tab != Tab::Markets ==> z.market_scroll == a.market_scroll
            &&& a.tab != Tab::Trades ==> z.trade_scroll == a.trade_scroll
            &&& a.tab != Tab::Strategies ==> z.strategy_scroll == a.strategy_scroll
            &&& a.tab == Tab::Markets ==> {
                &&& k.key == Key::Down && a.market_scroll + 1 < a.n_markets ==> z.market_scroll
                    == a.market_scroll + 1
                &&& k.key == Key::Down && a.market_scroll + 1 >= a.n_markets ==> z.market_scroll
                    == a.market_scroll
                &&& k.key == Key::Up && a.market_scroll > 0 ==> z.market_scroll == a.market_scroll
                    - 1
                &&& k.key == Key::PageDown && a.market_scroll + 20 < a.n_markets ==> z.market_scroll
                    == a.market_scroll + 20
                &&& k.key == Key::PageUp && a.market_scroll >= 20 ==> z.market_scroll
                    == a.market_scroll - 20
                &&& k.key == Key::PageUp && a.market_scroll < 20 ==> z.market_scroll == 0
                &&& k.key == Key::Home ==> z.market_scroll == 0
                &&& k.key == Key::End && a.n_markets > 0 ==> z.market_scroll == a.n_markets - 1
                &&& a.n_markets > 0 ==> z.market_scroll < a.n_markets
            }
            &&& a.tab == Tab::Trades ==> {
                &&& k.key == Key::Down && a.trade_scroll + 1 < a.shown().len() ==> z.trade_scroll
                    == a.trade_scroll + 1
                &&& k.key == Key::Up && a.trade_scroll > 0 ==> z.trade_scroll == a.trade_scroll - 1
                &&& k.key == Key::PageDown && a.trade_scroll + 20 < a.shown().len()
                    ==> z.trade_scroll == a.trade_scroll + 20
                &&& k.key == Key::Home ==> z.trade_scroll == 0
                &&& a.shown().len() > 0 ==> z.trade_scroll < a.shown().len()
            }
            &&& a.tab == Tab::Strategies ==> {
                &&& k.key == Key::Down && a.strategy_scroll + 1 < a.strategy_names@.len()
                    ==> z.strategy_scroll == a.strategy_scroll + 1
                &&& k.key == Key::Up && a.strategy_scroll > 0 ==> z.strategy_scroll
                    == a.strategy_scroll - 1
                &&& k.key == Key::PageDown || k.key == Key::PageUp ==> z.strategy_scroll
                    == a.strategy_scroll
                &&& k.key == Key::Home ==> z.strategy_scroll == 0
            }
        }),
{
    assert(a.strategy_names@.len() == a.strategy_names.len());
}

/// `j` does what Down does and `k` what Up does.
pub proof fn law_letter_keys(a: BacktestApp, c: KeyPress, down: KeyPress, up: KeyPress)
    requires
        down.key == Key::Down,
        up.key == Key::Up,
    ensures
        c.key == Key::Char('j') ==> pressed(a, c) == pressed(a, down),
        c.key == Key::Char('k') ==> pressed(a, c) == pressed(a, up),
{
}

/// On the page of trades `f` goes on to the next filter, after the last one back to all trades,
/// and shows them from the start; on other pages it does nothing.
pub proof fn law_filter_key(a: BacktestApp, k: KeyPress)
    requires
        a.wf(),
        k.key == Key::Char('f'),
    ensures
        a.tab != Tab::Trades ==> pressed(a, k).0 == a,
        a.tab == Tab::Trades && a.filter_idx < a.strategy_names@.len() ==> pressed(a, k).0.filter_idx
            == a.filter_idx + 1,
        a.tab == Tab::Trades && a.filter_idx == a.strategy_names@.len() ==> pressed(a, k).0.filter_idx
            == 0,
        a.tab == Tab::Trades ==> pressed(a, k).0.trade_scroll == 0,
{
    let n = a.strategy_names@.len() as int;
    assert(n == a.strategy_names.len());
    if a.filter_idx < n {
        vstd::arithmetic::div_mod::lemma_small_mod((a.filter_idx + 1) as nat, (n + 1) as nat);
    } else {
        vstd::arithmetic::div_mod::lemma_mod_self_0(n + 1);
    }
}

/// A trade is shown exactly where no filter is set or it is of the strategy of the filter.
pub proof fn law_shown_trades(a: BacktestApp, i: usize)
    requires
        a.wf(),
        i < a.trade_strategies@.len(),
    ensures
        a.shown().contains(i) <==> a.filter_idx == 0 || a.trade_strategies@[i as int]@
            == a.strategy_names@[a.filter_idx - 1]@,
{
    let all = texts(a.trade_strategies@);
    assert(all.len() == a.trade_strategies.len());
    assert(all[i as int] == a.trade_strategies@[i as int]@);
    if a.filter_idx == 0 {
        assert(a.shown()[i as int] == i);
    } else {
        lemma_positions(all, a.strategy_names@[a.filter_idx - 1]@, i);
    }
}

proof fn lemma_positions(list: Seq<Seq<char>>, t: Seq<char>, i: usize)
    requires
        list.len() <= usize::MAX,
    ensures
        positions_of(list, t).contains(i) <==> i < list.len() && list[i as int] == t,
    decreases list.len(),
{
    if list.len() > 0 {
        let d = list.drop_last();
        let p = positions_of(d, t);
        lemma_positions(d, t, i);
        let n = (list.len() - 1) as usize;
        if list.last() == t {
            let q = p.push(n);
            assert(q.last() == n);
            if p.contains(i) {
                let k = choose|k: int| 0 <= k < p.len() && p[k] == i;
                assert(q[k] == i);
            }
            if i == n {
                assert(q[p.len() as int] == i);
            }
            if q.contains(i) && i != n {
                let k = choose|k: int| 0 <= k < q.len() && q[k] == i;
                assert(p[k] == i);
            }
        }
        if i < d.len() {
            assert(d[i as int] == list[i as int]);
        }
    }
}

} // verus!
