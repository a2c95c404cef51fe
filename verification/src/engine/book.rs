//! Order books.

use vstd::prelude::*;

use crate::number::Real;
use crate::sort::{is_stable_order, stable_order};

verus! {

/// Sorted order book of one token: prices with sizes, best first.
#[derive(Clone)]
pub struct OrderBook {
    pub bids: Vec<(Real, Real)>,
    pub asks: Vec<(Real, Real)>,
}

/// Whether every price is a number.
pub open spec fn prices_are_numbers(levels: Seq<(Real, Real)>) -> bool {
    forall|i: int| 0 <= i < levels.len() ==> !(#[trigger] levels[i]).0.nan()
}

/// The keys by which levels are put in order: the price, or its opposite for the highest first.
pub open spec fn level_keys(levels: Seq<(Real, Real)>, highest_first: bool) -> Seq<i128> {
    levels.map_values(
        |l: (Real, Real)|
            if highest_first {
                (-l.0.key()) as i128
            } else {
                l.0.key() as i128
            },
    )
}

/// The items of a list in a given order of positions.
pub open spec fn picked<T>(items: Seq<T>, order: Seq<usize>) -> Seq<T> {
    order.map_values(|k: usize| items[k as int])
}

/// Whether `out` holds the levels in the order of their prices, equal prices in the order in
/// which they came.
pub open spec fn is_arranged(
    levels: Seq<(Real, Real)>,
    highest_first: bool,
    out: Seq<(Real, Real)>,
) -> bool {
    exists|order: Seq<usize>|
        is_stable_order(level_keys(levels, highest_first), order) && out == #[trigger] picked(
            levels,
            order,
        )
}

/// Arranged levels do not get better: bids do not rise and asks do not fall.
pub proof fn law_arranged_is_sorted(
    levels: Seq<(Real, Real)>,
    highest_first: bool,
    out: Seq<(Real, Real)>,
    i: int,
    j: int,
)
    requires
        is_arranged(levels, highest_first, out),
        0 <= i <= j < out.len(),
    ensures
        highest_first ==> out[i].0.key() >= out[j].0.key(),
        !highest_first ==> out[i].0.key() <= out[j].0.key(),
        out.len() == levels.len(),
        levels.contains(out[i]),
{
    let keys = level_keys(levels, highest_first);
    let order = choose|order: Seq<usize>|
        is_stable_order(keys, order) && out == #[trigger] picked(levels, order);
    assert(out[i] == levels[order[i] as int]);
    assert(out[j] == levels[order[j] as int]);
    if i < j {
        assert(crate::sort::comes_before(keys, order[i] as int, order[j] as int));
    }
}

fn arrange(levels: &Vec<(Real, Real)>, highest_first: bool) -> (out: Vec<(Real, Real)>)
    ensures
        is_arranged(levels@, highest_first, out@),
{
    let mut keys: Vec<i128> = Vec::new();
    let mut i: usize = 0;
    while i < levels.len()
        invariant
            i <= levels.len(),
            keys@ == level_keys(levels@, highest_first).take(i as int),
        decreases levels.len() - i,
    {
        let k: i64 = levels[i].0.sort_key();
        if highest_first {
            keys.push(-(k as i128));
        } else {
            keys.push(k as i128);
        }
        i = i + 1;
        assert(keys@ =~= level_keys(levels@, highest_first).take(i as int));
    }
    assert(keys@ =~= level_keys(levels@, highest_first));
    let order = stable_order(&keys);
    let mut out: Vec<(Real, Real)> = Vec::new();
    let mut j: usize = 0;
    while j < order.len()
        invariant
            j <= order.len(),
            is_stable_order(level_keys(levels@, highest_first), order@),
            level_keys(levels@, highest_first).len() == levels@.len(),
            out@ == picked(levels@, order@).take(j as int),
        decreases order.len() - j,
    {
        out.push(levels[order[j]]);
        j = j + 1;
        assert(out@ =~= picked(levels@, order@).take(j as int));
    }
    assert(out@ =~= picked(levels@, order@));
    out
}

/// The price of the first level, or zero.
pub open spec fn first_price(levels: Seq<(Real, Real)>) -> Real {
    if levels.len() > 0 {
        levels[0].0
    } else {
        Real { bits: 0 }
    }
}

impl OrderBook {
    pub fn new() -> (b: Self)
        ensures
            b.bids@ == Seq::<(Real, Real)>::empty(),
            b.asks@ == Seq::<(Real, Real)>::empty(),
    {
        OrderBook { bids: Vec::new(), asks: Vec::new() }
    }

    pub fn best_bid(&self) -> (r: Real)
        ensures
            r == first_price(self.bids@),
    {
        if self.bids.len() > 0 {
            self.bids[0].0
        } else {
            Real::zero()
        }
    }

    pub fn best_ask(&self) -> (r: Real)
        ensures
            r == first_price(self.asks@),
    {
        if self.asks.len() > 0 {
            self.asks[0].0
        } else {
            Real::zero()
        }
    }

    /// Takes over a full book: bids from the highest price down, asks from the lowest up.
    pub fn apply_snapshot(&mut self, bids: Vec<(Real, Real)>, asks: Vec<(Real, Real)>)
        requires
            prices_are_numbers(bids@),
            prices_are_numbers(asks@),
        ensures
            is_arranged(bids@, true, final(self).bids@),
            is_arranged(asks@, false, final(self).asks@),
    {
        self.bids = arrange(&bids, true);
        self.asks = arrange(&asks, false);
    }
}

/// The best bid is the highest of all, the best ask the lowest of all.
pub proof fn law_best_prices(book: OrderBook, bids: Seq<(Real, Real)>, asks: Seq<(Real, Real)>)
    requires
        is_arranged(bids, true, book.bids@),
        is_arranged(asks, false, book.asks@),
        bids.len() <= usize::MAX,
        asks.len() <= usize::MAX,
    ensures
        forall|k: int|
            0 <= k < bids.len() ==> (#[trigger] bids[k]).0.key() <= first_price(book.bids@).key(),
        forall|k: int|
            0 <= k < asks.len() ==> first_price(book.asks@).key() <= (#[trigger] asks[k]).0.key(),
{
    assert forall|k: int| 0 <= k < bids.len() implies (#[trigger] bids[k]).0.key() <= first_price(
        book.bids@,
    ).key() by {
        lemma_position_of(bids, true, book.bids@, k);
        let j = choose|j: int| 0 <= j < book.bids@.len() && book.bids@[j] == bids[k];
        law_arranged_is_sorted(bids, true, book.bids@, 0, j);
    }
    assert forall|k: int| 0 <= k < asks.len() implies first_price(book.asks@).key() <= (
    #[trigger] asks[k]).0.key() by {
        lemma_position_of(asks, false, book.asks@, k);
        let j = choose|j: int| 0 <= j < book.asks@.len() && book.asks@[j] == asks[k];
        law_arranged_is_sorted(asks, false, book.asks@, 0, j);
    }
}

proof fn lemma_position_of(
    levels: Seq<(Real, Real)>,
    highest_first: bool,
    out: Seq<(Real, Real)>,
    k: int,
)
    requires
        is_arranged(levels, highest_first, out),
        0 <= k < levels.len() <= usize::MAX,
    ensures
        exists|j: int| 0 <= j < out.len() && out[j] == levels[k],
{
    let keys = level_keys(levels, highest_first);
    let order = choose|order: Seq<usize>|
        is_stable_order(keys, order) && out == #[trigger] picked(levels, order);
    crate::sort::law_stable_order_is_permutation(keys, order, k as usize);
    let j = choose|j: int| 0 <= j < order.len() && order[j] == k as usize;
    assert(out[j] == levels[k]);
}

/// The best bid of a book that was taken over is one of the bids that came, the best ask one of
/// the asks; and without any, the price is zero.
pub proof fn law_best_prices_are_there(
    book: OrderBook,
    bids: Seq<(Real, Real)>,
    asks: Seq<(Real, Real)>,
)
    requires
        is_arranged(bids, true, book.bids@),
        is_arranged(asks, false, book.asks@),
    ensures
        bids.len() > 0 ==> exists|k: int|
            0 <= k < bids.len() && (#[trigger] bids[k]).0 == first_price(book.bids@),
        asks.len() > 0 ==> exists|k: int|
            0 <= k < asks.len() && (#[trigger] asks[k]).0 == first_price(book.asks@),
        bids.len() == 0 ==> first_price(book.bids@).bits == 0,
        asks.len() == 0 ==> first_price(book.asks@).bits == 0,
        book.bids@.len() == bids.len(),
        book.asks@.len() == asks.len(),
{
    let x = choose|order: Seq<usize>|
        is_stable_order(level_keys(bids, true), order) && book.bids@ == #[trigger] picked(
            bids,
            order,
        );
    let y = choose|order: Seq<usize>|
        is_stable_order(level_keys(asks, false), order) && book.asks@ == #[trigger] picked(
            asks,
            order,
        );
    if bids.len() > 0 {
        assert(bids[x[0] as int].0 == first_price(book.bids@));
    }
    if asks.len() > 0 {
        assert(asks[y[0] as int].0 == first_price(book.asks@));
    }
}

/// Every level that came is in the book with its size.
pub proof fn law_levels_are_kept(
    levels: Seq<(Real, Real)>,
    highest_first: bool,
    out: Seq<(Real, Real)>,
    k: int,
)
    requires
        is_arranged(levels, highest_first, out),
        0 <= k < levels.len() <= usize::MAX,
    ensures
        out.contains(levels[k]),
{
    lemma_position_of(levels, highest_first, out, k);
}

} // verus!
