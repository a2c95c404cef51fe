//! The table that a replay writes.

use vstd::prelude::*;
use vstd::string::*;

use crate::csv::{join, joined};
use crate::json::texts;

verus! {

/// Columns of a signal.
pub const SIGNAL_COLUMNS: usize = 8;

/// Columns of an order.
pub const ORDER_COLUMNS: usize = 7;

/// The columns that the table has, in their order.
pub fn export_header() -> (r: &'static str)
    ensures
        r@ == "idx,ts_ms,event_type,btc_price,strike,distance,distance_frac,s_est,time_left_s,tau_eff_s,sigma,z_score,p_fair,delta,vwap,regime,regime_frac,regime_trend_up,ewma_n,ewma_sigma_raw,up_bid,up_ask,down_bid,down_ask,up_book_best_bid,up_book_best_ask,up_book_spread,up_book_microprice,up_book_imbalance,up_book_bid_depth5,up_book_ask_depth5,dn_book_best_bid,dn_book_best_ask,dn_book_spread,dn_book_microprice,dn_book_imbalance,dn_book_bid_depth5,dn_book_ask_depth5,signal_strategy,signal_side,signal_edge,signal_fair,signal_mkt,signal_confidence,signal_size_frac,signal_passive,order_id,order_strategy,order_side,order_price,order_size,order_edge,order_passive"@,
{
    "idx,ts_ms,event_type,btc_price,strike,distance,distance_frac,s_est,time_left_s,tau_eff_s,sigma,z_score,p_fair,delta,vwap,regime,regime_frac,regime_trend_up,ewma_n,ewma_sigma_raw,up_bid,up_ask,down_bid,down_ask,up_book_best_bid,up_book_best_ask,up_book_spread,up_book_microprice,up_book_imbalance,up_book_bid_depth5,up_book_ask_depth5,dn_book_best_bid,dn_book_best_ask,dn_book_spread,dn_book_microprice,dn_book_imbalance,dn_book_bid_depth5,dn_book_ask_depth5,signal_strategy,signal_side,signal_edge,signal_fair,signal_mkt,signal_confidence,signal_size_frac,signal_passive,order_id,order_strategy,order_side,order_price,order_size,order_edge,order_passive"
}

/// Cells, or as many empty ones where there are none.
pub open spec fn cells_or_blank(cells: Option<Vec<String>>, n: nat) -> Seq<Seq<char>> {
    match cells {
        Some(v) => texts(v@),
        None => Seq::new(n, |i: int| Seq::<char>::empty()),
    }
}

fn append_cells(row: &mut Vec<String>, cells: Option<Vec<String>>, n: usize)
    ensures
        texts(final(row)@) == texts(old(row)@) + cells_or_blank(cells, n as nat),
{
    let ghost before = texts(row@);
    match cells {
        Some(v) => {
            let mut v2 = v;
            row.append(&mut v2);
            assert(texts(row@) =~= before + texts(v@));
        },
        None => {
            let mut i: usize = 0;
            assert(texts(row@) =~= before + Seq::new(0, |j: int| Seq::<char>::empty()));
            while i < n
                invariant
                    i <= n,
                    texts(row@) == before + Seq::new(i as nat, |j: int| Seq::<char>::empty()),
                decreases n - i,
            {
                let ghost so_far = texts(row@);
                let blank = String::new();
                assert(blank@ =~= Seq::empty());
                row.push(blank);
                assert(texts(row@) =~= so_far.push(Seq::empty()));
                assert(texts(row@) =~= before + Seq::new(
                    (i + 1) as nat,
                    |j: int| Seq::<char>::empty(),
                ));
                i = i + 1;
            }
        },
    }
}

/// The cells of a row.
pub open spec fn row_cells(
    event: Vec<String>,
    signal: Option<Vec<String>>,
    order: Option<Vec<String>>,
) -> Seq<Seq<char>> {
    texts(event@) + cells_or_blank(signal, SIGNAL_COLUMNS as nat) + cells_or_blank(
        order,
        ORDER_COLUMNS as nat,
    )
}

/// A row starts with the cells of the event, goes on with those of the signal and ends with those
/// of the order; a signal that is missing leaves eight blank cells and an order seven.
pub proof fn law_row_cells(
    event: Vec<String>,
    signal: Option<Vec<String>>,
    order: Option<Vec<String>>,
    i: int,
)
    ensures
        ({
            let c = row_cells(event, signal, order);
            let n = event@.len() as int;
            let m = if signal is Some {
                signal->0@.len() as int
            } else {
                8
            };
            &&& 0 <= i < n ==> c[i] == event@[i]@
            &&& signal is Some && 0 <= i < m ==> c[n + i] == signal->0@[i]@
            &&& signal is None && 0 <= i < 8 ==> c[n + i].len() == 0
            &&& order is Some && 0 <= i < order->0@.len() ==> c[n + m + i] == order->0@[i]@
            &&& order is None && 0 <= i < 7 ==> c[n + m + i].len() == 0
            &&& order is None ==> c.len() == n + m + 7
            &&& order is Some ==> c.len() == n + m + order->0@.len()
        }),
{
}

/// A row: the cells of the event, then those of the signal and of the order, blank where there
/// is none.
pub fn export_row(event: Vec<String>, signal: Option<Vec<String>>, order: Option<Vec<String>>) -> (r:
    String)
    ensures
        r@ == joined(
            texts(event@) + cells_or_blank(signal, SIGNAL_COLUMNS as nat) + cells_or_blank(
                order,
                ORDER_COLUMNS as nat,
            ),
            ',',
        ),
        r@ == joined(row_cells(event, signal, order), ','),
{
    let mut row = event;
    append_cells(&mut row, signal, SIGNAL_COLUMNS);
    append_cells(&mut row, order, ORDER_COLUMNS);
    join(&row, ',')
}

} // verus!
