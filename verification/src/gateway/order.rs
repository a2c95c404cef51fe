//! What is sent for an order, and what an answer means.

use vstd::prelude::*;
use vstd::string::*;

use crate::number::Real;
use crate::types::{Order, OrderAck, OrderStatus};

verus! {

/// 0.1
pub const TICK_1: u64 = 0x3FB999999999999A;

/// 0.01
pub const TICK_2: u64 = 0x3F847AE147AE147B;

/// 0.001
pub const TICK_3: u64 = 0x3F50624DD2F1A9FC;

/// How many decimal places a price has, by the least step between two prices.
pub open spec fn decimals_of(tick_size: Real) -> int {
    if (Real { bits: TICK_1 }).le(tick_size) {
        1
    } else if (Real { bits: TICK_2 }).le(tick_size) {
        2
    } else if (Real { bits: TICK_3 }).le(tick_size) {
        3
    } else {
        4
    }
}

/// A step of a tenth or more needs one decimal place, one of a hundredth two, one of a thousandth
/// three, and a smaller one, or none at all, four.
pub proof fn law_decimals(t: Real)
    ensures
        decimals_of(t) == 1 <==> (Real { bits: 0x3FB999999999999A }).le(t),
        decimals_of(t) == 2 <==> (Real { bits: 0x3F847AE147AE147B }).le(t) && t.lt(Real { bits: 0x3FB999999999999A }),
        decimals_of(t) == 3 <==> (Real { bits: 0x3F50624DD2F1A9FC }).le(t) && t.lt(Real { bits: 0x3F847AE147AE147B }),
        decimals_of(t) == 4 <==> !(Real { bits: 0x3F50624DD2F1A9FC }).le(t),
{
}

/// How many decimal places a price has, by the least step between two prices.
pub fn tick_decimals(tick_size: Real) -> (r: usize)
    ensures
        r == decimals_of(tick_size),
        r == (if (Real { bits: TICK_1 }).le(tick_size) {
            1int
        } else if (Real { bits: TICK_2 }).le(tick_size) {
            2
        } else if (Real { bits: TICK_3 }).le(tick_size) {
            3
        } else {
            4
        }),
{
    if (Real { bits: TICK_1 }).at_most(tick_size) {
        1
    } else if (Real { bits: TICK_2 }).at_most(tick_size) {
        2
    } else if (Real { bits: TICK_3 }).at_most(tick_size) {
        3
    } else {
        4
    }
}

/// Who signs orders.
#[derive(Clone, Copy, Debug, PartialEq, Eq, Structural)]
pub enum SignerKind {
    Eoa,
    Proxy,
    GnosisSafe,
}

/// Who signs orders, by the configured number.
pub open spec fn signer_of(signature_type: u8) -> SignerKind {
    if signature_type == 1 {
        SignerKind::Proxy
    } else if signature_type == 2 {
        SignerKind::GnosisSafe
    } else {
        SignerKind::Eoa
    }
}

/// Only 1 stands for a proxy and only 2 for a safe; every other number stands for a plain
/// account.
pub proof fn law_signer(n: u8)
    ensures
        signer_of(n) == SignerKind::Proxy <==> n == 1,
        signer_of(n) == SignerKind::GnosisSafe <==> n == 2,
        signer_of(n) == SignerKind::Eoa <==> n != 1 && n != 2,
{
}

/// Who signs orders, by the configured number: 1 and 2 have a meaning, every other number
/// stands for a plain account.
pub fn signer_kind(signature_type: u8) -> (r: SignerKind)
    ensures
        r == signer_of(signature_type),
        r == (if signature_type == 1 {
            SignerKind::Proxy
        } else if signature_type == 2 {
            SignerKind::GnosisSafe
        } else {
            SignerKind::Eoa
        }),
{
    if signature_type == 1 {
        SignerKind::Proxy
    } else if signature_type == 2 {
        SignerKind::GnosisSafe
    } else {
        SignerKind::Eoa
    }
}

/// What the exchange says of an accepted order.
#[derive(Clone, Copy, Debug, PartialEq, Eq, Structural)]
pub enum PostStatus {
    Matched,
    Live,
    Delayed,
    Unmatched,
    Other,
}

/// A status, taken by its view.
pub ghost enum StatusView {
    Filled,
    PartialFill,
    Live,
    Unmatched,
    Rejected(Seq<char>),
}

pub open spec fn status_view(s: OrderStatus) -> StatusView {
    match s {
        OrderStatus::Filled => StatusView::Filled,
        OrderStatus::PartialFill => StatusView::PartialFill,
        OrderStatus::Live => StatusView::Live,
        OrderStatus::Unmatched => StatusView::Unmatched,
        OrderStatus::Rejected(reason) => StatusView::Rejected(reason@),
    }
}

/// What the answer of the exchange makes of an order: a matched one is filled, one that rests
/// or is delayed is live, and a refused one is rejected with the message of the exchange.
pub open spec fn status_of_reply(
    success: bool,
    status: PostStatus,
    error_msg: Option<Seq<char>>,
) -> StatusView {
    if success {
        match status {
            PostStatus::Matched => StatusView::Filled,
            PostStatus::Unmatched => StatusView::Unmatched,
            PostStatus::Live => StatusView::Live,
            PostStatus::Delayed => StatusView::Live,
            PostStatus::Other => StatusView::Live,
        }
    } else {
        StatusView::Rejected(
            match error_msg {
                Some(m) => m,
                None => "unknown error"@,
            },
        )
    }
}

/// Whether an answer belongs to an order: it bears its number, and it tells the limit price and
/// the size of the order or nothing; the size where the order is filled, and only there.
pub open spec fn answers(order: Order, ack: OrderAck) -> bool {
    &&& ack.order_id == order.id
    &&& ack.filled_price is None || ack.filled_price == Some(order.price)
    &&& ack.filled_size == if ack.status is Filled {
        Some(order.size)
    } else {
        None
    }
    &&& ack.status is Filled ==> ack.filled_price is Some
}

/// An answer is filled at the price of its order, not at its size; only a filled order has a
/// filled size, and it is that of the order.
pub proof fn law_answer(order: Order, ack: OrderAck, p: Real, s: Real)
    requires
        answers(order, ack),
    ensures
        ack.order_id == order.id,
        ack.filled_price == Some(p) ==> p == order.price,
        ack.filled_size == Some(s) ==> s == order.size,
        ack.status is Filled <==> ack.filled_size is Some,
        ack.status is Filled ==> ack.filled_price == Some(order.price) && ack.filled_size == Some(
            order.size,
        ),
{
}

/// A refused order is rejected, with the message of the exchange where there is one; an accepted
/// one is filled exactly where it was matched, and otherwise rests unless nothing matched it.
pub proof fn law_reply(status: PostStatus, error_msg: Option<Seq<char>>, m: Seq<char>)
    ensures
        status_of_reply(false, status, Some(m)) == StatusView::Rejected(m),
        status_of_reply(false, status, None) == StatusView::Rejected("unknown error"@),
        status_of_reply(true, status, error_msg) == StatusView::Filled <==> status
            == PostStatus::Matched,
        status_of_reply(true, status, error_msg) == StatusView::Unmatched <==> status
            == PostStatus::Unmatched,
        status_of_reply(true, status, error_msg) == StatusView::Live <==> status
            != PostStatus::Matched && status != PostStatus::Unmatched,
{
}

/// A status stands for itself.
pub proof fn law_status_view(s: OrderStatus, reason: Seq<char>)
    ensures
        status_view(s) == StatusView::Filled <==> s is Filled,
        status_view(s) == StatusView::PartialFill <==> s is PartialFill,
        status_view(s) == StatusView::Live <==> s is Live,
        status_view(s) == StatusView::Unmatched <==> s is Unmatched,
        status_view(s) == StatusView::Rejected(reason) <==> (s matches OrderStatus::Rejected(r)
            && r@ == reason),
{
}

/// What the answer of the exchange makes of an order. Only a filled order has a filled size.
pub fn ack_of_reply(order: &Order, success: bool, status: PostStatus, error_msg: Option<String>)
    -> (ack: OrderAck)
    ensures
        ack.order_id == order.id,
        status_view(ack.status) == status_of_reply(
            success,
            status,
            match error_msg {
                Some(m) => Some(m@),
                None => None,
            },
        ),
        ack.filled_price == Some(order.price),
        ack.filled_size == (if ack.status is Filled {
            Some(order.size)
        } else {
            None
        }),
        answers(*order, ack),
{
    let status = if success {
        match status {
            PostStatus::Matched => OrderStatus::Filled,
            PostStatus::Unmatched => OrderStatus::Unmatched,
            PostStatus::Live => OrderStatus::Live,
            PostStatus::Delayed => OrderStatus::Live,
            PostStatus::Other => OrderStatus::Live,
        }
    } else {
        match error_msg {
            Some(m) => OrderStatus::Rejected(m),
            None => OrderStatus::Rejected(String::from_str("unknown error")),
        }
    };
    let filled_size = match &status {
        OrderStatus::Filled => Some(order.size),
        _ => None,
    };
    OrderAck { order_id: order.id, status, filled_price: Some(order.price), filled_size }
}

/// The answer in dry-run mode: an immediate fill at the limit price.
pub fn dry_run_ack(order: &Order) -> (ack: OrderAck)
    ensures
        ack.order_id == order.id,
        ack.status is Filled,
        ack.filled_price == Some(order.price),
        ack.filled_size == Some(order.size),
        answers(*order, ack),
{
    OrderAck {
        order_id: order.id,
        status: OrderStatus::Filled,
        filled_price: Some(order.price),
        filled_size: Some(order.size),
    }
}

/// The answer to an order that did not reach the exchange or failed there.
pub fn rejected_ack(order: &Order, reason: String) -> (ack: OrderAck)
    ensures
        ack.order_id == order.id,
        status_view(ack.status) == StatusView::Rejected(reason@),
        ack.filled_price is None,
        ack.filled_size is None,
        answers(*order, ack),
{
    OrderAck {
        order_id: order.id,
        status: OrderStatus::Rejected(reason),
        filled_price: None,
        filled_size: None,
    }
}

} // verus!
