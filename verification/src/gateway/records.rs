//! What is kept of the talk with the exchange, and why an order does not reach it.

use vstd::prelude::*;
use vstd::string::*;

use crate::config::opt_text;
use crate::csv::{join, joined};
use crate::json::{json_string, quote_string, texts};
use crate::telemetry::lines::{side_name, side_text, unsigned_text};
use crate::text::decimal;
use crate::types::{Order, OrderType, Side};

verus! {

/// A member of a JSON object; the value is JSON already.
pub open spec fn member(key: Seq<char>, value: Seq<char>) -> Seq<char> {
    "\""@ + key + "\":"@ + value
}

fn member_text(key: &str, value: &str) -> (r: String)
    ensures
        r@ == member(key@, value@),
{
    String::from_str("\"").concat(key).concat("\":").concat(value)
}

/// A JSON object of members.
pub open spec fn object(members: Seq<Seq<char>>) -> Seq<char> {
    "{"@ + joined(members, ',') + "}"@
}

fn object_text(members: &Vec<String>) -> (r: String)
    ensures
        r@ == object(texts(members@)),
{
    String::from_str("{").concat(join(members, ',').as_str()).concat("}")
}

pub open spec fn truth(b: bool) -> Seq<char> {
    if b {
        "true"@
    } else {
        "false"@
    }
}

fn truth_text(b: bool) -> (r: &'static str)
    ensures
        r@ == truth(b),
{
    if b {
        "true"
    } else {
        "false"
    }
}

pub open spec fn order_type_name(t: OrderType) -> Seq<char> {
    match t {
        OrderType::GTC => "GTC"@,
        OrderType::GTD => "GTD"@,
        OrderType::FOK => "FOK"@,
    }
}

/// The name of an order type.
pub fn order_type_text(t: OrderType) -> (r: &'static str)
    ensures
        r@ == order_type_name(t),
{
    match t {
        OrderType::GTC => "GTC",
        OrderType::GTD => "GTD",
        OrderType::FOK => "FOK",
    }
}

/// The members of a request, by name.
pub open spec fn request_members(
    order: Order,
    token_id: Seq<char>,
    price: Seq<char>,
    shares: Seq<char>,
    usdc: Seq<char>,
) -> Seq<Seq<char>> {
    seq![
        member("order_id"@, decimal(order.id as int)),
        member("order_type"@, json_string(order_type_name(order.order_type))),
        member("post_only"@, truth(order.post_only)),
        member("price"@, json_string(price)),
        member("side"@, json_string(side_name(order.side))),
        member("size_shares"@, json_string(shares)),
        member("size_usdc"@, usdc),
        member("strategy"@, json_string(order.strategy@)),
        member("token_id"@, json_string(token_id)),
    ]
}

/// The record of an order that is sent. Price and shares are the texts that are sent; `usdc` is
/// the size of the order as a JSON number.
pub fn request_record(order: &Order, token_id: &str, price: &str, shares: &str, usdc: &str) -> (r:
    String)
    ensures
        r@ == object(request_members(*order, token_id@, price@, shares@, usdc@)),
{
    let members = vec![
        member_text("order_id", unsigned_text(order.id).as_str()),
        member_text("order_type", quote_string(order_type_text(order.order_type)).as_str()),
        member_text("post_only", truth_text(order.post_only)),
        member_text("price", quote_string(price).as_str()),
        member_text("side", quote_string(side_text(order.side).as_str()).as_str()),
        member_text("size_shares", quote_string(shares).as_str()),
        member_text("size_usdc", usdc),
        member_text("strategy", quote_string(order.strategy).as_str()),
        member_text("token_id", quote_string(token_id).as_str()),
    ];
    assert(texts(members@) =~= request_members(*order, token_id@, price@, shares@, usdc@));
    object_text(&members)
}

/// What the exchange answers.
pub struct Reply {
    pub success: bool,
    pub order_id: String,
    pub status: String,
    pub error_msg: Option<String>,
    pub making_amount: String,
    pub taking_amount: String,
    pub trade_ids: Vec<String>,
}

/// A JSON list of strings.
pub open spec fn string_list(items: Seq<Seq<char>>) -> Seq<char> {
    "["@ + joined(items.map_values(|s: Seq<char>| json_string(s)), ',') + "]"@
}

fn string_list_text(items: &Vec<String>) -> (r: String)
    ensures
        r@ == string_list(texts(items@)),
{
    let ghost want = texts(items@).map_values(|s: Seq<char>| json_string(s));
    let mut quoted: Vec<String> = Vec::new();
    let mut i: usize = 0;
    assert(texts(quoted@) =~= want.take(0));
    while i < items.len()
        invariant
            i <= items@.len(),
            want == texts(items@).map_values(|s: Seq<char>| json_string(s)),
            texts(quoted@) == want.take(i as int),
        decreases items@.len() - i,
    {
        let ghost before = texts(quoted@);
        let q = quote_string(items[i].as_str());
        quoted.push(q);
        proof {
            assert(texts(quoted@) =~= before.push(q@));
            assert(want[i as int] == q@);
            assert(want.take(i + 1) =~= want.take(i as int).push(q@));
        }
        i = i + 1;
    }
    assert(want.take(i as int) =~= want);
    String::from_str("[").concat(join(&quoted, ',').as_str()).concat("]")
}

impl Reply {
    /// The members of an answer, by name.
    pub open spec fn members(&self) -> Seq<Seq<char>> {
        seq![
            member(
                "error_msg"@,
                match self.error_msg {
                    Some(m) => json_string(m@),
                    None => "null"@,
                },
            ),
            member("making_amount"@, json_string(self.making_amount@)),
            member("order_id"@, json_string(self.order_id@)),
            member("status"@, json_string(self.status@)),
            member("success"@, truth(self.success)),
            member("taking_amount"@, json_string(self.taking_amount@)),
            member("trade_ids"@, string_list(texts(self.trade_ids@))),
        ]
    }

    /// The record of an answer.
    pub fn record(&self) -> (r: String)
        ensures
            r@ == object(self.members()),
    {
        let error = match &self.error_msg {
            Some(m) => quote_string(m.as_str()),
            None => String::from_str("null"),
        };
        let members = vec![
            member_text("error_msg", error.as_str()),
            member_text("making_amount", quote_string(self.making_amount.as_str()).as_str()),
            member_text("order_id", quote_string(self.order_id.as_str()).as_str()),
            member_text("status", quote_string(self.status.as_str()).as_str()),
            member_text("success", truth_text(self.success)),
            member_text("taking_amount", quote_string(self.taking_amount.as_str()).as_str()),
            member_text("trade_ids", string_list_text(&self.trade_ids).as_str()),
        ];
        assert(texts(members@) =~= self.members());
        object_text(&members)
    }
}

/// Why an order is not sent, from what is wrong with its price, its size and its token: the
/// first of these counts.
pub open spec fn refusal_of(
    price: Option<Seq<char>>,
    size: Option<Seq<char>>,
    token_id: Option<Seq<char>>,
) -> Option<Seq<char>> {
    match (price, size, token_id) {
        (Some(e), _, _) => Some("bad price: "@ + e),
        (None, Some(e), _) => Some("bad size: "@ + e),
        (None, None, Some(e)) => Some("bad token_id: "@ + e),
        _ => None,
    }
}

/// Why an order is not sent, from what is wrong with its price, its size and its token.
pub fn refusal(price: Option<String>, size: Option<String>, token_id: Option<String>) -> (r: Option<
    String,
>)
    ensures
        opt_text(r) == refusal_of(
            opt_text(price),
            opt_text(size),
            opt_text(token_id),
        ),
{
    if let Some(e) = price {
        return Some(String::from_str("bad price: ").concat(e.as_str()));
    }
    if let Some(e) = size {
        return Some(String::from_str("bad size: ").concat(e.as_str()));
    }
    if let Some(e) = token_id {
        return Some(String::from_str("bad token_id: ").concat(e.as_str()));
    }
    None
}

/// The record of an order holds its number, its type, its side and its strategy, the price that
/// is sent as its price and the shares as its shares, each once.
pub proof fn law_request(
    order: Order,
    token_id: Seq<char>,
    price: Seq<char>,
    shares: Seq<char>,
    usdc: Seq<char>,
)
    ensures
        ({
            let m = request_members(order, token_id, price, shares, usdc);
            &&& m.len() == 9
            &&& m[0] == "\"order_id\":"@ + decimal(order.id as int)
            &&& m[1] == "\"order_type\":"@ + json_string(order_type_name(order.order_type))
            &&& m[2] == "\"post_only\":"@ + if order.post_only {
                "true"@
            } else {
                "false"@
            }
            &&& m[3] == "\"price\":"@ + json_string(price)
            &&& m[4] == "\"side\":"@ + json_string(
                if order.side == Side::Up {
                    "Up"@
                } else {
                    "Down"@
                },
            )
            &&& m[5] == "\"size_shares\":"@ + json_string(shares)
            &&& m[6] == "\"size_usdc\":"@ + usdc
            &&& m[7] == "\"strategy\":"@ + json_string(order.strategy@)
            &&& m[8] == "\"token_id\":"@ + json_string(token_id)
        }),
{
    let m = request_members(order, token_id, price, shares, usdc);
    reveal_strlit("\"");
    reveal_strlit("\":");
    reveal_strlit("order_id");
    reveal_strlit("\"order_id\":");
    reveal_strlit("order_type");
    reveal_strlit("\"order_type\":");
    reveal_strlit("post_only");
    reveal_strlit("\"post_only\":");
    reveal_strlit("price");
    reveal_strlit("\"price\":");
    reveal_strlit("side");
    reveal_strlit("\"side\":");
    reveal_strlit("size_shares");
    reveal_strlit("\"size_shares\":");
    reveal_strlit("size_usdc");
    reveal_strlit("\"size_usdc\":");
    reveal_strlit("strategy");
    reveal_strlit("\"strategy\":");
    reveal_strlit("token_id");
    reveal_strlit("\"token_id\":");
    assert("\""@ + "order_id"@ + "\":"@ =~= "\"order_id\":"@);
    assert("\""@ + "order_type"@ + "\":"@ =~= "\"order_type\":"@);
    assert("\""@ + "post_only"@ + "\":"@ =~= "\"post_only\":"@);
    assert("\""@ + "price"@ + "\":"@ =~= "\"price\":"@);
    assert("\""@ + "side"@ + "\":"@ =~= "\"side\":"@);
    assert("\""@ + "size_shares"@ + "\":"@ =~= "\"size_shares\":"@);
    assert("\""@ + "size_usdc"@ + "\":"@ =~= "\"size_usdc\":"@);
    assert("\""@ + "strategy"@ + "\":"@ =~= "\"strategy\":"@);
    assert("\""@ + "token_id"@ + "\":"@ =~= "\"token_id\":"@);
}

/// The record of an answer holds each of its parts under its own name.
pub proof fn law_reply_members(r: Reply)
    ensures
        ({
            let m = r.members();
            &&& m.len() == 7
            &&& m[0] == member(
                "error_msg"@,
                if r.error_msg is Some {
                    json_string(r.error_msg->0@)
                } else {
                    "null"@
                },
            )
            &&& m[1] == member("making_amount"@, json_string(r.making_amount@))
            &&& m[2] == member("order_id"@, json_string(r.order_id@))
            &&& m[3] == member("status"@, json_string(r.status@))
            &&& m[4] == member(
                "success"@,
                if r.success {
                    "true"@
                } else {
                    "false"@
                },
            )
            &&& m[5] == member("taking_amount"@, json_string(r.taking_amount@))
            &&& m[6] == member("trade_ids"@, string_list(texts(r.trade_ids@)))
        }),
{
}

/// The names of the order types.
pub proof fn law_order_type_names()
    ensures
        order_type_name(OrderType::GTC) == "GTC"@,
        order_type_name(OrderType::GTD) == "GTD"@,
        order_type_name(OrderType::FOK) == "FOK"@,
{
}

/// A bad price is told before a bad size, and that before a bad token; where nothing is bad
/// there is no refusal.
pub proof fn law_refusal(
    price: Option<Seq<char>>,
    size: Option<Seq<char>>,
    token_id: Option<Seq<char>>,
)
    ensures
        price matches Some(e) ==> refusal_of(price, size, token_id) == Some("bad price: "@ + e),
        price is None ==> (size matches Some(e) ==> refusal_of(price, size, token_id) == Some(
            "bad size: "@ + e,
        )),
        price is None && size is None ==> (token_id matches Some(e) ==> refusal_of(
            price,
            size,
            token_id,
        ) == Some("bad token_id: "@ + e)),
        refusal_of(price, size, token_id) is None <==> price is None && size is None && token_id
            is None,
{
}

} // verus!
