//! The best active bid on a token, from the marketplace aggregator.
//!
//! The aggregator lists the active orders with the highest price first, so
//! the first order of its reply is the top bid. A reply without orders means
//! that nobody bids: the top bid is then the bid of nothing by nobody, and
//! the arithmetic that follows is as well defined as with any other bid.

use crate::amount::Amount;
use crate::chain::TokenId;
use crate::json::{array_len_at, json_reading, number_at, text_at, Document, NodeView};
use crate::number::parsed_atto;
use crate::text::{decimal_text, push_decimal};
use vstd::prelude::*;

verus! {

/// The best bid on a token: what is offered, by which marketplace, and the
/// page of the order.
#[derive(Clone, Debug)]
pub struct TopBid {
    pub url: String,
    pub source_name: String,
    pub price: Amount,
}

/// A [`TopBid`] over mathematical values.
pub struct TopBidView {
    pub url: Seq<char>,
    pub source_name: Seq<char>,
    pub price: int,
}

impl View for TopBid {
    type V = TopBidView;

    open spec fn view(&self) -> TopBidView {
        TopBidView { url: self.url@, source_name: self.source_name@, price: self.price@ }
    }
}

/// One order of a reply of the aggregator.
#[derive(Clone, Debug)]
pub struct BidOrder {
    /// The price net of fees, as the reply writes the number; `None` where
    /// the order holds none.
    pub price: Option<String>,
    /// The name of the marketplace; empty where the order holds none.
    pub source_name: String,
    /// The page of the marketplace; empty where the order holds none.
    pub source_url: String,
}

/// A [`BidOrder`] over mathematical values.
pub struct BidOrderView {
    pub price: Option<Seq<char>>,
    pub source_name: Seq<char>,
    pub source_url: Seq<char>,
}

impl View for BidOrder {
    type V = BidOrderView;

    open spec fn view(&self) -> BidOrderView {
        BidOrderView {
            price: match self.price {
                Some(text) => Some(text@),
                None => None,
            },
            source_name: self.source_name@,
            source_url: self.source_url@,
        }
    }
}

/// The orders of a list, each as its view.
pub open spec fn orders_view(orders: Seq<BidOrder>) -> Seq<BidOrderView> {
    Seq::new(orders.len(), |i: int| orders[i]@)
}

/// The bid where nobody bids: price zero, no marketplace, no page.
pub open spec fn no_bid() -> TopBidView {
    TopBidView { url: Seq::empty(), source_name: Seq::empty(), price: 0 }
}

/// Whether a bid is the bid where nobody bids.
pub open spec fn is_no_bid(bid: TopBidView) -> bool {
    bid.price == 0 && bid.source_name.len() == 0
}

/// The price of an order as an amount; `None` where the order holds no
/// price, or one that does not read as an amount.
pub open spec fn order_price(order: BidOrderView) -> Option<int> {
    match order.price {
        Some(text) => parsed_atto(text),
        None => None,
    }
}

/// The top bid among `orders`, which come highest price first: the first
/// order with its price, marketplace and page. Where there is no order, or
/// the first order names no price that reads as an amount, it is the bid of
/// nobody.
pub open spec fn top_bid_of(orders: Seq<BidOrderView>) -> TopBidView {
    if orders.len() == 0 {
        no_bid()
    } else {
        match order_price(orders[0]) {
            Some(price) => TopBidView {
                url: orders[0].source_url,
                source_name: orders[0].source_name,
                price,
            },
            None => no_bid(),
        }
    }
}

/// The address at which the aggregator lists the active bids on a token,
/// highest price first.
pub open spec fn bid_request_text(collection: Seq<char>, token_id: nat) -> Seq<char> {
    "https://api.reservoir.tools/orders/bids/v6?token="@ + collection + "%3A"@ + decimal_text(
        token_id,
    )
        + "&status=active&normalizeRoyalties=true&sortBy=price&limit=1&displayCurrency=0x0000000000000000000000000000000000000000"@
}

/// The JSON Pointer to the part `tail` of the order at `index`.
pub open spec fn order_pointer_text(index: nat, tail: Seq<char>) -> Seq<char> {
    "/orders/"@ + decimal_text(index) + tail
}

/// The text at `pointer`, or the empty text where none stands there.
pub open spec fn text_or_empty(nodes: Map<Seq<char>, NodeView>, pointer: Seq<char>) -> Seq<char> {
    match text_at(nodes, pointer) {
        Some(text) => text,
        None => Seq::empty(),
    }
}

/// The order at `index` of a reply that is the document `nodes`.
pub open spec fn order_of(nodes: Map<Seq<char>, NodeView>, index: nat) -> BidOrderView {
    BidOrderView {
        price: number_at(nodes, order_pointer_text(index, "/price/netAmount/decimal"@)),
        source_name: text_or_empty(nodes, order_pointer_text(index, "/source/name"@)),
        source_url: text_or_empty(nodes, order_pointer_text(index, "/source/url"@)),
    }
}

/// The orders of a reply that is the document `nodes`, in its order.
pub open spec fn orders_of(nodes: Map<Seq<char>, NodeView>) -> Seq<BidOrderView> {
    Seq::new(array_len_at(nodes, "/orders"@), |i: int| order_of(nodes, i as nat))
}

/// The top bid that the body of a reply gives: that of nobody where the
/// body is no JSON document.
pub open spec fn top_bid_of_body(body: Seq<char>) -> TopBidView {
    match json_reading(body) {
        Some(nodes) => top_bid_of(orders_of(nodes)),
        None => no_bid(),
    }
}

impl TopBid {
    /// The bid where nobody bids.
    pub fn none() -> (r: TopBid)
        ensures
            r@ == no_bid(),
    {
        TopBid { url: String::new(), source_name: String::new(), price: Amount::zero() }
    }

    /// A copy of the bid.
    pub fn duplicate(&self) -> (r: TopBid)
        ensures
            r@ == self@,
    {
        TopBid {
            url: self.url.clone(),
            source_name: self.source_name.clone(),
            price: self.price,
        }
    }

    /// Whether this is the bid where nobody bids: price zero and no
    /// marketplace.
    pub fn is_none(&self) -> (r: bool)
        ensures
            r == is_no_bid(self@),
    {
        self.price.is_zero() && self.source_name.as_str().is_empty()
    }
}

/// The address at which the aggregator lists the active bids on the token.
/// `collection` is the text of the collection's address.
pub fn bid_request_url(collection: &str, token_id: &TokenId) -> (r: String)
    ensures
        r@ == bid_request_text(collection@, token_id@),
{
    let mut out: String = "https://api.reservoir.tools/orders/bids/v6?token=".to_owned();
    out.append(collection);
    out.append("%3A");
    token_id.append_to(&mut out);
    out.append(
        "&status=active&normalizeRoyalties=true&sortBy=price&limit=1&displayCurrency=0x0000000000000000000000000000000000000000",
    );
    out
}

/// The JSON Pointer to the part `tail` of the order at `index`.
fn order_pointer(index: usize, tail: &str) -> (r: String)
    ensures
        r@ == order_pointer_text(index as nat, tail@),
{
    let mut out: String = "/orders/".to_owned();
    push_decimal(&mut out, index as u128);
    out.append(tail);
    out
}

/// The text at `pointer`, or the empty text where none stands there.
fn document_text_or_empty(document: &Document, pointer: &str) -> (r: String)
    ensures
        r@ == text_or_empty(document@, pointer@),
{
    match document.text(pointer) {
        Some(text) => text,
        None => String::new(),
    }
}

/// The orders that a reply holds, in its order.
pub fn read_bid_reply(document: &Document) -> (r: Vec<BidOrder>)
    ensures
        orders_view(r@) == orders_of(document@),
{
    let n: usize = document.array_len("/orders");
    let mut orders: Vec<BidOrder> = Vec::new();
    let mut i: usize = 0;
    while i < n
        invariant
            i <= n,
            n == array_len_at(document@, "/orders"@),
            orders@.len() == i,
            forall|k: int| 0 <= k < i ==> (#[trigger] orders@[k])@ == order_of(document@, k as nat),
        decreases n - i,
    {
        let price_at = order_pointer(i, "/price/netAmount/decimal");
        let name_at = order_pointer(i, "/source/name");
        let url_at = order_pointer(i, "/source/url");
        let order = BidOrder {
            price: document.number(price_at.as_str()),
            source_name: document_text_or_empty(document, name_at.as_str()),
            source_url: document_text_or_empty(document, url_at.as_str()),
        };
        assert(order@ == order_of(document@, i as nat));
        orders.push(order);
        i = i + 1;
    }
    assert(orders_view(orders@) =~= orders_of(document@));
    orders
}

/// The top bid among `orders`, which come highest price first: the first
/// of them with its price, marketplace and page. Where there is no order,
/// or the first names no price that reads as an amount, it is the bid of
/// nobody.
pub fn top_bid_from_orders(orders: &Vec<BidOrder>) -> (r: TopBid)
    ensures
        r@ == top_bid_of(orders_view(orders@)),
        orders@.len() == 0 ==> is_no_bid(r@),
{
    if orders.len() == 0 {
        return TopBid::none();
    }
    let first = &orders[0];
    assert(orders_view(orders@)[0] == first@);
    let price = match &first.price {
        Some(text) => Amount::parse(text.as_str()),
        None => None,
    };
    match price {
        Some(price) => TopBid {
            url: first.source_url.clone(),
            source_name: first.source_name.clone(),
            price,
        },
        None => TopBid::none(),
    }
}

/// The top bid that the body of a reply gives; the bid of nobody where the
/// body is no JSON document.
pub fn top_bid_from_body(body: &str) -> (r: TopBid)
    ensures
        r@ == top_bid_of_body(body@),
{
    match Document::parse(body) {
        Some(document) => {
            let orders = read_bid_reply(&document);
            top_bid_from_orders(&orders)
        },
        None => TopBid::none(),
    }
}

} // verus!
