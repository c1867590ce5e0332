//! What a token is valued at, from the valuation service.
//!
//! The service knows a collection by its slug. Where a collection has none
//! there is nothing to ask for, and where the reply holds no valuation the
//! token goes without one: neither is a failure.

use crate::amount::Amount;
use crate::chain::TokenId;
use crate::json::{json_reading, object_at, text_at, Document, NodeView};
use crate::number::parsed_atto;
use crate::resolver::{slug_of, CollectionResolver};
use crate::text::decimal_text;
use vstd::prelude::*;

verus! {

/// What the service values a token at, with the page that shows it.
#[derive(Clone, Debug)]
pub struct Valuation {
    pub url: String,
    pub price: Amount,
}

/// A [`Valuation`] over mathematical values.
pub struct ValuationView {
    pub url: Seq<char>,
    pub price: int,
}

impl View for Valuation {
    type V = ValuationView;

    open spec fn view(&self) -> ValuationView {
        ValuationView { url: self.url@, price: self.price@ }
    }
}

impl Valuation {
    /// A copy of the valuation.
    pub fn duplicate(&self) -> (r: Valuation)
        ensures
            r@ == self@,
    {
        Valuation { url: self.url.clone(), price: self.price }
    }
}

/// What the library reads in a reply of the service.
#[derive(Clone, Debug)]
pub struct ValuationReply {
    /// Whether the reply holds a valuation object.
    pub has_valuation: bool,
    /// The price in the valuation object, where it holds one as a string.
    pub price: Option<String>,
}

/// A [`ValuationReply`] over mathematical values.
pub struct ValuationReplyView {
    pub has_valuation: bool,
    pub price: Option<Seq<char>>,
}

impl View for ValuationReply {
    type V = ValuationReplyView;

    open spec fn view(&self) -> ValuationReplyView {
        ValuationReplyView {
            has_valuation: self.has_valuation,
            price: match self.price {
                Some(text) => Some(text@),
                None => None,
            },
        }
    }
}

/// The address at which the service answers for a token.
pub open spec fn valuation_request_text(slug: Seq<char>, token_id: nat) -> Seq<char> {
    "https://api.deepnftvalue.com/v1/tokens/"@ + slug + "/"@ + decimal_text(token_id)
}

/// The page of the service that shows a token.
pub open spec fn valuation_page_text(slug: Seq<char>, token_id: nat) -> Seq<char> {
    "https://deepnftvalue.com/asset/"@ + slug + "/"@ + decimal_text(token_id)
}

/// The request to make for a token of the collection at `collection`: none
/// where the collection has no slug.
pub open spec fn valuation_request_of(
    entries: Seq<(Seq<char>, Seq<char>)>,
    collection: Seq<char>,
    token_id: nat,
) -> Option<Seq<char>> {
    match slug_of(entries, collection) {
        Some(slug) => Some(valuation_request_text(slug, token_id)),
        None => None,
    }
}

/// The valuation that a reply gives: one where the reply holds a valuation
/// object whose price reads as an amount, and none otherwise.
pub open spec fn valuation_of(slug: Seq<char>, token_id: nat, reply: ValuationReplyView) -> Option<
    ValuationView,
> {
    if reply.has_valuation && reply.price is Some && parsed_atto(reply.price->0) is Some {
        Some(
            ValuationView {
                url: valuation_page_text(slug, token_id),
                price: parsed_atto(reply.price->0)->0,
            },
        )
    } else {
        None
    }
}

/// What the library reads in a reply that is the document `nodes`.
pub open spec fn valuation_reply_of(nodes: Map<Seq<char>, NodeView>) -> ValuationReplyView {
    ValuationReplyView {
        has_valuation: object_at(nodes, "/valuation"@),
        price: text_at(nodes, "/valuation/price"@),
    }
}

/// The valuation that the body of a reply gives: none where the body is no
/// JSON document.
pub open spec fn valuation_of_body(slug: Seq<char>, token_id: nat, body: Seq<char>) -> Option<
    ValuationView,
> {
    match json_reading(body) {
        Some(nodes) => valuation_of(slug, token_id, valuation_reply_of(nodes)),
        None => None,
    }
}

/// `prefix`, then `slug`, a slash and the decimal numeral of `token_id`.
fn slug_link(prefix: &str, slug: &str, token_id: &TokenId) -> (r: String)
    ensures
        r@ == prefix@ + slug@ + "/"@ + decimal_text(token_id@),
{
    let mut out: String = prefix.to_owned();
    out.append(slug);
    out.append("/");
    token_id.append_to(&mut out);
    out
}

/// The address at which the service answers for the token `token_id` of the
/// collection `slug`.
pub fn valuation_request_url(slug: &str, token_id: &TokenId) -> (r: String)
    ensures
        r@ == valuation_request_text(slug@, token_id@),
{
    slug_link("https://api.deepnftvalue.com/v1/tokens/", slug, token_id)
}

/// The page of the service that shows the token.
pub fn valuation_page_url(slug: &str, token_id: &TokenId) -> (r: String)
    ensures
        r@ == valuation_page_text(slug@, token_id@),
{
    slug_link("https://deepnftvalue.com/asset/", slug, token_id)
}

/// The request to make for a token of the collection whose address is
/// written `collection`. `None` exactly where the collection has no slug:
/// the service is then not asked at all.
pub fn valuation_request(resolver: &CollectionResolver, collection: &str, token_id: &TokenId) -> (r:
    Option<String>)
    ensures
        match r {
            Some(url) => valuation_request_of(resolver@, collection@, token_id@) == Some(url@),
            None => valuation_request_of(resolver@, collection@, token_id@) is None,
        },
        r is None <==> slug_of(resolver@, collection@) is None,
{
    match resolver.resolve(collection) {
        Some(slug) => Some(valuation_request_url(slug.as_str(), token_id)),
        None => None,
    }
}

/// What the library reads in a reply.
pub fn read_valuation_reply(document: &Document) -> (r: ValuationReply)
    ensures
        r@ == valuation_reply_of(document@),
{
    ValuationReply {
        has_valuation: document.has_object("/valuation"),
        price: document.text("/valuation/price"),
    }
}

/// The valuation of the token `token_id` of the collection `slug` that
/// `reply` gives. `Some` exactly where the reply holds a valuation object
/// whose price is a number that an amount can hold.
pub fn valuation_from_reply(slug: &str, token_id: &TokenId, reply: &ValuationReply) -> (r: Option<
    Valuation,
>)
    ensures
        match r {
            Some(valuation) => valuation_of(slug@, token_id@, reply@) == Some(valuation@),
            None => valuation_of(slug@, token_id@, reply@) is None,
        },
{
    if !reply.has_valuation {
        return None;
    }
    match &reply.price {
        Some(text) => match Amount::parse(text.as_str()) {
            Some(price) => Some(Valuation { url: valuation_page_url(slug, token_id), price }),
            None => None,
        },
        None => None,
    }
}

/// The valuation that the body of a reply gives. `None` where the body is no
/// JSON document, and where [`valuation_from_reply`] gives none for what the
/// document holds.
pub fn valuation_from_body(slug: &str, token_id: &TokenId, body: &str) -> (r: Option<Valuation>)
    ensures
        match r {
            Some(valuation) => valuation_of_body(slug@, token_id@, body@) == Some(valuation@),
            None => valuation_of_body(slug@, token_id@, body@) is None,
        },
{
    match Document::parse(body) {
        Some(document) => {
            let reply = read_valuation_reply(&document);
            valuation_from_reply(slug, token_id, &reply)
        },
        None => None,
    }
}

} // verus!
