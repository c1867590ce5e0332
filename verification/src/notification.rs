//! From one event and what the services said about its tokens to one
//! notification.
//!
//! A notification holds one enriched token for each token of the event, in
//! the order of the event, and the profit of all of them together: the sum,
//! over the tokens, of the top bid less the reference price.

use crate::amount::Amount;
use crate::bid::{no_bid, TopBid, TopBidView};
use crate::chain::TokenId;
use crate::event::RawEvent;
use crate::links::{
    blur_link, blur_link_text, explorer_link, explorer_link_text, flooring_link,
    flooring_link_text, opensea_pro_link, opensea_pro_link_text,
};
use crate::reference::{ReferenceToken, ReferenceTokenView};
use crate::resolver::{slug_of, CollectionResolver};
use crate::valuation::{Valuation, ValuationView};
use vstd::prelude::*;

verus! {

/// What the services said about one token.
#[derive(Debug)]
pub struct TokenLookup {
    pub valuation: Option<Valuation>,
    pub top_bid: TopBid,
}

/// A [`TokenLookup`] over mathematical values.
pub struct TokenLookupView {
    pub valuation: Option<ValuationView>,
    pub top_bid: TopBidView,
}

impl View for TokenLookup {
    type V = TokenLookupView;

    open spec fn view(&self) -> TokenLookupView {
        TokenLookupView {
            valuation: match self.valuation {
                Some(valuation) => Some(valuation@),
                None => None,
            },
            top_bid: self.top_bid@,
        }
    }
}

/// What is known of a token of which the services said nothing: no
/// valuation, and the bid of nobody.
pub open spec fn no_lookup() -> TokenLookupView {
    TokenLookupView { valuation: None, top_bid: no_bid() }
}

impl TokenLookup {
    /// What is known of a token of which the services said nothing.
    pub fn unavailable() -> (r: TokenLookup)
        ensures
            r@ == no_lookup(),
    {
        TokenLookup { valuation: None, top_bid: TopBid::none() }
    }

    /// A copy of the lookup.
    pub fn duplicate(&self) -> (r: TokenLookup)
        ensures
            r@ == self@,
    {
        TokenLookup {
            valuation: match &self.valuation {
                Some(valuation) => Some(valuation.duplicate()),
                None => None,
            },
            top_bid: self.top_bid.duplicate(),
        }
    }
}

/// One token of an event with all that a notification says of it.
#[derive(Debug)]
pub struct EnrichedToken {
    pub token_id: TokenId,
    pub blur_link: String,
    pub flooring_link: String,
    pub opensea_pro_link: String,
    pub valuation: Option<Valuation>,
    pub top_bid: TopBid,
}

/// An [`EnrichedToken`] over mathematical values.
pub struct EnrichedTokenView {
    pub token_id: nat,
    pub blur_link: Seq<char>,
    pub flooring_link: Seq<char>,
    pub opensea_pro_link: Seq<char>,
    pub valuation: Option<ValuationView>,
    pub top_bid: TopBidView,
}

impl View for EnrichedToken {
    type V = EnrichedTokenView;

    open spec fn view(&self) -> EnrichedTokenView {
        EnrichedTokenView {
            token_id: self.token_id@,
            blur_link: self.blur_link@,
            flooring_link: self.flooring_link@,
            opensea_pro_link: self.opensea_pro_link@,
            valuation: match self.valuation {
                Some(valuation) => Some(valuation@),
                None => None,
            },
            top_bid: self.top_bid@,
        }
    }
}

/// The lookups of a list, each as its view.
pub open spec fn lookups_view(lookups: Seq<TokenLookup>) -> Seq<TokenLookupView> {
    Seq::new(lookups.len(), |i: int| lookups[i]@)
}

/// The tokens of a list, each as its view.
pub open spec fn tokens_view(tokens: Seq<EnrichedToken>) -> Seq<EnrichedTokenView> {
    Seq::new(tokens.len(), |i: int| tokens[i]@)
}

/// The valuation that a notification shows for a token: the one that came
/// in, and none for a collection that the valuation service does not know.
pub open spec fn admitted_valuation(known: bool, valuation: Option<ValuationView>) -> Option<
    ValuationView,
> {
    if known {
        valuation
    } else {
        None
    }
}

/// The token `token_id` of the collection whose address is written
/// `collection`, with what the services said about it. `known` says whether
/// the collection has a slug.
pub open spec fn enriched_token_of(
    collection: Seq<char>,
    token_id: nat,
    lookup: TokenLookupView,
    known: bool,
) -> EnrichedTokenView {
    EnrichedTokenView {
        token_id,
        blur_link: blur_link_text(collection, token_id),
        flooring_link: flooring_link_text(collection, token_id),
        opensea_pro_link: opensea_pro_link_text(collection, token_id),
        valuation: admitted_valuation(known, lookup.valuation),
        top_bid: lookup.top_bid,
    }
}

/// The tokens `token_ids`, each with the lookup in its place.
pub open spec fn enriched_tokens_of(
    collection: Seq<char>,
    token_ids: Seq<nat>,
    lookups: Seq<TokenLookupView>,
    known: bool,
) -> Seq<EnrichedTokenView> {
    Seq::new(
        token_ids.len(),
        |i: int| enriched_token_of(collection, token_ids[i], lookups[i], known),
    )
}

/// What a bid on a token would gain over the reference price: the top bid
/// less the reference price. It may be negative.
pub open spec fn token_delta(token: EnrichedTokenView, derived_price: int) -> int {
    token.top_bid.price - derived_price
}

/// The sum of the deltas of `tokens`.
pub open spec fn total_delta(tokens: Seq<EnrichedTokenView>, derived_price: int) -> int
    decreases tokens.len(),
{
    if tokens.len() == 0 {
        0
    } else {
        total_delta(tokens.drop_last(), derived_price) + token_delta(tokens.last(), derived_price)
    }
}

/// Whether an amount can hold `x` attoether.
pub open spec fn fits_amount(x: int) -> bool {
    i128::MIN <= x <= i128::MAX
}

/// Whether the profit of `tokens` can be counted in amounts: the delta of
/// each token, and the sum of the deltas up to and including each token.
pub open spec fn profit_in_range(tokens: Seq<EnrichedTokenView>, derived_price: int) -> bool {
    forall|k: int|
        #![trigger tokens[k]]
        0 <= k < tokens.len() ==> fits_amount(token_delta(tokens[k], derived_price))
            && fits_amount(total_delta(tokens.take(k + 1), derived_price))
}

/// The name that a notification gives the collection whose address is
/// written `collection`: its slug where it has one, else the address as it is
/// written.
pub open spec fn collection_label(entries: Seq<(Seq<char>, Seq<char>)>, collection: Seq<char>) -> Seq<char> {
    match slug_of(entries, collection) {
        Some(slug) => slug,
        None => collection,
    }
}

/// The header line of a notification for the collection named `label`.
pub open spec fn collection_header_text(label: Seq<char>) -> Seq<char> {
    "\nCollection: "@ + label
}

/// A [`Notification`] over mathematical values.
pub struct NotificationView {
    pub explorer_link: Seq<char>,
    pub collection_header: Seq<char>,
    pub reference: ReferenceTokenView,
    pub tokens: Seq<EnrichedTokenView>,
    pub total_profit: int,
}

/// The notification for an event of the collection at `collection` with the
/// transaction `tx_hash` and the tokens `token_ids`, given the table of the
/// known collections, the reference token and the lookups of the tokens.
pub open spec fn notification_of(
    tx_hash: Seq<char>,
    collection: Seq<char>,
    token_ids: Seq<nat>,
    entries: Seq<(Seq<char>, Seq<char>)>,
    reference: ReferenceTokenView,
    lookups: Seq<TokenLookupView>,
) -> NotificationView {
    let tokens = enriched_tokens_of(
        collection,
        token_ids,
        lookups,
        slug_of(entries, collection) is Some,
    );
    NotificationView {
        explorer_link: explorer_link_text(tx_hash),
        collection_header: collection_header_text(collection_label(entries, collection)),
        reference,
        tokens,
        total_profit: total_delta(tokens, reference.derived_price),
    }
}

/// Why no notification could be made.
#[derive(Clone, Copy, Debug, PartialEq, Eq, Structural)]
pub enum AssembleError {
    /// There is not one lookup for each token of the event.
    TokenCountMismatch,
    /// The profit is more than an amount can hold.
    ProfitOutOfRange,
}

/// What is published for one event. It is made once, by [`assemble`], and
/// not changed after.
#[derive(Debug)]
pub struct Notification {
    pub(crate) explorer_link: String,
    pub(crate) collection_header: String,
    pub(crate) reference: ReferenceToken,
    pub(crate) tokens: Vec<EnrichedToken>,
    pub(crate) total_profit: Amount,
}

impl View for Notification {
    type V = NotificationView;

    closed spec fn view(&self) -> NotificationView {
        NotificationView {
            explorer_link: self.explorer_link@,
            collection_header: self.collection_header@,
            reference: self.reference@,
            tokens: tokens_view(self.tokens@),
            total_profit: self.total_profit@,
        }
    }
}

/// Adding a token adds its delta to the sum.
pub proof fn lemma_total_delta_step(tokens: Seq<EnrichedTokenView>, derived_price: int, k: int)
    requires
        0 <= k < tokens.len(),
    ensures
        total_delta(tokens.take(k + 1), derived_price) == total_delta(
            tokens.take(k),
            derived_price,
        ) + token_delta(tokens[k], derived_price),
{
    assert(tokens.take(k + 1).drop_last() =~= tokens.take(k));
}

/// The header line for the collection whose address is written `collection`.
pub fn collection_header(resolver: &CollectionResolver, collection: &str) -> (r: String)
    ensures
        r@ == collection_header_text(collection_label(resolver@, collection@)),
        slug_of(resolver@, collection@) is None ==> r@ == collection_header_text(collection@),
{
    let mut out: String = "\nCollection: ".to_owned();
    match resolver.resolve(collection) {
        Some(slug) => {
            out.append(slug.as_str());
        },
        None => {
            out.append(collection);
        },
    }
    out
}

/// The token `token_id` of the collection whose address is written
/// `collection`, with its links and with what the services said about it.
/// `known` says whether the collection has a slug; where it has none the
/// token carries no valuation.
pub fn enrich_token(collection: &str, token_id: TokenId, lookup: TokenLookup, known: bool) -> (r:
    EnrichedToken)
    ensures
        r@ == enriched_token_of(collection@, token_id@, lookup@, known),
{
    EnrichedToken {
        token_id,
        blur_link: blur_link(collection, &token_id),
        flooring_link: flooring_link(collection, &token_id),
        opensea_pro_link: opensea_pro_link(collection, &token_id),
        valuation: if known {
            lookup.valuation
        } else {
            None
        },
        top_bid: lookup.top_bid,
    }
}

impl Notification {
    /// The total is the sum of the deltas, and every delta can be counted.
    #[verifier::type_invariant]
    pub closed spec fn profit_is_counted(&self) -> bool {
        &&& profit_in_range(tokens_view(self.tokens@), self.reference.derived_price@)
        &&& self.total_profit@ == total_delta(
            tokens_view(self.tokens@),
            self.reference.derived_price@,
        )
    }

    /// The link to the transaction on the block explorer.
    pub fn explorer_link(&self) -> (r: &String)
        ensures
            r@ == self@.explorer_link,
    {
        &self.explorer_link
    }

    /// The header line that names the collection.
    pub fn collection_header(&self) -> (r: &String)
        ensures
            r@ == self@.collection_header,
    {
        &self.collection_header
    }

    /// The reference token, which all tokens of the notification share.
    pub fn reference(&self) -> (r: &ReferenceToken)
        ensures
            r@ == self@.reference,
    {
        &self.reference
    }

    /// The tokens, in the order of the event.
    pub fn tokens(&self) -> (r: &Vec<EnrichedToken>)
        ensures
            tokens_view(r@) == self@.tokens,
    {
        &self.tokens
    }

    /// How many tokens the notification holds.
    pub fn token_count(&self) -> (r: usize)
        ensures
            r == self@.tokens.len(),
    {
        self.tokens.len()
    }

    /// The profit of all tokens together: the sum of their deltas.
    pub fn total_profit(&self) -> (r: Amount)
        ensures
            r@ == self@.total_profit,
            r@ == total_delta(self@.tokens, self@.reference.derived_price),
    {
        proof {
            use_type_invariant(self);
        }
        self.total_profit
    }

    /// The delta of the token at `index`: its top bid less the reference
    /// price.
    pub fn delta(&self, index: usize) -> (r: Amount)
        requires
            index < self@.tokens.len(),
        ensures
            r@ == token_delta(self@.tokens[index as int], self@.reference.derived_price),
    {
        proof {
            use_type_invariant(self);
            assert(tokens_view(self.tokens@)[index as int] == self.tokens@[index as int]@);
        }
        Amount::from_atto(self.tokens[index].top_bid.price.atto - self.reference.derived_price.atto)
    }
}

/// Makes the notification for `event`. `lookups` holds what the services
/// said about each token, in the order of the event; `reference` is the
/// reference token of the collection.
///
/// The notification holds one token for each token of the event, in the
/// same order, and its total profit is the sum of their deltas. For a
/// collection without slug no token carries a valuation, whatever the
/// lookups hold. It fails
/// where there is not one lookup for each token, and where the profit is
/// more than an amount can hold.
pub fn assemble(
    event: &RawEvent,
    resolver: &CollectionResolver,
    reference: ReferenceToken,
    lookups: &Vec<TokenLookup>,
) -> (r: Result<Notification, AssembleError>)
    ensures
        match r {
            Ok(notification) => {
                &&& lookups@.len() == event.spec_token_ids().len()
                &&& notification@ == notification_of(
                    event.spec_tx_hash().text(),
                    event.spec_collection().text(),
                    event.spec_token_ids(),
                    resolver@,
                    reference@,
                    lookups_view(lookups@),
                )
                &&& notification@.tokens.len() == event.spec_token_ids().len()
                &&& forall|i: int|
                    0 <= i < notification@.tokens.len() ==> (
                    #[trigger] notification@.tokens[i]).token_id == event.spec_token_ids()[i]
                &&& slug_of(resolver@, event.spec_collection().text()) is None ==> forall|i: int|
                    0 <= i < notification@.tokens.len() ==> (
                    #[trigger] notification@.tokens[i]).valuation is None
                &&& profit_in_range(notification@.tokens, reference@.derived_price)
            },
            Err(AssembleError::TokenCountMismatch) => lookups@.len()
                != event.spec_token_ids().len(),
            Err(AssembleError::ProfitOutOfRange) => {
                &&& lookups@.len() == event.spec_token_ids().len()
                &&& !profit_in_range(
                    enriched_tokens_of(
                        event.spec_collection().text(),
                        event.spec_token_ids(),
                        lookups_view(lookups@),
                        slug_of(resolver@, event.spec_collection().text()) is Some,
                    ),
                    reference@.derived_price,
                )
            },
        },
{
    let n: usize = event.token_count();
    if lookups.len() != n {
        return Err(AssembleError::TokenCountMismatch);
    }
    let collection = event.collection().to_text();
    let known: bool = resolver.resolve(collection.as_str()).is_some();
    let ghost expected = enriched_tokens_of(
        event.spec_collection().text(),
        event.spec_token_ids(),
        lookups_view(lookups@),
        known,
    );
    let ghost derived = reference@.derived_price;
    let mut tokens: Vec<EnrichedToken> = Vec::new();
    let mut total: Amount = Amount::zero();
    let mut i: usize = 0;
    assert(expected.take(0) =~= Seq::<EnrichedTokenView>::empty());
    while i < n
        invariant
            i <= n,
            n == event.spec_token_ids().len(),
            n == lookups@.len(),
            collection@ == event.spec_collection().text(),
            known == (slug_of(resolver@, event.spec_collection().text()) is Some),
            expected == enriched_tokens_of(
                event.spec_collection().text(),
                event.spec_token_ids(),
                lookups_view(lookups@),
                known,
            ),
            derived == reference@.derived_price,
            tokens@.len() == i,
            tokens_view(tokens@) == expected.take(i as int),
            total@ == total_delta(expected.take(i as int), derived),
            forall|k: int|
                #![trigger expected[k]]
                0 <= k < i ==> fits_amount(token_delta(expected[k], derived)) && fits_amount(
                    total_delta(expected.take(k + 1), derived),
                ),
        decreases n - i,
    {
        let lookup = lookups[i].duplicate();
        let token = enrich_token(collection.as_str(), event.token_id(i), lookup, known);
        proof {
            assert(lookups_view(lookups@)[i as int] == lookups@[i as int]@);
            assert(token@ == expected[i as int]);
            lemma_total_delta_step(expected, derived, i as int);
        }
        let delta = match token.top_bid.price.checked_sub(&reference.derived_price) {
            Some(delta) => delta,
            None => {
                assert(!fits_amount(token_delta(expected[i as int], derived)));
                return Err(AssembleError::ProfitOutOfRange);
            },
        };
        total = match total.checked_add(&delta) {
            Some(sum) => sum,
            None => {
                assert(!fits_amount(total_delta(expected.take(i as int + 1), derived)));
                assert(expected[i as int] == expected[i as int]);
                return Err(AssembleError::ProfitOutOfRange);
            },
        };
        tokens.push(token);
        proof {
            assert(tokens_view(tokens@) =~= expected.take(i as int + 1));
        }
        i = i + 1;
    }
    proof {
        assert(expected.take(n as int) =~= expected);
    }
    let explorer = explorer_link(&event.tx_hash());
    let header = collection_header(resolver, collection.as_str());
    let notification = Notification {
        explorer_link: explorer,
        collection_header: header,
        reference,
        tokens,
        total_profit: total,
    };
    Ok(notification)
}

} // verus!
