//! What holds of the pipeline as a whole, stated over the functions that
//! its parts are specified with.

use crate::bid::{is_no_bid, no_bid, order_price, top_bid_of, BidOrderView};
use crate::compose::{bid_line, head_text, reference_line, valuation_line};
use crate::links::explorer_link_text;
use crate::notification::{
    enriched_token_of, enriched_tokens_of, notification_of, token_delta, total_delta,
    EnrichedTokenView, TokenLookupView,
};
use crate::reference::ReferenceTokenView;
use crate::resolver::slug_of;
use crate::valuation::{valuation_of, valuation_request_of, ValuationReplyView};
use vstd::prelude::*;

verus! {

/// A notification holds one token for each token of the event, in the order
/// of the event, whatever the services said.
pub proof fn lemma_one_token_for_each_id(
    tx_hash: Seq<char>,
    collection: Seq<char>,
    token_ids: Seq<nat>,
    entries: Seq<(Seq<char>, Seq<char>)>,
    reference: ReferenceTokenView,
    lookups: Seq<TokenLookupView>,
)
    ensures
        notification_of(tx_hash, collection, token_ids, entries, reference, lookups).tokens.len()
            == token_ids.len(),
        forall|i: int|
            0 <= i < token_ids.len() ==> (#[trigger] notification_of(
                tx_hash,
                collection,
                token_ids,
                entries,
                reference,
                lookups,
            ).tokens[i]).token_id == token_ids[i],
{
}

/// For a collection that the table does not hold, the header names the
/// address as it is written, the text of the notification shows it so, no
/// valuation is asked for, for any of its tokens, and none of its tokens
/// carries one; each still has its top bid, and the event its reference
/// token.
pub proof fn lemma_unknown_collection(
    tx_hash: Seq<char>,
    collection: Seq<char>,
    token_ids: Seq<nat>,
    entries: Seq<(Seq<char>, Seq<char>)>,
    reference: ReferenceTokenView,
    lookups: Seq<TokenLookupView>,
)
    requires
        slug_of(entries, collection) is None,
    ensures
        notification_of(
            tx_hash,
            collection,
            token_ids,
            entries,
            reference,
            lookups,
        ).collection_header == "\nCollection: "@ + collection,
        forall|token_id: nat| #[trigger]
            valuation_request_of(entries, collection, token_id) is None,
        forall|i: int|
            0 <= i < token_ids.len() ==> (#[trigger] notification_of(
                tx_hash,
                collection,
                token_ids,
                entries,
                reference,
                lookups,
            ).tokens[i]).valuation is None && notification_of(
                tx_hash,
                collection,
                token_ids,
                entries,
                reference,
                lookups,
            ).tokens[i].top_bid == lookups[i].top_bid,
        notification_of(tx_hash, collection, token_ids, entries, reference, lookups).reference
            == reference,
        head_text(notification_of(tx_hash, collection, token_ids, entries, reference, lookups))
            == explorer_link_text(tx_hash) + "\n"@ + ("\nCollection: "@ + collection) + "\n"@
            + reference_line(reference) + "\n\n"@,
{
}

/// A reply without a valuation object gives no valuation; the token is then
/// marked so in the text, and its delta is what it is with any valuation:
/// the top bid less the reference price.
pub proof fn lemma_missing_valuation(
    slug: Seq<char>,
    collection: Seq<char>,
    token_id: nat,
    reply: ValuationReplyView,
    lookup: TokenLookupView,
    known: bool,
    derived_price: int,
)
    requires
        !reply.has_valuation,
    ensures
        valuation_of(slug, token_id, reply) is None,
        valuation_line(None) == "DeepNFTValue valuation: unavailable"@,
        token_delta(
            enriched_token_of(
                collection,
                token_id,
                TokenLookupView { valuation: None, ..lookup },
                known,
            ),
            derived_price,
        ) == lookup.top_bid.price - derived_price,
        token_delta(
            enriched_token_of(
                collection,
                token_id,
                TokenLookupView { valuation: None, ..lookup },
                known,
            ),
            derived_price,
        ) == token_delta(enriched_token_of(collection, token_id, lookup, known), derived_price),
{
}

/// A reply without orders gives the bid of nobody: price zero and no
/// marketplace. The delta of the token is then the reference price with a
/// minus sign, and the text says that nobody bids.
pub proof fn lemma_no_orders(
    collection: Seq<char>,
    token_id: nat,
    lookup: TokenLookupView,
    known: bool,
    derived_price: int,
)
    ensures
        top_bid_of(Seq::<BidOrderView>::empty()) == no_bid(),
        no_bid().price == 0,
        no_bid().source_name == Seq::<char>::empty(),
        is_no_bid(no_bid()),
        token_delta(
            enriched_token_of(
                collection,
                token_id,
                TokenLookupView { top_bid: top_bid_of(Seq::<BidOrderView>::empty()), ..lookup },
                known,
            ),
            derived_price,
        ) == -derived_price,
        bid_line(no_bid()) == "Top Bid (including fees): no active bids"@,
{
}

/// The top bid of a reply with orders is its first order: price,
/// marketplace and page, wherever the order names a price that reads as an
/// amount.
pub proof fn lemma_first_order_is_top_bid(orders: Seq<BidOrderView>)
    requires
        orders.len() >= 1,
        order_price(orders[0]) is Some,
    ensures
        top_bid_of(orders).price == order_price(orders[0])->0,
        top_bid_of(orders).source_name == orders[0].source_name,
        top_bid_of(orders).url == orders[0].source_url,
{
}

/// The sum of the deltas of no token is zero, that of one token is its
/// delta, and that of two lists one after the other is the sum of the two
/// sums.
pub proof fn lemma_total_delta_adds(
    first: Seq<EnrichedTokenView>,
    second: Seq<EnrichedTokenView>,
    derived_price: int,
)
    ensures
        total_delta(Seq::<EnrichedTokenView>::empty(), derived_price) == 0,
        first.len() == 1 ==> total_delta(first, derived_price) == token_delta(
            first[0],
            derived_price,
        ),
        total_delta(first + second, derived_price) == total_delta(first, derived_price)
            + total_delta(second, derived_price),
    decreases second.len(),
{
    if first.len() == 1 {
        assert(first.drop_last() =~= Seq::<EnrichedTokenView>::empty());
        assert(total_delta(first.drop_last(), derived_price) == 0);
    }
    if second.len() == 0 {
        assert(first + second =~= first);
    } else {
        lemma_total_delta_adds(first, second.drop_last(), derived_price);
        assert((first + second).drop_last() =~= first + second.drop_last());
        assert((first + second).last() == second.last());
    }
}

/// The total profit of a notification is the sum of the deltas of its
/// tokens: of each, the top bid less the reference price.
pub proof fn lemma_total_profit_is_sum_of_deltas(
    tx_hash: Seq<char>,
    collection: Seq<char>,
    token_ids: Seq<nat>,
    entries: Seq<(Seq<char>, Seq<char>)>,
    reference: ReferenceTokenView,
    lookups: Seq<TokenLookupView>,
)
    ensures
        notification_of(tx_hash, collection, token_ids, entries, reference, lookups).total_profit
            == total_delta(
            enriched_tokens_of(
                collection,
                token_ids,
                lookups,
                slug_of(entries, collection) is Some,
            ),
            reference.derived_price,
        ),
        forall|i: int|
            0 <= i < token_ids.len() ==> token_delta(
                #[trigger] enriched_tokens_of(
                    collection,
                    token_ids,
                    lookups,
                    slug_of(entries, collection) is Some,
                )[i],
                reference.derived_price,
            ) == lookups[i].top_bid.price - reference.derived_price,
{
}

} // verus!
