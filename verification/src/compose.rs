//! The text of a notification.
//!
//! Composing never fails and asks nobody: whatever a service did not say is
//! already written into the notification as an absent valuation, as the bid
//! of nobody or as the reference token of which nothing is known, and each
//! of these has its own words in the text.

use crate::amount::amount_text;
use crate::bid::{is_no_bid, TopBid, TopBidView};
use crate::notification::{
    token_delta, tokens_view, EnrichedToken, EnrichedTokenView, Notification, NotificationView,
};
use crate::reference::{is_no_reference, ReferenceToken, ReferenceTokenView};
use crate::text::decimal_text;
use crate::valuation::{Valuation, ValuationView};
use vstd::prelude::*;

verus! {

/// The line on the valuation of a token.
pub open spec fn valuation_line(valuation: Option<ValuationView>) -> Seq<char> {
    match valuation {
        Some(v) => "DeepNFTValue valuation: <a href=\""@ + v.url + "\"> "@ + amount_text(v.price)
            + " ETH </a>"@,
        None => "DeepNFTValue valuation: unavailable"@,
    }
}

/// The line on the top bid on a token. The address of the page stands in
/// the anchor as it is, without quotes around it.
pub open spec fn bid_line(bid: TopBidView) -> Seq<char> {
    if is_no_bid(bid) {
        "Top Bid (including fees): no active bids"@
    } else {
        "Top Bid (including fees): <a href="@ + bid.url + "> "@ + amount_text(bid.price)
            + " ETH on "@ + bid.source_name + " </a>"@
    }
}

/// The line on the reference token.
pub open spec fn reference_line(reference: ReferenceTokenView) -> Seq<char> {
    if is_no_reference(reference) {
        "Derived Price: unavailable"@
    } else {
        reference.name + " Derived Price: <a href=\""@ + reference.dex_link + "\"> "@
            + amount_text(reference.derived_price) + " ETH </a>"@
    }
}

/// The lines on one token: its id and links, its valuation, its top bid and
/// its delta, and an empty line.
pub open spec fn token_block(token: EnrichedTokenView, derived_price: int) -> Seq<char> {
    "Token "@ + decimal_text(token.token_id) + ": <a href=\""@ + token.blur_link
        + "\">Blur</a> -- <a href=\""@ + token.flooring_link + "\">Flooring</a> -- <a href=\""@
        + token.opensea_pro_link + "\">OpenSea Pro</a>\n"@ + valuation_line(token.valuation)
        + "\n"@ + bid_line(token.top_bid) + "\nEstimated Arbitrage Profit: "@ + amount_text(
        token_delta(token, derived_price),
    ) + " ETH\n\n"@
}

/// The blocks of `tokens`, one after the other.
pub open spec fn token_blocks(tokens: Seq<EnrichedTokenView>, derived_price: int) -> Seq<char>
    decreases tokens.len(),
{
    if tokens.len() == 0 {
        Seq::empty()
    } else {
        token_blocks(tokens.drop_last(), derived_price) + token_block(
            tokens.last(),
            derived_price,
        )
    }
}

/// The head of a notification: the link to the transaction, the collection,
/// the reference token, and an empty line.
pub open spec fn head_text(notification: NotificationView) -> Seq<char> {
    notification.explorer_link + "\n"@ + notification.collection_header + "\n"@ + reference_line(
        notification.reference,
    ) + "\n\n"@
}

/// The text of a notification: its head, then the block of each token in
/// the order of the notification.
pub open spec fn message_text(notification: NotificationView) -> Seq<char> {
    head_text(notification) + token_blocks(
        notification.tokens,
        notification.reference.derived_price,
    )
}

/// Appends the line on a valuation to `out`.
pub fn push_valuation_line(out: &mut String, valuation: &Option<Valuation>)
    ensures
        final(out)@ == old(out)@ + valuation_line(
            match *valuation {
                Some(v) => Some(v@),
                None => None,
            },
        ),
{
    match valuation {
        Some(v) => {
            out.append("DeepNFTValue valuation: <a href=\"");
            out.append(v.url.as_str());
            out.append("\"> ");
            v.price.append_to(out);
            out.append(" ETH </a>");
            assert(out@ =~= old(out)@ + valuation_line(Some(v@)));
        },
        None => {
            out.append("DeepNFTValue valuation: unavailable");
        },
    }
}

/// Appends the line on a top bid to `out`.
pub fn push_bid_line(out: &mut String, bid: &TopBid)
    ensures
        final(out)@ == old(out)@ + bid_line(bid@),
{
    if bid.is_none() {
        out.append("Top Bid (including fees): no active bids");
    } else {
        out.append("Top Bid (including fees): <a href=");
        out.append(bid.url.as_str());
        out.append("> ");
        bid.price.append_to(out);
        out.append(" ETH on ");
        out.append(bid.source_name.as_str());
        out.append(" </a>");
        assert(out@ =~= old(out)@ + bid_line(bid@));
    }
}

/// Appends the line on a reference token to `out`.
pub fn push_reference_line(out: &mut String, reference: &ReferenceToken)
    ensures
        final(out)@ == old(out)@ + reference_line(reference@),
{
    if reference.is_unavailable() {
        out.append("Derived Price: unavailable");
    } else {
        out.append(reference.name.as_str());
        out.append(" Derived Price: <a href=\"");
        out.append(reference.dex_link.as_str());
        out.append("\"> ");
        reference.derived_price.append_to(out);
        out.append(" ETH </a>");
        assert(out@ =~= old(out)@ + reference_line(reference@));
    }
}

/// Appends the block of the token at `index` to `out`.
fn push_token_block(out: &mut String, notification: &Notification, index: usize)
    requires
        index < notification@.tokens.len(),
    ensures
        final(out)@ == old(out)@ + token_block(
            notification@.tokens[index as int],
            notification@.reference.derived_price,
        ),
{
    let tokens = notification.tokens();
    let token: &EnrichedToken = &tokens[index];
    let delta = notification.delta(index);
    proof {
        assert(tokens_view(tokens@)[index as int] == token@);
    }
    out.append("Token ");
    token.token_id.append_to(out);
    out.append(": <a href=\"");
    out.append(token.blur_link.as_str());
    out.append("\">Blur</a> -- <a href=\"");
    out.append(token.flooring_link.as_str());
    out.append("\">Flooring</a> -- <a href=\"");
    out.append(token.opensea_pro_link.as_str());
    out.append("\">OpenSea Pro</a>\n");
    push_valuation_line(out, &token.valuation);
    out.append("\n");
    push_bid_line(out, &token.top_bid);
    out.append("\nEstimated Arbitrage Profit: ");
    delta.append_to(out);
    out.append(" ETH\n\n");
    assert(out@ =~= old(out)@ + token_block(
        notification@.tokens[index as int],
        notification@.reference.derived_price,
    ));
}

/// The text of `notification`.
pub fn compose(notification: &Notification) -> (r: String)
    ensures
        r@ == message_text(notification@),
{
    let mut out = String::new();
    out.append(notification.explorer_link().as_str());
    out.append("\n");
    out.append(notification.collection_header().as_str());
    out.append("\n");
    push_reference_line(&mut out, notification.reference());
    out.append("\n\n");
    assert(out@ =~= head_text(notification@));
    let ghost tokens = notification@.tokens;
    let ghost derived = notification@.reference.derived_price;
    let n: usize = notification.token_count();
    let mut i: usize = 0;
    assert(tokens.take(0) =~= Seq::<EnrichedTokenView>::empty());
    assert(out@ =~= head_text(notification@) + token_blocks(tokens.take(0), derived));
    while i < n
        invariant
            i <= n,
            n == tokens.len(),
            tokens == notification@.tokens,
            derived == notification@.reference.derived_price,
            out@ == head_text(notification@) + token_blocks(tokens.take(i as int), derived),
        decreases n - i,
    {
        push_token_block(&mut out, notification, i);
        proof {
            let next = tokens.take(i as int + 1);
            assert(next.drop_last() =~= tokens.take(i as int));
            assert(next.last() == tokens[i as int]);
            assert(out@ =~= head_text(notification@) + token_blocks(next, derived));
        }
        i = i + 1;
    }
    assert(tokens.take(n as int) =~= tokens);
    out
}

} // verus!
