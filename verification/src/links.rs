//! The links that a notification carries.

use crate::chain::{Address, TokenId, TxHash};
use crate::text::decimal_text;
use vstd::prelude::*;

verus! {

/// The page of a transaction on the block explorer.
pub open spec fn explorer_link_text(tx_hash: Seq<char>) -> Seq<char> {
    "https://etherscan.io/tx/"@ + tx_hash
}

/// The page of a token on Blur.
pub open spec fn blur_link_text(collection: Seq<char>, token_id: nat) -> Seq<char> {
    "https://blur.io/asset/"@ + collection + "/"@ + decimal_text(token_id)
}

/// The page of a token on Flooring.
pub open spec fn flooring_link_text(collection: Seq<char>, token_id: nat) -> Seq<char> {
    "https://www.flooring.io/nft-details/"@ + collection + "/"@ + decimal_text(token_id)
}

/// The page of a token on OpenSea Pro.
pub open spec fn opensea_pro_link_text(collection: Seq<char>, token_id: nat) -> Seq<char> {
    "https://pro.opensea.io/nft/"@ + collection + "/"@ + decimal_text(token_id)
}

/// The chart of a fungible token on DEX Screener.
pub open spec fn dex_link_text(token: Seq<char>) -> Seq<char> {
    "https://dexscreener.com/ethereum/"@ + token
}

/// `prefix`, then `collection`, a slash and the decimal numeral of `token_id`.
fn token_link(prefix: &str, collection: &str, token_id: &TokenId) -> (r: String)
    ensures
        r@ == prefix@ + collection@ + "/"@ + decimal_text(token_id@),
{
    let mut out: String = prefix.to_owned();
    out.append(collection);
    out.append("/");
    token_id.append_to(&mut out);
    out
}

/// The link to the transaction `tx_hash` on the block explorer.
pub fn explorer_link(tx_hash: &TxHash) -> (r: String)
    ensures
        r@ == explorer_link_text(tx_hash.text()),
{
    let mut out: String = "https://etherscan.io/tx/".to_owned();
    let hash = tx_hash.to_text();
    out.append(hash.as_str());
    out
}

/// The link to a token on Blur. `collection` is the text of the collection's
/// address.
pub fn blur_link(collection: &str, token_id: &TokenId) -> (r: String)
    ensures
        r@ == blur_link_text(collection@, token_id@),
{
    token_link("https://blur.io/asset/", collection, token_id)
}

/// The link to a token on Flooring.
pub fn flooring_link(collection: &str, token_id: &TokenId) -> (r: String)
    ensures
        r@ == flooring_link_text(collection@, token_id@),
{
    token_link("https://www.flooring.io/nft-details/", collection, token_id)
}

/// The link to a token on OpenSea Pro.
pub fn opensea_pro_link(collection: &str, token_id: &TokenId) -> (r: String)
    ensures
        r@ == opensea_pro_link_text(collection@, token_id@),
{
    token_link("https://pro.opensea.io/nft/", collection, token_id)
}

/// The link to the chart of the fungible token at `token`.
pub fn dex_link(token: &Address) -> (r: String)
    ensures
        r@ == dex_link_text(token.text()),
{
    let mut out: String = "https://dexscreener.com/ethereum/".to_owned();
    let address = token.to_text();
    out.append(address.as_str());
    out
}

} // verus!
