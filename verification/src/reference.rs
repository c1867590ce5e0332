//! The reference token of a collection and the price derived from it.
//!
//! A vault pegs a fungible token to each collection: a fixed number of these
//! tokens stands for one token of the collection. The market price of the
//! fungible token, times that number, is the reference price against which a
//! bid is held.

use crate::amount::{lemma_pow10_values, Amount, ATTO_PER_ETHER, FRACTION_DIGITS};
use crate::chain::{limbs_value, tenth_of, Address, LIMB};
use crate::json::{json_reading, text_at, Document, NodeView};
use crate::links::{dex_link, dex_link_text};
use crate::number::lemma_pow10_grows;
use crate::text::{lemma_pow10_product, parse_unsigned, pow10, unsigned_of};
use vstd::prelude::*;

verus! {

/// How many fungible tokens stand for one token of a collection, unless
/// configured otherwise.
pub const DEFAULT_PEG_RATIO: u64 = 1_000_000;

/// How many decimal places the fungible token has, unless configured
/// otherwise.
pub const DEFAULT_DECIMALS: u32 = 18;

/// The peg of the fungible token: how many of them stand for one token of
/// the collection, and into how many decimal places one of them divides.
/// Both are configuration.
#[derive(Clone, Copy, Debug)]
pub struct PegConfig {
    peg_ratio: u64,
    decimals: u32,
}

impl PegConfig {
    /// The number of fungible tokens for one token of the collection.
    pub closed spec fn spec_peg_ratio(&self) -> nat {
        self.peg_ratio as nat
    }

    /// The number of decimal places of the fungible token.
    pub closed spec fn spec_decimals(&self) -> nat {
        self.decimals as nat
    }

    /// The configuration with the given peg ratio and decimal places.
    pub fn new(peg_ratio: u64, decimals: u32) -> (r: PegConfig)
        ensures
            r.spec_peg_ratio() == peg_ratio,
            r.spec_decimals() == decimals,
    {
        PegConfig { peg_ratio, decimals }
    }

    /// The usual configuration: [`DEFAULT_PEG_RATIO`] tokens of
    /// [`DEFAULT_DECIMALS`] decimal places.
    pub fn standard() -> (r: PegConfig)
        ensures
            r.spec_peg_ratio() == DEFAULT_PEG_RATIO,
            r.spec_decimals() == DEFAULT_DECIMALS,
    {
        PegConfig { peg_ratio: DEFAULT_PEG_RATIO, decimals: DEFAULT_DECIMALS }
    }

    /// The number of fungible tokens for one token of the collection.
    pub fn peg_ratio(&self) -> (r: u64)
        ensures
            r == self.spec_peg_ratio(),
    {
        self.peg_ratio
    }

    /// The number of decimal places of the fungible token.
    pub fn decimals(&self) -> (r: u32)
        ensures
            r == self.spec_decimals(),
    {
        self.decimals
    }
}

/// The reference price in attoether: the market price of the smallest unit
/// of the fungible token, times the peg ratio, divided by ten to the power of
/// its decimal places, in ether. With at most eighteen decimal places the
/// division comes out even; with more, what is below one attoether is
/// dropped.
pub open spec fn derived_atto(market_price: nat, peg_ratio: nat, decimals: nat) -> nat {
    if decimals <= FRACTION_DIGITS {
        market_price * peg_ratio * pow10((FRACTION_DIGITS - decimals) as nat)
    } else {
        (market_price * peg_ratio) / pow10((decimals - FRACTION_DIGITS) as nat)
    }
}

/// The reference price that an amount can hold, or `None` where it is above
/// `i128::MAX` attoether.
pub open spec fn derived_price_of(market_price: nat, peg_ratio: nat, decimals: nat) -> Option<int> {
    if derived_atto(market_price, peg_ratio, decimals) <= i128::MAX {
        Some(derived_atto(market_price, peg_ratio, decimals) as int)
    } else {
        None
    }
}

/// The derived price is the market price times the peg ratio over ten to the
/// power of the decimal places, counted in attoether. With at most eighteen
/// decimal places, multiplied back by that power it gives the product times
/// the attoether in one ether. With more, it is the most attoether that,
/// multiplied by the power that the decimal places are above eighteen, do
/// not exceed the product.
pub proof fn lemma_derived_price_formula(market_price: nat, peg_ratio: nat, decimals: nat)
    ensures
        decimals <= FRACTION_DIGITS ==> derived_atto(market_price, peg_ratio, decimals) * pow10(
            decimals,
        ) == market_price * peg_ratio * ATTO_PER_ETHER,
        decimals > FRACTION_DIGITS ==> derived_atto(market_price, peg_ratio, decimals) * pow10(
            (decimals - FRACTION_DIGITS) as nat,
        ) <= market_price * peg_ratio < (derived_atto(market_price, peg_ratio, decimals) + 1)
            * pow10((decimals - FRACTION_DIGITS) as nat),
{
    let product = market_price * peg_ratio;
    if decimals <= FRACTION_DIGITS {
        lemma_pow10_values();
        lemma_pow10_product(decimals, (FRACTION_DIGITS - decimals) as nat);
        let scale = pow10((FRACTION_DIGITS - decimals) as nat);
        let unit = pow10(decimals);
        assert(unit * scale == ATTO_PER_ETHER);
        assert((product * scale) * unit == product * (unit * scale)) by (nonlinear_arith);
    } else {
        let unit = pow10((decimals - FRACTION_DIGITS) as nat);
        lemma_pow10_grows(0, (decimals - FRACTION_DIGITS) as nat);
        let quotient = product as int / unit as int;
        let rest = product as int % unit as int;
        vstd::arithmetic::div_mod::lemma_fundamental_div_mod(product as int, unit as int);
        vstd::arithmetic::div_mod::lemma_mod_bound(product as int, unit as int);
        assert(quotient * unit == unit * quotient) by (nonlinear_arith);
        assert((quotient + 1) * unit == unit * quotient + unit) by (nonlinear_arith);
    }
}

/// The reference token of a collection.
#[derive(Clone, Debug)]
pub struct ReferenceToken {
    /// The chart of the fungible token.
    pub dex_link: String,
    /// The name of the fungible token.
    pub name: String,
    /// The reference price of one token of the collection.
    pub derived_price: Amount,
}

/// A [`ReferenceToken`] over mathematical values.
pub struct ReferenceTokenView {
    pub dex_link: Seq<char>,
    pub name: Seq<char>,
    pub derived_price: int,
}

impl View for ReferenceToken {
    type V = ReferenceTokenView;

    open spec fn view(&self) -> ReferenceTokenView {
        ReferenceTokenView {
            dex_link: self.dex_link@,
            name: self.name@,
            derived_price: self.derived_price@,
        }
    }
}

/// What the library reads in a reply of the price feed.
#[derive(Clone, Debug)]
pub struct PriceFeedReply {
    /// The price of the smallest unit of the token in the smallest unit of
    /// ether, as the reply writes it; `None` where the reply holds none.
    pub native_price: Option<String>,
    /// The name of the token; `None` where the reply holds none.
    pub token_name: Option<String>,
}

/// A [`PriceFeedReply`] over mathematical values.
pub struct PriceFeedReplyView {
    pub native_price: Option<Seq<char>>,
    pub token_name: Option<Seq<char>>,
}

impl View for PriceFeedReply {
    type V = PriceFeedReplyView;

    open spec fn view(&self) -> PriceFeedReplyView {
        PriceFeedReplyView {
            native_price: match self.native_price {
                Some(text) => Some(text@),
                None => None,
            },
            token_name: match self.token_name {
                Some(text) => Some(text@),
                None => None,
            },
        }
    }
}

/// The reference token of which nothing is known: no chart, no name, and a
/// reference price of zero.
pub open spec fn no_reference() -> ReferenceTokenView {
    ReferenceTokenView { dex_link: Seq::empty(), name: Seq::empty(), derived_price: 0 }
}

/// The address at which the price feed answers for a fungible token.
pub open spec fn price_request_text(token: Seq<char>) -> Seq<char> {
    "https://deep-index.moralis.io/api/v2.2/erc20/"@ + token + "/price?chain=eth"@
}

/// Whether nothing is known of a reference token: it has neither name nor
/// chart.
pub open spec fn is_no_reference(reference: ReferenceTokenView) -> bool {
    reference.name.len() == 0 && reference.dex_link.len() == 0
}

/// The reference price that a reply gives: the price derived from its market
/// price; `None` where it holds no market price that reads as an unsigned
/// whole number, or one whose derived price is more than an amount holds.
pub open spec fn reply_price(native_price: Option<Seq<char>>, peg_ratio: nat, decimals: nat) -> Option<
    int,
> {
    match native_price {
        Some(text) => match unsigned_of(text) {
            Some(market_price) => derived_price_of(market_price, peg_ratio, decimals),
            None => None,
        },
        None => None,
    }
}

/// The reference token that a reply of the price feed gives for the
/// fungible token whose address is written `token`: the token with its
/// chart, name and derived price where the reply holds a name and a price
/// that can be derived from, and the token of which nothing is known
/// otherwise.
pub open spec fn reference_of(
    token: Seq<char>,
    reply: PriceFeedReplyView,
    peg_ratio: nat,
    decimals: nat,
) -> ReferenceTokenView {
    match (reply.token_name, reply_price(reply.native_price, peg_ratio, decimals)) {
        (Some(name), Some(price)) => ReferenceTokenView {
            dex_link: dex_link_text(token),
            name,
            derived_price: price,
        },
        _ => no_reference(),
    }
}

/// What the library reads in a reply that is the document `nodes`.
pub open spec fn price_feed_reply_of(nodes: Map<Seq<char>, NodeView>) -> PriceFeedReplyView {
    PriceFeedReplyView {
        native_price: text_at(nodes, "/nativePrice/value"@),
        token_name: text_at(nodes, "/tokenName"@),
    }
}

/// What the library reads in the body of a reply: nothing where the body is
/// no JSON document.
pub open spec fn price_feed_reply_of_body(body: Seq<char>) -> PriceFeedReplyView {
    match json_reading(body) {
        Some(nodes) => price_feed_reply_of(nodes),
        None => PriceFeedReplyView { native_price: None, token_name: None },
    }
}

/// Ten to the power `eighteen - decimals`.
fn scale_of(decimals: u32) -> (r: u128)
    requires
        decimals <= FRACTION_DIGITS,
    ensures
        r == pow10((FRACTION_DIGITS - decimals) as nat),
        1 <= r <= ATTO_PER_ETHER,
{
    let mut scale: u128 = 1;
    let mut k: u32 = decimals;
    proof {
        lemma_pow10_values();
    }
    while k < FRACTION_DIGITS
        invariant
            decimals <= k <= FRACTION_DIGITS,
            scale == pow10((k - decimals) as nat),
            1 <= scale <= ATTO_PER_ETHER,
        decreases FRACTION_DIGITS - k,
    {
        proof {
            lemma_pow10_values();
            assert(pow10((k - decimals + 1) as nat) == 10 * pow10((k - decimals) as nat));
            assert(pow10((k + 1 - decimals) as nat) <= ATTO_PER_ETHER);
        }
        scale = scale * 10;
        k = k + 1;
    }
    scale
}

/// The product of `market_price` and `peg_ratio` over ten to the power
/// `places`, rounded down, or `None` where that is above `i128::MAX`.
fn divided_product(market_price: u128, peg_ratio: u64, places: u32) -> (r: Option<u128>)
    ensures
        match r {
            Some(quotient) => quotient == ((market_price as nat) * (peg_ratio as nat)) / pow10(
                places as nat,
            ) && quotient <= i128::MAX,
            None => ((market_price as nat) * (peg_ratio as nat)) / pow10(places as nat)
                > i128::MAX,
        },
{
    let ghost product: int = market_price as int * peg_ratio as int;
    let low: u64 = (market_price % LIMB) as u64;
    let high: u64 = (market_price / LIMB) as u64;
    proof {
        assert(low as int * peg_ratio as int <= 0xffff_ffff_ffff_ffff * 0xffff_ffff_ffff_ffff)
            by (nonlinear_arith)
            requires
                0 <= low <= 0xffff_ffff_ffff_ffff,
                0 <= peg_ratio <= 0xffff_ffff_ffff_ffff,
        ;
        assert(high as int * peg_ratio as int <= 0xffff_ffff_ffff_ffff * 0xffff_ffff_ffff_ffff)
            by (nonlinear_arith)
            requires
                0 <= high <= 0xffff_ffff_ffff_ffff,
                0 <= peg_ratio <= 0xffff_ffff_ffff_ffff,
        ;
    }
    let first: u128 = low as u128 * peg_ratio as u128;
    let second: u128 = high as u128 * peg_ratio as u128;
    let middle: u128 = second + first / LIMB;
    let mut limbs: [u64; 4] = [(first % LIMB) as u64, (middle % LIMB) as u64, (middle / LIMB) as u64, 0];
    proof {
        assert(market_price == high * LIMB + low);
        assert((high * LIMB + low) * peg_ratio == (high * peg_ratio) * LIMB + low * peg_ratio)
            by (nonlinear_arith);
        assert(limbs_value(limbs@) == product);
        assert(pow10(0) == 1);
    }
    let mut done: u32 = 0;
    while done < places && (limbs[0] != 0 || limbs[1] != 0 || limbs[2] != 0 || limbs[3] != 0)
        invariant
            done <= places,
            product >= 0,
            limbs_value(limbs@) == product / (pow10(done as nat) as int),
        decreases places - done,
    {
        let (next, _) = tenth_of(limbs);
        proof {
            lemma_pow10_grows(0, done as nat);
            let unit = pow10(done as nat) as int;
            vstd::arithmetic::div_mod::lemma_div_denominator(product, unit, 10);
            assert(pow10((done + 1) as nat) == 10 * pow10(done as nat));
            assert(unit * 10 == 10 * unit);
        }
        limbs = next;
        done = done + 1;
    }
    proof {
        if done < places {
            let unit = pow10(done as nat) as int;
            let full = pow10(places as nat) as int;
            lemma_pow10_grows(0, done as nat);
            lemma_pow10_grows(done as nat, places as nat);
            assert(limbs_value(limbs@) == 0);
            vstd::arithmetic::div_mod::lemma_fundamental_div_mod(product, unit);
            vstd::arithmetic::div_mod::lemma_mod_bound(product, unit);
            assert(unit * 0 == 0);
            assert(product < unit);
            vstd::arithmetic::div_mod::lemma_basic_div(product, full);
        }
        assert(limbs_value(limbs@) == product / (pow10(places as nat) as int));
    }
    if limbs[3] != 0 || limbs[2] != 0 || limbs[1] > 0x7fff_ffff_ffff_ffff {
        return None;
    }
    Some(limbs[0] as u128 + limbs[1] as u128 * LIMB)
}

/// The reference price of one token of the collection, from the market price
/// of the smallest unit of its fungible token. `None` exactly where the price
/// is above `i128::MAX` attoether.
pub fn derived_price(market_price: u128, config: &PegConfig) -> (r: Option<Amount>)
    ensures
        match r {
            Some(price) => derived_price_of(
                market_price as nat,
                config.spec_peg_ratio(),
                config.spec_decimals(),
            ) == Some(price@),
            None => derived_price_of(
                market_price as nat,
                config.spec_peg_ratio(),
                config.spec_decimals(),
            ) is None,
        },
{
    if config.decimals > FRACTION_DIGITS {
        return match divided_product(
            market_price,
            config.peg_ratio,
            config.decimals - FRACTION_DIGITS,
        ) {
            Some(quotient) => Some(Amount::from_atto(quotient as i128)),
            None => None,
        };
    }
    let scale: u128 = scale_of(config.decimals);
    let ghost m = market_price as int;
    let ghost ratio = config.peg_ratio as int;
    let ghost s = scale as int;
    let product: u128 = match market_price.checked_mul(config.peg_ratio as u128) {
        Some(product) => product,
        None => {
            assert(m * ratio * s > i128::MAX) by (nonlinear_arith)
                requires
                    m * ratio > u128::MAX,
                    s >= 1,
            ;
            return None;
        },
    };
    let scaled: u128 = match product.checked_mul(scale) {
        Some(scaled) => scaled,
        None => {
            return None;
        },
    };
    if scaled > 170_141_183_460_469_231_731_687_303_715_884_105_727u128 {
        return None;
    }
    Some(Amount::from_atto(scaled as i128))
}

impl ReferenceToken {
    /// The reference token of which nothing is known.
    pub fn unavailable() -> (r: ReferenceToken)
        ensures
            r@ == no_reference(),
    {
        ReferenceToken {
            dex_link: String::new(),
            name: String::new(),
            derived_price: Amount::zero(),
        }
    }

    /// Whether nothing is known of the token.
    pub fn is_unavailable(&self) -> (r: bool)
        ensures
            r == is_no_reference(self@),
    {
        self.name.as_str().is_empty() && self.dex_link.as_str().is_empty()
    }
}

/// The address at which the price feed answers for the fungible token at
/// `token`.
pub fn price_request_url(token: &Address) -> (r: String)
    ensures
        r@ == price_request_text(token.text()),
{
    let mut out: String = "https://deep-index.moralis.io/api/v2.2/erc20/".to_owned();
    let address = token.to_text();
    out.append(address.as_str());
    out.append("/price?chain=eth");
    out
}

/// What the library reads in a reply of the price feed.
pub fn read_price_feed_reply(document: &Document) -> (r: PriceFeedReply)
    ensures
        r@ == price_feed_reply_of(document@),
{
    PriceFeedReply {
        native_price: document.text("/nativePrice/value"),
        token_name: document.text("/tokenName"),
    }
}

/// What the library reads in the body of a reply: nothing where the body is
/// no JSON document.
pub fn read_price_feed_body(body: &str) -> (r: PriceFeedReply)
    ensures
        r@ == price_feed_reply_of_body(body@),
{
    match Document::parse(body) {
        Some(document) => read_price_feed_reply(&document),
        None => PriceFeedReply { native_price: None, token_name: None },
    }
}

/// The reference token that a reply of the price feed gives for the
/// fungible token at `token`. Where the reply lacks the name or a price that
/// can be derived from, nothing is known of the token.
pub fn reference_from_reply(token: &Address, reply: &PriceFeedReply, config: &PegConfig) -> (r:
    ReferenceToken)
    ensures
        r@ == reference_of(token.text(), reply@, config.spec_peg_ratio(), config.spec_decimals()),
{
    let name = match &reply.token_name {
        Some(name) => name.clone(),
        None => {
            return ReferenceToken::unavailable();
        },
    };
    let text = match &reply.native_price {
        Some(text) => text,
        None => {
            return ReferenceToken::unavailable();
        },
    };
    let market_price = match parse_unsigned(text.as_str()) {
        Some(market_price) => market_price,
        None => {
            return ReferenceToken::unavailable();
        },
    };
    match derived_price(market_price, config) {
        Some(price) => ReferenceToken { dex_link: dex_link(token), name, derived_price: price },
        None => ReferenceToken::unavailable(),
    }
}

} // verus!
