use flooring_monitor::amount::Amount;
use flooring_monitor::bid::{bid_request_url, read_bid_reply, top_bid_from_body, top_bid_from_orders, BidOrder, TopBid};
use flooring_monitor::chain::{Address, TokenId};
use flooring_monitor::json::{Document, JsonNode};
use flooring_monitor::reference::{
    derived_price, price_request_url, read_price_feed_body, reference_from_reply, PegConfig, PriceFeedReply,
    ReferenceToken, DEFAULT_DECIMALS, DEFAULT_PEG_RATIO,
};
use flooring_monitor::resolver::CollectionResolver;
use flooring_monitor::valuation::{
    read_valuation_reply, valuation_from_body, valuation_from_reply, valuation_page_url, valuation_request,
    valuation_request_url, ValuationReply,
};

const ETHER: i128 = 1_000_000_000_000_000_000;
const PUDGY: &str = "0xbd3531da5cf5857e7cfaa92426877b022e612cf8";

fn token_address() -> Address {
    let mut bytes = [0u8; 20];
    bytes[0] = 0xaa;
    bytes[19] = 0x01;
    Address::new(bytes)
}

#[test]
fn reads_a_document_place_by_place() {
    let document = Document::parse(r#"{"a": {"b": ["x", 2, null, true, {"c": "d"}]}, "n": 1.5, "e": "q\"uote"}"#).unwrap();
    assert!(matches!(document.node(""), Some(JsonNode::Object)));
    assert!(matches!(document.node("/a"), Some(JsonNode::Object)));
    assert!(matches!(document.node("/a/b"), Some(JsonNode::Array(5))));
    assert!(matches!(document.node("/a/b/2"), Some(JsonNode::Null)));
    assert!(matches!(document.node("/a/b/3"), Some(JsonNode::Bool(true))));
    assert!(document.node("/a/b/5").is_none());
    assert!(document.node("/missing").is_none());
    assert!(document.node("a").is_none());
    assert_eq!(document.text("/a/b/0"), Some("x".to_string()));
    assert_eq!(document.text("/a/b/4/c"), Some("d".to_string()));
    assert_eq!(document.text("/e"), Some("q\"uote".to_string()));
    assert_eq!(document.text("/n"), None);
    assert_eq!(document.number("/n"), Some("1.5".to_string()));
    assert_eq!(document.number("/a/b/1"), Some("2".to_string()));
    assert_eq!(document.number("/a/b/0"), None);
    assert!(document.has_object("/a"));
    assert!(!document.has_object("/a/b"));
    assert!(!document.has_object("/nowhere"));
    assert_eq!(document.array_len("/a/b"), 5);
    assert_eq!(document.array_len("/a"), 0);
    assert_eq!(document.array_len("/nowhere"), 0);
}

#[test]
fn refuses_what_is_no_document() {
    assert!(Document::parse("").is_none());
    assert!(Document::parse("{").is_none());
    assert!(Document::parse("{\"a\": 1} trailing").is_none());
    assert!(Document::parse("<html>502</html>").is_none());
    assert!(Document::parse("null").is_some());
}

#[test]
fn asks_for_a_valuation_by_slug() {
    let id = TokenId::from_u64(42);
    assert_eq!(valuation_request_url("pudgypenguins", &id), "https://api.deepnftvalue.com/v1/tokens/pudgypenguins/42");
    assert_eq!(valuation_page_url("pudgypenguins", &id), "https://deepnftvalue.com/asset/pudgypenguins/42");
    let resolver = CollectionResolver::new();
    assert_eq!(
        valuation_request(&resolver, PUDGY, &id),
        Some("https://api.deepnftvalue.com/v1/tokens/pudgypenguins/42".to_string())
    );
}

#[test]
fn asks_for_no_valuation_of_an_unknown_collection() {
    let resolver = CollectionResolver::new();
    for id in [0u64, 1, 42, u64::MAX] {
        assert_eq!(valuation_request(&resolver, "0xb6a37b5d14d502c3ab0ae6f3a0e058bc9517786e", &TokenId::from_u64(id)), None);
    }
}

#[test]
fn takes_the_valuation_from_a_reply() {
    let id = TokenId::from_u64(42);
    let body = r#"{"valuation": {"price": "5.25", "currency": "ETH"}, "token_id": 42}"#;
    let valuation = valuation_from_body("pudgypenguins", &id, body).unwrap();
    assert_eq!(valuation.url, "https://deepnftvalue.com/asset/pudgypenguins/42");
    assert_eq!(valuation.price, Amount::from_atto(5 * ETHER + ETHER / 4));
    let reply = read_valuation_reply(&Document::parse(body).unwrap());
    assert!(reply.has_valuation);
    assert_eq!(reply.price, Some("5.25".to_string()));
}

#[test]
fn a_reply_without_valuation_gives_none() {
    let id = TokenId::from_u64(42);
    assert!(valuation_from_body("azuki", &id, r#"{"detail": "Not found."}"#).is_none());
    assert!(valuation_from_body("azuki", &id, r#"{"valuation": null}"#).is_none());
    assert!(valuation_from_body("azuki", &id, r#"{"valuation": "5"}"#).is_none());
    assert!(valuation_from_body("azuki", &id, r#"{"valuation": {}}"#).is_none());
    assert!(valuation_from_body("azuki", &id, r#"{"valuation": {"price": 5}}"#).is_none());
    assert!(valuation_from_body("azuki", &id, r#"{"valuation": {"price": "five"}}"#).is_none());
    assert!(valuation_from_body("azuki", &id, "not json").is_none());
    let no_object = ValuationReply { has_valuation: false, price: Some("5".to_string()) };
    assert!(valuation_from_reply("azuki", &id, &no_object).is_none());
    let no_price = ValuationReply { has_valuation: true, price: None };
    assert!(valuation_from_reply("azuki", &id, &no_price).is_none());
    let good = ValuationReply { has_valuation: true, price: Some("5".to_string()) };
    assert_eq!(valuation_from_reply("azuki", &id, &good).unwrap().price, Amount::from_ether(5));
}

#[test]
fn asks_for_the_bids_on_a_token() {
    assert_eq!(
        bid_request_url(PUDGY, &TokenId::from_u64(7)),
        "https://api.reservoir.tools/orders/bids/v6?token=0xbd3531da5cf5857e7cfaa92426877b022e612cf8%3A7&status=active&normalizeRoyalties=true&sortBy=price&limit=1&displayCurrency=0x0000000000000000000000000000000000000000"
    );
}

#[test]
fn the_first_order_is_the_top_bid() {
    let body = r#"{"orders": [
        {"price": {"netAmount": {"decimal": 6.5}}, "source": {"name": "Blur", "url": "https://blur.io/bid/1"}},
        {"price": {"netAmount": {"decimal": 6}}, "source": {"name": "OpenSea", "url": "https://opensea.io/bid/2"}}
    ], "continuation": null}"#;
    let bid = top_bid_from_body(body);
    assert_eq!(bid.price, Amount::from_atto(6 * ETHER + ETHER / 2));
    assert_eq!(bid.source_name, "Blur");
    assert_eq!(bid.url, "https://blur.io/bid/1");
    assert!(!bid.is_none());
    let orders = read_bid_reply(&Document::parse(body).unwrap());
    assert_eq!(orders.len(), 2);
    assert_eq!(orders[0].price, Some("6.5".to_string()));
    assert_eq!(orders[1].price, Some("6".to_string()));
    assert_eq!(orders[1].source_name, "OpenSea");
    assert_eq!(orders[1].source_url, "https://opensea.io/bid/2");
}

#[test]
fn no_orders_give_the_bid_of_nobody() {
    for body in [r#"{"orders": []}"#, r#"{}"#, r#"{"orders": null}"#, "", "oops"] {
        let bid = top_bid_from_body(body);
        assert_eq!(bid.price, Amount::zero(), "{:?}", body);
        assert_eq!(bid.source_name, "");
        assert_eq!(bid.url, "");
        assert!(bid.is_none());
    }
    let bid = top_bid_from_orders(&vec![]);
    assert!(bid.is_none());
    assert_eq!(bid.price, Amount::zero());
    assert!(TopBid::none().is_none());
}

#[test]
fn an_order_without_a_readable_price_is_no_bid() {
    let orders = read_bid_reply(&Document::parse(r#"{"orders": [{"source": {"name": "Blur"}}, {"price": {"netAmount": {"decimal": "3"}}}]}"#).unwrap());
    assert_eq!(orders.len(), 2);
    assert_eq!(orders[0].price, None);
    assert_eq!(orders[0].source_name, "Blur");
    assert_eq!(orders[0].source_url, "");
    assert_eq!(orders[1].price, None);
    let bid = top_bid_from_orders(&orders);
    assert!(bid.is_none());
    assert_eq!(bid.price, Amount::zero());
    assert_eq!(bid.source_name, "");
    let unreadable = vec![BidOrder { price: Some("much".to_string()), source_name: "X2Y2".to_string(), source_url: "u".to_string() }];
    assert!(top_bid_from_orders(&unreadable).is_none());
    let too_much = vec![BidOrder { price: Some("1e30".to_string()), source_name: "X2Y2".to_string(), source_url: "u".to_string() }];
    assert!(top_bid_from_orders(&too_much).is_none());
}

#[test]
fn a_small_price_is_read_with_its_exponent() {
    let bid = top_bid_from_body(r#"{"orders": [{"price": {"netAmount": {"decimal": 0.0000001}}, "source": {"name": "Blur", "url": "https://blur.io/bid/1"}}]}"#);
    assert_eq!(bid.price, Amount::from_atto(100_000_000_000));
    assert_eq!(bid.source_name, "Blur");
    assert_eq!(bid.url, "https://blur.io/bid/1");
    let bid = top_bid_from_body(r#"{"orders": [{"price": {"netAmount": {"decimal": 2.5e-9}}, "source": {"name": "X", "url": "u"}}]}"#);
    assert_eq!(bid.price, Amount::from_atto(2_500_000_000));
    let bid = top_bid_from_body(r#"{"orders": [{"price": {"netAmount": {"decimal": 12500000000000000000.0}}, "source": {"name": "X", "url": "u"}}]}"#);
    assert_eq!(bid.price.to_text(), "12500000000000000000");
    let written = vec![BidOrder { price: Some("1e-7".to_string()), source_name: "X2Y2".to_string(), source_url: "u".to_string() }];
    let bid = top_bid_from_orders(&written);
    assert_eq!(bid.price, Amount::from_atto(100_000_000_000));
    assert_eq!(bid.source_name, "X2Y2");
    assert_eq!(bid.url, "u");
}

#[test]
fn many_orders_are_read_in_their_order() {
    let mut body = String::from("{\"orders\": [");
    for i in 0..12 {
        if i > 0 {
            body.push(',');
        }
        body.push_str(&format!("{{\"price\": {{\"netAmount\": {{\"decimal\": {}}}}}, \"source\": {{\"name\": \"m{}\", \"url\": \"u{}\"}}}}", 20 - i, i, i));
    }
    body.push_str("]}");
    let orders = read_bid_reply(&Document::parse(&body).unwrap());
    assert_eq!(orders.len(), 12);
    for (i, order) in orders.iter().enumerate() {
        assert_eq!(order.price, Some(format!("{}", 20 - i)));
        assert_eq!(order.source_name, format!("m{}", i));
        assert_eq!(order.source_url, format!("u{}", i));
    }
}

#[test]
fn derives_the_reference_price() {
    let standard = PegConfig::standard();
    assert_eq!(standard.peg_ratio(), DEFAULT_PEG_RATIO);
    assert_eq!(standard.decimals(), DEFAULT_DECIMALS);
    assert_eq!(DEFAULT_PEG_RATIO, 1_000_000);
    assert_eq!(DEFAULT_DECIMALS, 18);
    // 2 * 10^12 wei for the smallest unit, a million units: 2 ether.
    assert_eq!(derived_price(2_000_000_000_000, &standard), Some(Amount::from_ether(2)));
    assert_eq!(derived_price(8_409_770_570_506, &standard), Some(Amount::from_atto(8_409_770_570_506_000_000)));
    assert_eq!(derived_price(0, &standard), Some(Amount::zero()));
    assert_eq!(derived_price(1, &standard), Some(Amount::from_atto(1_000_000)));
    let six = PegConfig::new(1000, 6);
    // market * 1000 / 10^6 ether = market * 10^15 attoether.
    assert_eq!(derived_price(3, &six), Some(Amount::from_atto(3_000_000_000_000_000)));
    let none = PegConfig::new(1, 0);
    assert_eq!(derived_price(3, &none), Some(Amount::from_ether(3)));
}

#[test]
fn a_reference_price_must_fit() {
    let standard = PegConfig::standard();
    let most = (i128::MAX as u128) / 1_000_000;
    assert!(derived_price(most, &standard).is_some());
    assert_eq!(derived_price(most + 1, &standard), None);
    assert_eq!(derived_price(u128::MAX, &standard), None);
    assert_eq!(derived_price(u128::MAX / 2, &PegConfig::new(2, 18)), None);
}

#[test]
fn a_token_may_have_more_decimals_than_an_amount() {
    // market * ratio / 10^19 ether = market * ratio / 10 attoether, rounded down.
    let nineteen = PegConfig::new(1, 19);
    assert_eq!(nineteen.decimals(), 19);
    assert_eq!(derived_price(25, &nineteen), Some(Amount::from_atto(2)));
    assert_eq!(derived_price(9, &nineteen), Some(Amount::zero()));
    assert_eq!(derived_price(10, &nineteen), Some(Amount::from_atto(1)));
    let twenty_four = PegConfig::new(1_000_000, 24);
    assert_eq!(derived_price(5_000_000_000_000, &twenty_four), Some(Amount::from_atto(5_000_000_000_000)));
    assert_eq!(derived_price(5_000_000_000_000_000_000_000_000, &twenty_four), Some(Amount::from_ether(5_000_000)));
    // The product is above what 128 bits hold, the price is not.
    let wide = PegConfig::new(u64::MAX, 38);
    assert_eq!(derived_price(u128::MAX, &wide), Some(Amount::from_atto(62771017353866807634955070562867279526)));
    assert_eq!(derived_price(u128::MAX, &PegConfig::new(u64::MAX, 37)), None);
    assert_eq!(derived_price(u128::MAX, &PegConfig::new(u64::MAX, 19)), None);
    assert_eq!(derived_price(u128::MAX, &PegConfig::new(u64::MAX, 75)), Some(Amount::from_atto(6)));
    assert_eq!(derived_price(u128::MAX, &PegConfig::new(u64::MAX, 76)), Some(Amount::zero()));
    assert_eq!(derived_price(u128::MAX, &PegConfig::new(u64::MAX, u32::MAX)), Some(Amount::zero()));
    assert_eq!(derived_price(0, &PegConfig::new(0, u32::MAX)), Some(Amount::zero()));
}

#[test]
fn takes_the_reference_token_from_a_reply() {
    assert_eq!(
        price_request_url(&token_address()),
        "https://deep-index.moralis.io/api/v2.2/erc20/0xaa00000000000000000000000000000000000001/price?chain=eth"
    );
    let body = r#"{"tokenName": "Pudgy Penguins μ", "nativePrice": {"value": "2000000000000", "decimals": 18}}"#;
    let reply = read_price_feed_body(body);
    assert_eq!(reply.native_price, Some("2000000000000".to_string()));
    assert_eq!(reply.token_name, Some("Pudgy Penguins μ".to_string()));
    let reference = reference_from_reply(&token_address(), &reply, &PegConfig::standard());
    assert_eq!(reference.name, "Pudgy Penguins μ");
    assert_eq!(reference.dex_link, "https://dexscreener.com/ethereum/0xaa00000000000000000000000000000000000001");
    assert_eq!(reference.derived_price, Amount::from_ether(2));
    assert!(!reference.is_unavailable());
}

#[test]
fn a_reply_that_lacks_name_or_price_leaves_nothing_known() {
    let config = PegConfig::standard();
    for body in [
        "",
        "{}",
        r#"{"tokenName": "X"}"#,
        r#"{"nativePrice": {"value": "1"}}"#,
        r#"{"tokenName": "X", "nativePrice": {"value": 1}}"#,
        r#"{"tokenName": "X", "nativePrice": {"value": "1.5"}}"#,
        r#"{"tokenName": "X", "nativePrice": {"value": "-1"}}"#,
        r#"{"tokenName": "X", "nativePrice": {"value": "340282366920938463463374607431768211455"}}"#,
    ] {
        let reference = reference_from_reply(&token_address(), &read_price_feed_body(body), &config);
        assert!(reference.is_unavailable(), "{:?}", body);
        assert_eq!(reference.name, "");
        assert_eq!(reference.dex_link, "");
        assert_eq!(reference.derived_price, Amount::zero());
    }
    assert!(ReferenceToken::unavailable().is_unavailable());
    let nameless = PriceFeedReply { native_price: Some("5".to_string()), token_name: None };
    assert!(reference_from_reply(&token_address(), &nameless, &config).is_unavailable());
}
