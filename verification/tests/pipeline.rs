use flooring_monitor::amount::Amount;
use flooring_monitor::bid::TopBid;
use flooring_monitor::chain::{Address, TokenId, TxHash};
use flooring_monitor::compose::{compose, push_bid_line, push_reference_line, push_valuation_line};
use flooring_monitor::event::RawEvent;
use flooring_monitor::gather::Gather;
use flooring_monitor::notification::{assemble, collection_header, enrich_token, AssembleError, Notification, TokenLookup};
use flooring_monitor::notifier::{outcome, Notifier, Outcome, Verdict, DEFAULT_COOLDOWN_SECONDS};
use flooring_monitor::orchestrator::{advance, initial_phase, starting_point, Phase, Signal, StartingPoint, Step};
use flooring_monitor::reference::ReferenceToken;
use flooring_monitor::resolver::CollectionResolver;
use flooring_monitor::valuation::Valuation;

const PUDGY_TEXT: &str = "0xbd3531da5cf5857e7cfaa92426877b022e612cf8";

fn pudgy() -> Address {
    Address::new([
        0xbd, 0x35, 0x31, 0xda, 0x5c, 0xf5, 0x85, 0x7e, 0x7c, 0xfa, 0xa9, 0x24, 0x26, 0x87, 0x7b,
        0x02, 0x2e, 0x61, 0x2c, 0xf8,
    ])
}

fn unknown() -> Address {
    Address::new([0x11; 20])
}

fn event_of(collection: Address, ids: &[u64]) -> RawEvent {
    let mut hash = [0u8; 32];
    hash[31] = 0x2a;
    RawEvent::new(
        Address::new([1; 20]),
        Address::new([2; 20]),
        collection,
        ids.iter().map(|id| TokenId::from_u64(*id)).collect(),
        17_000_000,
        TxHash::new(hash),
    )
    .unwrap()
}

fn bid_of(ether: i64) -> TopBid {
    TopBid { url: "https://blur.io/bid".to_string(), source_name: "Blur".to_string(), price: Amount::from_ether(ether) }
}

fn reference_of(ether: i64) -> ReferenceToken {
    ReferenceToken {
        dex_link: "https://dexscreener.com/ethereum/0xaa".to_string(),
        name: "Pudgy Penguins μ".to_string(),
        derived_price: Amount::from_ether(ether),
    }
}

/// Tokens 1 and 2 of a known collection: token 1 valued at 5 with a bid of
/// 6, token 2 without valuation and without bid; reference price 2.
fn scenario() -> Notification {
    let lookups = vec![
        TokenLookup {
            valuation: Some(Valuation { url: "https://deepnftvalue.com/asset/pudgypenguins/1".to_string(), price: Amount::from_ether(5) }),
            top_bid: bid_of(6),
        },
        TokenLookup { valuation: None, top_bid: TopBid::none() },
    ];
    assemble(&event_of(pudgy(), &[1, 2]), &CollectionResolver::new(), reference_of(2), &lookups).unwrap()
}

#[test]
fn an_event_names_at_least_one_token() {
    let event = RawEvent::new(Address::new([1; 20]), Address::new([2; 20]), pudgy(), vec![], 1, TxHash::new([0; 32]));
    assert!(event.is_none());
    let event = event_of(pudgy(), &[9, 8, 7]);
    assert_eq!(event.token_count(), 3);
    assert!(event.token_id(0).same_as(&TokenId::from_u64(9)));
    assert!(event.token_id(2).same_as(&TokenId::from_u64(7)));
    assert_eq!(event.collection(), pudgy());
    assert_eq!(event.block_number(), 17_000_000);
    assert_eq!(event.operator(), Address::new([1; 20]));
    assert_eq!(event.on_behalf_of(), Address::new([2; 20]));
    assert_eq!(event.tx_hash().bytes[31], 0x2a);
}

#[test]
fn scenario_deltas_and_total() {
    let notification = scenario();
    assert_eq!(notification.token_count(), 2);
    assert_eq!(notification.delta(0), Amount::from_ether(4));
    assert_eq!(notification.delta(1), Amount::from_ether(-2));
    assert_eq!(notification.total_profit(), Amount::from_ether(2));
}

#[test]
fn scenario_sent_above_the_threshold() {
    let notification = scenario();
    let notifier = Notifier::with_default_cooldown(Amount::from_ether(1));
    assert_eq!(notifier.verdict(notification.total_profit(), 0), Verdict::Deliver);
    assert_eq!(outcome(Verdict::Deliver, true), Outcome::Sent);
}

#[test]
fn scenario_suppressed_below_the_threshold() {
    let notification = scenario();
    let notifier = Notifier::with_default_cooldown(Amount::from_ether(3));
    assert_eq!(notifier.verdict(notification.total_profit(), 0), Verdict::Suppress);
    assert_eq!(outcome(Verdict::Suppress, true), Outcome::Suppressed);
    assert_eq!(outcome(Verdict::Suppress, false), Outcome::Suppressed);
}

#[test]
fn a_profit_equal_to_the_threshold_is_suppressed() {
    let notification = scenario();
    let notifier = Notifier::with_default_cooldown(Amount::from_ether(2));
    assert_eq!(notifier.verdict(notification.total_profit(), 0), Verdict::Suppress);
    let just_below = Notifier::with_default_cooldown(Amount::from_atto(2_000_000_000_000_000_000 - 1));
    assert_eq!(just_below.verdict(notification.total_profit(), 0), Verdict::Deliver);
}

#[test]
fn scenario_text() {
    let text = compose(&scenario());
    let expected = "https://etherscan.io/tx/0x000000000000000000000000000000000000000000000000000000000000002a\n\
\nCollection: pudgypenguins\n\
Pudgy Penguins μ Derived Price: <a href=\"https://dexscreener.com/ethereum/0xaa\"> 2 ETH </a>\n\
\n\
Token 1: <a href=\"https://blur.io/asset/0xbd3531da5cf5857e7cfaa92426877b022e612cf8/1\">Blur</a> -- <a href=\"https://www.flooring.io/nft-details/0xbd3531da5cf5857e7cfaa92426877b022e612cf8/1\">Flooring</a> -- <a href=\"https://pro.opensea.io/nft/0xbd3531da5cf5857e7cfaa92426877b022e612cf8/1\">OpenSea Pro</a>\n\
DeepNFTValue valuation: <a href=\"https://deepnftvalue.com/asset/pudgypenguins/1\"> 5 ETH </a>\n\
Top Bid (including fees): <a href=https://blur.io/bid> 6 ETH on Blur </a>\n\
Estimated Arbitrage Profit: 4 ETH\n\
\n\
Token 2: <a href=\"https://blur.io/asset/0xbd3531da5cf5857e7cfaa92426877b022e612cf8/2\">Blur</a> -- <a href=\"https://www.flooring.io/nft-details/0xbd3531da5cf5857e7cfaa92426877b022e612cf8/2\">Flooring</a> -- <a href=\"https://pro.opensea.io/nft/0xbd3531da5cf5857e7cfaa92426877b022e612cf8/2\">OpenSea Pro</a>\n\
DeepNFTValue valuation: unavailable\n\
Top Bid (including fees): no active bids\n\
Estimated Arbitrage Profit: -2 ETH\n\
\n";
    assert_eq!(text, expected);
}

#[test]
fn tokens_keep_the_order_of_the_event() {
    let ids = [5u64, 3, 9, 1, 1, 7];
    let lookups: Vec<TokenLookup> = ids.iter().map(|id| TokenLookup { valuation: None, top_bid: bid_of(*id as i64) }).collect();
    let notification = assemble(&event_of(pudgy(), &ids), &CollectionResolver::new(), reference_of(0), &lookups).unwrap();
    assert_eq!(notification.token_count(), ids.len());
    for (i, token) in notification.tokens().iter().enumerate() {
        assert!(token.token_id.same_as(&TokenId::from_u64(ids[i])));
        assert_eq!(token.top_bid.price, Amount::from_ether(ids[i] as i64));
        assert_eq!(token.blur_link, format!("https://blur.io/asset/{}/{}", PUDGY_TEXT, ids[i]));
    }
    assert_eq!(notification.total_profit(), Amount::from_ether(26));
}

#[test]
fn an_unknown_collection_is_named_by_its_address() {
    let address = "0x1111111111111111111111111111111111111111";
    let resolver = CollectionResolver::new();
    assert_eq!(collection_header(&resolver, address), "\nCollection: 0x1111111111111111111111111111111111111111");
    assert_eq!(collection_header(&resolver, PUDGY_TEXT), "\nCollection: pudgypenguins");
    let lookups = vec![TokenLookup::unavailable()];
    let notification = assemble(&event_of(unknown(), &[4]), &resolver, reference_of(1), &lookups).unwrap();
    assert_eq!(notification.collection_header(), "\nCollection: 0x1111111111111111111111111111111111111111");
    let text = compose(&notification);
    assert!(text.contains("\n\nCollection: 0x1111111111111111111111111111111111111111\n"));
    assert!(text.contains("DeepNFTValue valuation: unavailable\n"));
    assert!(text.contains("https://blur.io/asset/0x1111111111111111111111111111111111111111/4"));
}

#[test]
fn a_missing_valuation_leaves_the_delta_as_it_is() {
    let resolver = CollectionResolver::new();
    let with = vec![TokenLookup { valuation: Some(Valuation { url: "u".to_string(), price: Amount::from_ether(100) }), top_bid: bid_of(6) }];
    let without = vec![TokenLookup { valuation: None, top_bid: bid_of(6) }];
    let a = assemble(&event_of(pudgy(), &[1]), &resolver, reference_of(2), &with).unwrap();
    let b = assemble(&event_of(pudgy(), &[1]), &resolver, reference_of(2), &without).unwrap();
    assert_eq!(a.delta(0), Amount::from_ether(4));
    assert_eq!(b.delta(0), Amount::from_ether(4));
    assert_eq!(a.total_profit(), b.total_profit());
    assert!(compose(&b).contains("DeepNFTValue valuation: unavailable\n"));
    assert!(compose(&a).contains("DeepNFTValue valuation: <a href=\"u\"> 100 ETH </a>\n"));
}

#[test]
fn without_bids_the_delta_is_minus_the_reference_price() {
    let lookups = vec![TokenLookup::unavailable(), TokenLookup::unavailable()];
    let reference = ReferenceToken { dex_link: "d".to_string(), name: "n".to_string(), derived_price: Amount::from_atto(1_500_000_000_000_000_000) };
    let notification = assemble(&event_of(pudgy(), &[1, 2]), &CollectionResolver::new(), reference, &lookups).unwrap();
    assert_eq!(notification.delta(0), Amount::from_atto(-1_500_000_000_000_000_000));
    assert_eq!(notification.total_profit(), Amount::from_ether(-3));
    let text = compose(&notification);
    assert!(text.contains("Top Bid (including fees): no active bids\nEstimated Arbitrage Profit: -1.5 ETH\n"));
}

#[test]
fn one_lookup_for_each_token_is_needed() {
    let resolver = CollectionResolver::new();
    let one = vec![TokenLookup::unavailable()];
    let result = assemble(&event_of(pudgy(), &[1, 2]), &resolver, reference_of(2), &one);
    assert_eq!(result.err(), Some(AssembleError::TokenCountMismatch));
    let three = vec![TokenLookup::unavailable(), TokenLookup::unavailable(), TokenLookup::unavailable()];
    let result = assemble(&event_of(pudgy(), &[1, 2]), &resolver, reference_of(2), &three);
    assert_eq!(result.err(), Some(AssembleError::TokenCountMismatch));
}

#[test]
fn a_profit_must_fit_an_amount() {
    let resolver = CollectionResolver::new();
    let huge = || TokenLookup { valuation: None, top_bid: TopBid { url: String::new(), source_name: "x".to_string(), price: Amount::from_atto(i128::MAX) } };
    let low = ReferenceToken { dex_link: "d".to_string(), name: "n".to_string(), derived_price: Amount::from_atto(-1) };
    let result = assemble(&event_of(pudgy(), &[1]), &resolver, low, &vec![huge()]);
    assert_eq!(result.err(), Some(AssembleError::ProfitOutOfRange));
    let result = assemble(&event_of(pudgy(), &[1, 2]), &resolver, reference_of(0), &vec![huge(), huge()]);
    assert_eq!(result.err(), Some(AssembleError::ProfitOutOfRange));
    let result = assemble(&event_of(pudgy(), &[1]), &resolver, reference_of(0), &vec![huge()]);
    assert_eq!(result.unwrap().total_profit(), Amount::from_atto(i128::MAX));
}

#[test]
fn each_line_has_its_words() {
    let mut out = String::new();
    push_valuation_line(&mut out, &None);
    assert_eq!(out, "DeepNFTValue valuation: unavailable");
    let mut out = String::new();
    push_valuation_line(&mut out, &Some(Valuation { url: "https://v".to_string(), price: Amount::from_atto(12_340_000_000_000_000_000) }));
    assert_eq!(out, "DeepNFTValue valuation: <a href=\"https://v\"> 12.34 ETH </a>");
    let mut out = String::new();
    push_bid_line(&mut out, &TopBid::none());
    assert_eq!(out, "Top Bid (including fees): no active bids");
    let mut out = String::new();
    push_bid_line(&mut out, &bid_of(6));
    assert_eq!(out, "Top Bid (including fees): <a href=https://blur.io/bid> 6 ETH on Blur </a>");
    let mut out = String::new();
    push_bid_line(&mut out, &TopBid { url: String::new(), source_name: "Blur".to_string(), price: Amount::zero() });
    assert_eq!(out, "Top Bid (including fees): <a href=> 0 ETH on Blur </a>");
    let mut out = String::new();
    push_reference_line(&mut out, &ReferenceToken::unavailable());
    assert_eq!(out, "Derived Price: unavailable");
    let mut out = String::from("> ");
    push_reference_line(&mut out, &reference_of(2));
    assert_eq!(out, "> Pudgy Penguins μ Derived Price: <a href=\"https://dexscreener.com/ethereum/0xaa\"> 2 ETH </a>");
}

#[test]
fn an_unknown_reference_token_is_marked() {
    let lookups = vec![TokenLookup { valuation: None, top_bid: bid_of(3) }];
    let notification = assemble(&event_of(pudgy(), &[1]), &CollectionResolver::new(), ReferenceToken::unavailable(), &lookups).unwrap();
    assert_eq!(notification.total_profit(), Amount::from_ether(3));
    assert!(notification.reference().is_unavailable());
    assert!(compose(&notification).contains("\nDerived Price: unavailable\n\n"));
}

#[test]
fn a_token_of_an_unknown_collection_carries_no_valuation() {
    let valued = || TokenLookup { valuation: Some(Valuation { url: "u".to_string(), price: Amount::from_ether(9) }), top_bid: bid_of(6) };
    let lookups = vec![valued(), valued()];
    let notification = assemble(&event_of(unknown(), &[4, 5]), &CollectionResolver::new(), reference_of(2), &lookups).unwrap();
    for token in notification.tokens().iter() {
        assert!(token.valuation.is_none());
        assert_eq!(token.top_bid.price, Amount::from_ether(6));
    }
    assert_eq!(notification.reference().derived_price, Amount::from_ether(2));
    assert_eq!(notification.total_profit(), Amount::from_ether(8));
    let known = assemble(&event_of(pudgy(), &[4, 5]), &CollectionResolver::new(), reference_of(2), &lookups).unwrap();
    assert!(known.tokens().iter().all(|token| token.valuation.is_some()));
    let token = enrich_token(PUDGY_TEXT, TokenId::from_u64(12), valued(), false);
    assert!(token.valuation.is_none());
    let token = enrich_token(PUDGY_TEXT, TokenId::from_u64(12), valued(), true);
    assert_eq!(token.valuation.unwrap().price, Amount::from_ether(9));
}

#[test]
fn the_text_for_one_token() {
    let lookups = vec![TokenLookup {
        valuation: Some(Valuation { url: "V".to_string(), price: Amount::from_ether(5) }),
        top_bid: TopBid { url: "U".to_string(), source_name: "K".to_string(), price: Amount::from_ether(6) },
    }];
    let reference = ReferenceToken { dex_link: "D".to_string(), name: "N".to_string(), derived_price: Amount::from_ether(2) };
    let notification = assemble(&event_of(pudgy(), &[1]), &CollectionResolver::new(), reference, &lookups).unwrap();
    let text = compose(&notification);
    let tail = "\nN Derived Price: <a href=\"D\"> 2 ETH </a>\n\nToken 1: <a href=\"https://blur.io/asset/0xbd3531da5cf5857e7cfaa92426877b022e612cf8/1\">Blur</a> -- <a href=\"https://www.flooring.io/nft-details/0xbd3531da5cf5857e7cfaa92426877b022e612cf8/1\">Flooring</a> -- <a href=\"https://pro.opensea.io/nft/0xbd3531da5cf5857e7cfaa92426877b022e612cf8/1\">OpenSea Pro</a>\nDeepNFTValue valuation: <a href=\"V\"> 5 ETH </a>\nTop Bid (including fees): <a href=U> 6 ETH on K </a>\nEstimated Arbitrage Profit: 4 ETH\n\n";
    assert!(text.ends_with(tail), "{}", text);
}

#[test]
fn enriches_a_token_with_its_links() {
    let token = enrich_token(PUDGY_TEXT, TokenId::from_u64(12), TokenLookup { valuation: None, top_bid: bid_of(1) }, true);
    assert!(token.token_id.same_as(&TokenId::from_u64(12)));
    assert_eq!(token.blur_link, "https://blur.io/asset/0xbd3531da5cf5857e7cfaa92426877b022e612cf8/12");
    assert_eq!(token.flooring_link, "https://www.flooring.io/nft-details/0xbd3531da5cf5857e7cfaa92426877b022e612cf8/12");
    assert_eq!(token.opensea_pro_link, "https://pro.opensea.io/nft/0xbd3531da5cf5857e7cfaa92426877b022e612cf8/12");
    assert!(token.valuation.is_none());
    assert_eq!(token.top_bid.source_name, "Blur");
}

#[test]
fn answers_may_come_in_any_order() {
    let mut forward = Gather::new(3);
    let mut backward = Gather::new(3);
    assert_eq!(forward.len(), 3);
    for i in 0..3usize {
        assert!(forward.place_bid(i, bid_of(10 + i as i64)));
    }
    assert!(forward.place_valuation(1, Valuation { url: "v1".to_string(), price: Amount::from_ether(1) }));
    assert!(backward.place_valuation(1, Valuation { url: "v1".to_string(), price: Amount::from_ether(1) }));
    for i in (0..3usize).rev() {
        assert!(backward.place_bid(i, bid_of(10 + i as i64)));
    }
    let a = forward.finish();
    let b = backward.finish();
    assert_eq!(a.len(), 3);
    assert_eq!(b.len(), 3);
    for i in 0..3usize {
        assert_eq!(a[i].top_bid.price, Amount::from_ether(10 + i as i64));
        assert_eq!(b[i].top_bid.price, Amount::from_ether(10 + i as i64));
        assert_eq!(a[i].valuation.is_some(), i == 1);
        assert_eq!(b[i].valuation.is_some(), i == 1);
    }
}

#[test]
fn a_slot_without_answer_degrades_alone() {
    let mut gather = Gather::new(3);
    assert!(gather.place_bid(2, bid_of(9)));
    assert!(!gather.place_bid(3, bid_of(9)));
    assert!(!gather.place_valuation(7, Valuation { url: "v".to_string(), price: Amount::zero() }));
    let lookups = gather.finish();
    assert_eq!(lookups.len(), 3);
    assert!(lookups[0].top_bid.is_none());
    assert!(lookups[0].valuation.is_none());
    assert!(lookups[1].top_bid.is_none());
    assert_eq!(lookups[2].top_bid.price, Amount::from_ether(9));
    assert_eq!(Gather::new(0).finish().len(), 0);
    let notification = assemble(&event_of(pudgy(), &[1, 2, 3]), &CollectionResolver::new(), reference_of(2), &lookups).unwrap();
    assert_eq!(notification.total_profit(), Amount::from_ether(3));
}

#[test]
fn nothing_is_sent_while_the_cooldown_runs() {
    assert_eq!(DEFAULT_COOLDOWN_SECONDS, 35);
    let mut notifier = Notifier::with_default_cooldown(Amount::from_ether(1));
    let profit = Amount::from_ether(2);
    assert_eq!(notifier.verdict(profit, 100), Verdict::Deliver);
    assert_eq!(notifier.record_attempt(false, 100), Outcome::Failed);
    assert_eq!(notifier.verdict(profit, 100), Verdict::Defer { seconds: 35 });
    assert_eq!(notifier.verdict(profit, 101), Verdict::Defer { seconds: 34 });
    assert_eq!(notifier.verdict(profit, 134), Verdict::Defer { seconds: 1 });
    assert_eq!(notifier.verdict(profit, 135), Verdict::Deliver);
    assert_eq!(notifier.verdict(profit, 1_000), Verdict::Deliver);
    assert_eq!(notifier.verdict(profit, 99), Verdict::Defer { seconds: 35 });
    assert_eq!(notifier.verdict(Amount::from_ether(1), 101), Verdict::Suppress);
    assert_eq!(outcome(Verdict::Defer { seconds: 3 }, true), Outcome::Sent);
    assert_eq!(outcome(Verdict::Defer { seconds: 3 }, false), Outcome::Failed);
    assert_eq!(outcome(Verdict::Deliver, false), Outcome::Failed);
}

#[test]
fn a_success_starts_no_cooldown() {
    let mut notifier = Notifier::new(Amount::zero(), 10);
    assert_eq!(notifier.record_attempt(true, 5), Outcome::Sent);
    assert_eq!(notifier.verdict(Amount::from_atto(1), 5), Verdict::Deliver);
    assert_eq!(notifier.record_attempt(false, u64::MAX), Outcome::Failed);
    assert_eq!(notifier.verdict(Amount::from_atto(1), u64::MAX), Verdict::Defer { seconds: 10 });
    let mut none = Notifier::new(Amount::zero(), 0);
    assert_eq!(none.record_attempt(false, 5), Outcome::Failed);
    assert_eq!(none.verdict(Amount::from_atto(1), 5), Verdict::Deliver);
}

#[test]
fn one_event_is_handled_at_a_time() {
    assert_eq!(initial_phase(), Phase::Listening);
    assert_eq!(advance(Phase::Listening, Signal::EventArrived), (Phase::Processing, Step::HandleEvent));
    assert_eq!(advance(Phase::Processing, Signal::EventArrived), (Phase::Processing, Step::HoldEvent));
    assert_eq!(advance(Phase::Processing, Signal::EventHandled), (Phase::Listening, Step::AwaitEvent));
    assert_eq!(advance(Phase::Listening, Signal::EventHandled), (Phase::Listening, Step::AwaitEvent));
    assert_eq!(advance(Phase::Listening, Signal::SubscriptionLost), (Phase::Stopped, Step::Halt));
    assert_eq!(advance(Phase::Processing, Signal::SubscriptionLost), (Phase::Stopped, Step::Halt));
    for signal in [Signal::EventArrived, Signal::EventHandled, Signal::SubscriptionLost] {
        assert_eq!(advance(Phase::Stopped, signal), (Phase::Stopped, Step::Halt));
    }
}

#[test]
fn block_zero_means_the_head() {
    assert_eq!(starting_point(None), StartingPoint::Head);
    assert_eq!(starting_point(Some(0)), StartingPoint::Head);
    assert_eq!(starting_point(Some(1)), StartingPoint::Block(1));
    assert_eq!(starting_point(Some(17_500_000)), StartingPoint::Block(17_500_000));
}
