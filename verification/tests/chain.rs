use flooring_monitor::chain::{tenth_of, Address, TokenId, TxHash};
use flooring_monitor::links::{blur_link, dex_link, explorer_link, flooring_link, opensea_pro_link};
use flooring_monitor::text::{push_decimal, push_hex};

fn address(first: u8, last: u8) -> Address {
    let mut bytes = [0u8; 20];
    bytes[0] = first;
    bytes[19] = last;
    Address::new(bytes)
}

#[test]
fn writes_an_address_in_lowercase_hex() {
    let pudgy = Address::new([
        0xbd, 0x35, 0x31, 0xda, 0x5c, 0xf5, 0x85, 0x7e, 0x7c, 0xfa, 0xa9, 0x24, 0x26, 0x87, 0x7b,
        0x02, 0x2e, 0x61, 0x2c, 0xf8,
    ]);
    assert_eq!(pudgy.to_text(), "0xbd3531da5cf5857e7cfaa92426877b022e612cf8");
    assert_eq!(address(0, 0).to_text(), "0x0000000000000000000000000000000000000000");
    assert_eq!(address(0xAB, 0x0F).to_text(), "0xab0000000000000000000000000000000000000f");
    assert_eq!(address(1, 2).to_text().len(), 42);
}

#[test]
fn writes_a_transaction_hash_in_lowercase_hex() {
    let mut bytes = [0u8; 32];
    bytes[0] = 0xde;
    bytes[1] = 0xad;
    bytes[31] = 0x01;
    let text = TxHash::new(bytes).to_text();
    assert_eq!(text, "0xdead000000000000000000000000000000000000000000000000000000000001");
    assert_eq!(text.len(), 66);
}

#[test]
fn writes_hex_and_decimal_after_what_is_there() {
    let mut out = String::from(">");
    push_hex(&mut out, &[0x00, 0x9a, 0xff]);
    assert_eq!(out, ">009aff");
    let mut out = String::from("n=");
    push_decimal(&mut out, 0);
    push_decimal(&mut out, 1205);
    push_decimal(&mut out, u128::MAX);
    assert_eq!(out, "n=01205340282366920938463463374607431768211455");
}

#[test]
fn writes_token_ids_in_decimal() {
    assert_eq!(TokenId::from_u64(0).to_text(), "0");
    assert_eq!(TokenId::from_u64(7).to_text(), "7");
    assert_eq!(TokenId::from_u64(1234567890).to_text(), "1234567890");
    assert_eq!(TokenId::from_u64(u64::MAX).to_text(), "18446744073709551615");
    assert_eq!(TokenId::from_limbs([0, 1, 0, 0]).to_text(), "18446744073709551616");
    assert_eq!(TokenId::from_limbs([5, 0, 1, 0]).to_text(), "340282366920938463463374607431768211461");
    assert_eq!(
        TokenId::from_limbs([u64::MAX; 4]).to_text(),
        "115792089237316195423570985008687907853269984665640564039457584007913129639935"
    );
    assert_eq!(
        TokenId::from_limbs([0, 0, 0, 1]).to_text(),
        "6277101735386680763835789423207666416102355444464034512896"
    );
}

#[test]
fn tells_token_ids_apart() {
    assert!(TokenId::from_u64(3).same_as(&TokenId::from_limbs([3, 0, 0, 0])));
    assert!(!TokenId::from_u64(3).same_as(&TokenId::from_limbs([3, 0, 0, 1])));
    assert!(!TokenId::from_u64(3).same_as(&TokenId::from_u64(4)));
}

#[test]
fn builds_the_links_of_a_token() {
    let collection = "0xbd3531da5cf5857e7cfaa92426877b022e612cf8";
    let id = TokenId::from_u64(6529);
    assert_eq!(blur_link(collection, &id), "https://blur.io/asset/0xbd3531da5cf5857e7cfaa92426877b022e612cf8/6529");
    assert_eq!(
        flooring_link(collection, &id),
        "https://www.flooring.io/nft-details/0xbd3531da5cf5857e7cfaa92426877b022e612cf8/6529"
    );
    assert_eq!(
        opensea_pro_link(collection, &id),
        "https://pro.opensea.io/nft/0xbd3531da5cf5857e7cfaa92426877b022e612cf8/6529"
    );
}

#[test]
fn builds_the_links_of_an_event() {
    let mut hash = [0u8; 32];
    hash[31] = 0x2a;
    assert_eq!(
        explorer_link(&TxHash::new(hash)),
        "https://etherscan.io/tx/0x000000000000000000000000000000000000000000000000000000000000002a"
    );
    assert_eq!(
        dex_link(&address(0x12, 0x34)),
        "https://dexscreener.com/ethereum/0x1200000000000000000000000000000000000034"
    );
}

#[test]
fn divides_four_limbs_by_ten() {
    assert_eq!(tenth_of([0, 0, 0, 0]), ([0, 0, 0, 0], 0));
    assert_eq!(tenth_of([127, 0, 0, 0]), ([12, 0, 0, 0], 7));
    // 2^64 = 18446744073709551616
    assert_eq!(tenth_of([0, 1, 0, 0]), ([1844674407370955161, 0, 0, 0], 6));
    // 2^256 - 1 ends in 5
    let (tenth, left) = tenth_of([u64::MAX; 4]);
    assert_eq!(left, 5);
    assert_eq!(
        TokenId::from_limbs(tenth).to_text(),
        "11579208923731619542357098500868790785326998466564056403945758400791312963993"
    );
}
