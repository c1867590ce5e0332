use flooring_monitor::amount::Amount;
use flooring_monitor::text::parse_unsigned;

const ETHER: i128 = 1_000_000_000_000_000_000;

fn parsed(text: &str) -> Option<i128> {
    Amount::parse(text).map(|a| a.atto())
}

#[test]
fn parses_whole_numbers() {
    assert_eq!(parsed("5"), Some(5 * ETHER));
    assert_eq!(parsed("0"), Some(0));
    assert_eq!(parsed("007"), Some(7 * ETHER));
    assert_eq!(parsed("+3"), Some(3 * ETHER));
    assert_eq!(parsed("-2"), Some(-2 * ETHER));
}

#[test]
fn parses_fractions() {
    assert_eq!(parsed("0.5"), Some(ETHER / 2));
    assert_eq!(parsed("11.36"), Some(11 * ETHER + 360_000_000_000_000_000));
    assert_eq!(parsed("-0.000000000000000001"), Some(-1));
    assert_eq!(parsed("5."), Some(5 * ETHER));
    assert_eq!(parsed("1.000000000000000000"), Some(ETHER));
}

#[test]
fn digits_below_one_attoether_count_for_nothing() {
    assert_eq!(parsed("0.0000000000000000019"), Some(1));
    assert_eq!(parsed("2.1234567890123456789999"), Some(2 * ETHER + 123_456_789_012_345_678));
    assert_eq!(parsed("-0.0000000000000000009"), Some(0));
}

#[test]
fn parses_numbers_with_an_exponent() {
    assert_eq!(parsed("1e-7"), Some(100_000_000_000));
    assert_eq!(parsed("1.5e-7"), Some(150_000_000_000));
    assert_eq!(parsed("1e5"), Some(100_000 * ETHER));
    assert_eq!(parsed("1.5e3"), Some(1_500 * ETHER));
    assert_eq!(parsed("1.5E+3"), Some(1_500 * ETHER));
    assert_eq!(parsed("-2.5e-1"), Some(-ETHER / 4));
    assert_eq!(parsed("12.345e1"), Some(123 * ETHER + 450_000_000_000_000_000));
    assert_eq!(parsed("12.345e-1"), Some(ETHER + 234_500_000_000_000_000));
    assert_eq!(parsed("123456e-3"), Some(123 * ETHER + 456_000_000_000_000_000));
    assert_eq!(parsed("1.e2"), Some(100 * ETHER));
    assert_eq!(parsed("5e0"), Some(5 * ETHER));
    assert_eq!(parsed("5e-0"), Some(5 * ETHER));
    assert_eq!(parsed("1e16"), Some(10_000_000_000_000_000 * ETHER));
    assert_eq!(parsed("1.7976931348623157e2"), Some(179 * ETHER + 769_313_486_231_570_000));
}

#[test]
fn an_exponent_moves_digits_below_one_attoether_out() {
    assert_eq!(parsed("1e-18"), Some(1));
    assert_eq!(parsed("9e-19"), Some(0));
    assert_eq!(parsed("19e-19"), Some(1));
    assert_eq!(parsed("-9e-19"), Some(0));
    assert_eq!(parsed("123456789e-26"), Some(1));
    assert_eq!(parsed("1e-99999999999999999999999999999999999999999999"), Some(0));
    assert_eq!(parsed("5e-340282366920938463463374607431768211456"), Some(0));
}

#[test]
fn an_exponent_may_be_too_large() {
    assert_eq!(parsed("1e20"), Some(100_000_000_000_000_000_000 * ETHER));
    assert_eq!(parsed("1.7e20"), Some(170_000_000_000_000_000_000 * ETHER));
    assert_eq!(parsed("2e20"), None);
    assert_eq!(parsed("1e21"), None);
    assert_eq!(parsed("1e38"), None);
    assert_eq!(parsed("1e39"), None);
    assert_eq!(parsed("1e99999999999999999999999999999999999999999999"), None);
    assert_eq!(parsed("0e99999999999999999999999999999999999999999999"), Some(0));
    assert_eq!(parsed("0.000e40"), Some(0));
    assert_eq!(parsed("0.00000000000000000000000000000000000000001e40"), Some(ETHER / 10));
}

#[test]
fn refuses_what_is_no_number() {
    for text in [
        "", "-", "+", ".5", "abc", "1.2.3", "--1", "1,5", " 1", "1 ", "0x10", "NaN", "inf", "null", "１",
        "e5", "1e", "1e+", "1e-", "1e5.5", "1e5e5", "1ee5", "1e 5", "-e1", "1e+-5", "1e５", ".e1",
    ] {
        assert_eq!(parsed(text), None, "{:?}", text);
    }
}

#[test]
fn refuses_what_an_amount_cannot_hold() {
    // i128::MAX is 170141183460469231731.687303715884105727 ether.
    assert_eq!(parsed("170141183460469231731.687303715884105727"), Some(i128::MAX));
    assert_eq!(parsed("-170141183460469231731.687303715884105727"), Some(-i128::MAX));
    assert_eq!(parsed("170141183460469231731.687303715884105728"), None);
    assert_eq!(parsed("170141183460469231732"), None);
    assert_eq!(parsed("99999999999999999999999999999999999999999999"), None);
}

#[test]
fn writes_amounts_as_decimals() {
    assert_eq!(Amount::from_atto(4 * ETHER).to_text(), "4");
    assert_eq!(Amount::from_atto(-2 * ETHER).to_text(), "-2");
    assert_eq!(Amount::from_atto(0).to_text(), "0");
    assert_eq!(Amount::from_atto(ETHER / 2).to_text(), "0.5");
    assert_eq!(Amount::from_atto(-ETHER / 4).to_text(), "-0.25");
    assert_eq!(Amount::from_atto(11 * ETHER + 360_000_000_000_000_000).to_text(), "11.36");
    assert_eq!(Amount::from_atto(1).to_text(), "0.000000000000000001");
    assert_eq!(Amount::from_atto(10).to_text(), "0.00000000000000001");
    assert_eq!(Amount::from_atto(ETHER + 1).to_text(), "1.000000000000000001");
    assert_eq!(Amount::from_ether(-7).to_text(), "-7");
}

#[test]
fn writes_the_extremes() {
    assert_eq!(Amount::from_atto(i128::MAX).to_text(), "170141183460469231731.687303715884105727");
    assert_eq!(Amount::from_atto(i128::MIN).to_text(), "-170141183460469231731.687303715884105728");
}

#[test]
fn appends_to_what_is_there() {
    let mut out = String::from("x=");
    Amount::from_atto(ETHER * 3 / 2).append_to(&mut out);
    assert_eq!(out, "x=1.5");
}

#[test]
fn reading_what_was_written_gives_the_amount_back() {
    for atto in [0, 1, -1, 9, 10, ETHER, -ETHER, ETHER - 1, ETHER + 1, 123_456_789_000_000_000, i128::MAX, -i128::MAX, 5 * ETHER / 8] {
        let text = Amount::from_atto(atto).to_text();
        assert_eq!(parsed(&text), Some(atto), "{}", text);
    }
}

#[test]
fn adds_and_subtracts_with_a_check() {
    let a = Amount::from_atto(6);
    let b = Amount::from_atto(2);
    assert_eq!(a.checked_sub(&b), Some(Amount::from_atto(4)));
    assert_eq!(b.checked_sub(&a), Some(Amount::from_atto(-4)));
    assert_eq!(a.checked_add(&b), Some(Amount::from_atto(8)));
    assert_eq!(Amount::from_atto(i128::MAX).checked_add(&Amount::from_atto(1)), None);
    assert_eq!(Amount::from_atto(i128::MIN).checked_sub(&Amount::from_atto(1)), None);
    assert_eq!(Amount::from_atto(i128::MIN).checked_add(&Amount::from_atto(i128::MAX)), Some(Amount::from_atto(-1)));
}

#[test]
fn compares_amounts() {
    assert!(Amount::from_atto(2).at_most(&Amount::from_atto(2)));
    assert!(Amount::from_atto(-3).at_most(&Amount::from_atto(2)));
    assert!(!Amount::from_atto(3).at_most(&Amount::from_atto(2)));
    assert!(Amount::zero().is_zero());
    assert!(!Amount::from_atto(1).is_zero());
}

#[test]
fn reads_unsigned_whole_numbers() {
    assert_eq!(parse_unsigned("0"), Some(0));
    assert_eq!(parse_unsigned("0012"), Some(12));
    assert_eq!(parse_unsigned("8409770570506626"), Some(8_409_770_570_506_626));
    assert_eq!(parse_unsigned("340282366920938463463374607431768211455"), Some(u128::MAX));
    assert_eq!(parse_unsigned("340282366920938463463374607431768211456"), None);
    assert_eq!(parse_unsigned(""), None);
    assert_eq!(parse_unsigned("-1"), None);
    assert_eq!(parse_unsigned("+1"), None);
    assert_eq!(parse_unsigned("1.0"), None);
    assert_eq!(parse_unsigned("12a"), None);
    assert_eq!(parse_unsigned("１２"), None);
}
