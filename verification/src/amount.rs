//! Amounts of ether as exact decimal fractions.
//!
//! An [`Amount`] counts attoether, the eighteenth decimal place, in an `i128`.
//! Prices, the derived reference price, profits and the profit threshold are
//! all amounts, so that sums and differences are exact. How a number is read
//! as an amount is said where numbers are read; here stands how an amount is
//! written, and that what was written reads back.

use crate::number::{
    has_exponent, is_exponent_mark, is_number_literal, lemma_exponent_mark, literal_digits,
    literal_magnitude, literal_places, mantissa_part, parsed_atto, read_atto,
};
use crate::text::{
    all_digits, decimal_text, digit_char, digit_run, digit_value, is_ascii_text, is_digit,
    lemma_decimal_text_shape, lemma_digit_run, lemma_digit_run_shape, lemma_numeral_concat,
    lemma_pow10_product, numeral_value, pow10, push_decimal, push_reversed_digits,
    reversed_digits_text,
};
use vstd::prelude::*;

verus! {

/// Number of decimal places that an amount keeps.
pub const FRACTION_DIGITS: u32 = 18;

/// Attoether in one ether: ten to the power [`FRACTION_DIGITS`].
pub const ATTO_PER_ETHER: u128 = 1_000_000_000_000_000_000;

/// An amount of ether, positive or negative, counted in attoether.
#[derive(Clone, Copy, Debug, PartialEq, Eq, Structural)]
pub struct Amount {
    pub atto: i128,
}

impl View for Amount {
    type V = int;

    /// The amount as its number of attoether.
    open spec fn view(&self) -> int {
        self.atto as int
    }
}

/// The `width` lowest decimal digits of `n`, leading zeros included.
pub open spec fn padded_decimal(n: nat, width: nat) -> Seq<char>
    decreases width,
{
    if width == 0 {
        Seq::empty()
    } else {
        padded_decimal(n / 10, (width - 1) as nat).push(digit_char((n % 10) as int))
    }
}

/// The digits after the decimal point of a fraction of `frac` parts in
/// `10^width`, without trailing zeros; nothing where the fraction is zero.
pub open spec fn fraction_digits(frac: nat, width: nat) -> Seq<char>
    decreases width,
{
    if frac == 0 || width == 0 {
        Seq::empty()
    } else if frac % 10 == 0 {
        fraction_digits(frac / 10, (width - 1) as nat)
    } else {
        padded_decimal(frac, width)
    }
}

/// The absolute value of `atto`.
pub open spec fn magnitude(atto: int) -> nat {
    if atto < 0 {
        (-atto) as nat
    } else {
        atto as nat
    }
}

/// The text of the fractional part of an amount: nothing where it is zero,
/// else a point and the digits up to the last one that is not zero.
pub open spec fn fraction_text(frac: nat) -> Seq<char> {
    if frac == 0 {
        Seq::empty()
    } else {
        seq!['.'] + fraction_digits(frac, FRACTION_DIGITS as nat)
    }
}

/// The decimal text of an amount of `atto` attoether, in ether: a minus sign
/// where it is negative, the whole part, and the fractional part where there
/// is one. `4`, `-2`, `0.5`, `11.36`.
pub open spec fn amount_text(atto: int) -> Seq<char> {
    let sign = if atto < 0 {
        seq!['-']
    } else {
        Seq::empty()
    };
    let mag = magnitude(atto);
    sign + decimal_text(mag / (ATTO_PER_ETHER as nat)) + fraction_text(
        mag % (ATTO_PER_ETHER as nat),
    )
}

/// How many characters of `s` are its sign: one where it begins with `-` or
/// `+`, else none.
pub open spec fn sign_len(s: Seq<char>) -> nat {
    if s.len() > 0 && (s[0] == '-' || s[0] == '+') {
        1
    } else {
        0
    }
}

/// Whether `s` begins with a minus sign.
pub open spec fn has_minus(s: Seq<char>) -> bool {
    s.len() > 0 && s[0] == '-'
}

/// What follows the sign of `s`.
pub open spec fn unsigned_part(s: Seq<char>) -> Seq<char> {
    s.skip(sign_len(s) as int)
}

/// The digits before the decimal point of `s`.
pub open spec fn whole_part(s: Seq<char>) -> Seq<char> {
    unsigned_part(s).take(digit_run(unsigned_part(s)) as int)
}

/// What follows the character after the whole part of `s`.
pub open spec fn fraction_part(s: Seq<char>) -> Seq<char> {
    let body = unsigned_part(s);
    if digit_run(body) < body.len() {
        body.skip(digit_run(body) as int + 1)
    } else {
        Seq::empty()
    }
}

/// Whether `s` is a decimal literal: an optional `-` or `+`, one or more
/// digits and, optionally, a point followed by any number of digits.
pub open spec fn is_decimal_literal(s: Seq<char>) -> bool {
    let body = unsigned_part(s);
    let whole = digit_run(body) as int;
    &&& whole >= 1
    &&& (whole == body.len() || body[whole] == '.')
    &&& all_digits(fraction_part(s))
}

/// A decimal literal holds ASCII characters only.
pub proof fn lemma_literal_is_ascii(s: Seq<char>)
    requires
        is_decimal_literal(s),
    ensures
        is_ascii_text(s),
{
    let body = unsigned_part(s);
    let whole = digit_run(body) as int;
    let sign = sign_len(s) as int;
    lemma_digit_run_shape(body);
    assert forall|i: int| 0 <= i < s.len() implies '\0' <= #[trigger] s[i] <= '\u{7f}' by {
        if i < sign {
        } else if i - sign < whole {
            assert(s[i] == body[i - sign]);
            assert(is_digit(body[i - sign]));
        } else if i - sign == whole {
            assert(s[i] == body[whole]);
        } else {
            let fraction = fraction_part(s);
            assert(s[i] == fraction[i - sign - whole - 1]);
            assert(is_digit(fraction[i - sign - whole - 1]));
        }
    }
}

/// Ten to the eighteenth power is the attoether in one ether, and no lower
/// power of ten is more.
pub proof fn lemma_pow10_values()
    ensures
        pow10(0) == 1,
        pow10(FRACTION_DIGITS as nat) == ATTO_PER_ETHER,
        forall|e: nat| #![trigger pow10(e)] e <= FRACTION_DIGITS ==> pow10(e) <= ATTO_PER_ETHER,
{
    reveal_with_fuel(pow10, 19);
}

/// Writing a digit and reading it gives the digit back.
pub proof fn lemma_digit_reads_back(d: int)
    requires
        0 <= d <= 9,
    ensures
        is_digit(digit_char(d)),
        digit_value(digit_char(d)) == d,
{
}

/// A numeral reads back as its number.
pub proof fn lemma_numeral_reads_back(n: nat)
    ensures
        all_digits(decimal_text(n)),
        numeral_value(decimal_text(n)) == n,
    decreases n,
{
    lemma_digit_reads_back((n % 10) as int);
    if n < 10 {
        let text = decimal_text(n);
        assert(text.drop_last() =~= Seq::<char>::empty());
        assert(numeral_value(text.drop_last()) == 0);
    } else {
        lemma_numeral_reads_back(n / 10);
        let text = decimal_text(n);
        assert(text.drop_last() =~= decimal_text(n / 10));
        assert forall|i: int| 0 <= i < text.len() implies is_digit(#[trigger] text[i]) by {
            if i < text.len() - 1 {
                assert(text[i] == decimal_text(n / 10)[i]);
            }
        }
    }
}

/// The `width` lowest digits of a number below ten to the power `width` read
/// back as the number.
pub proof fn lemma_padded_reads_back(n: nat, width: nat)
    requires
        n < pow10(width),
    ensures
        padded_decimal(n, width).len() == width,
        all_digits(padded_decimal(n, width)),
        numeral_value(padded_decimal(n, width)) == n,
    decreases width,
{
    if width > 0 {
        lemma_digit_reads_back((n % 10) as int);
        lemma_padded_reads_back(n / 10, (width - 1) as nat);
        let text = padded_decimal(n, width);
        let head = padded_decimal(n / 10, (width - 1) as nat);
        assert(text.drop_last() =~= head);
        assert forall|i: int| 0 <= i < text.len() implies is_digit(#[trigger] text[i]) by {
            if i < text.len() - 1 {
                assert(text[i] == head[i]);
            }
        }
    }
}

/// The digits of a fraction read back as the fraction.
pub proof fn lemma_fraction_reads_back(frac: nat, width: nat)
    requires
        frac < pow10(width),
    ensures
        fraction_digits(frac, width).len() <= width,
        all_digits(fraction_digits(frac, width)),
        numeral_value(fraction_digits(frac, width)) * pow10(
            (width - fraction_digits(frac, width).len()) as nat,
        ) == frac,
        frac > 0 ==> fraction_digits(frac, width).len() > 0,
    decreases width,
{
    let digits = fraction_digits(frac, width);
    if frac == 0 || width == 0 {
        assert(numeral_value(digits) == 0);
        assert(0 * pow10(width) == 0);
    } else if frac % 10 == 0 {
        lemma_fraction_reads_back(frac / 10, (width - 1) as nat);
        let value = numeral_value(digits);
        let rest = pow10((width - 1 - digits.len()) as nat);
        assert(pow10((width - digits.len()) as nat) == 10 * rest);
        assert(value * (10 * rest) == 10 * (value * rest)) by (nonlinear_arith);
    } else {
        lemma_padded_reads_back(frac, width);
        assert(pow10(0) == 1);
        assert(numeral_value(digits) * 1 == numeral_value(digits));
    }
}

/// What was written as an amount reads back as the same amount: the text of
/// every amount but the one of `i128::MIN` attoether, whose opposite no
/// amount holds.
pub proof fn lemma_text_reads_back(atto: int)
    requires
        -i128::MAX <= atto <= i128::MAX,
    ensures
        parsed_atto(amount_text(atto)) == Some(atto),
{
    lemma_pow10_values();
    let text = amount_text(atto);
    let mag = magnitude(atto);
    let whole = mag / (ATTO_PER_ETHER as nat);
    let frac = mag % (ATTO_PER_ETHER as nat);
    let numeral = decimal_text(whole);
    let fraction = fraction_text(frac);
    let digits = fraction_digits(frac, FRACTION_DIGITS as nat);
    lemma_numeral_reads_back(whole);
    lemma_decimal_text_shape(whole);
    lemma_fraction_reads_back(frac, FRACTION_DIGITS as nat);
    assert(is_digit(numeral[0]));
    if atto < 0 {
        assert(text[0] == '-');
    } else {
        assert(text[0] == numeral[0]);
    }
    assert(sign_len(text) == if atto < 0 { 1nat } else { 0nat });
    assert(has_minus(text) == (atto < 0));
    let body = unsigned_part(text);
    assert(body =~= numeral + fraction);
    assert forall|j: int| 0 <= j < numeral.len() implies is_digit(#[trigger] body[j]) by {
        assert(body[j] == numeral[j]);
    }
    if frac > 0 {
        assert(fraction =~= seq!['.'] + digits);
        assert(body[numeral.len() as int] == '.');
    }
    lemma_digit_run(body, numeral.len() as int);
    assert(whole_part(text) =~= numeral);
    if frac > 0 {
        assert(fraction_part(text) =~= digits);
    } else {
        assert(fraction_part(text) =~= Seq::<char>::empty());
        assert(digits =~= Seq::<char>::empty());
    }
    assert(fraction_part(text) =~= digits);
    assert(is_decimal_literal(text));
    // The text holds no exponent mark: it is its own mantissa.
    let sign = sign_len(text) as int;
    assert forall|j: int| 0 <= j < text.len() implies !is_exponent_mark(#[trigger] text[j]) by {
        if j < sign {
        } else if j - sign < numeral.len() {
            assert(text[j] == body[j - sign]);
            assert(is_digit(body[j - sign]));
        } else if j - sign == numeral.len() {
            assert(text[j] == body[numeral.len() as int]);
        } else {
            assert(text[j] == digits[j - sign - numeral.len() - 1]);
            assert(is_digit(digits[j - sign - numeral.len() - 1]));
        }
    }
    lemma_exponent_mark(text, text.len() as int);
    assert(mantissa_part(text) =~= text);
    assert(!has_exponent(text));
    assert(is_number_literal(text));
    // The digits before and after the point, taken together, write the
    // attoether.
    let all = literal_digits(text);
    assert(all == numeral + digits);
    lemma_numeral_concat(numeral, digits);
    let width = digits.len();
    let rest = pow10((FRACTION_DIGITS - width) as nat);
    let shift = pow10(width);
    let high = numeral_value(numeral);
    let low = numeral_value(digits);
    assert(low * rest == frac);
    lemma_pow10_product(width, (FRACTION_DIGITS - width) as nat);
    assert(shift * rest == ATTO_PER_ETHER);
    assert((high * shift + low) * rest == high * (shift * rest) + low * rest)
        by (nonlinear_arith);
    assert(literal_places(text) == numeral.len() + FRACTION_DIGITS);
    if width == FRACTION_DIGITS {
        assert(all.take(all.len() as int) =~= all);
        assert(rest == 1);
        assert((high * shift + low) * 1 == high * shift + low);
    }
    assert(literal_magnitude(text) == (high * shift + low) * rest);
    assert(literal_magnitude(text) == mag);
}

/// Appends the `width` lowest decimal digits of `n` to `out`.
fn push_padded_decimal(out: &mut String, n: u128, width: u32)
    ensures
        final(out)@ == old(out)@ + padded_decimal(n as nat, width as nat),
{
    let mut digits: Vec<u8> = Vec::new();
    let mut rest: u128 = n;
    let mut k: u32 = 0;
    assert(padded_decimal(n as nat, width as nat) =~= padded_decimal(
        rest as nat,
        (width - k) as nat,
    ) + reversed_digits_text(digits@));
    while k < width
        invariant
            k <= width,
            digits@.len() == k,
            forall|i: int| 0 <= i < digits@.len() ==> digits@[i] < 10,
            padded_decimal(n as nat, width as nat) == padded_decimal(
                rest as nat,
                (width - k) as nat,
            ) + reversed_digits_text(digits@),
        decreases width - k,
    {
        let ghost before = digits@;
        let d: u8 = (rest % 10) as u8;
        digits.push(d);
        proof {
            assert(reversed_digits_text(digits@) =~= seq![digit_char(d as int)]
                + reversed_digits_text(before));
            assert(padded_decimal(rest as nat, (width - k) as nat) + reversed_digits_text(before)
                =~= padded_decimal((rest / 10) as nat, (width - k - 1) as nat)
                + reversed_digits_text(digits@));
        }
        rest = rest / 10;
        k = k + 1;
    }
    assert(padded_decimal(n as nat, width as nat) =~= reversed_digits_text(digits@));
    push_reversed_digits(out, &digits);
}

/// Appends the fractional part of an amount to `out`.
fn push_fraction(out: &mut String, frac: u128)
    ensures
        final(out)@ == old(out)@ + fraction_text(frac as nat),
{
    if frac == 0 {
        assert(out@ =~= old(out)@ + fraction_text(frac as nat));
        return ;
    }
    let mut rest: u128 = frac;
    let mut width: u32 = FRACTION_DIGITS;
    while width > 0 && rest % 10 == 0
        invariant
            rest != 0,
            fraction_digits(frac as nat, FRACTION_DIGITS as nat) == fraction_digits(
                rest as nat,
                width as nat,
            ),
        decreases width,
    {
        rest = rest / 10;
        width = width - 1;
    }
    proof {
        reveal_strlit(".");
    }
    let ghost start = out@;
    out.append(".");
    push_padded_decimal(out, rest, width);
    proof {
        assert(fraction_digits(rest as nat, width as nat) =~= padded_decimal(
            rest as nat,
            width as nat,
        ));
        assert(out@ =~= start + fraction_text(frac as nat));
    }
}

impl Amount {
    /// The amount of no ether.
    pub fn zero() -> (r: Amount)
        ensures
            r@ == 0,
    {
        Amount { atto: 0 }
    }

    /// The amount of `atto` attoether.
    pub fn from_atto(atto: i128) -> (r: Amount)
        ensures
            r@ == atto,
    {
        Amount { atto }
    }

    /// The amount of `ether` whole ether.
    pub fn from_ether(ether: i64) -> (r: Amount)
        ensures
            r@ == ether * ATTO_PER_ETHER,
    {
        Amount { atto: (ether as i128) * 1_000_000_000_000_000_000i128 }
    }

    /// The number of attoether.
    pub fn atto(&self) -> (r: i128)
        ensures
            r == self@,
    {
        self.atto
    }

    /// Whether the amount is zero.
    pub fn is_zero(&self) -> (r: bool)
        ensures
            r == (self@ == 0),
    {
        self.atto == 0
    }

    /// Whether this amount is less than or equal to `other`.
    pub fn at_most(&self, other: &Amount) -> (r: bool)
        ensures
            r == (self@ <= other@),
    {
        self.atto <= other.atto
    }

    /// The sum of two amounts, or `None` where an amount cannot hold it.
    pub fn checked_add(&self, other: &Amount) -> (r: Option<Amount>)
        ensures
            match r {
                Some(sum) => sum@ == self@ + other@,
                None => self@ + other@ < i128::MIN || self@ + other@ > i128::MAX,
            },
    {
        match self.atto.checked_add(other.atto) {
            Some(atto) => Some(Amount { atto }),
            None => None,
        }
    }

    /// This amount less `other`, or `None` where an amount cannot hold it.
    pub fn checked_sub(&self, other: &Amount) -> (r: Option<Amount>)
        ensures
            match r {
                Some(difference) => difference@ == self@ - other@,
                None => self@ - other@ < i128::MIN || self@ - other@ > i128::MAX,
            },
    {
        match self.atto.checked_sub(other.atto) {
            Some(atto) => Some(Amount { atto }),
            None => None,
        }
    }

    /// Reads `text` as an amount of ether: a decimal literal, with or
    /// without an exponent. `Some` for a number of at most `i128::MAX`
    /// attoether, `None` for any other text.
    pub fn parse(text: &str) -> (r: Option<Amount>)
        ensures
            match r {
                Some(amount) => parsed_atto(text@) == Some(amount@),
                None => parsed_atto(text@) is None,
            },
    {
        match read_atto(text) {
            Some(atto) => Some(Amount { atto }),
            None => None,
        }
    }

    /// Appends the decimal text of the amount to `out`.
    pub fn append_to(&self, out: &mut String)
        ensures
            final(out)@ == old(out)@ + amount_text(self@),
    {
        let ghost start = out@;
        let mag: u128 = if self.atto < 0 {
            proof {
                reveal_strlit("-");
            }
            out.append("-");
            if self.atto == i128::MIN {
                170_141_183_460_469_231_731_687_303_715_884_105_728u128
            } else {
                (-self.atto) as u128
            }
        } else {
            self.atto as u128
        };
        push_decimal(out, mag / ATTO_PER_ETHER);
        push_fraction(out, mag % ATTO_PER_ETHER);
        assert(out@ =~= start + amount_text(self@));
    }

    /// The decimal text of the amount.
    pub fn to_text(&self) -> (r: String)
        ensures
            r@ == amount_text(self@),
    {
        let mut out = String::new();
        self.append_to(&mut out);
        assert(out@ =~= amount_text(self@));
        out
    }
}

} // verus!
