//! Building text: decimal numerals and lowercase hexadecimal.
//!
//! Every function here appends to a `String` and says, over `Seq<char>`,
//! exactly which characters it appended.

use vstd::prelude::*;

verus! {

/// Ten to the power `e`.
pub open spec fn pow10(e: nat) -> nat
    decreases e,
{
    if e == 0 {
        1
    } else {
        10 * pow10((e - 1) as nat)
    }
}

/// The character that writes the decimal digit `d` (for `0 <= d <= 9`).
pub open spec fn digit_char(d: int) -> char {
    if d == 0 {
        '0'
    } else if d == 1 {
        '1'
    } else if d == 2 {
        '2'
    } else if d == 3 {
        '3'
    } else if d == 4 {
        '4'
    } else if d == 5 {
        '5'
    } else if d == 6 {
        '6'
    } else if d == 7 {
        '7'
    } else if d == 8 {
        '8'
    } else {
        '9'
    }
}

/// The character that writes the hexadecimal digit `d` in lower case
/// (for `0 <= d <= 15`).
pub open spec fn hex_char(d: int) -> char {
    if d < 10 {
        digit_char(d)
    } else if d == 10 {
        'a'
    } else if d == 11 {
        'b'
    } else if d == 12 {
        'c'
    } else if d == 13 {
        'd'
    } else if d == 14 {
        'e'
    } else {
        'f'
    }
}

/// The decimal numeral of `n`: no sign, no leading zero, `"0"` for zero.
pub open spec fn decimal_text(n: nat) -> Seq<char>
    decreases n,
{
    if n < 10 {
        seq![digit_char(n as int)]
    } else {
        decimal_text(n / 10).push(digit_char((n % 10) as int))
    }
}

/// The digits of `n` above its last one, or nothing where there are none.
pub open spec fn decimal_prefix(n: nat) -> Seq<char> {
    if n == 0 {
        Seq::empty()
    } else {
        decimal_text(n)
    }
}

/// The text of a list of decimal digits that is stored lowest digit first.
pub open spec fn reversed_digits_text(digits: Seq<u8>) -> Seq<char> {
    Seq::new(digits.len(), |i: int| digit_char(digits[digits.len() - 1 - i] as int))
}

/// Two lowercase hexadecimal digits for each byte, in order.
pub open spec fn hex_text(bytes: Seq<u8>) -> Seq<char>
    decreases bytes.len(),
{
    if bytes.len() == 0 {
        Seq::empty()
    } else {
        hex_text(bytes.drop_last()).push(hex_char(bytes.last() as int / 16)).push(
            hex_char(bytes.last() as int % 16),
        )
    }
}

/// A numeral is never empty and holds decimal digits only.
pub proof fn lemma_decimal_text_shape(n: nat)
    ensures
        decimal_text(n).len() >= 1,
        forall|i: int|
            0 <= i < decimal_text(n).len() ==> '0' <= #[trigger] decimal_text(n)[i] <= '9',
        n > 0 ==> decimal_text(n)[0] != '0',
    decreases n,
{
    if n >= 10 {
        lemma_decimal_text_shape(n / 10);
    }
}

/// One step of writing a numeral: the digits above the last, then the last.
pub proof fn lemma_decimal_text_step(n: nat)
    ensures
        decimal_text(n) == decimal_prefix(n / 10).push(digit_char((n % 10) as int)),
{
    if n < 10 {
        assert(decimal_prefix(n / 10) =~= Seq::<char>::empty());
        assert(decimal_text(n) =~= Seq::<char>::empty().push(digit_char((n % 10) as int)));
    }
}

/// Whether `c` is a decimal digit.
pub open spec fn is_digit(c: char) -> bool {
    '0' <= c && c <= '9'
}

/// The value of the decimal digit `c`; zero for any other character.
pub open spec fn digit_value(c: char) -> nat {
    if is_digit(c) {
        (c as u32 - '0' as u32) as nat
    } else {
        0
    }
}

/// Whether `s` holds decimal digits only.
pub open spec fn all_digits(s: Seq<char>) -> bool {
    forall|i: int| 0 <= i < s.len() ==> is_digit(#[trigger] s[i])
}

/// The number that the digits of `s` write, the first digit being the highest.
pub open spec fn numeral_value(s: Seq<char>) -> nat
    decreases s.len(),
{
    if s.len() == 0 {
        0
    } else {
        numeral_value(s.drop_last()) * 10 + digit_value(s.last())
    }
}

/// How many decimal digits `s` begins with.
pub open spec fn digit_run(s: Seq<char>) -> nat
    decreases s.len(),
{
    if s.len() == 0 || !is_digit(s[0]) {
        0
    } else {
        1 + digit_run(s.skip(1))
    }
}

/// Whether every character of `s` is an ASCII character.
pub open spec fn is_ascii_text(s: Seq<char>) -> bool {
    vstd::utf8::is_ascii_chars(s)
}

/// Where `s` begins with `k` digits and the next character, if any, is none,
/// its run of digits is `k` long.
pub proof fn lemma_digit_run(s: Seq<char>, k: int)
    requires
        0 <= k <= s.len(),
        forall|j: int| 0 <= j < k ==> is_digit(#[trigger] s[j]),
        k == s.len() || !is_digit(s[k]),
    ensures
        digit_run(s) == k,
    decreases k,
{
    if k > 0 {
        let rest = s.skip(1);
        assert forall|j: int| 0 <= j < k - 1 implies is_digit(#[trigger] rest[j]) by {
            assert(rest[j] == s[j + 1]);
        }
        lemma_digit_run(rest, k - 1);
    }
}

/// The characters within the run of digits are digits, and the one after it,
/// if any, is none.
pub proof fn lemma_digit_run_shape(s: Seq<char>)
    ensures
        digit_run(s) <= s.len(),
        forall|j: int| 0 <= j < digit_run(s) ==> is_digit(#[trigger] s[j]),
        digit_run(s) < s.len() ==> !is_digit(s[digit_run(s) as int]),
    decreases s.len(),
{
    if s.len() > 0 && is_digit(s[0]) {
        let rest = s.skip(1);
        lemma_digit_run_shape(rest);
        assert forall|j: int| 0 <= j < digit_run(s) implies is_digit(#[trigger] s[j]) by {
            if j > 0 {
                assert(s[j] == rest[j - 1]);
            }
        }
        if digit_run(s) < s.len() {
            assert(s[digit_run(s) as int] == rest[digit_run(rest) as int]);
        }
    }
}

/// Reading one more digit multiplies the number read so far by ten and adds
/// the digit.
pub proof fn lemma_numeral_step(s: Seq<char>, k: int)
    requires
        0 <= k < s.len(),
    ensures
        numeral_value(s.take(k + 1)) == numeral_value(s.take(k)) * 10 + digit_value(s[k]),
{
    assert(s.take(k + 1).drop_last() =~= s.take(k));
}

/// A longer beginning of `s` writes a number that is no smaller.
pub proof fn lemma_numeral_monotone(s: Seq<char>, a: int, b: int)
    requires
        0 <= a <= b <= s.len(),
    ensures
        numeral_value(s.take(a)) <= numeral_value(s.take(b)),
    decreases b - a,
{
    if a < b {
        lemma_numeral_monotone(s, a, b - 1);
        lemma_numeral_step(s, b - 1);
    }
}

/// Powers of ten multiply by adding their exponents.
pub proof fn lemma_pow10_product(a: nat, b: nat)
    ensures
        pow10(a) * pow10(b) == pow10(a + b),
    decreases a,
{
    if a == 0 {
        assert(pow10(0) == 1);
        assert(1 * pow10(b) == pow10(b));
    } else {
        lemma_pow10_product((a - 1) as nat, b);
        let p = pow10((a - 1) as nat);
        let q = pow10(b);
        assert(pow10(a) == 10 * p);
        assert(pow10(a + b) == 10 * pow10((a - 1 + b) as nat));
        assert((10 * p) * q == 10 * (p * q)) by (nonlinear_arith);
    }
}

/// Digits written after a numeral move it up by as many places as they are.
pub proof fn lemma_numeral_concat(high: Seq<char>, low: Seq<char>)
    ensures
        numeral_value(high + low) == numeral_value(high) * pow10(low.len()) + numeral_value(low),
    decreases low.len(),
{
    if low.len() == 0 {
        assert(high + low =~= high);
        assert(pow10(0) == 1);
        assert(numeral_value(high) * 1 == numeral_value(high));
    } else {
        let shorter = low.drop_last();
        lemma_numeral_concat(high, shorter);
        assert((high + low).drop_last() =~= high + shorter);
        assert((high + low).last() == low.last());
        let h = numeral_value(high);
        let p = pow10(shorter.len());
        let l = numeral_value(shorter);
        assert(pow10(low.len()) == 10 * p);
        assert((h * p + l) * 10 == h * (10 * p) + l * 10) by (nonlinear_arith);
    }
}

/// Whether `bytes` holds the codes of the ASCII characters of `s`, one byte
/// for each character.
pub open spec fn codes_of(bytes: Seq<u8>, s: Seq<char>) -> bool {
    &&& bytes.len() == s.len()
    &&& forall|i: int|
        #![trigger bytes[i]]
        #![trigger s[i]]
        0 <= i < s.len() ==> bytes[i] < 128 && s[i] == bytes[i] as char
}

/// The bytes of `text` where it holds ASCII characters only, and `None` where
/// it holds any other character. Each byte is the code of the character in
/// its place.
pub fn ascii_bytes(text: &str) -> (r: Option<&[u8]>)
    ensures
        r is Some <==> is_ascii_text(text@),
        r matches Some(bytes) ==> codes_of(bytes@, text@),
{
    if text.is_ascii() {
        let bytes = text.as_bytes();
        proof {
            vstd::string::is_ascii_spec_bytes(text);
            vstd::utf8::is_ascii_chars_nat_bound(text@);
            assert forall|i: int|
                #![trigger bytes@[i]]
                #![trigger text@[i]]
                0 <= i < text@.len() implies bytes@[i] < 128 && text@[i] == bytes@[i] as char by {
                assert((text@.index(i) as nat) < 128);
                assert(bytes@[i] == text@[i] as u8);
            }
        }
        Some(bytes)
    } else {
        None
    }
}

/// What reading `s` as an unsigned whole number gives: the number where `s`
/// is one or more decimal digits that write at most `u128::MAX`, and `None`
/// otherwise.
pub open spec fn unsigned_of(s: Seq<char>) -> Option<nat> {
    if s.len() >= 1 && all_digits(s) && numeral_value(s) <= u128::MAX {
        Some(numeral_value(s))
    } else {
        None
    }
}

/// Reads `text` as an unsigned whole number. `Some` for one or more decimal
/// digits that write at most `u128::MAX`, `None` for any other text.
pub fn parse_unsigned(text: &str) -> (r: Option<u128>)
    ensures
        match r {
            Some(n) => unsigned_of(text@) == Some(n as nat),
            None => unsigned_of(text@) is None,
        },
{
    let ghost s = text@;
    let bytes = match ascii_bytes(text) {
        Some(bytes) => bytes,
        None => {
            assert(!all_digits(s)) by {
                if all_digits(s) {
                    assert forall|i: int| 0 <= i < s.len() implies '\0' <= #[trigger] s[i]
                        <= '\u{7f}' by {
                        assert(is_digit(s[i]));
                    }
                }
            }
            return None;
        },
    };
    let n: usize = bytes.len();
    if n == 0 {
        return None;
    }
    let mut acc: u128 = 0;
    let mut j: usize = 0;
    assert(s.take(0) =~= Seq::<char>::empty());
    while j < n
        invariant
            j <= n,
            n == bytes@.len(),
            s == text@,
            codes_of(bytes@, s),
            all_digits(s.take(j as int)),
            acc == numeral_value(s.take(j as int)),
        decreases n - j,
    {
        let b: u8 = bytes[j];
        if b < 48 || b > 57 {
            assert(!all_digits(s)) by {
                assert(s[j as int] == b as char);
                assert(!is_digit(s[j as int]));
            }
            return None;
        }
        proof {
            assert(s[j as int] == b as char);
            assert(is_digit(s[j as int]));
            assert(digit_value(s[j as int]) == b - 48);
            lemma_numeral_step(s, j as int);
            lemma_numeral_monotone(s, j as int + 1, n as int);
            assert(s.take(n as int) =~= s);
            assert forall|i: int| 0 <= i < j + 1 implies is_digit(#[trigger] s.take(j as int + 1)[i]) by {
                if i < j {
                    assert(s.take(j as int + 1)[i] == s.take(j as int)[i]);
                }
            }
        }
        let next = match acc.checked_mul(10) {
            Some(tenfold) => tenfold.checked_add((b - 48) as u128),
            None => None,
        };
        match next {
            Some(value) => {
                acc = value;
            },
            None => {
                return None;
            },
        }
        j = j + 1;
    }
    assert(s.take(n as int) =~= s);
    Some(acc)
}

/// Appends one decimal digit to `out`.
pub fn push_digit(out: &mut String, d: u8)
    requires
        d < 10,
    ensures
        final(out)@ == old(out)@.push(digit_char(d as int)),
{
    proof {
        reveal_strlit("0");
        reveal_strlit("1");
        reveal_strlit("2");
        reveal_strlit("3");
        reveal_strlit("4");
        reveal_strlit("5");
        reveal_strlit("6");
        reveal_strlit("7");
        reveal_strlit("8");
        reveal_strlit("9");
    }
    let piece: &str = if d == 0 {
        "0"
    } else if d == 1 {
        "1"
    } else if d == 2 {
        "2"
    } else if d == 3 {
        "3"
    } else if d == 4 {
        "4"
    } else if d == 5 {
        "5"
    } else if d == 6 {
        "6"
    } else if d == 7 {
        "7"
    } else if d == 8 {
        "8"
    } else {
        "9"
    };
    assert(piece@ =~= seq![digit_char(d as int)]);
    out.append(piece);
    assert(out@ =~= old(out)@.push(digit_char(d as int)));
}

/// Appends one lowercase hexadecimal digit to `out`.
pub fn push_hex_digit(out: &mut String, d: u8)
    requires
        d < 16,
    ensures
        final(out)@ == old(out)@.push(hex_char(d as int)),
{
    if d < 10 {
        push_digit(out, d);
    } else {
        proof {
            reveal_strlit("a");
            reveal_strlit("b");
            reveal_strlit("c");
            reveal_strlit("d");
            reveal_strlit("e");
            reveal_strlit("f");
        }
        let piece: &str = if d == 10 {
            "a"
        } else if d == 11 {
            "b"
        } else if d == 12 {
            "c"
        } else if d == 13 {
            "d"
        } else if d == 14 {
            "e"
        } else {
            "f"
        };
        assert(piece@ =~= seq![hex_char(d as int)]);
        out.append(piece);
        assert(out@ =~= old(out)@.push(hex_char(d as int)));
    }
}

/// Appends the digits of `digits`, which holds the lowest digit first, highest
/// digit first.
pub fn push_reversed_digits(out: &mut String, digits: &Vec<u8>)
    requires
        forall|i: int| 0 <= i < digits@.len() ==> digits@[i] < 10,
    ensures
        final(out)@ == old(out)@ + reversed_digits_text(digits@),
{
    let n: usize = digits.len();
    let mut k: usize = 0;
    while k < n
        invariant
            n == digits@.len(),
            k <= n,
            forall|i: int| 0 <= i < digits@.len() ==> digits@[i] < 10,
            out@ == old(out)@ + reversed_digits_text(digits@).take(k as int),
        decreases n - k,
    {
        let d: u8 = digits[n - 1 - k];
        push_digit(out, d);
        assert(reversed_digits_text(digits@).take(k as int + 1) =~= reversed_digits_text(
            digits@,
        ).take(k as int).push(digit_char(d as int)));
        k = k + 1;
    }
    assert(reversed_digits_text(digits@).take(n as int) =~= reversed_digits_text(digits@));
}

/// Appends the decimal numeral of `n` to `out`.
pub fn push_decimal(out: &mut String, n: u128)
    ensures
        final(out)@ == old(out)@ + decimal_text(n as nat),
{
    let mut digits: Vec<u8> = Vec::new();
    digits.push((n % 10) as u8);
    let mut rest: u128 = n / 10;
    proof {
        lemma_decimal_text_step(n as nat);
        assert(decimal_text(n as nat) =~= decimal_prefix(rest as nat) + reversed_digits_text(
            digits@,
        ));
    }
    while rest != 0
        invariant
            forall|i: int| 0 <= i < digits@.len() ==> digits@[i] < 10,
            decimal_text(n as nat) == decimal_prefix(rest as nat) + reversed_digits_text(digits@),
        decreases rest,
    {
        let ghost before = digits@;
        let d: u8 = (rest % 10) as u8;
        digits.push(d);
        proof {
            lemma_decimal_text_step(rest as nat);
            assert(reversed_digits_text(digits@) =~= seq![digit_char(d as int)]
                + reversed_digits_text(before));
            assert(decimal_prefix(rest as nat) + reversed_digits_text(before) =~= decimal_prefix(
                (rest / 10) as nat,
            ) + reversed_digits_text(digits@));
        }
        rest = rest / 10;
    }
    assert(decimal_text(n as nat) =~= reversed_digits_text(digits@));
    push_reversed_digits(out, &digits);
}

/// Appends two lowercase hexadecimal digits for each byte of `bytes`.
pub fn push_hex(out: &mut String, bytes: &[u8])
    ensures
        final(out)@ == old(out)@ + hex_text(bytes@),
{
    let n: usize = bytes.len();
    let mut k: usize = 0;
    assert(hex_text(bytes@.take(0)) =~= Seq::<char>::empty());
    while k < n
        invariant
            n == bytes@.len(),
            k <= n,
            out@ == old(out)@ + hex_text(bytes@.take(k as int)),
        decreases n - k,
    {
        let b: u8 = bytes[k];
        push_hex_digit(out, b / 16);
        push_hex_digit(out, b % 16);
        proof {
            let next = bytes@.take(k as int + 1);
            assert(next.drop_last() =~= bytes@.take(k as int));
            assert(next.last() == b);
            assert(out@ =~= old(out)@ + hex_text(next));
        }
        k = k + 1;
    }
    assert(bytes@.take(n as int) =~= bytes@);
}

} // verus!
