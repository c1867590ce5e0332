//! Reading numbers as amounts.
//!
//! A number is written as a decimal literal, with or without an exponent:
//! `6`, `11.36`, `-0.5`, `1e-7`, `1.5E+3`. The services write prices either
//! way. What is read is exact down to the eighteenth decimal place; what
//! lies below it is dropped.

use crate::amount::{
    fraction_part, has_minus, is_decimal_literal, lemma_literal_is_ascii, sign_len, unsigned_part,
    whole_part, FRACTION_DIGITS,
};
use crate::text::{
    all_digits, ascii_bytes, codes_of, digit_value, is_ascii_text, is_digit, lemma_digit_run,
    lemma_numeral_monotone, lemma_numeral_step, numeral_value, pow10,
};
use vstd::prelude::*;

verus! {

/// Above this an exponent is only known to be large: it is more than any
/// text has digits, by a margin that no amount can make up for.
pub const EXPONENT_CAP: u128 = 18_446_744_073_709_551_716;

/// Whether `c` begins the exponent of a number.
pub open spec fn is_exponent_mark(c: char) -> bool {
    c == 'e' || c == 'E'
}

/// Where the exponent mark of `s` stands: the place of its first `e` or `E`,
/// or the length of `s` where it has none.
pub open spec fn exponent_mark(s: Seq<char>) -> nat
    decreases s.len(),
{
    if s.len() == 0 || is_exponent_mark(s[0]) {
        0
    } else {
        1 + exponent_mark(s.skip(1))
    }
}

/// Whether `s` has an exponent mark.
pub open spec fn has_exponent(s: Seq<char>) -> bool {
    exponent_mark(s) < s.len()
}

/// What stands before the exponent mark of `s`.
pub open spec fn mantissa_part(s: Seq<char>) -> Seq<char> {
    s.take(exponent_mark(s) as int)
}

/// What stands after the exponent mark of `s`.
pub open spec fn exponent_part(s: Seq<char>) -> Seq<char> {
    if has_exponent(s) {
        s.skip(exponent_mark(s) as int + 1)
    } else {
        Seq::empty()
    }
}

/// Whether `t` is an exponent: an optional `-` or `+` and one or more
/// digits.
pub open spec fn is_exponent_literal(t: Seq<char>) -> bool {
    t.skip(sign_len(t) as int).len() >= 1 && all_digits(t.skip(sign_len(t) as int))
}

/// The number that the exponent `t` writes.
pub open spec fn exponent_value(t: Seq<char>) -> int {
    if has_minus(t) {
        -(numeral_value(t.skip(sign_len(t) as int)) as int)
    } else {
        numeral_value(t.skip(sign_len(t) as int)) as int
    }
}

/// Whether `s` is a number: a decimal literal, and after it, optionally, an
/// `e` or `E` and an exponent.
pub open spec fn is_number_literal(s: Seq<char>) -> bool {
    is_decimal_literal(mantissa_part(s)) && (has_exponent(s) ==> is_exponent_literal(
        exponent_part(s),
    ))
}

/// The exponent of the number `s`; zero where it writes none.
pub open spec fn literal_exponent(s: Seq<char>) -> int {
    if has_exponent(s) {
        exponent_value(exponent_part(s))
    } else {
        0
    }
}

/// The digits of the number `s`: those before its decimal point, then those
/// after it.
pub open spec fn literal_digits(s: Seq<char>) -> Seq<char> {
    whole_part(mantissa_part(s)) + fraction_part(mantissa_part(s))
}

/// The number that the first `places` of `digits` write, with zeros in the
/// places that `digits` does not reach; zero where `places` is none or less.
pub open spec fn shifted_value(digits: Seq<char>, places: int) -> nat {
    if places <= 0 {
        0
    } else if places <= digits.len() {
        numeral_value(digits.take(places))
    } else {
        numeral_value(digits) * pow10((places - digits.len()) as nat)
    }
}

/// How many digits of the number `s` stand above one attoether: those
/// before the decimal point and eighteen more, moved by the exponent.
pub open spec fn literal_places(s: Seq<char>) -> int {
    whole_part(mantissa_part(s)).len() + FRACTION_DIGITS + literal_exponent(s)
}

/// The attoether that the number `s` stands for, without its sign: its
/// value in ether times ten to the eighteenth, less what is below one.
pub open spec fn literal_magnitude(s: Seq<char>) -> nat {
    shifted_value(literal_digits(s), literal_places(s))
}

/// What reading `s` as an amount of ether gives: the attoether that it stands
/// for where it is a number of at most `i128::MAX` attoether, with or
/// without a minus sign, and `None` otherwise.
pub open spec fn parsed_atto(s: Seq<char>) -> Option<int> {
    if is_number_literal(s) && literal_magnitude(s) <= i128::MAX {
        if has_minus(s) {
            Some(-(literal_magnitude(s) as int))
        } else {
            Some(literal_magnitude(s) as int)
        }
    } else {
        None
    }
}

/// Whether `e` stands for the exponent `value`: it is the value itself up to
/// [`EXPONENT_CAP`], and one more than the cap for every value above it.
pub open spec fn stands_for(e: u128, value: nat) -> bool {
    &&& e <= EXPONENT_CAP + 1
    &&& e <= EXPONENT_CAP ==> value == e
    &&& e > EXPONENT_CAP ==> value > EXPONENT_CAP
}

/// Where none of the first `k` characters of `s` is an exponent mark and the
/// next, if any, is one, the mark stands at `k`.
pub proof fn lemma_exponent_mark(s: Seq<char>, k: int)
    requires
        0 <= k <= s.len(),
        forall|j: int| 0 <= j < k ==> !is_exponent_mark(#[trigger] s[j]),
        k == s.len() || is_exponent_mark(s[k]),
    ensures
        exponent_mark(s) == k,
    decreases k,
{
    if k > 0 {
        let rest = s.skip(1);
        assert forall|j: int| 0 <= j < k - 1 implies !is_exponent_mark(#[trigger] rest[j]) by {
            assert(rest[j] == s[j + 1]);
        }
        lemma_exponent_mark(rest, k - 1);
    }
}

/// The mark stands within the text, and an exponent mark stands there where
/// the text has one.
pub proof fn lemma_exponent_mark_shape(s: Seq<char>)
    ensures
        exponent_mark(s) <= s.len(),
        exponent_mark(s) < s.len() ==> is_exponent_mark(s[exponent_mark(s) as int]),
    decreases s.len(),
{
    if s.len() > 0 && !is_exponent_mark(s[0]) {
        let rest = s.skip(1);
        lemma_exponent_mark_shape(rest);
        if exponent_mark(s) < s.len() {
            assert(s[exponent_mark(s) as int] == rest[exponent_mark(rest) as int]);
        }
    }
}

/// A number holds ASCII characters only.
pub proof fn lemma_number_is_ascii(s: Seq<char>)
    requires
        is_number_literal(s),
    ensures
        is_ascii_text(s),
{
    let mark = exponent_mark(s) as int;
    let mantissa = mantissa_part(s);
    lemma_exponent_mark_shape(s);
    lemma_literal_is_ascii(mantissa);
    assert forall|i: int| 0 <= i < s.len() implies '\0' <= #[trigger] s[i] <= '\u{7f}' by {
        if i < mark {
            assert(s[i] == mantissa[i]);
        } else if i == mark {
        } else {
            let t = exponent_part(s);
            let sign = sign_len(t) as int;
            assert(s[i] == t[i - mark - 1]);
            if i - mark - 1 >= sign {
                assert(t[i - mark - 1] == t.skip(sign)[i - mark - 1 - sign]);
                assert(is_digit(t.skip(sign)[i - mark - 1 - sign]));
            }
        }
    }
}

/// A higher power of ten is no smaller, and every power of ten is at least
/// one.
pub proof fn lemma_pow10_grows(a: nat, b: nat)
    requires
        a <= b,
    ensures
        1 <= pow10(a) <= pow10(b),
    decreases b,
{
    if a < b {
        lemma_pow10_grows(a, (b - 1) as nat);
    } else if a > 0 {
        lemma_pow10_grows((a - 1) as nat, (a - 1) as nat);
    }
}

/// Whether `b` is the code of a decimal digit.
fn is_digit_byte(b: u8) -> (r: bool)
    ensures
        r == (48 <= b <= 57),
{
    48 <= b && b <= 57
}

/// The place of the first `e` or `E` among `bytes`, or their number.
fn find_mark(bytes: &[u8], Ghost(s): Ghost<Seq<char>>) -> (mark: usize)
    requires
        codes_of(bytes@, s),
    ensures
        mark == exponent_mark(s),
        mark <= bytes@.len(),
{
    let n: usize = bytes.len();
    let mut mark: usize = 0;
    while mark < n && bytes[mark] != 101 && bytes[mark] != 69
        invariant
            mark <= n,
            n == bytes@.len(),
            codes_of(bytes@, s),
            forall|j: int| 0 <= j < mark ==> !is_exponent_mark(#[trigger] s[j]),
        decreases n - mark,
    {
        assert(s[mark as int] == bytes@[mark as int] as char);
        mark = mark + 1;
    }
    proof {
        if mark < n {
            assert(s[mark as int] == bytes@[mark as int] as char);
        }
        lemma_exponent_mark(s, mark as int);
    }
    mark
}

/// Where the parts of a decimal literal stand in a text.
struct Mantissa {
    negative: bool,
    start: usize,
    end: usize,
}

/// Finds the parts of the decimal literal `bytes[..mark]`, or finds that it
/// is none.
#[verifier::loop_isolation(false)]
fn scan_mantissa(bytes: &[u8], mark: usize, Ghost(s): Ghost<Seq<char>>) -> (r: Option<Mantissa>)
    requires
        codes_of(bytes@, s),
        mark <= bytes@.len(),
    ensures
        match r {
            Some(found) => {
                &&& is_decimal_literal(s.take(mark as int))
                &&& found.negative == has_minus(s.take(mark as int))
                &&& found.start < found.end <= mark
                &&& whole_part(s.take(mark as int)) == s.subrange(
                    found.start as int,
                    found.end as int,
                )
                &&& fraction_part(s.take(mark as int)) == if found.end < mark {
                    s.subrange(found.end as int + 1, mark as int)
                } else {
                    Seq::<char>::empty()
                }
                &&& all_digits(whole_part(s.take(mark as int)))
                &&& all_digits(fraction_part(s.take(mark as int)))
            },
            None => !is_decimal_literal(s.take(mark as int)),
        },
{
    let ghost m = s.take(mark as int);
    let mut start: usize = 0;
    let mut negative: bool = false;
    if mark > 0 {
        if bytes[0] == 45 {
            negative = true;
            start = 1;
        } else if bytes[0] == 43 {
            start = 1;
        }
    }
    assert(start == sign_len(m) && negative == has_minus(m)) by {
        if mark > 0 {
            assert(m[0] == s[0]);
            assert(s[0] == bytes@[0] as char);
        }
    }
    let ghost body = unsigned_part(m);
    let mut end: usize = start;
    while end < mark && is_digit_byte(bytes[end])
        invariant
            start <= end <= mark,
            forall|i: int| start <= i < end ==> 48 <= #[trigger] bytes@[i] <= 57,
        decreases mark - end,
    {
        end = end + 1;
    }
    proof {
        assert forall|j: int| 0 <= j < end - start implies is_digit(#[trigger] body[j]) by {
            assert(body[j] == s[j + start]);
            assert(s[j + start] == bytes@[j + start] as char);
        }
        if end < mark {
            assert(body[end - start] == s[end as int]);
            assert(s[end as int] == bytes@[end as int] as char);
        }
        lemma_digit_run(body, end - start);
        assert(whole_part(m) =~= s.subrange(start as int, end as int));
        assert forall|j: int| 0 <= j < end - start implies is_digit(
            #[trigger] s.subrange(start as int, end as int)[j],
        ) by {
            assert(s.subrange(start as int, end as int)[j] == body[j]);
        }
    }
    if end == start {
        return None;
    }
    let ghost fraction = fraction_part(m);
    if end < mark {
        if bytes[end] != 46 {
            return None;
        }
        assert(fraction =~= s.subrange(end as int + 1, mark as int));
        let mut j: usize = end + 1;
        while j < mark
            invariant
                end < j <= mark,
                forall|i: int| end < i < j ==> 48 <= #[trigger] bytes@[i] <= 57,
            decreases mark - j,
        {
            if !is_digit_byte(bytes[j]) {
                proof {
                    let c = fraction[j - end - 1];
                    assert(c == s[j as int]);
                    assert(c == bytes@[j as int] as char);
                    assert(!is_digit(c));
                }
                return None;
            }
            j = j + 1;
        }
        proof {
            assert forall|i: int| 0 <= i < fraction.len() implies is_digit(
                #[trigger] fraction[i],
            ) by {
                assert(fraction[i] == s[i + end + 1]);
                assert(s[i + end + 1] == bytes@[i + end + 1] as char);
            }
        }
    } else {
        assert(fraction =~= Seq::<char>::empty());
    }
    Some(Mantissa { negative, start, end })
}

/// Reads the exponent `bytes[from..]`: its sign and what stands for its
/// number, or `None` where it is no exponent.
#[verifier::loop_isolation(false)]
fn read_exponent(bytes: &[u8], from: usize, Ghost(s): Ghost<Seq<char>>) -> (r: Option<(bool, u128)>)
    requires
        codes_of(bytes@, s),
        from <= bytes@.len(),
    ensures
        match r {
            Some((negative, e)) => {
                &&& is_exponent_literal(s.skip(from as int))
                &&& negative == has_minus(s.skip(from as int))
                &&& stands_for(
                    e,
                    numeral_value(
                        s.skip(from as int).skip(sign_len(s.skip(from as int)) as int),
                    ),
                )
            },
            None => !is_exponent_literal(s.skip(from as int)),
        },
{
    let n: usize = bytes.len();
    let ghost t = s.skip(from as int);
    let mut start: usize = from;
    let mut negative: bool = false;
    if from < n {
        if bytes[from] == 45 {
            negative = true;
            start = from + 1;
        } else if bytes[from] == 43 {
            start = from + 1;
        }
    }
    assert(start - from == sign_len(t) && negative == has_minus(t)) by {
        if from < n {
            assert(t[0] == s[from as int]);
            assert(s[from as int] == bytes@[from as int] as char);
        }
    }
    let ghost digits = t.skip(sign_len(t) as int);
    assert(digits =~= s.skip(start as int));
    if start == n {
        return None;
    }
    let mut e: u128 = 0;
    let mut j: usize = start;
    assert(digits.take(0) =~= Seq::<char>::empty());
    while j < n
        invariant
            start <= j <= n,
            all_digits(digits.take(j - start)),
            stands_for(e, numeral_value(digits.take(j - start))),
        decreases n - j,
    {
        let b: u8 = bytes[j];
        proof {
            assert(digits[j - start] == s[j as int]);
            assert(s[j as int] == b as char);
        }
        if !is_digit_byte(b) {
            assert(!is_digit(digits[j - start]));
            return None;
        }
        proof {
            assert(digit_value(digits[j - start]) == b - 48);
            lemma_numeral_step(digits, j - start);
            assert forall|i: int| 0 <= i < j - start + 1 implies is_digit(
                #[trigger] digits.take(j - start + 1)[i],
            ) by {
                if i < j - start {
                    assert(digits.take(j - start + 1)[i] == digits.take(j - start)[i]);
                }
            }
        }
        e = e * 10 + (b - 48) as u128;
        if e > EXPONENT_CAP {
            e = EXPONENT_CAP + 1;
        }
        j = j + 1;
    }
    assert(digits.take(n - start) =~= digits);
    Some((negative, e))
}

/// The digits `bytes[start..end]` and, where `end` is before `mark`, the
/// digits `bytes[end + 1..mark]` after them.
#[verifier::loop_isolation(false)]
fn collect_digits(
    bytes: &[u8],
    start: usize,
    end: usize,
    mark: usize,
    Ghost(s): Ghost<Seq<char>>,
    Ghost(digits): Ghost<Seq<char>>,
) -> (r: Vec<u8>)
    requires
        codes_of(bytes@, s),
        start <= end <= mark <= bytes@.len(),
        digits == s.subrange(start as int, end as int) + if end < mark {
            s.subrange(end as int + 1, mark as int)
        } else {
            Seq::<char>::empty()
        },
    ensures
        codes_of(r@, digits),
{
    let mut out: Vec<u8> = Vec::new();
    let mut i: usize = start;
    while i < end
        invariant
            start <= i <= end,
            out@.len() == i - start,
            forall|k: int| 0 <= k < out@.len() ==> #[trigger] out@[k] == bytes@[start + k],
        decreases end - i,
    {
        out.push(bytes[i]);
        i = i + 1;
    }
    if end < mark {
        let mut j: usize = end + 1;
        while j < mark
            invariant
                end < j <= mark,
                out@.len() == (end - start) + (j - end - 1),
                forall|k: int| 0 <= k < end - start ==> #[trigger] out@[k] == bytes@[start + k],
                forall|k: int|
                    end - start <= k < out@.len() ==> #[trigger] out@[k] == bytes@[k - (end
                        - start) + end + 1],
            decreases mark - j,
        {
            out.push(bytes[j]);
            j = j + 1;
        }
    }
    proof {
        assert(out@.len() == digits.len());
        assert forall|k: int|
            #![trigger out@[k]]
            #![trigger digits[k]]
            0 <= k < digits.len() implies out@[k] < 128 && digits[k] == out@[k] as char by {
            if k < end - start {
                assert(digits[k] == s[start + k]);
                assert(s[start + k] == bytes@[start + k] as char);
            } else {
                assert(digits[k] == s[k - (end - start) + end + 1]);
                assert(s[k - (end - start) + end + 1] == bytes@[k - (end - start) + end + 1]
                    as char);
            }
        }
    }
    out
}

/// Reads the first `take` of `digits` as a number, or gives `None` where it
/// is above `i128::MAX`.
fn read_leading(digits: &Vec<u8>, take: usize, Ghost(d): Ghost<Seq<char>>) -> (r: Option<u128>)
    requires
        codes_of(digits@, d),
        all_digits(d),
        take <= digits@.len(),
    ensures
        match r {
            Some(n) => n == numeral_value(d.take(take as int)) && n <= i128::MAX,
            None => numeral_value(d.take(take as int)) > i128::MAX,
        },
{
    let mut acc: u128 = 0;
    let mut j: usize = 0;
    assert(d.take(0) =~= Seq::<char>::empty());
    while j < take
        invariant
            j <= take <= digits@.len(),
            codes_of(digits@, d),
            all_digits(d),
            acc == numeral_value(d.take(j as int)),
            acc <= i128::MAX,
        decreases take - j,
    {
        let b: u8 = digits[j];
        proof {
            let c = d[j as int];
            assert(c == b as char);
            assert(is_digit(c));
            assert(digit_value(c) == b - 48);
            lemma_numeral_step(d, j as int);
        }
        if acc > 17_014_118_346_046_923_173_168_730_371_588_410_572u128 {
            proof {
                lemma_numeral_monotone(d.take(take as int), j as int + 1, take as int);
                assert(d.take(take as int).take(j as int + 1) =~= d.take(j as int + 1));
                assert(d.take(take as int).take(take as int) =~= d.take(take as int));
            }
            return None;
        }
        acc = acc * 10 + (b - 48) as u128;
        j = j + 1;
        if acc > 170_141_183_460_469_231_731_687_303_715_884_105_727u128 {
            proof {
                lemma_numeral_monotone(d.take(take as int), j as int, take as int);
                assert(d.take(take as int).take(j as int) =~= d.take(j as int));
                assert(d.take(take as int).take(take as int) =~= d.take(take as int));
            }
            return None;
        }
    }
    Some(acc)
}

/// `value` times ten to the power that `pad` stands for, or `None` where
/// that is above `i128::MAX`.
fn write_zeros(value: u128, pad: u128, Ghost(power): Ghost<nat>) -> (r: Option<u128>)
    requires
        value <= i128::MAX,
        pad <= 38 ==> power == pad,
        pad > 38 ==> power > 38,
    ensures
        match r {
            Some(n) => n == value * pow10(power) && n <= i128::MAX,
            None => value * pow10(power) > i128::MAX,
        },
{
    if value == 0 {
        assert(0 * pow10(power) == 0);
        return Some(0);
    }
    if pad > 38 {
        proof {
            lemma_pow10_grows(39, power);
            assert(pow10(39) > i128::MAX) by {
                reveal_with_fuel(pow10, 40);
            }
            assert(value * pow10(power) >= pow10(power)) by (nonlinear_arith)
                requires
                    value >= 1,
                    pow10(power) >= 1,
            ;
        }
        return None;
    }
    let mut acc: u128 = value;
    let mut k: u128 = 0;
    proof {
        assert(value * pow10(0) == value) by {
            assert(pow10(0) == 1);
            assert(value * 1 == value);
        }
    }
    while k < pad
        invariant
            k <= pad <= 38,
            power == pad,
            value >= 1,
            acc == value * pow10(k as nat),
            acc <= i128::MAX,
        decreases pad - k,
    {
        proof {
            let p = pow10(k as nat);
            assert(pow10((k + 1) as nat) == 10 * p);
            assert(value * (10 * p) == (value * p) * 10) by (nonlinear_arith);
        }
        if acc > 17_014_118_346_046_923_173_168_730_371_588_410_572u128 {
            proof {
                lemma_pow10_grows((k + 1) as nat, power);
                assert(value * pow10(power) >= value * pow10((k + 1) as nat)) by (nonlinear_arith)
                    requires
                        value >= 1,
                        pow10(power) >= pow10((k + 1) as nat),
                ;
            }
            return None;
        }
        acc = acc * 10;
        k = k + 1;
    }
    Some(acc)
}

/// Reads `text` as an amount of ether, in attoether. `Some` for a number of
/// at most `i128::MAX` attoether, `None` for any other text.
pub fn read_atto(text: &str) -> (r: Option<i128>)
    ensures
        match r {
            Some(atto) => parsed_atto(text@) == Some(atto as int),
            None => parsed_atto(text@) is None,
        },
{
    let ghost s = text@;
    let bytes = match ascii_bytes(text) {
        Some(bytes) => bytes,
        None => {
            proof {
                if is_number_literal(s) {
                    lemma_number_is_ascii(s);
                }
            }
            return None;
        },
    };
    let n: usize = bytes.len();
    let mark: usize = find_mark(bytes, Ghost(s));
    let ghost mantissa = mantissa_part(s);
    let found = match scan_mantissa(bytes, mark, Ghost(s)) {
        Some(found) => found,
        None => {
            return None;
        },
    };
    let start: usize = found.start;
    let end: usize = found.end;
    let (exponent_negative, e) = if mark < n {
        match read_exponent(bytes, mark + 1, Ghost(s)) {
            Some(exponent) => exponent,
            None => {
                return None;
            },
        }
    } else {
        (false, 0u128)
    };
    assert(is_number_literal(s));
    assert(has_minus(s) == found.negative) by {
        assert(mantissa[0] == s[0]);
    }
    let ghost digits = literal_digits(s);
    let ghost places = literal_places(s);
    let ghost exponent_size: nat = if mark < n {
        numeral_value(exponent_part(s).skip(sign_len(exponent_part(s)) as int))
    } else {
        0
    };
    assert(stands_for(e, exponent_size));
    assert(literal_exponent(s) == if exponent_negative {
        -(exponent_size as int)
    } else {
        exponent_size as int
    });
    let whole_len: usize = end - start;
    let fraction_len: usize = if end < mark {
        mark - end - 1
    } else {
        0
    };
    let digits_len: usize = whole_len + fraction_len;
    assert(digits.len() == digits_len);
    assert(all_digits(digits)) by {
        let whole = whole_part(mantissa);
        let fraction = fraction_part(mantissa);
        assert forall|i: int| 0 <= i < digits.len() implies is_digit(#[trigger] digits[i]) by {
            if i < whole.len() {
                assert(digits[i] == whole[i]);
            } else {
                assert(digits[i] == fraction[i - whole.len()]);
            }
        }
    }
    if exponent_negative && e >= whole_len as u128 + 18 {
        assert(places <= 0);
        return Some(0);
    }
    let reach: u128 = if exponent_negative {
        whole_len as u128 + 18 - e
    } else {
        whole_len as u128 + 18 + e
    };
    let take: usize = if reach >= digits_len as u128 {
        digits_len
    } else {
        reach as usize
    };
    let pad: u128 = if reach > digits_len as u128 {
        reach - digits_len as u128
    } else {
        0
    };
    assert(places >= 1);
    assert(e <= EXPONENT_CAP ==> places == reach);
    assert(e > EXPONENT_CAP ==> places > digits_len + 38 && pad > 38);
    let collected = collect_digits(bytes, start, end, mark, Ghost(s), Ghost(digits));
    let leading: u128 = match read_leading(&collected, take, Ghost(digits)) {
        Some(leading) => leading,
        None => {
            proof {
                if places > digits.len() {
                    assert(digits.take(take as int) =~= digits);
                    lemma_pow10_grows(0, (places - digits.len()) as nat);
                    let value = numeral_value(digits);
                    let power = pow10((places - digits.len()) as nat);
                    assert(value * power >= value) by (nonlinear_arith)
                        requires
                            power >= 1,
                    ;
                }
            }
            return None;
        },
    };
    let magnitude: u128 = if pad > 0 {
        assert(digits.take(take as int) =~= digits);
        match write_zeros(leading, pad, Ghost((places - digits.len()) as nat)) {
            Some(magnitude) => magnitude,
            None => {
                return None;
            },
        }
    } else {
        leading
    };
    assert(magnitude == literal_magnitude(s));
    let atto: i128 = magnitude as i128;
    if found.negative {
        Some(-atto)
    } else {
        Some(atto)
    }
}

} // verus!
