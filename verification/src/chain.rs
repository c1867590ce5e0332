//! What the chain hands over: addresses, transaction hashes and token ids,
//! and the text that each is written as.

use crate::text::{
    decimal_prefix, decimal_text, hex_text, lemma_decimal_text_step, push_hex,
    push_reversed_digits, reversed_digits_text,
};
use vstd::prelude::*;

verus! {

/// Two to the power 64: the weight of the second limb of a token id.
pub const LIMB: u128 = 0x1_0000_0000_0000_0000;

/// The text of `bytes` as the chain's tools write them: `0x`, then two
/// lowercase hexadecimal digits for each byte.
pub open spec fn prefixed_hex(bytes: Seq<u8>) -> Seq<char> {
    seq!['0', 'x'] + hex_text(bytes)
}

/// The number that four 64-bit limbs stand for, the lowest limb first.
pub open spec fn limbs_value(limbs: Seq<u64>) -> nat {
    (limbs[0] as nat) + (limbs[1] as nat) * 0x1_0000_0000_0000_0000 + (limbs[2] as nat)
        * 0x1_0000_0000_0000_0000_0000_0000_0000_0000 + (limbs[3] as nat)
        * 0x1_0000_0000_0000_0000_0000_0000_0000_0000_0000_0000_0000_0000
}

/// One tenth of the number that `limbs` stand for, rounded down, and what
/// is left over.
pub fn tenth_of(limbs: [u64; 4]) -> (r: ([u64; 4], u8))
    ensures
        limbs_value(r.0@) == limbs_value(limbs@) / 10,
        r.1 == limbs_value(limbs@) % 10,
{
    let c3: u128 = limbs[3] as u128;
    let q3: u128 = c3 / 10;
    let c2: u128 = (c3 % 10) * LIMB + limbs[2] as u128;
    let q2: u128 = c2 / 10;
    let c1: u128 = (c2 % 10) * LIMB + limbs[1] as u128;
    let q1: u128 = c1 / 10;
    let c0: u128 = (c1 % 10) * LIMB + limbs[0] as u128;
    let q0: u128 = c0 / 10;
    let d: u8 = (c0 % 10) as u8;
    let next: [u64; 4] = [q0 as u64, q1 as u64, q2 as u64, q3 as u64];
    proof {
        assert(limbs_value(limbs@) == 10 * limbs_value(next@) + d);
    }
    (next, d)
}

/// Appends `0x` and the hexadecimal digits of `bytes` to `out`.
fn push_prefixed_hex(out: &mut String, bytes: &[u8])
    ensures
        final(out)@ == old(out)@ + prefixed_hex(bytes@),
{
    proof {
        reveal_strlit("0x");
    }
    out.append("0x");
    assert(out@ =~= old(out)@ + seq!['0', 'x']);
    push_hex(out, bytes);
    assert(out@ =~= old(out)@ + prefixed_hex(bytes@));
}

/// The address of an account or a contract: twenty bytes.
#[derive(Clone, Copy, Debug, PartialEq, Eq)]
pub struct Address {
    pub bytes: [u8; 20],
}

impl View for Address {
    type V = Seq<u8>;

    /// The twenty bytes of the address.
    open spec fn view(&self) -> Seq<u8> {
        self.bytes@
    }
}

impl Address {
    /// The address made of `bytes`.
    pub fn new(bytes: [u8; 20]) -> (r: Address)
        ensures
            r@ == bytes@,
    {
        Address { bytes }
    }

    /// The text of the address.
    pub open spec fn text(&self) -> Seq<char> {
        prefixed_hex(self@)
    }

    /// The address in lowercase hexadecimal with the prefix `0x`, 42
    /// characters in all.
    pub fn to_text(&self) -> (r: String)
        ensures
            r@ == self.text(),
    {
        let mut out = String::new();
        push_prefixed_hex(&mut out, self.bytes.as_slice());
        assert(out@ =~= self.text());
        out
    }
}

/// The hash of a transaction: thirty-two bytes.
#[derive(Clone, Copy, Debug, PartialEq, Eq)]
pub struct TxHash {
    pub bytes: [u8; 32],
}

impl View for TxHash {
    type V = Seq<u8>;

    /// The thirty-two bytes of the hash.
    open spec fn view(&self) -> Seq<u8> {
        self.bytes@
    }
}

impl TxHash {
    /// The hash made of `bytes`.
    pub fn new(bytes: [u8; 32]) -> (r: TxHash)
        ensures
            r@ == bytes@,
    {
        TxHash { bytes }
    }

    /// The text of the hash.
    pub open spec fn text(&self) -> Seq<char> {
        prefixed_hex(self@)
    }

    /// The hash in lowercase hexadecimal with the prefix `0x`, 66 characters
    /// in all.
    pub fn to_text(&self) -> (r: String)
        ensures
            r@ == self.text(),
    {
        let mut out = String::new();
        push_prefixed_hex(&mut out, self.bytes.as_slice());
        assert(out@ =~= self.text());
        out
    }
}

/// The id of a token within its collection: an unsigned number of 256 bits,
/// held as four limbs of 64 bits, the lowest first.
#[derive(Clone, Copy, Debug, PartialEq, Eq)]
pub struct TokenId {
    pub limbs: [u64; 4],
}

impl View for TokenId {
    type V = nat;

    /// The id as a number.
    open spec fn view(&self) -> nat {
        limbs_value(self.limbs@)
    }
}

impl TokenId {
    /// The id made of `limbs`, the lowest limb first.
    pub fn from_limbs(limbs: [u64; 4]) -> (r: TokenId)
        ensures
            r@ == limbs_value(limbs@),
    {
        TokenId { limbs }
    }

    /// The id `n`.
    pub fn from_u64(n: u64) -> (r: TokenId)
        ensures
            r@ == n,
    {
        TokenId { limbs: [n, 0, 0, 0] }
    }

    /// The text of the id: its decimal numeral.
    pub open spec fn text(&self) -> Seq<char> {
        decimal_text(self@)
    }

    /// Whether two ids are the same number.
    pub fn same_as(&self, other: &TokenId) -> (r: bool)
        ensures
            r == (self@ == other@),
    {
        self.limbs[0] == other.limbs[0] && self.limbs[1] == other.limbs[1] && self.limbs[2]
            == other.limbs[2] && self.limbs[3] == other.limbs[3]
    }

    /// Appends the decimal numeral of the id to `out`.
    pub fn append_to(&self, out: &mut String)
        ensures
            final(out)@ == old(out)@ + self.text(),
    {
        let mut rest: [u64; 4] = self.limbs;
        let ghost n: nat = self@;
        let mut digits: Vec<u8> = Vec::new();
        let mut first: bool = true;
        while first || rest[0] != 0 || rest[1] != 0 || rest[2] != 0 || rest[3] != 0
            invariant
                forall|i: int| 0 <= i < digits@.len() ==> digits@[i] < 10,
                first ==> digits@.len() == 0 && limbs_value(rest@) == n,
                !first ==> decimal_text(n) == decimal_prefix(limbs_value(rest@))
                    + reversed_digits_text(digits@),
            decreases if first { 1nat } else { 0nat }, limbs_value(rest@),
        {
            let ghost value = limbs_value(rest@);
            let ghost before = digits@;
            let (next, d) = tenth_of(rest);
            digits.push(d);
            proof {
                let tenth = limbs_value(next@);
                lemma_decimal_text_step(value);
                assert(reversed_digits_text(digits@) =~= seq![crate::text::digit_char(d as int)]
                    + reversed_digits_text(before));
                if first {
                    assert(before =~= Seq::<u8>::empty());
                    assert(decimal_text(n) =~= decimal_prefix(tenth) + reversed_digits_text(
                        digits@,
                    ));
                } else {
                    assert(value != 0);
                    assert(decimal_prefix(value) + reversed_digits_text(before)
                        =~= decimal_prefix(tenth) + reversed_digits_text(digits@));
                }
            }
            rest = next;
            first = false;
        }
        assert(decimal_text(n) =~= reversed_digits_text(digits@));
        push_reversed_digits(out, &digits);
    }

    /// The decimal numeral of the id.
    pub fn to_text(&self) -> (r: String)
        ensures
            r@ == self.text(),
    {
        let mut out = String::new();
        self.append_to(&mut out);
        assert(out@ =~= self.text());
        out
    }
}

} // verus!
