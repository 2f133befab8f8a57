//! 256-bit unsigned words, the integer type of every on-chain quantity.
//!
//! A [`Word`] is four 64-bit limbs, most significant first, so that the
//! derived ordering is the numeric one. Its view is the natural number it
//! denotes. Arithmetic and text conversion are done by `ethers_core`'s
//! `U256`; this module states what those operations return.

use ethers_core::types::U256;
use vstd::prelude::*;

verus! {

/// 2^256, one more than the largest value a word can hold.
pub open spec fn word_modulus() -> nat {
    0x1_0000_0000_0000_0000_0000_0000_0000_0000_0000_0000_0000_0000_0000_0000_0000_0000nat
}

/// An unsigned 256-bit integer.
#[derive(Clone, Copy, Debug, PartialEq, Eq, PartialOrd, Ord, Hash, Structural)]
pub struct Word {
    /// Bits 192..256.
    pub limb3: u64,
    /// Bits 128..192.
    pub limb2: u64,
    /// Bits 64..128.
    pub limb1: u64,
    /// Bits 0..64.
    pub limb0: u64,
}

/// The number that four limbs denote, the most significant first.
#[verifier::opaque]
pub open spec fn limbs_value(limb3: u64, limb2: u64, limb1: u64, limb0: u64) -> nat {
    (limb0 + limb1 * 0x1_0000_0000_0000_0000int + limb2
        * 0x1_0000_0000_0000_0000_0000_0000_0000_0000int + limb3
        * 0x1_0000_0000_0000_0000_0000_0000_0000_0000_0000_0000_0000_0000int) as nat
}

impl View for Word {
    type V = nat;

    open spec fn view(&self) -> nat {
        limbs_value(self.limb3, self.limb2, self.limb1, self.limb0)
    }
}

impl Word {
    /// Two words that denote the same number are the same word.
    pub proof fn lemma_view_injective(self, other: Word)
        ensures
            self@ == other@ <==> self == other,
    {
        reveal(limbs_value);
        if self@ == other@ {
            let base = 0x1_0000_0000_0000_0000int;
            let a2 = self.limb0 + self.limb1 * base;
            let b2 = other.limb0 + other.limb1 * base;
            let a3 = a2 + self.limb2 * 0x1_0000_0000_0000_0000_0000_0000_0000_0000int;
            let b3 = b2 + other.limb2 * 0x1_0000_0000_0000_0000_0000_0000_0000_0000int;
            assert(0 <= a2 < 0x1_0000_0000_0000_0000_0000_0000_0000_0000int);
            assert(0 <= b2 < 0x1_0000_0000_0000_0000_0000_0000_0000_0000int);
            assert(0 <= a3 < 0x1_0000_0000_0000_0000_0000_0000_0000_0000_0000_0000_0000_0000int);
            assert(0 <= b3 < 0x1_0000_0000_0000_0000_0000_0000_0000_0000_0000_0000_0000_0000int);
            assert(self.limb3 == other.limb3);
            assert(a3 == b3);
            assert(self.limb2 == other.limb2);
            assert(a2 == b2);
            assert(self.limb1 == other.limb1);
        }
    }

    /// The word zero.
    pub fn zero() -> (w: Word)
        ensures
            w@ == 0,
    {
        proof {
            reveal(limbs_value);
        }
        Word { limb3: 0, limb2: 0, limb1: 0, limb0: 0 }
    }

    /// The word that denotes `x`.
    pub fn from_u64(x: u64) -> (w: Word)
        ensures
            w@ == x,
    {
        proof {
            reveal(limbs_value);
        }
        Word { limb3: 0, limb2: 0, limb1: 0, limb0: x }
    }
}

/// True for the characters `0`-`9`, `a`-`f` and `A`-`F`.
pub open spec fn is_hex_digit(c: char) -> bool {
    ('0' <= c && c <= '9') || ('a' <= c && c <= 'f') || ('A' <= c && c <= 'F')
}

/// The number that a hexadecimal digit stands for.
pub open spec fn hex_digit_value(c: char) -> nat {
    if '0' <= c && c <= '9' {
        (c as nat - '0' as nat) as nat
    } else if 'a' <= c && c <= 'f' {
        (c as nat - 'a' as nat + 10) as nat
    } else {
        (c as nat - 'A' as nat + 10) as nat
    }
}

/// True when every character of `s` is a hexadecimal digit.
pub open spec fn all_hex_digits(s: Seq<char>) -> bool {
    forall|i: int| 0 <= i < s.len() ==> is_hex_digit(#[trigger] s[i])
}

/// The number that a string of hexadecimal digits denotes, most significant
/// digit first. The empty string denotes zero.
pub open spec fn hex_value(s: Seq<char>) -> nat
    decreases s.len(),
{
    if s.len() == 0 {
        0
    } else {
        16 * hex_value(s.drop_last()) + hex_digit_value(s.last())
    }
}

/// The text without one leading `0x`, if it has one.
pub open spec fn hex_body(s: Seq<char>) -> Seq<char> {
    if s.len() >= 2 && s[0] == '0' && s[1] == 'x' {
        s.subrange(2, s.len() as int)
    } else {
        s
    }
}

/// True when the text is a hexadecimal numeral of at most 256 bits: an
/// optional `0x`, then at most 64 hexadecimal digits (possibly none).
pub open spec fn is_hex_word(s: Seq<char>) -> bool {
    hex_body(s).len() <= 64 && all_hex_digits(hex_body(s))
}

/// The number that a byte string denotes, most significant byte first.
pub open spec fn be_value(bytes: Seq<u8>) -> nat
    decreases bytes.len(),
{
    if bytes.len() == 0 {
        0
    } else {
        256 * be_value(bytes.drop_last()) + bytes.last() as nat
    }
}

/// The low `len` bytes of `n`, most significant byte first.
pub open spec fn be_bytes(n: nat, len: nat) -> Seq<u8>
    decreases len,
{
    if len == 0 {
        Seq::empty()
    } else {
        be_bytes(n / 256, (len - 1) as nat).push((n % 256) as u8)
    }
}

/// `be_bytes(n, len)` has `len` bytes.
pub proof fn lemma_be_bytes_len(n: nat, len: nat)
    ensures
        be_bytes(n, len).len() == len,
    decreases len,
{
    if len > 0 {
        lemma_be_bytes_len(n / 256, (len - 1) as nat);
    }
}

/// The last `len` bytes of a longer big-endian rendering of `n` are the
/// rendering of `n` in `len` bytes.
pub proof fn lemma_be_bytes_suffix(n: nat, len: nat, extra: nat)
    ensures
        be_bytes(n, len + extra).subrange(extra as int, (len + extra) as int) == be_bytes(n, len),
    decreases len,
{
    lemma_be_bytes_len(n, len + extra);
    lemma_be_bytes_len(n, len);
    if len > 0 {
        let shorter = (len - 1) as nat;
        lemma_be_bytes_suffix(n / 256, shorter, extra);
        lemma_be_bytes_len(n / 256, shorter + extra);
        lemma_be_bytes_len(n / 256, shorter);
        assert(be_bytes(n, len + extra) == be_bytes(n / 256, shorter + extra).push(
            (n % 256) as u8,
        ));
        assert(be_bytes(n, len + extra).subrange(extra as int, (len + extra) as int)
            =~= be_bytes(n / 256, shorter + extra).subrange(
            extra as int,
            (shorter + extra) as int,
        ).push((n % 256) as u8));
    } else {
        assert(be_bytes(n, len + extra).subrange(extra as int, (len + extra) as int)
            =~= be_bytes(n, len));
    }
}

/// 256 to the power `k`.
pub open spec fn pow256(k: nat) -> nat
    decreases k,
{
    if k == 0 {
        1
    } else {
        256 * pow256((k - 1) as nat)
    }
}

/// Reading back the low `len` bytes of `n` gives `n` modulo 256^`len`.
pub proof fn lemma_be_value_of_be_bytes(n: nat, len: nat)
    ensures
        be_value(be_bytes(n, len)) == n % pow256(len),
    decreases len,
{
    if len > 0 {
        let shorter = (len - 1) as nat;
        let head = be_bytes(n / 256, shorter);
        lemma_be_value_of_be_bytes(n / 256, shorter);
        lemma_pow256_positive(shorter);
        assert(be_bytes(n, len).drop_last() =~= head);
        assert(be_bytes(n, len).last() == (n % 256) as u8);
        vstd::arithmetic::div_mod::lemma_mod_breakdown(
            n as int,
            256,
            pow256(shorter) as int,
        );
    } else {
        assert(pow256(0) == 1);
    }
}

/// Every power of 256 is positive.
pub proof fn lemma_pow256_positive(k: nat)
    ensures
        pow256(k) > 0,
    decreases k,
{
    if k > 0 {
        lemma_pow256_positive((k - 1) as nat);
    }
}

/// Calls `U256::from_str_radix` with radix 16 and hands the limbs over.
///
/// Trusted: the call accepts exactly the texts that are, after one optional
/// leading `0x`, at most 64 hexadecimal digits of either case, and returns the
/// number they denote; the empty digit string denotes zero. Any other text is
/// an error.
#[verifier::external_body]
pub(crate) fn u256_from_hex(text: &str) -> (r: Option<Word>)
    ensures
        r is Some <==> is_hex_word(text@),
        r matches Some(w) ==> w@ == hex_value(hex_body(text@)),
{
    match U256::from_str_radix(text, 16) {
        Ok(v) => Some(Word { limb3: v.0[3], limb2: v.0[2], limb1: v.0[1], limb0: v.0[0] }),
        Err(_) => None,
    }
}

/// Calls `U256::from_big_endian`.
///
/// Trusted: for at most 32 bytes the call returns the number that the bytes
/// denote, most significant byte first. It panics on a longer slice, which
/// the precondition leaves out.
#[verifier::external_body]
pub(crate) fn u256_from_big_endian(bytes: &[u8]) -> (w: Word)
    requires
        bytes@.len() <= 32,
    ensures
        w@ == be_value(bytes@),
{
    let v = U256::from_big_endian(bytes);
    Word { limb3: v.0[3], limb2: v.0[2], limb1: v.0[1], limb0: v.0[0] }
}

/// Calls `U256::to_big_endian` on a 32-byte buffer.
///
/// Trusted: the call fills the buffer with the 32 bytes of the number, most
/// significant byte first.
#[verifier::external_body]
pub(crate) fn u256_to_big_endian(w: Word) -> (bytes: [u8; 32])
    ensures
        bytes@ == be_bytes(w@, 32),
{
    let mut bytes = [0u8; 32];
    U256([w.limb0, w.limb1, w.limb2, w.limb3]).to_big_endian(&mut bytes);
    bytes
}

/// Calls `U256::checked_add`.
///
/// Trusted: the call returns the sum when it is below 2^256 and `None`
/// otherwise.
#[verifier::external_body]
pub(crate) fn u256_checked_add(a: Word, b: Word) -> (r: Option<Word>)
    ensures
        r is Some <==> a@ + b@ < word_modulus(),
        r matches Some(w) ==> w@ == a@ + b@,
{
    let x = U256([a.limb0, a.limb1, a.limb2, a.limb3]);
    match x.checked_add(U256([b.limb0, b.limb1, b.limb2, b.limb3])) {
        Some(v) => Some(Word { limb3: v.0[3], limb2: v.0[2], limb1: v.0[1], limb0: v.0[0] }),
        None => None,
    }
}

/// Calls `U256`'s division operator.
///
/// Trusted: for a divisor other than zero the call returns the quotient
/// rounded down. It panics on a zero divisor, which the precondition leaves
/// out.
#[verifier::external_body]
pub(crate) fn u256_div(a: Word, b: Word) -> (w: Word)
    requires
        b@ != 0,
    ensures
        w@ == a@ / b@,
{
    let v = U256([a.limb0, a.limb1, a.limb2, a.limb3]) / U256([b.limb0, b.limb1, b.limb2, b.limb3]);
    Word { limb3: v.0[3], limb2: v.0[2], limb1: v.0[1], limb0: v.0[0] }
}

} // verus!
