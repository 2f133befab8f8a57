//! Account addresses of the destination chain: 20 bytes.

use crate::word::{
    all_hex_digits, be_bytes, be_value, hex_body, hex_digit_value, lemma_be_bytes_suffix,
    lemma_be_value_of_be_bytes, pow256, u256_to_big_endian, Word,
};
use std::str::FromStr;
use vstd::prelude::*;

verus! {

/// 2^160, the number of addresses.
pub open spec fn address_modulus() -> nat {
    0x1_0000_0000_0000_0000_0000_0000_0000_0000_0000_0000nat
}

/// A 20-byte account address, most significant byte first.
#[derive(Clone, Copy, Debug, PartialEq, Eq, PartialOrd, Ord, Hash)]
pub struct Address {
    pub bytes: [u8; 20],
}

impl View for Address {
    type V = Seq<u8>;

    open spec fn view(&self) -> Seq<u8> {
        self.bytes@
    }
}

/// The address held in the low 20 bytes of a word. The high 12 bytes are
/// dropped, whatever they hold.
pub fn u256_to_address(value: Word) -> (address: Address)
    ensures
        address@ == be_bytes(value@, 20),
        address@ == be_bytes(value@, 32).subrange(12, 32),
        be_value(address@) == value@ % address_modulus(),
{
    let b = u256_to_big_endian(value);
    let address = Address {
        bytes: [
            b[12],
            b[13],
            b[14],
            b[15],
            b[16],
            b[17],
            b[18],
            b[19],
            b[20],
            b[21],
            b[22],
            b[23],
            b[24],
            b[25],
            b[26],
            b[27],
            b[28],
            b[29],
            b[30],
            b[31],
        ],
    };
    proof {
        lemma_be_bytes_suffix(value@, 20, 12);
        assert(address@ =~= be_bytes(value@, 32).subrange(12, 32));
        lemma_low_bytes_value(value@);
    }
    address
}

/// The low 20 bytes of a number denote the number modulo 2^160.
pub proof fn lemma_low_bytes_value(n: nat)
    ensures
        be_value(be_bytes(n, 20)) == n % address_modulus(),
{
    lemma_be_value_of_be_bytes(n, 20);
    assert(pow256(20) == address_modulus()) by {
        reveal_with_fuel(pow256, 21);
    }
}

/// True for the blanks that may stand anywhere among the digits of an
/// address: space, carriage return, line feed and tab.
pub open spec fn is_hex_blank(c: char) -> bool {
    c == ' ' || c == '\r' || c == '\n' || c == '\t'
}

/// The text with its blanks taken out.
pub open spec fn without_blanks(s: Seq<char>) -> Seq<char>
    decreases s.len(),
{
    if s.len() == 0 {
        s
    } else if is_hex_blank(s.last()) {
        without_blanks(s.drop_last())
    } else {
        without_blanks(s.drop_last()).push(s.last())
    }
}

/// The bytes that pairs of hexadecimal digits denote, first pair first.
pub open spec fn hex_pairs(digits: Seq<char>) -> Seq<u8> {
    Seq::new(
        digits.len() / 2,
        |i: int| (16 * hex_digit_value(digits[2 * i]) + hex_digit_value(digits[2 * i + 1])) as u8,
    )
}

/// The digits of an address text: what is left of it without one leading
/// `0x` and without blanks.
pub open spec fn address_digits(s: Seq<char>) -> Seq<char> {
    without_blanks(hex_body(s))
}

/// True when the text spells an address: an optional `0x`, then exactly 40
/// hexadecimal digits, with blanks allowed among them.
pub open spec fn is_address_text(s: Seq<char>) -> bool {
    address_digits(s).len() == 40 && all_hex_digits(address_digits(s))
}

/// Calls `ethers_core::types::Address::from_str`.
///
/// Trusted: the call drops one leading `0x`, skips spaces, carriage returns,
/// line feeds and tabs, and accepts the rest exactly when it is 40
/// hexadecimal digits of either case; the address holds the 20 bytes that
/// the digit pairs denote, in order. Any other text is an error.
#[verifier::external_body]
pub(crate) fn h160_from_str(text: &str) -> (r: Option<Address>)
    ensures
        r is Some <==> is_address_text(text@),
        r matches Some(a) ==> a@ == hex_pairs(address_digits(text@)),
{
    match ethers_core::types::Address::from_str(text) {
        Ok(a) => Some(Address { bytes: a.0 }),
        Err(_) => None,
    }
}

} // verus!
