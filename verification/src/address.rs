//! Account addresses: the textual shape, and parsing with the mixed-case
//! checksum.

use crate::error::MiningError;
use alloy_primitives::AddressError;
use vstd::prelude::*;
use vstd::string::*;
use vstd::utf8::*;

verus! {

/// Whether `c` is one of `0`-`9`, `a`-`f`, `A`-`F`.
pub open spec fn is_hex_digit(c: char) -> bool {
    ||| '0' <= c <= '9'
    ||| 'a' <= c <= 'f'
    ||| 'A' <= c <= 'F'
}

/// The number that the hexadecimal digit `c` stands for.
pub open spec fn hex_digit_value(c: char) -> nat {
    if '0' <= c <= '9' {
        (c as nat - '0' as nat) as nat
    } else if 'a' <= c <= 'f' {
        (c as nat - 'a' as nat + 10) as nat
    } else {
        (c as nat - 'A' as nat + 10) as nat
    }
}

/// The shape of an address: `0x` followed by forty hexadecimal digits.
pub open spec fn is_address_text(text: Seq<char>) -> bool {
    &&& text.len() == 42
    &&& text[0] == '0'
    &&& text[1] == 'x'
    &&& forall|i: int| 2 <= i < 42 ==> is_hex_digit(#[trigger] text[i])
}

/// The twenty bytes that the forty digits of an address text spell, two
/// digits to a byte, the high digit first.
pub open spec fn address_bytes(text: Seq<char>) -> Seq<u8> {
    Seq::new(
        20,
        |i: int| (hex_digit_value(text[2 + 2 * i]) * 16 + hex_digit_value(text[3 + 2 * i])) as u8,
    )
}

/// A 20-byte account address.
#[derive(Clone, Copy, Debug, PartialEq, Eq)]
pub struct Address {
    pub bytes: [u8; 20],
}

impl View for Address {
    type V = Seq<u8>;

    open spec fn view(&self) -> Seq<u8> {
        self.bytes@
    }
}

/// Whether the byte `b` is an ASCII hexadecimal digit.
fn is_hex_byte(b: u8) -> (r: bool)
    ensures
        r == is_hex_digit(b as char),
{
    (0x30 <= b && b <= 0x39) || (0x61 <= b && b <= 0x66) || (0x41 <= b && b <= 0x46)
}

/// Whether `value` has the shape of an address: `0x` followed by forty
/// hexadecimal digits.
pub fn is_address(value: &str) -> (valid: bool)
    ensures
        valid == is_address_text(value@),
{
    proof {
        if is_address_text(value@) {
            assert(is_ascii_chars(value@));
        }
        if is_ascii_chars(value@) {
            is_ascii_chars_encode_utf8(value@);
        }
    }
    if value.len() != 42 || !value.is_ascii() {
        return false;
    }
    let bytes = value.as_bytes();
    if bytes[0] != 0x30 || bytes[1] != 0x78 {
        return false;
    }
    let mut i: usize = 2;
    while i < 42
        invariant
            2 <= i <= 42,
            bytes@.len() == 42,
            value@.len() == 42,
            forall|j: int| 0 <= j < 42 ==> value@[j] as u8 == bytes@[j],
            is_ascii_chars(value@),
            forall|j: int| 2 <= j < i ==> is_hex_digit(#[trigger] value@[j]),
        decreases 42 - i,
    {
        if !is_hex_byte(bytes[i]) {
            assert(!is_hex_digit(value@[i as int]));
            return false;
        }
        i = i + 1;
    }
    true
}

/// The error of `alloy_primitives::Address::parse_checksummed`, carried
/// through unread.
#[verifier::external_type_specification]
#[verifier::external_body]
pub struct ExAddressError(AddressError);

/// What checksummed parsing makes of `text`: the address it spells where the
/// letter case of its digits is the mixed-case checksum of that address, and
/// nothing otherwise.
pub uninterp spec fn checksummed_address(text: Seq<char>) -> Option<Seq<u8>>;

/// Calls `alloy_primitives::Address::parse_checksummed` with no chain id.
/// The contract names the outcome, which depends on `text` alone, and claims
/// two things of a success: `text` is `0x` followed by forty hexadecimal
/// digits, and the address holds the bytes those digits spell. Which letter
/// case passes the checksum is left to the named outcome.
#[verifier::external_body]
fn parse_checksummed(text: &str) -> (outcome: Result<[u8; 20], AddressError>)
    ensures
        outcome is Ok ==> checksummed_address(text@) == Some(outcome->Ok_0@),
        outcome is Ok ==> is_address_text(text@) && outcome->Ok_0@ == address_bytes(text@),
        outcome is Err ==> checksummed_address(text@) is None,
{
    match alloy_primitives::Address::parse_checksummed(text, None) {
        Ok(address) => Ok(address.0.0),
        Err(error) => Err(error),
    }
}

/// Turns the outcome of checksummed parsing into an address or this
/// library's error.
pub fn address_from_parse(outcome: Result<[u8; 20], AddressError>) -> (r: Result<
    Address,
    MiningError,
>)
    ensures
        outcome is Ok ==> r is Ok && r->Ok_0.bytes == outcome->Ok_0,
        outcome is Err ==> r == Err::<Address, MiningError>(MiningError::InvalidAddressFormat),
{
    match outcome {
        Ok(bytes) => Ok(Address { bytes }),
        Err(_) => Err(MiningError::InvalidAddressFormat),
    }
}

/// Validates and parses an address text. A text of the wrong shape is
/// rejected as `InvalidAddress` before anything else is done; one of the
/// right shape is parsed with its checksum, and rejected as
/// `InvalidAddressFormat` where the checksum does not hold.
pub fn parse_address(text: &str) -> (r: Result<Address, MiningError>)
    ensures
        !is_address_text(text@) ==> r == Err::<Address, MiningError>(MiningError::InvalidAddress),
        is_address_text(text@) ==> match checksummed_address(text@) {
            Some(bytes) => r is Ok && r->Ok_0@ == bytes && bytes == address_bytes(text@),
            None => r == Err::<Address, MiningError>(MiningError::InvalidAddressFormat),
        },
{
    if !is_address(text) {
        return Err(MiningError::InvalidAddress);
    }
    address_from_parse(parse_checksummed(text))
}

} // verus!
