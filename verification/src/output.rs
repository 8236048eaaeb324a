//! What a mining call hands back: the time the search took and the winning
//! candidate as a hexadecimal gas price.

use crate::uint256::Uint256;
use std::time::Duration;
use vstd::prelude::*;
use vstd::string::*;

verus! {

/// The lower-case hexadecimal digit for a number below sixteen.
pub open spec fn hex_digit(nibble: nat) -> char {
    if nibble < 10 {
        (0x30 + nibble) as u8 as char
    } else {
        (0x61 + nibble - 10) as u8 as char
    }
}

/// The lower-case hexadecimal text of a byte string: two digits to a byte,
/// the high digit first.
pub open spec fn hex_text(bytes: Seq<u8>) -> Seq<char> {
    Seq::new(
        2 * bytes.len(),
        |i: int|
            if i % 2 == 0 {
                hex_digit((bytes[i / 2] / 16) as nat)
            } else {
                hex_digit((bytes[i / 2] % 16) as nat)
            },
    )
}

/// The gas price for a winning candidate: `0x` and the 64 hexadecimal digits
/// of its big-endian bytes.
pub open spec fn gas_price_text(winner: Seq<u8>) -> Seq<char> {
    seq!['0', 'x'] + hex_text(winner)
}

/// Calls `alloy_primitives::hex::encode`. The contract claims what the
/// crate documents: each byte becomes two lower-case hexadecimal digits, the
/// high one first, in the order of the bytes.
#[verifier::external_body]
fn hex_encode(bytes: &[u8]) -> (text: String)
    ensures
        text@ == hex_text(bytes@),
{
    alloy_primitives::hex::encode(bytes)
}

/// The gas price for a winning candidate.
pub fn gas_price(winner: &Uint256) -> (text: String)
    ensures
        text@ == gas_price_text(winner@),
        text@.len() == 66,
{
    let digits = hex_encode(&winner.bytes);
    proof {
        reveal_strlit("0x");
        assert("0x"@ =~= seq!['0', 'x']);
    }
    String::from_str("0x").concat(digits.as_str())
}

/// The result of a successful mining call.
pub struct MiningOutput {
    /// The wall-clock time that the search took.
    pub duration: Duration,
    /// The winning candidate, as `0x` and 64 hexadecimal digits.
    pub gas_price: String,
}

impl MiningOutput {
    /// The output for a search that took `duration` and was won by `winner`.
    pub fn new(duration: Duration, winner: &Uint256) -> (output: MiningOutput)
        ensures
            output.duration == duration,
            output.gas_price@ == gas_price_text(winner@),
    {
        MiningOutput { duration, gas_price: gas_price(winner) }
    }
}

/// Distinct numbers below sixteen have distinct hexadecimal digits.
pub proof fn lemma_hex_digit_is_injective(a: nat, b: nat)
    requires
        a < 16,
        b < 16,
        hex_digit(a) == hex_digit(b),
    ensures
        a == b,
{
    assert(hex_digit(a) as int == if a < 10 {
        0x30 + a as int
    } else {
        0x57 + a as int
    });
    assert(hex_digit(b) as int == if b < 10 {
        0x30 + b as int
    } else {
        0x57 + b as int
    });
}

/// A gas price spells one candidate only: two candidates with the same gas
/// price are the same integer, so a caller reads the winner back from the
/// text without loss.
pub proof fn lemma_gas_price_determines_candidate(first: Uint256, second: Uint256)
    requires
        gas_price_text(first@) == gas_price_text(second@),
    ensures
        first == second,
{
    assert forall|k: int| 0 <= k < 32 implies first.bytes[k] == second.bytes[k] by {
        let x = first@[k];
        let y = second@[k];
        let high = 2 + 2 * k;
        let low = 3 + 2 * k;
        assert(gas_price_text(first@)[high] == hex_text(first@)[2 * k]);
        assert(gas_price_text(second@)[high] == hex_text(second@)[2 * k]);
        assert(gas_price_text(first@)[low] == hex_text(first@)[2 * k + 1]);
        assert(gas_price_text(second@)[low] == hex_text(second@)[2 * k + 1]);
        lemma_hex_digit_is_injective((x / 16) as nat, (y / 16) as nat);
        lemma_hex_digit_is_injective((x % 16) as nat, (y % 16) as nat);
    }
    assert(first.bytes =~= second.bytes);
}

} // verus!
