//! Unsigned 256-bit integers held as 32 big-endian bytes.

use vstd::prelude::*;

verus! {

/// The number that a big-endian byte string denotes.
pub open spec fn be_value(bytes: Seq<u8>) -> nat
    decreases bytes.len(),
{
    if bytes.len() == 0 {
        0
    } else {
        be_value(bytes.drop_last()) * 256 + bytes.last() as nat
    }
}

/// 256 raised to the power `n`.
pub open spec fn pow256(n: nat) -> nat
    decreases n,
{
    if n == 0 {
        1
    } else {
        256 * pow256((n - 1) as nat)
    }
}

/// The largest number that 32 bytes can hold: two to the power 256, less one.
pub open spec fn u256_max() -> nat {
    0xffff_ffff_ffff_ffff_ffff_ffff_ffff_ffff_ffff_ffff_ffff_ffff_ffff_ffff_ffff_ffffnat
}

/// Bytewise exclusive or of two byte strings of one length.
pub open spec fn xor_bytes(a: Seq<u8>, b: Seq<u8>) -> Seq<u8> {
    Seq::new(a.len(), |i: int| a[i] ^ b[i])
}

/// The big-endian encoding of `n` in `len` bytes; the low `len` bytes of `n`
/// where it does not fit.
pub open spec fn be_bytes(n: nat, len: nat) -> Seq<u8>
    decreases len,
{
    if len == 0 {
        Seq::empty()
    } else {
        be_bytes(n / 256, (len - 1) as nat).push((n % 256) as u8)
    }
}

/// An unsigned 256-bit integer, most significant byte first.
#[derive(Clone, Copy, Debug, PartialEq, Eq)]
pub struct Uint256 {
    pub bytes: [u8; 32],
}

impl View for Uint256 {
    type V = Seq<u8>;

    open spec fn view(&self) -> Seq<u8> {
        self.bytes@
    }
}

impl Uint256 {
    /// The number this integer denotes.
    pub open spec fn value(&self) -> nat {
        be_value(self@)
    }

    /// The integer whose big-endian encoding is `bytes`.
    pub fn from_be_bytes(bytes: [u8; 32]) -> (r: Uint256)
        ensures
            r@ == bytes@,
    {
        Uint256 { bytes }
    }

    /// The big-endian encoding of this integer.
    pub fn to_be_bytes(&self) -> (r: [u8; 32])
        ensures
            r@ == self@,
    {
        self.bytes
    }

    /// The integer that denotes `n`.
    pub fn from_u32(n: u32) -> (r: Uint256)
        ensures
            r.value() == n,
            r@ == be_bytes(n as nat, 32),
    {
        let mut bytes: [u8; 32] = [0u8; 32];
        let b0: u8 = (n >> 24) as u8;
        let b1: u8 = ((n >> 16) & 0xff) as u8;
        let b2: u8 = ((n >> 8) & 0xff) as u8;
        let b3: u8 = (n & 0xff) as u8;
        bytes[28] = b0;
        bytes[29] = b1;
        bytes[30] = b2;
        bytes[31] = b3;
        proof {
            let low = bytes@.subrange(28, 32);
            lemma_be_value_leading_zeros(bytes@, 28);
            assert(low =~= seq![b0, b1, b2, b3]);
            lemma_be_value_of_four(b0, b1, b2, b3);
            assert(n == (((n >> 24) as u8) as u32) * 0x100_0000 + ((((n >> 16) & 0xff) as u8) as u32)
                * 0x1_0000 + ((((n >> 8) & 0xff) as u8) as u32) * 0x100 + (((n & 0xff) as u8) as u32))
                by (bit_vector);
            lemma_pow256_of_32();
            lemma_be_bytes_value(n as nat, 32);
            lemma_be_value_injective(bytes@, be_bytes(n as nat, 32));
        }
        Uint256 { bytes }
    }

    /// The largest integer.
    pub fn max_value() -> (r: Uint256)
        ensures
            r.value() == u256_max(),
    {
        let bytes: [u8; 32] = [0xffu8; 32];
        proof {
            lemma_be_value_all_ones(bytes@);
            lemma_pow256_of_32();
        }
        Uint256 { bytes }
    }

    /// Whether this integer is zero.
    pub fn is_zero(&self) -> (r: bool)
        ensures
            r == (self.value() == 0),
    {
        let mut i: usize = 0;
        while i < 32
            invariant
                i <= 32,
                forall|j: int| 0 <= j < i ==> self.bytes[j] == 0,
            decreases 32 - i,
        {
            if self.bytes[i] != 0 {
                proof {
                    lemma_be_value_zero(self@);
                }
                return false;
            }
            i = i + 1;
        }
        proof {
            lemma_be_value_zero(self@);
        }
        true
    }

    /// Whether this integer is at least `other`.
    pub fn ge(&self, other: &Uint256) -> (r: bool)
        ensures
            r == (self.value() >= other.value()),
    {
        let mut i: usize = 0;
        while i < 32
            invariant
                i <= 32,
                forall|j: int| 0 <= j < i ==> self.bytes[j] == other.bytes[j],
            decreases 32 - i,
        {
            if self.bytes[i] > other.bytes[i] {
                proof {
                    lemma_be_value_first_difference(self@, other@, i as int);
                }
                return true;
            }
            if self.bytes[i] < other.bytes[i] {
                proof {
                    lemma_be_value_first_difference(other@, self@, i as int);
                }
                return false;
            }
            i = i + 1;
        }
        assert(self@ =~= other@);
        true
    }

    /// The quotient of this integer by `divisor`, rounded down; `None` where
    /// `divisor` is zero.
    pub fn checked_div(&self, divisor: &Uint256) -> (r: Option<Uint256>)
        ensures
            divisor.value() == 0 ==> r is None,
            divisor.value() != 0 ==> r is Some && r->0.value() == self.value() / divisor.value(),
    {
        if divisor.is_zero() {
            None
        } else {
            Some(quotient(self, divisor))
        }
    }

    /// Bitwise exclusive or.
    pub fn xor(&self, other: &Uint256) -> (r: Uint256)
        ensures
            r@ == xor_bytes(self@, other@),
    {
        let mut bytes: [u8; 32] = [0u8; 32];
        let mut i: usize = 0;
        while i < 32
            invariant
                i <= 32,
                forall|j: int| 0 <= j < i ==> bytes[j] == self.bytes[j] ^ other.bytes[j],
            decreases 32 - i,
        {
            bytes[i] = self.bytes[i] ^ other.bytes[i];
            i = i + 1;
        }
        assert(bytes@ =~= xor_bytes(self@, other@));
        Uint256 { bytes }
    }
}

/// Divides with `alloy_primitives::U256`: both operands are read with
/// `from_be_bytes`, divided with the `/` operator, and the quotient is
/// written with `to_be_bytes`. The contract claims that the result denotes
/// the quotient of the two numbers rounded down. The operator panics on a
/// zero divisor, which `requires` leaves out.
#[verifier::external_body]
fn quotient(dividend: &Uint256, divisor: &Uint256) -> (q: Uint256)
    requires
        divisor.value() != 0,
    ensures
        q.value() == dividend.value() / divisor.value(),
{
    let n = alloy_primitives::U256::from_be_bytes::<32>(dividend.bytes);
    let d = alloy_primitives::U256::from_be_bytes::<32>(divisor.bytes);
    Uint256 { bytes: (n / d).to_be_bytes::<32>() }
}

/// Encoding a number that fits in `len` bytes and reading the bytes back
/// gives the number.
pub proof fn lemma_be_bytes_value(n: nat, len: nat)
    requires
        n < pow256(len),
    ensures
        be_bytes(n, len).len() == len,
        be_value(be_bytes(n, len)) == n,
    decreases len,
{
    lemma_be_bytes_len(n, len);
    if len > 0 {
        let front = be_bytes(n / 256, (len - 1) as nat);
        lemma_be_bytes_value(n / 256, (len - 1) as nat);
        assert(be_bytes(n, len).drop_last() =~= front);
    }
}

/// An encoding in `len` bytes has `len` bytes.
pub proof fn lemma_be_bytes_len(n: nat, len: nat)
    ensures
        be_bytes(n, len).len() == len,
    decreases len,
{
    if len > 0 {
        lemma_be_bytes_len(n / 256, (len - 1) as nat);
    }
}

/// A byte string denotes a number below 256 to the power of its length.
pub proof fn lemma_be_value_bound(bytes: Seq<u8>)
    ensures
        be_value(bytes) < pow256(bytes.len()),
    decreases bytes.len(),
{
    if bytes.len() > 0 {
        lemma_be_value_bound(bytes.drop_last());
    }
}

/// 256 to the power 32 is two to the power 256.
pub proof fn lemma_pow256_of_32()
    ensures
        pow256(32) == u256_max() + 1,
{
    assert(pow256(4) == 0x1_0000_0000) by {
        reveal_with_fuel(pow256, 5);
    }
    assert(pow256(8) == 0x1_0000_0000_0000_0000) by {
        lemma_pow256_add(4, 4);
    }
    assert(pow256(16) == 0x1_0000_0000_0000_0000_0000_0000_0000_0000) by {
        lemma_pow256_add(8, 8);
    }
    lemma_pow256_add(16, 16);
}

/// Powers of 256 multiply by adding exponents.
pub proof fn lemma_pow256_add(m: nat, n: nat)
    ensures
        pow256(m + n) == pow256(m) * pow256(n),
    decreases m,
{
    if m == 0 {
        assert(pow256(0 + n) == 1 * pow256(n));
    } else {
        lemma_pow256_add((m - 1) as nat, n);
        assert((m - 1) as nat + n == (m + n - 1) as nat);
        assert(256 * (pow256((m - 1) as nat) * pow256(n)) == (256 * pow256((m - 1) as nat))
            * pow256(n)) by (nonlinear_arith);
    }
}

/// A byte string denotes zero exactly when all its bytes are zero.
pub proof fn lemma_be_value_zero(bytes: Seq<u8>)
    ensures
        be_value(bytes) == 0 <==> (forall|i: int| 0 <= i < bytes.len() ==> bytes[i] == 0),
    decreases bytes.len(),
{
    if bytes.len() > 0 {
        let front = bytes.drop_last();
        lemma_be_value_zero(front);
        if be_value(bytes) == 0 {
            assert forall|i: int| 0 <= i < bytes.len() implies bytes[i] == 0 by {
                if i < front.len() {
                    assert(front[i] == bytes[i]);
                }
            }
        }
        if forall|i: int| 0 <= i < bytes.len() ==> bytes[i] == 0 {
            assert forall|i: int| 0 <= i < front.len() implies front[i] == 0 by {
                assert(front[i] == bytes[i]);
            }
        }
    }
}

/// Of two byte strings of one length that first differ at `at`, the one with
/// the larger byte there denotes the larger number.
pub proof fn lemma_be_value_first_difference(a: Seq<u8>, b: Seq<u8>, at: int)
    requires
        a.len() == b.len(),
        0 <= at < a.len(),
        forall|j: int| 0 <= j < at ==> a[j] == b[j],
        a[at] > b[at],
    ensures
        be_value(a) > be_value(b),
    decreases a.len(),
{
    let a_front = a.drop_last();
    let b_front = b.drop_last();
    if at == a.len() - 1 {
        assert(a_front =~= b_front);
    } else {
        lemma_be_value_first_difference(a_front, b_front, at);
    }
}

/// Byte strings of one length that denote one number are equal.
pub proof fn lemma_be_value_injective(a: Seq<u8>, b: Seq<u8>)
    requires
        a.len() == b.len(),
        be_value(a) == be_value(b),
    ensures
        a == b,
    decreases a.len(),
{
    if a.len() > 0 {
        lemma_be_value_injective(a.drop_last(), b.drop_last());
        assert(a =~= a.drop_last().push(a.last()));
        assert(b =~= b.drop_last().push(b.last()));
    } else {
        assert(a =~= b);
    }
}

/// Leading zero bytes do not change the number that a byte string denotes.
pub proof fn lemma_be_value_leading_zeros(bytes: Seq<u8>, zeros: int)
    requires
        0 <= zeros <= bytes.len(),
        forall|i: int| 0 <= i < zeros ==> bytes[i] == 0,
    ensures
        be_value(bytes) == be_value(bytes.subrange(zeros, bytes.len() as int)),
    decreases bytes.len(),
{
    let tail = bytes.subrange(zeros, bytes.len() as int);
    if zeros == bytes.len() {
        lemma_be_value_zero(bytes);
        assert(tail.len() == 0);
    } else {
        let front = bytes.drop_last();
        lemma_be_value_leading_zeros(front, zeros);
        assert(tail.drop_last() =~= front.subrange(zeros, front.len() as int));
        assert(tail.last() == bytes.last());
    }
}

/// Four bytes denote the number with those base-256 digits.
pub proof fn lemma_be_value_of_four(b0: u8, b1: u8, b2: u8, b3: u8)
    ensures
        be_value(seq![b0, b1, b2, b3]) == b0 * 0x100_0000 + b1 * 0x1_0000 + b2 * 0x100 + b3,
{
    let s4 = seq![b0, b1, b2, b3];
    let s3 = seq![b0, b1, b2];
    let s2 = seq![b0, b1];
    let s1 = seq![b0];
    assert(s4.drop_last() =~= s3);
    assert(s3.drop_last() =~= s2);
    assert(s2.drop_last() =~= s1);
    assert(s1.drop_last() =~= Seq::<u8>::empty());
    assert(be_value(s1.drop_last()) == 0);
    assert(be_value(s1) == b0);
    assert(be_value(s2) == b0 * 256 + b1);
    assert(be_value(s3) == (b0 * 256 + b1) * 256 + b2);
}

/// A byte string of all-ones bytes denotes 256 to the power of its length,
/// less one.
pub proof fn lemma_be_value_all_ones(bytes: Seq<u8>)
    requires
        forall|i: int| 0 <= i < bytes.len() ==> bytes[i] == 0xff,
    ensures
        be_value(bytes) + 1 == pow256(bytes.len()),
    decreases bytes.len(),
{
    if bytes.len() > 0 {
        lemma_be_value_all_ones(bytes.drop_last());
    }
}

} // verus!
