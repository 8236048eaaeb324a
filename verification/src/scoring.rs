//! The base value of a mining call and the score of a candidate against it.

use crate::address::Address;
use crate::keccak::{keccak256, keccak256_digest};
use crate::uint256::{
    be_bytes, be_value, lemma_be_value_bound, lemma_pow256_of_32, u256_max, xor_bytes, Uint256,
};
use vstd::prelude::*;

verus! {

/// The base value for an address and a nonce: the digest of the nonce as a
/// 32-byte big-endian integer, exclusive-or the digest of the address.
pub open spec fn base_value(address: Seq<u8>, nonce: u32) -> Seq<u8> {
    xor_bytes(keccak256_digest(be_bytes(nonce as nat, 32)), keccak256_digest(address))
}

/// The score that a divisor gives: the largest 256-bit number divided by it,
/// rounded down, and no score for a zero divisor.
pub open spec fn score_of_divisor(divisor: nat) -> Option<nat> {
    if divisor == 0 {
        None
    } else {
        Some(u256_max() / divisor)
    }
}

/// The score of a candidate's digest against a base: the divisor is the base
/// exclusive-or the digest.
pub open spec fn score_of_digest(base: Seq<u8>, digest: Seq<u8>) -> Option<nat> {
    score_of_divisor(be_value(xor_bytes(base, digest)))
}

/// The score of a candidate against a base.
pub open spec fn score_value(base: Seq<u8>, candidate: Seq<u8>) -> Option<nat> {
    score_of_digest(base, keccak256_digest(candidate))
}

/// Whether a candidate is accepted: it has a score, and the score is at
/// least the gas threshold.
pub open spec fn accepts(base: Seq<u8>, candidate: Seq<u8>, gas_threshold: u32) -> bool {
    score_value(base, candidate) matches Some(score) && score >= gas_threshold
}

/// The base value of a mining call. It is computed once per call and every
/// candidate is scored against it.
pub fn compute_base(address: &Address, nonce: u32) -> (base: Uint256)
    ensures
        base@ == base_value(address@, nonce),
{
    let nonce_word = Uint256::from_u32(nonce);
    let nonce_hash = Uint256::from_be_bytes(keccak256(&nonce_word.bytes));
    let address_hash = Uint256::from_be_bytes(keccak256(&address.bytes));
    nonce_hash.xor(&address_hash)
}

/// The score of a candidate whose digest is `digest`, and `None` where the
/// base exclusive-or the digest is zero, so that there is nothing to divide
/// by.
pub fn score_from_digest(base: &Uint256, digest: &Uint256) -> (score: Option<Uint256>)
    ensures
        match score {
            Some(s) => score_of_digest(base@, digest@) == Some(s.value()),
            None => score_of_digest(base@, digest@) is None,
        },
{
    let result_hash = base.xor(digest);
    Uint256::max_value().checked_div(&result_hash)
}

/// The score of a candidate against a base. A candidate without a score is
/// no error: the caller draws another.
pub fn score(base: &Uint256, candidate: &Uint256) -> (score: Option<Uint256>)
    ensures
        match score {
            Some(s) => score_value(base@, candidate@) == Some(s.value()),
            None => score_value(base@, candidate@) is None,
        },
{
    let digest = Uint256::from_be_bytes(keccak256(&candidate.bytes));
    score_from_digest(base, &digest)
}

/// Whether a score is at least the gas threshold.
pub fn clears_threshold(score: &Uint256, gas_threshold: u32) -> (cleared: bool)
    ensures
        cleared == (score.value() >= gas_threshold),
{
    score.ge(&Uint256::from_u32(gas_threshold))
}

/// Whether a candidate is accepted: it has a score, and the score is at
/// least the gas threshold.
pub fn is_accepted(base: &Uint256, candidate: &Uint256, gas_threshold: u32) -> (accepted: bool)
    ensures
        accepted == accepts(base@, candidate@, gas_threshold),
{
    match score(base, candidate) {
        Some(s) => clears_threshold(&s, gas_threshold),
        None => false,
    }
}

/// The base value is determined by the address and the nonce: two integers
/// that both hold the base value of one address and one nonce are the same
/// integer.
pub proof fn lemma_base_is_determined(
    address: Address,
    nonce: u32,
    first: Uint256,
    second: Uint256,
)
    requires
        first@ == base_value(address@, nonce),
        second@ == base_value(address@, nonce),
    ensures
        first == second,
{
    assert(first.bytes =~= second.bytes);
}

/// Acceptance is the score test: a candidate is accepted exactly when what
/// `score` returns for it is a score that `clears_threshold`.
pub proof fn lemma_accepted_iff_score_clears(
    base: Uint256,
    candidate: Uint256,
    gas_threshold: u32,
    score: Option<Uint256>,
)
    requires
        match score {
            Some(s) => score_value(base@, candidate@) == Some(s.value()),
            None => score_value(base@, candidate@) is None,
        },
    ensures
        accepts(base@, candidate@, gas_threshold) <==> (score matches Some(s) && s.value()
            >= gas_threshold),
{
}

/// A candidate that is accepted at one threshold is accepted at every lower
/// one.
pub proof fn lemma_acceptance_is_monotone(
    base: Uint256,
    candidate: Uint256,
    gas_threshold: u32,
    lower: u32,
)
    requires
        lower <= gas_threshold,
        accepts(base@, candidate@, gas_threshold),
    ensures
        accepts(base@, candidate@, lower),
{
}

/// The score grows as the divisor shrinks: of two divisors that are not zero,
/// the smaller gives a score at least as large.
pub proof fn lemma_smaller_divisor_scores_higher(smaller: nat, larger: nat)
    requires
        0 < smaller <= larger,
    ensures
        score_of_divisor(smaller)->0 >= score_of_divisor(larger)->0,
{
    vstd::arithmetic::div_mod::lemma_div_is_ordered_by_denominator(
        u256_max() as int,
        smaller as int,
        larger as int,
    );
}

/// Every score is at least one: with a gas threshold of zero or one, a
/// candidate is accepted as soon as it has a score.
pub proof fn lemma_threshold_of_one_accepts_every_score(
    base: Uint256,
    candidate: Uint256,
    gas_threshold: u32,
)
    requires
        gas_threshold <= 1,
        score_value(base@, candidate@) is Some,
    ensures
        accepts(base@, candidate@, gas_threshold),
{
    let divisor = xor_bytes(base@, keccak256_digest(candidate@));
    let d = be_value(divisor);
    assert(divisor.len() == 32);
    lemma_be_value_bound(divisor);
    lemma_pow256_of_32();
    assert(u256_max() / d >= 1) by (nonlinear_arith)
        requires
            0 < d <= u256_max(),
    ;
}

} // verus!
