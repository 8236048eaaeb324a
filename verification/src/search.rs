//! One round of the candidate search: draw random candidates and test each
//! until one is accepted, the search is cancelled, or the round's draws are
//! used up.

use crate::scoring::{accepts, is_accepted};
use crate::uint256::Uint256;
use rand::rngs::ThreadRng;
use rand::Rng;
use std::sync::atomic::AtomicBool;
use vstd::prelude::*;

verus! {

/// The number of draws in a round of the sequential search.
pub const SEQUENTIAL_ROUND: u32 = 5000;

/// The number of draws in a round of a worker of the parallel search.
pub const PARALLEL_ROUND: u32 = 10000;

/// How a round of the search ended, and so what its caller does next.
#[derive(Clone, Copy, Debug, PartialEq, Eq)]
pub enum RoundOutcome {
    /// An accepted candidate was drawn: the search is over.
    Found(Uint256),
    /// The cancellation flag was seen set: another worker has won.
    Cancelled,
    /// The round's draws are used up and none was accepted: the caller
    /// yields to the scheduler and runs another round.
    Unfinished,
}

/// The thread-local random number generator of `rand`, carried through
/// unread.
#[verifier::external_type_specification]
#[verifier::external_body]
pub struct ExThreadRng(ThreadRng);

/// `rand::thread_rng` hands out the generator of the calling thread, which
/// it seeds from the operating system on the thread's first call; it panics
/// where the system gives no seed. Nothing is claimed of the generator.
pub assume_specification[ rand::thread_rng ]() -> (rng: ThreadRng);

/// Calls `rand::Rng::fill` on a 32-byte array. The bytes are random, so the
/// contract claims nothing of them.
#[verifier::external_body]
fn random_bytes(rng: &mut ThreadRng) -> (bytes: [u8; 32]) {
    let mut bytes = [0u8; 32];
    rng.fill(&mut bytes);
    bytes
}

/// Whether a search with this cancellation flag has been cancelled. A search
/// without a flag never is.
fn is_cancelled(cancel: Option<&AtomicBool>) -> (cancelled: bool)
    ensures
        cancelled ==> cancel is Some,
{
    match cancel {
        Some(flag) => flag.load(std::sync::atomic::Ordering::Relaxed),
        None => false,
    }
}

/// Runs one round of the search against `base`: at most `draws` candidates
/// are drawn at random, and the first that is accepted ends the round. The
/// cancellation flag, where there is one, is read before each draw and once
/// more when the draws are used up.
///
/// Whatever is drawn, a candidate is returned only if it is accepted, so no
/// round ends early on a candidate below the threshold.
pub fn search_round(
    base: &Uint256,
    gas_threshold: u32,
    draws: u32,
    cancel: Option<&AtomicBool>,
) -> (outcome: RoundOutcome)
    ensures
        outcome matches RoundOutcome::Found(candidate) ==> accepts(
            base@,
            candidate@,
            gas_threshold,
        ),
        outcome is Cancelled ==> cancel is Some,
        draws == 0 ==> !(outcome is Found),
{
    let mut rng = rand::thread_rng();
    let mut drawn: u32 = 0;
    while drawn < draws
        invariant
            drawn <= draws,
        decreases draws - drawn,
    {
        if is_cancelled(cancel) {
            return RoundOutcome::Cancelled;
        }
        let candidate = Uint256::from_be_bytes(random_bytes(&mut rng));
        if is_accepted(base, &candidate, gas_threshold) {
            return RoundOutcome::Found(candidate);
        }
        drawn = drawn + 1;
    }
    if is_cancelled(cancel) {
        RoundOutcome::Cancelled
    } else {
        RoundOutcome::Unfinished
    }
}

} // verus!
