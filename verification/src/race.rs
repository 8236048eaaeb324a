//! The parallel race: how many workers run, and the slot in which the first
//! winning candidate is kept.

use crate::error::MiningError;
use crate::scoring::accepts;
use crate::uint256::Uint256;
use std::sync::atomic::AtomicBool;
use vstd::prelude::*;

verus! {

/// The number of workers for a machine with `available` hardware threads:
/// one less than that, to leave room for the caller, and at least one. A
/// machine that does not tell counts as four.
pub open spec fn workers_for(available: Option<usize>) -> int {
    let threads = match available {
        Some(n) => n as int,
        None => 4,
    };
    if threads > 1 {
        threads - 1
    } else {
        1
    }
}

/// The number of workers for a machine with `available` hardware threads.
pub fn worker_count(available: Option<usize>) -> (workers: usize)
    ensures
        workers == workers_for(available),
        workers >= 1,
{
    let threads: usize = match available {
        Some(n) => n,
        None => 4,
    };
    if threads > 1 {
        threads - 1
    } else {
        1
    }
}

/// What a slot holds after `candidate` is offered to it: what it held, and
/// the candidate only where it held nothing.
pub open spec fn offered(held: Option<Uint256>, candidate: Uint256) -> Option<Uint256> {
    if held is Some {
        held
    } else {
        Some(candidate)
    }
}

/// What a slot holds after the candidates of `offers` are offered to it in
/// turn.
pub open spec fn offered_all(held: Option<Uint256>, offers: Seq<Uint256>) -> Option<Uint256>
    decreases offers.len(),
{
    if offers.len() == 0 {
        held
    } else {
        offered_all(offered(held, offers[0]), offers.drop_first())
    }
}

/// How a race ends on what its slot holds: with the candidate, or with
/// `NoSolutionFound` where it holds none.
pub open spec fn concluded(held: Option<Uint256>) -> Result<Uint256, MiningError> {
    match held {
        Some(candidate) => Ok(candidate),
        None => Err(MiningError::NoSolutionFound),
    }
}

/// The slot that the workers of one race share. It is empty until a worker
/// offers a winning candidate, and keeps the first one offered.
#[derive(Clone, Copy, Debug, PartialEq, Eq)]
pub struct ResultSlot {
    pub winner: Option<Uint256>,
}

impl ResultSlot {
    /// An empty slot.
    pub fn new() -> (slot: ResultSlot)
        ensures
            slot.winner is None,
    {
        ResultSlot { winner: None }
    }

    /// Offers a winning candidate. The slot keeps it only if it was empty;
    /// the result says whether it did.
    pub fn offer(&mut self, candidate: Uint256) -> (kept: bool)
        ensures
            final(self).winner == offered(old(self).winner, candidate),
            kept == (old(self).winner is None),
    {
        if self.winner.is_none() {
            self.winner = Some(candidate);
            true
        } else {
            false
        }
    }

    /// Offers a winning candidate and then raises the cancellation flag, so
    /// that the other workers stop. The flag is raised whether or not the
    /// slot kept the candidate: either way the race has a winner.
    pub fn claim(&mut self, candidate: Uint256, cancel: &AtomicBool) -> (kept: bool)
        ensures
            final(self).winner == offered(old(self).winner, candidate),
            kept == (old(self).winner is None),
    {
        let kept = self.offer(candidate);
        cancel.store(true, std::sync::atomic::Ordering::Relaxed);
        kept
    }

    /// The outcome of the race once every worker has ended: the winner, or
    /// `NoSolutionFound` where the slot is still empty.
    pub fn conclude(&self) -> (r: Result<Uint256, MiningError>)
        ensures
            r == concluded(self.winner),
    {
        match self.winner {
            Some(candidate) => Ok(candidate),
            None => Err(MiningError::NoSolutionFound),
        }
    }
}

/// Once a slot holds a candidate, no later offer changes it.
pub proof fn lemma_held_candidate_stays(held: Uint256, offers: Seq<Uint256>)
    ensures
        offered_all(Some(held), offers) == Some(held),
    decreases offers.len(),
{
    if offers.len() > 0 {
        lemma_held_candidate_stays(held, offers.drop_first());
    }
}

/// The first offer wins: after any number of offers to an empty slot, the
/// slot holds the first of them, and it is empty only if there was none.
pub proof fn lemma_first_offer_wins(offers: Seq<Uint256>)
    ensures
        offers.len() == 0 ==> offered_all(None, offers) is None,
        offers.len() > 0 ==> offered_all(None, offers) == Some(offers[0]),
{
    if offers.len() > 0 {
        lemma_held_candidate_stays(offers[0], offers.drop_first());
    }
}

/// A race never ends on a candidate below the threshold. Where every worker
/// offers only accepted candidates, then whatever their number and the order
/// in which they reach the slot, the race ends with one winner, which is the
/// first candidate offered and is accepted; it ends with `NoSolutionFound`
/// only where no worker offered anything.
pub proof fn lemma_race_winner_is_accepted(
    base: Uint256,
    gas_threshold: u32,
    offers: Seq<Uint256>,
)
    requires
        forall|i: int|
            0 <= i < offers.len() ==> accepts(base@, (#[trigger] offers[i])@, gas_threshold),
    ensures
        match concluded(offered_all(None, offers)) {
            Ok(winner) => offers.len() > 0 && winner == offers[0] && accepts(
                base@,
                winner@,
                gas_threshold,
            ),
            Err(error) => offers.len() == 0 && error == MiningError::NoSolutionFound,
        },
{
    lemma_first_offer_wins(offers);
}

} // verus!
