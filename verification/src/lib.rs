//! Proof-of-work gas mining: derive a base value from an account address and
//! a transaction nonce, then search for a 256-bit candidate whose score
//! against that base clears a requested gas threshold.
//!
//! The search itself never ends by itself, so it is offered in rounds: the
//! caller runs [`search_round`] until a round finds a candidate, yielding to
//! the scheduler between rounds. A parallel search runs one such loop per
//! worker, with a shared cancellation flag and a shared [`ResultSlot`].

pub mod address;
pub mod error;
pub mod keccak;
pub mod output;
pub mod race;
pub mod scoring;
pub mod search;
pub mod uint256;

pub use address::{address_from_parse, is_address, parse_address, Address};
pub use error::MiningError;
pub use output::{gas_price, MiningOutput};
pub use race::{worker_count, ResultSlot};
pub use scoring::{clears_threshold, compute_base, is_accepted, score, score_from_digest};
pub use search::{search_round, RoundOutcome, PARALLEL_ROUND, SEQUENTIAL_ROUND};
pub use uint256::Uint256;
