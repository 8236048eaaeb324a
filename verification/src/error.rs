//! The ways in which a mining call can fail.

use vstd::prelude::*;
use vstd::string::*;

verus! {

/// Why a mining call produced no result.
#[derive(Clone, Copy, Debug, PartialEq, Eq, Structural)]
pub enum MiningError {
    /// The address is not `0x` followed by forty hexadecimal digits.
    InvalidAddress,
    /// The address has the right shape but not the mixed-case checksum.
    InvalidAddressFormat,
    /// Every worker ended without a winning candidate.
    NoSolutionFound,
}

impl MiningError {
    /// The text that describes this error to a caller.
    pub open spec fn message_text(&self) -> Seq<char> {
        match self {
            MiningError::InvalidAddress => "Invalid Address"@,
            MiningError::InvalidAddressFormat => "Invalid address format"@,
            MiningError::NoSolutionFound => "No solution found"@,
        }
    }

    /// The text that describes this error to a caller.
    pub fn message(&self) -> (text: String)
        ensures
            text@ == self.message_text(),
    {
        match self {
            MiningError::InvalidAddress => String::from_str("Invalid Address"),
            MiningError::InvalidAddressFormat => String::from_str("Invalid address format"),
            MiningError::NoSolutionFound => String::from_str("No solution found"),
        }
    }
}

} // verus!
