//! The error kinds that the game's operations report.

use vstd::prelude::*;

verus! {

/// Why an operation was refused. Every operation validates its inputs before
/// any mutation, so an error always leaves the game exactly as it was.
#[derive(Clone, Copy, Debug, PartialEq, Eq, Structural)]
pub enum ErrorCode {
    /// The box index lies outside the game's fixed range of boxes.
    InvalidBoxNumber,
    /// A contribution of zero was offered.
    InvalidAmount,
    /// The empty label denotes an inactive box and cannot be backed.
    InvalidLabel,
    /// Accepting the stake would push the prize pool past `u64::MAX`.
    /// Amounts never wrap: an operation that cannot be represented is refused.
    Overflow,
    /// The initializer cannot cover the total seed. Reported by the host
    /// environment, which keeps the balances; the library never raises it.
    InsufficientFunds,
    /// A claim named a label that is not the box's current leader (for
    /// instance one that has since been displaced).
    NotLeadingLabel,
    /// The claimant holds no entry in the box's ledger, so no share is owed.
    NoContribution,
    /// The cooldown since the last change of leadership has not elapsed.
    TimeLockNotElapsed,
    /// The external ledger transfer failed. Reported by the host environment.
    TransferFailed,
    /// The external asset conversion failed. Reported by the host environment.
    SwapFailed,
}

impl ErrorCode {
    /// The description `message` returns for each error.
    pub open spec fn message_spec(self) -> Seq<char> {
        match self {
            ErrorCode::InvalidBoxNumber => "Invalid box number"@,
            ErrorCode::InvalidAmount => "Invalid amount"@,
            ErrorCode::InvalidLabel => "Invalid label"@,
            ErrorCode::Overflow => "Amount overflows the prize pool"@,
            ErrorCode::InsufficientFunds => "Insufficient funds"@,
            ErrorCode::NotLeadingLabel => "Not the leading label"@,
            ErrorCode::NoContribution => "No contribution to claim"@,
            ErrorCode::TimeLockNotElapsed => "Not enough time has elapsed"@,
            ErrorCode::TransferFailed => "Transfer failed"@,
            ErrorCode::SwapFailed => "Swap failed"@,
        }
    }

    /// A short description of the refusal, for the host environment's
    /// reporting.
    pub fn message(&self) -> (m: &'static str)
        ensures
            m@ == self.message_spec(),
    {
        match *self {
            ErrorCode::InvalidBoxNumber => "Invalid box number",
            ErrorCode::InvalidAmount => "Invalid amount",
            ErrorCode::InvalidLabel => "Invalid label",
            ErrorCode::Overflow => "Amount overflows the prize pool",
            ErrorCode::InsufficientFunds => "Insufficient funds",
            ErrorCode::NotLeadingLabel => "Not the leading label",
            ErrorCode::NoContribution => "No contribution to claim",
            ErrorCode::TimeLockNotElapsed => "Not enough time has elapsed",
            ErrorCode::TransferFailed => "Transfer failed",
            ErrorCode::SwapFailed => "Swap failed",
        }
    }
}

} // verus!
