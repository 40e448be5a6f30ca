use vstd::prelude::*;

verus! {

/// Failures that the distribution rules themselves report.
#[derive(Clone, Copy, Debug, PartialEq, Eq, Structural)]
pub enum ErrorCode {
    /// Recipients and percentages differ in length.
    LengthMismatch,
    /// The percentages add up to more than 100%.
    InvalidTotal,
    /// More than ten recipients.
    MaxRecipientsExceeded,
    /// The number of used destination slots differs from the schedule.
    InvalidRecipientCount,
    /// A used destination slot does not belong to the recipient at its position.
    InvalidRecipient,
    /// The payer holds less of the native asset than requested.
    InsufficientFunds,
    /// The payer's token holding account is owned by someone else.
    InvalidTokenOwner,
    /// The payer's token holding account holds less than requested.
    InsufficientTokenBalance,
}

/// Failures of the checks made on the accounts handed to an instruction.
#[derive(Clone, Copy, Debug, PartialEq, Eq, Structural)]
pub enum AccountError {
    /// The signer is not the authority recorded in the configuration.
    ConstraintHasOne,
    /// The configuration's address is not the one derived from its authority.
    ConstraintSeeds,
    /// An account's data does not hold a valid token holding account.
    AccountDidNotDeserialize,
}

/// Any failure of an instruction.
#[derive(Clone, Copy, Debug, PartialEq, Eq, Structural)]
pub enum Error {
    Account(AccountError),
    Program(ErrorCode),
}

} // verus!
