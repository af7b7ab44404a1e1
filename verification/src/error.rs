//! The ways in which an operation of the ledger can fail.
use soroban_sdk::{ConversionError, Error, InvokeError};
use vstd::prelude::*;

verus! {

/// Why the token contract did not do what it was asked.
#[derive(Debug, Clone, Copy, PartialEq, Eq)]
pub enum TransferFault {
    /// The call failed with this error of the host or of the token contract.
    Rejected(Error),
    /// The call failed and its error could not be read.
    Unreadable(InvokeError),
    /// The call went through, but what it handed back could not be read as a
    /// value of the expected type.
    BadReturn,
    /// The amount is larger than any amount a token contract can move.
    AmountOutOfRange,
    /// The asset is the address of an account: no contract is there to ask.
    NotAContract,
}

/// An operation that fails leaves the ledger as it was and reports one of these.
#[derive(Debug, Clone, Copy, PartialEq, Eq)]
pub enum LedgerError {
    /// An admin is already set.
    AlreadyInitialized,
    /// No admin is set yet.
    NotInitialized,
    /// The call was not made on the authority of the principal it needs.
    Unauthorized,
    /// The amount is zero or negative.
    InvalidAmount,
    /// The depositor holds less than the amount to deposit.
    InsufficientBalance,
    /// The wallet already belongs to an employee.
    WalletAlreadyRegistered,
    /// No employee has this id.
    EmployeeNotFound,
    /// The advance asked for is not below the remaining salary.
    AmountExceedsRemainingSalary,
    /// The employee has no remaining salary to release.
    NoRemainingSalary,
    /// The token contract did not carry out a query or a transfer.
    Transfer(TransferFault),
}

/// What a call of the token contract came to: its value, or the fault.
pub open spec fn call_outcome<T, C>(
    answer: Result<Result<T, C>, Result<Error, InvokeError>>,
) -> Result<T, TransferFault> {
    match answer {
        Ok(Ok(value)) => Ok(value),
        Ok(Err(_)) => Err(TransferFault::BadReturn),
        Err(Ok(error)) => Err(TransferFault::Rejected(error)),
        Err(Err(error)) => Err(TransferFault::Unreadable(error)),
    }
}

/// Reads the answer to a balance query.
pub fn balance_outcome(
    answer: Result<Result<i128, Error>, Result<Error, InvokeError>>,
) -> (outcome: Result<i128, TransferFault>)
    ensures
        outcome == call_outcome(answer),
{
    match answer {
        Ok(Ok(value)) => Ok(value),
        Ok(Err(_)) => Err(TransferFault::BadReturn),
        Err(Ok(error)) => Err(TransferFault::Rejected(error)),
        Err(Err(error)) => Err(TransferFault::Unreadable(error)),
    }
}

/// Reads the answer to a transfer.
pub fn transfer_outcome(
    answer: Result<Result<(), ConversionError>, Result<Error, InvokeError>>,
) -> (outcome: Result<(), TransferFault>)
    ensures
        outcome == call_outcome(answer),
{
    match answer {
        Ok(Ok(())) => Ok(()),
        Ok(Err(_)) => Err(TransferFault::BadReturn),
        Err(Ok(error)) => Err(TransferFault::Rejected(error)),
        Err(Err(error)) => Err(TransferFault::Unreadable(error)),
    }
}

} // verus!
