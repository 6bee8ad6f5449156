//! The reasons for which the ledger refuses a command.

use vstd::prelude::*;

verus! {

/// Why a command was refused. A refused command leaves the ledger as it was.
#[derive(Debug, PartialEq)]
pub enum BankError {
    /// An account of this name exists already.
    AccountAlreadyExists(String),
    /// No account of this name exists.
    AccountNotFound(String),
    /// The amount is zero, or adding it would take a balance beyond `u32::MAX`.
    InvalidAmount(u32),
    /// The amount exceeds the balance it would be taken from.
    InsufficientFunds(u32),
    /// Source and destination of a transfer are the same account.
    TransferToSelf,
}

/// The mathematical value of a [`BankError`]: names are sequences of
/// characters, amounts are natural numbers.
pub enum BankErrorView {
    AccountAlreadyExists(Seq<char>),
    AccountNotFound(Seq<char>),
    InvalidAmount(nat),
    InsufficientFunds(nat),
    TransferToSelf,
}

impl View for BankError {
    type V = BankErrorView;

    open spec fn view(&self) -> BankErrorView {
        match self {
            BankError::AccountAlreadyExists(name) => BankErrorView::AccountAlreadyExists(name@),
            BankError::AccountNotFound(name) => BankErrorView::AccountNotFound(name@),
            BankError::InvalidAmount(amount) => BankErrorView::InvalidAmount(*amount as nat),
            BankError::InsufficientFunds(amount) => BankErrorView::InsufficientFunds(
                *amount as nat,
            ),
            BankError::TransferToSelf => BankErrorView::TransferToSelf,
        }
    }
}

impl Clone for BankError {
    fn clone(&self) -> (copy: Self)
        ensures
            copy@ == self@,
    {
        match self {
            BankError::AccountAlreadyExists(name) => BankError::AccountAlreadyExists(name.clone()),
            BankError::AccountNotFound(name) => BankError::AccountNotFound(name.clone()),
            BankError::InvalidAmount(amount) => BankError::InvalidAmount(*amount),
            BankError::InsufficientFunds(amount) => BankError::InsufficientFunds(*amount),
            BankError::TransferToSelf => BankError::TransferToSelf,
        }
    }
}

} // verus!
