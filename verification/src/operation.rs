//! The record of one mutation that the ledger applied.

use vstd::prelude::*;

verus! {

/// The identifier of an applied operation: its position in the history.
/// Positions are given out in sequence, the first being zero.
pub type OperationId = usize;

/// One mutation of the ledger. The history holds an `Operation` for every
/// command that was applied, and none for a command that was refused.
#[derive(Debug, PartialEq)]
pub enum Operation {
    /// An account of this name was created, with balance zero.
    CreateAccount(String),
    /// The account's balance grew by the amount.
    IncreaseAccount(String, u32),
    /// The account's balance shrank by the amount.
    DecreaseAccount(String, u32),
    /// The amount moved from the first account to the second.
    Transfer(String, String, u32),
}

/// The mathematical value of an [`Operation`].
pub enum OperationView {
    CreateAccount(Seq<char>),
    IncreaseAccount(Seq<char>, nat),
    DecreaseAccount(Seq<char>, nat),
    Transfer(Seq<char>, Seq<char>, nat),
}

impl OperationView {
    /// Whether the account `name` takes part in the operation: as the account
    /// created, as the one whose balance changes, or as either side of a
    /// transfer.
    pub open spec fn involves(self, name: Seq<char>) -> bool {
        match self {
            OperationView::CreateAccount(account) => account == name,
            OperationView::IncreaseAccount(account, _) => account == name,
            OperationView::DecreaseAccount(account, _) => account == name,
            OperationView::Transfer(from, to, _) => from == name || to == name,
        }
    }

    /// What the operation adds to the balance of the account `name`: the
    /// amount of an increase or of a transfer to it, the amount of a
    /// decrease or of a transfer from it taken negative, and zero otherwise.
    pub open spec fn effect(self, name: Seq<char>) -> int {
        match self {
            OperationView::CreateAccount(_) => 0,
            OperationView::IncreaseAccount(account, amount) => if account == name {
                amount as int
            } else {
                0
            },
            OperationView::DecreaseAccount(account, amount) => if account == name {
                -(amount as int)
            } else {
                0
            },
            OperationView::Transfer(from, to, amount) => if from == to {
                0
            } else if from == name {
                -(amount as int)
            } else if to == name {
                amount as int
            } else {
                0
            },
        }
    }
}

impl View for Operation {
    type V = OperationView;

    open spec fn view(&self) -> OperationView {
        match self {
            Operation::CreateAccount(account) => OperationView::CreateAccount(account@),
            Operation::IncreaseAccount(account, amount) => OperationView::IncreaseAccount(
                account@,
                *amount as nat,
            ),
            Operation::DecreaseAccount(account, amount) => OperationView::DecreaseAccount(
                account@,
                *amount as nat,
            ),
            Operation::Transfer(from, to, amount) => OperationView::Transfer(
                from@,
                to@,
                *amount as nat,
            ),
        }
    }
}

impl Clone for Operation {
    fn clone(&self) -> (copy: Self)
        ensures
            copy@ == self@,
    {
        match self {
            Operation::CreateAccount(account) => Operation::CreateAccount(account.clone()),
            Operation::IncreaseAccount(account, amount) => Operation::IncreaseAccount(
                account.clone(),
                *amount,
            ),
            Operation::DecreaseAccount(account, amount) => Operation::DecreaseAccount(
                account.clone(),
                *amount,
            ),
            Operation::Transfer(from, to, amount) => Operation::Transfer(
                from.clone(),
                to.clone(),
                *amount,
            ),
        }
    }
}

/// The mathematical value of a sequence of operations, entry by entry.
pub open spec fn operations_view(operations: Seq<Operation>) -> Seq<OperationView> {
    operations.map_values(|operation: Operation| operation@)
}

} // verus!
