//! The commands that a bank serves and the responses it gives.
//!
//! [`handle_request`] is the whole dispatcher: one command in, one
//! response out. Reading a command from a connection and writing the
//! response back is left to the caller.

use crate::bank::Bank;
use crate::error::{BankError, BankErrorView};
use crate::ledger::Ledger;
use crate::operation::{operations_view, Operation, OperationId, OperationView};
use vstd::prelude::*;

verus! {

/// A request to the bank.
#[derive(Debug, PartialEq)]
pub enum Command {
    CreateAccount(String),
    IncreaseAccount(String, u32),
    DecreaseAccount(String, u32),
    Transfer(String, String, u32),
    GetHistory,
    GetAccountBalance(String),
    Restore(Vec<Operation>),
    GetAccountHistory(String),
}

/// The bank's answer to a [`Command`]. Each kind of command has its kind of
/// response, which carries the result of the command, error included.
#[derive(Debug, PartialEq)]
pub enum Response {
    /// To `CreateAccount`: the position of the new history entry.
    Account(Result<OperationId, BankError>),
    /// To `IncreaseAccount` and `DecreaseAccount`: the position of the new
    /// history entry.
    OperationResult(Result<OperationId, BankError>),
    /// To `Transfer`.
    TransferResult(Result<(), BankError>),
    /// To `GetHistory`: the whole history.
    History(Vec<Operation>),
    /// To `GetAccountBalance`.
    AccountBalance(Result<u32, BankError>),
    /// To `GetAccountHistory`: the operations of the account, or `None` if
    /// there is no such account.
    AccountHistory(Option<Vec<Operation>>),
    /// To `Restore`: the error of the first operation that was refused, if
    /// one was.
    Restore(Result<(), BankError>),
}

/// The mathematical value of a [`Command`].
pub enum CommandView {
    CreateAccount(Seq<char>),
    IncreaseAccount(Seq<char>, nat),
    DecreaseAccount(Seq<char>, nat),
    Transfer(Seq<char>, Seq<char>, nat),
    GetHistory,
    GetAccountBalance(Seq<char>),
    Restore(Seq<OperationView>),
    GetAccountHistory(Seq<char>),
}

/// The mathematical value of a [`Response`].
pub enum ResponseView {
    Account(Result<nat, BankErrorView>),
    OperationResult(Result<nat, BankErrorView>),
    TransferResult(Result<(), BankErrorView>),
    History(Seq<OperationView>),
    AccountBalance(Result<nat, BankErrorView>),
    AccountHistory(Option<Seq<OperationView>>),
    Restore(Result<(), BankErrorView>),
}

impl View for Command {
    type V = CommandView;

    open spec fn view(&self) -> CommandView {
        match self {
            Command::CreateAccount(account) => CommandView::CreateAccount(account@),
            Command::IncreaseAccount(account, amount) => CommandView::IncreaseAccount(
                account@,
                *amount as nat,
            ),
            Command::DecreaseAccount(account, amount) => CommandView::DecreaseAccount(
                account@,
                *amount as nat,
            ),
            Command::Transfer(from, to, amount) => CommandView::Transfer(
                from@,
                to@,
                *amount as nat,
            ),
            Command::GetHistory => CommandView::GetHistory,
            Command::GetAccountBalance(account) => CommandView::GetAccountBalance(account@),
            Command::Restore(operations) => CommandView::Restore(operations_view(operations@)),
            Command::GetAccountHistory(account) => CommandView::GetAccountHistory(account@),
        }
    }
}

impl Clone for Command {
    fn clone(&self) -> (copy: Self)
        ensures
            copy@ == self@,
    {
        match self {
            Command::CreateAccount(account) => Command::CreateAccount(account.clone()),
            Command::IncreaseAccount(account, amount) => Command::IncreaseAccount(
                account.clone(),
                *amount,
            ),
            Command::DecreaseAccount(account, amount) => Command::DecreaseAccount(
                account.clone(),
                *amount,
            ),
            Command::Transfer(from, to, amount) => Command::Transfer(
                from.clone(),
                to.clone(),
                *amount,
            ),
            Command::GetHistory => Command::GetHistory,
            Command::GetAccountBalance(account) => Command::GetAccountBalance(account.clone()),
            Command::Restore(operations) => Command::Restore(copy_operations(operations)),
            Command::GetAccountHistory(account) => Command::GetAccountHistory(account.clone()),
        }
    }
}

/// The mathematical value of the result of a command that records an
/// operation.
pub open spec fn recorded_view(result: Result<OperationId, BankError>) -> Result<
    nat,
    BankErrorView,
> {
    match result {
        Ok(id) => Ok(id as nat),
        Err(error) => Err(error@),
    }
}

/// The mathematical value of the result of a command that returns nothing.
pub open spec fn done_view(result: Result<(), BankError>) -> Result<(), BankErrorView> {
    match result {
        Ok(()) => Ok(()),
        Err(error) => Err(error@),
    }
}

/// The mathematical value of the result of a balance query.
pub open spec fn balance_view(result: Result<u32, BankError>) -> Result<nat, BankErrorView> {
    match result {
        Ok(balance) => Ok(balance as nat),
        Err(error) => Err(error@),
    }
}

impl View for Response {
    type V = ResponseView;

    open spec fn view(&self) -> ResponseView {
        match self {
            Response::Account(result) => ResponseView::Account(recorded_view(*result)),
            Response::OperationResult(result) => ResponseView::OperationResult(
                recorded_view(*result),
            ),
            Response::TransferResult(result) => ResponseView::TransferResult(done_view(*result)),
            Response::History(operations) => ResponseView::History(operations_view(operations@)),
            Response::AccountBalance(result) => ResponseView::AccountBalance(
                balance_view(*result),
            ),
            Response::AccountHistory(result) => ResponseView::AccountHistory(
                match result {
                    Some(operations) => Some(operations_view(operations@)),
                    None => None,
                },
            ),
            Response::Restore(result) => ResponseView::Restore(done_view(*result)),
        }
    }
}

impl Ledger {
    /// What submitting `operation` returns: the position of the new
    /// history entry, or the reason for which the operation is refused.
    pub open spec fn outcome(self, operation: OperationView) -> Result<nat, BankErrorView> {
        match self.refusal(operation) {
            None => Ok(self.history.len()),
            Some(error) => Err(error),
        }
    }

    /// What submitting `operation` returns where the position of the new
    /// entry is not reported.
    pub open spec fn verdict(self, operation: OperationView) -> Result<(), BankErrorView> {
        match self.refusal(operation) {
            None => Ok(()),
            Some(error) => Err(error),
        }
    }

    /// The ledger after `command` was served. A query leaves it as it was.
    pub open spec fn served(self, command: CommandView) -> Ledger {
        match command {
            CommandView::CreateAccount(account) => self.submit(
                OperationView::CreateAccount(account),
            ),
            CommandView::IncreaseAccount(account, amount) => self.submit(
                OperationView::IncreaseAccount(account, amount),
            ),
            CommandView::DecreaseAccount(account, amount) => self.submit(
                OperationView::DecreaseAccount(account, amount),
            ),
            CommandView::Transfer(from, to, amount) => self.submit(
                OperationView::Transfer(from, to, amount),
            ),
            CommandView::GetHistory => self,
            CommandView::GetAccountBalance(_) => self,
            CommandView::Restore(operations) => self.replay(operations),
            CommandView::GetAccountHistory(_) => self,
        }
    }

    /// The response to `command`, served by this ledger.
    pub open spec fn response(self, command: CommandView) -> ResponseView {
        match command {
            CommandView::CreateAccount(account) => ResponseView::Account(
                self.outcome(OperationView::CreateAccount(account)),
            ),
            CommandView::IncreaseAccount(account, amount) => ResponseView::OperationResult(
                self.outcome(OperationView::IncreaseAccount(account, amount)),
            ),
            CommandView::DecreaseAccount(account, amount) => ResponseView::OperationResult(
                self.outcome(OperationView::DecreaseAccount(account, amount)),
            ),
            CommandView::Transfer(from, to, amount) => ResponseView::TransferResult(
                self.verdict(OperationView::Transfer(from, to, amount)),
            ),
            CommandView::GetHistory => ResponseView::History(self.history),
            CommandView::GetAccountBalance(account) => ResponseView::AccountBalance(
                if self.has_account(account) {
                    Ok(self.balances[account])
                } else {
                    Err(BankErrorView::AccountNotFound(account))
                },
            ),
            CommandView::Restore(operations) => ResponseView::Restore(
                match self.replay_refusal(operations) {
                    None => Ok(()),
                    Some(error) => Err(error),
                },
            ),
            CommandView::GetAccountHistory(account) => ResponseView::AccountHistory(
                self.account_history(account),
            ),
        }
    }
}

/// A copy of `operations`, entry by entry.
fn copy_operations(operations: &Vec<Operation>) -> (copy: Vec<Operation>)
    ensures
        operations_view(copy@) == operations_view(operations@),
{
    let copy = operations.clone();
    copy
}

/// Serves one command: calls the one operation of the bank that the command
/// names, and wraps what it returns in the response of that kind. Only
/// `Restore` submits more than one operation.
pub fn handle_request(bank: &mut Bank, command: Command) -> (response: Response)
    ensures
        final(bank)@.valid(),
        final(bank)@ == old(bank)@.served(command@),
        response@ == old(bank)@.response(command@),
{
    match command {
        Command::CreateAccount(account) => Response::Account(bank.create_account(account)),
        Command::IncreaseAccount(account, amount) => Response::OperationResult(
            bank.increase_account(account, amount),
        ),
        Command::DecreaseAccount(account, amount) => Response::OperationResult(
            bank.decrease_account(account, amount),
        ),
        Command::Transfer(from, to, amount) => Response::TransferResult(
            bank.transfer(from, to, amount),
        ),
        Command::GetHistory => Response::History(copy_operations(bank.get_history())),
        Command::GetAccountBalance(account) => Response::AccountBalance(
            bank.get_account_balance(account),
        ),
        Command::GetAccountHistory(account) => Response::AccountHistory(
            bank.get_account_history(account),
        ),
        Command::Restore(history) => Response::Restore(bank.restore(&history)),
    }
}

} // verus!
