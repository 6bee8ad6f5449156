//! The client's side of an exchange with a bank server.
//!
//! A [`BankClient`] names the server it talks to and reads the server's
//! responses. Each method is given the response that the server sent to the
//! command of the same name, and returns what that response carries. The
//! exchange itself, sending the command and receiving the response, is the
//! caller's part.

use crate::error::BankError;
use crate::operation::{Operation, OperationId};
use crate::protocol::Response;
use vstd::prelude::*;

verus! {

/// A client of one bank server.
pub struct BankClient {
    server_address: String,
}

impl BankClient {
    /// The address of the server, as a sequence of characters.
    pub closed spec fn address(&self) -> Seq<char> {
        self.server_address@
    }

    /// A client of the server at the address `x`.
    pub fn new(x: &str) -> (client: Self)
        ensures
            client.address() == x@,
    {
        BankClient { server_address: x.to_owned() }
    }

    /// The address of the server.
    pub fn server_address(&self) -> (address: &str)
        ensures
            address@ == self.address(),
    {
        self.server_address.as_str()
    }

    /// Reads the response to `CreateAccount`: the position of the new
    /// history entry, or the server's refusal.
    pub fn create_account(&self, response: Response) -> (result: Result<OperationId, BankError>)
        requires
            response is Account,
        ensures
            response == Response::Account(result),
    {
        match response {
            Response::Account(result) => result,
            _ => unreached(),
        }
    }

    /// Reads the response to `IncreaseAccount`: done, or the server's
    /// refusal.
    pub fn increase_account(&self, response: Response) -> (result: Result<(), BankError>)
        requires
            response is OperationResult,
        ensures
            match result {
                Ok(()) => response matches Response::OperationResult(Ok(_)),
                Err(error) => response == Response::OperationResult(Err(error)),
            },
    {
        match response {
            Response::OperationResult(Ok(_)) => Ok(()),
            Response::OperationResult(Err(error)) => Err(error),
            _ => unreached(),
        }
    }

    /// Reads the response to `DecreaseAccount`: done, or the server's
    /// refusal.
    pub fn decrease_account(&self, response: Response) -> (result: Result<(), BankError>)
        requires
            response is OperationResult,
        ensures
            match result {
                Ok(()) => response matches Response::OperationResult(Ok(_)),
                Err(error) => response == Response::OperationResult(Err(error)),
            },
    {
        match response {
            Response::OperationResult(Ok(_)) => Ok(()),
            Response::OperationResult(Err(error)) => Err(error),
            _ => unreached(),
        }
    }

    /// Reads the response to `Transfer`: done, or the server's refusal.
    pub fn transfer(&self, response: Response) -> (result: Result<(), BankError>)
        requires
            response is TransferResult,
        ensures
            response == Response::TransferResult(result),
    {
        match response {
            Response::TransferResult(result) => result,
            _ => unreached(),
        }
    }

    /// Reads the response to `GetAccountBalance`: the balance, or the
    /// server's refusal.
    pub fn get_account_balance(&self, response: Response) -> (result: Result<u32, BankError>)
        requires
            response is AccountBalance,
        ensures
            response == Response::AccountBalance(result),
    {
        match response {
            Response::AccountBalance(result) => result,
            _ => unreached(),
        }
    }

    /// Reads the response to `GetHistory`: the whole history.
    pub fn get_history(&self, response: Response) -> (history: Vec<Operation>)
        requires
            response is History,
        ensures
            response == Response::History(history),
    {
        match response {
            Response::History(history) => history,
            _ => unreached(),
        }
    }

    /// Reads the response to `GetAccountHistory` for an account that
    /// exists: the operations of the account.
    pub fn account_history(&self, response: Response) -> (history: Vec<Operation>)
        requires
            response matches Response::AccountHistory(Some(_)),
        ensures
            response == Response::AccountHistory(Some(history)),
    {
        match response {
            Response::AccountHistory(Some(history)) => history,
            _ => unreached(),
        }
    }

    /// Reads the response to `Restore`: done, or the refusal of the first
    /// operation that the server did not accept.
    pub fn restore(&self, response: Response) -> (result: Result<(), BankError>)
        requires
            response is Restore,
        ensures
            response == Response::Restore(result),
    {
        match response {
            Response::Restore(result) => result,
            _ => unreached(),
        }
    }
}

} // verus!
