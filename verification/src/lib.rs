//! An in-memory bookkeeping ledger: accounts, balances and an append-only
//! history of the operations that were applied, with a per-account index
//! into that history.
//!
//! [`Bank`] is the executable ledger. Its mathematical value is a
//! [`Ledger`], and every contract of the crate is stated over that value:
//! a command either is refused, for the reason that [`Ledger::refusal`]
//! gives, and changes nothing, or it is applied as [`Ledger::apply`] says.
//! The module [`laws`] proves what follows for every ledger, among it that
//! replaying the history of a bank rebuilds the bank.
//!
//! [`handle_request`] serves a [`Command`] on a bank and gives the
//! [`Response`]; [`BankClient`] reads such a response on the other side.
//! Moving commands and responses between the two is left to the caller.

pub mod bank;
pub mod client;
pub mod error;
pub mod laws;
pub mod ledger;
pub mod operation;
pub mod protocol;

pub use bank::Bank;
pub use client::BankClient;
pub use error::{BankError, BankErrorView};
pub use ledger::Ledger;
pub use operation::{Operation, OperationId, OperationView};
pub use protocol::{handle_request, Command, CommandView, Response, ResponseView};
