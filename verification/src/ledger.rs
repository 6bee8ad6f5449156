//! The mathematical model of the ledger.
//!
//! A [`Ledger`] is the value of a bank at one moment: the balances of its
//! accounts, the history of the operations applied so far, and for each
//! account the positions of the history entries it takes part in. A command
//! is either refused, and then changes nothing, or applied, and then changes
//! balances, history and index together.

use crate::error::BankErrorView;
use crate::operation::OperationView;
use vstd::prelude::*;

verus! {

/// The state of a bank, as a mathematical value.
#[verifier::ext_equal]
pub struct Ledger {
    /// The balance of each account. An account exists exactly if it has an
    /// entry here.
    pub balances: Map<Seq<char>, nat>,
    /// For each account, the positions in `history` of the operations that
    /// involve it, in the order in which they happened.
    pub index: Map<Seq<char>, Seq<nat>>,
    /// Every operation applied so far, oldest first. The position of an
    /// entry is the identifier of the operation.
    pub history: Seq<OperationView>,
}

/// The positions of the entries of `history` that involve the account
/// `name`, in increasing order.
pub open spec fn positions(history: Seq<OperationView>, name: Seq<char>) -> Seq<nat>
    decreases history.len(),
{
    if history.len() == 0 {
        Seq::empty()
    } else if history.last().involves(name) {
        positions(history.drop_last(), name).push((history.len() - 1) as nat)
    } else {
        positions(history.drop_last(), name)
    }
}

/// What the operations add to the balance of the account `name`, taken
/// together.
pub open spec fn net(operations: Seq<OperationView>, name: Seq<char>) -> int
    decreases operations.len(),
{
    if operations.len() == 0 {
        0
    } else {
        operations[0].effect(name) + net(operations.skip(1), name)
    }
}

/// `index` with the operation `id` added at the end of the entries of the
/// account `name`. An account without entries gets its first one.
pub open spec fn index_append(index: Map<Seq<char>, Seq<nat>>, name: Seq<char>, id: nat) -> Map<
    Seq<char>,
    Seq<nat>,
> {
    if index.contains_key(name) {
        index.insert(name, index[name].push(id))
    } else {
        index.insert(name, seq![id])
    }
}

impl Ledger {
    /// The ledger of a new bank: no account, no history.
    pub open spec fn empty() -> Ledger {
        Ledger { balances: Map::empty(), index: Map::empty(), history: Seq::empty() }
    }

    /// Whether an account of this name exists.
    pub open spec fn has_account(self, name: Seq<char>) -> bool {
        self.balances.contains_key(name)
    }

    /// The balance of the account `name`, and zero for a name without an
    /// account.
    pub open spec fn balance_of(self, name: Seq<char>) -> nat {
        if self.has_account(name) {
            self.balances[name]
        } else {
            0
        }
    }

    /// Why the ledger refuses `operation`, or `None` if it accepts it.
    ///
    /// The checks are made in a fixed order, and the first that fails names
    /// the error: for a transfer, that the two accounts differ; then that
    /// each account exists, the source before the destination; then that the
    /// amount is not zero; then that the balance to take from covers the
    /// amount; then that the balance to add to stays within `u32::MAX`.
    pub open spec fn refusal(self, operation: OperationView) -> Option<BankErrorView> {
        match operation {
            OperationView::CreateAccount(name) => {
                if self.has_account(name) {
                    Some(BankErrorView::AccountAlreadyExists(name))
                } else {
                    None
                }
            },
            OperationView::IncreaseAccount(name, amount) => {
                if !self.has_account(name) {
                    Some(BankErrorView::AccountNotFound(name))
                } else if amount == 0 {
                    Some(BankErrorView::InvalidAmount(amount))
                } else if self.balances[name] + amount > u32::MAX {
                    Some(BankErrorView::InvalidAmount(amount))
                } else {
                    None
                }
            },
            OperationView::DecreaseAccount(name, amount) => {
                if !self.has_account(name) {
                    Some(BankErrorView::AccountNotFound(name))
                } else if amount == 0 {
                    Some(BankErrorView::InvalidAmount(amount))
                } else if amount > self.balances[name] {
                    Some(BankErrorView::InsufficientFunds(amount))
                } else {
                    None
                }
            },
            OperationView::Transfer(from, to, amount) => {
                if from == to {
                    Some(BankErrorView::TransferToSelf)
                } else if !self.has_account(from) {
                    Some(BankErrorView::AccountNotFound(from))
                } else if !self.has_account(to) {
                    Some(BankErrorView::AccountNotFound(to))
                } else if amount == 0 {
                    Some(BankErrorView::InvalidAmount(amount))
                } else if amount > self.balances[from] {
                    Some(BankErrorView::InsufficientFunds(amount))
                } else if self.balances[to] + amount > u32::MAX {
                    Some(BankErrorView::InvalidAmount(amount))
                } else {
                    None
                }
            },
        }
    }

    /// The ledger after `operation` was applied. It is meant for an
    /// operation that the ledger accepts: the operation becomes the last
    /// entry of the history, its position is added to the index of every
    /// account it involves, and the balances change as the operation says.
    pub open spec fn apply(self, operation: OperationView) -> Ledger {
        let id = self.history.len();
        match operation {
            OperationView::CreateAccount(name) => Ledger {
                balances: self.balances.insert(name, 0),
                index: index_append(self.index, name, id),
                history: self.history.push(operation),
            },
            OperationView::IncreaseAccount(name, amount) => Ledger {
                balances: self.balances.insert(name, self.balances[name] + amount),
                index: index_append(self.index, name, id),
                history: self.history.push(operation),
            },
            OperationView::DecreaseAccount(name, amount) => Ledger {
                balances: self.balances.insert(name, (self.balances[name] - amount) as nat),
                index: index_append(self.index, name, id),
                history: self.history.push(operation),
            },
            OperationView::Transfer(from, to, amount) => Ledger {
                balances: self.balances.insert(from, (self.balances[from] - amount) as nat).insert(
                    to,
                    self.balances[to] + amount,
                ),
                index: index_append(index_append(self.index, from, id), to, id),
                history: self.history.push(operation),
            },
        }
    }

    /// The ledger after `operation` was submitted as a command: applied if
    /// the ledger accepts it, and otherwise the ledger as it was.
    pub open spec fn submit(self, operation: OperationView) -> Ledger {
        if self.refusal(operation) is None {
            self.apply(operation)
        } else {
            self
        }
    }

    /// The ledger after each of the commands was submitted in turn. A
    /// refused command changes nothing, and the commands after it are
    /// submitted all the same.
    pub open spec fn submit_all(self, commands: Seq<OperationView>) -> Ledger
        decreases commands.len(),
    {
        if commands.len() == 0 {
            self
        } else {
            self.submit_all(commands.drop_last()).submit(commands.last())
        }
    }

    /// The ledger after the operations were submitted one after the other,
    /// up to the first that is refused: that one and all that follow it are
    /// left out.
    pub open spec fn replay(self, operations: Seq<OperationView>) -> Ledger
        decreases operations.len(),
    {
        if operations.len() == 0 {
            self
        } else if self.refusal(operations[0]) is Some {
            self
        } else {
            self.apply(operations[0]).replay(operations.skip(1))
        }
    }

    /// Why `replay` stopped early: the refusal of the first operation that
    /// is refused when the operations are submitted one after the other, or
    /// `None` if all of them are applied.
    pub open spec fn replay_refusal(self, operations: Seq<OperationView>) -> Option<BankErrorView>
        decreases operations.len(),
    {
        if operations.len() == 0 {
            None
        } else if self.refusal(operations[0]) is Some {
            self.refusal(operations[0])
        } else {
            self.apply(operations[0]).replay_refusal(operations.skip(1))
        }
    }

    /// The operations that the index lists for the account `name`, in the
    /// order of the index, or `None` if the index has no entry for it.
    pub open spec fn account_history(self, name: Seq<char>) -> Option<Seq<OperationView>> {
        if self.index.contains_key(name) {
            Some(self.index[name].map_values(|id: nat| self.history[id as int]))
        } else {
            None
        }
    }

    /// The index entries of the account `name`, and no entries for a name
    /// without an account.
    pub open spec fn indexed(self, name: Seq<char>) -> Seq<nat> {
        if self.index.contains_key(name) {
            self.index[name]
        } else {
            Seq::empty()
        }
    }

    /// Balances, index and history fit together: the accounts with a balance
    /// are those with an index entry, there are finitely many, no balance
    /// exceeds `u32::MAX`, and the index of each account lists exactly the
    /// positions of the history entries that involve it, in increasing
    /// order. No history entry involves a name without an account.
    pub open spec fn consistent(self) -> bool {
        &&& self.balances.dom().finite()
        &&& self.index.dom() == self.balances.dom()
        &&& forall|name: Seq<char>| #[trigger]
            self.balances.contains_key(name) ==> self.balances[name] <= u32::MAX
        &&& forall|name: Seq<char>| #[trigger]
            self.indexed(name) == positions(self.history, name)
    }

    /// The ledger is consistent, and it is what its own history yields when
    /// replayed from the empty ledger, with no entry refused. Every ledger
    /// that a bank ever holds is valid.
    pub open spec fn valid(self) -> bool {
        &&& self.consistent()
        &&& Ledger::empty().replay_refusal(self.history) is None
        &&& Ledger::empty().replay(self.history) == self
    }
}

} // verus!
