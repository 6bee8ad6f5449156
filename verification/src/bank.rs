//! The executable ledger.
//!
//! A [`Bank`] is made of two layers. The store holds the state and offers
//! the primitive steps, which check nothing: find an account, read or write
//! a balance, append a history entry, append a position to an account's
//! index. The bank's own methods are the commands: each makes all its checks
//! first and only then writes to the store, so that a command is applied as
//! a whole or not at all.
//!
//! The mathematical value of a bank is a [`Ledger`]. It is a valid ledger at
//! every moment: that is the bank's type invariant, so no method asks
//! anything of the bank it is called on.

use crate::error::{BankError, BankErrorView};
use crate::laws::{lemma_empty_valid, lemma_positions_listed, lemma_submit_valid};
use crate::ledger::{positions, Ledger};
use crate::operation::{operations_view, Operation, OperationId, OperationView};
use vstd::hash_map::StringHashMap;
use vstd::prelude::*;

verus! {

/// What the store holds for one account.
struct Account {
    name: String,
    balance: u32,
    /// The positions in the history of the operations that involve the
    /// account, oldest first.
    operations: Vec<OperationId>,
}

/// The state of a bank. The accounts stand in a vector, in the order of
/// their creation, and `slots` leads from the name of an account to its
/// place in that vector.
struct Store {
    slots: StringHashMap<usize>,
    accounts: Vec<Account>,
    history: Vec<Operation>,
}

/// Positions in the history, as natural numbers.
spec fn positions_view(positions: Seq<usize>) -> Seq<nat> {
    positions.map_values(|id: usize| id as nat)
}

impl View for Store {
    type V = Ledger;

    closed spec fn view(&self) -> Ledger {
        Ledger {
            balances: Map::new(
                |name: Seq<char>| self.slots@.contains_key(name),
                |name: Seq<char>| self.accounts@[self.slots@[name] as int].balance as nat,
            ),
            index: Map::new(
                |name: Seq<char>| self.slots@.contains_key(name),
                |name: Seq<char>|
                    positions_view(self.accounts@[self.slots@[name] as int].operations@),
            ),
            history: operations_view(self.history@),
        }
    }
}

impl Store {
    /// Names and places fit together: every name that `slots` knows leads
    /// to the account of that name, and every account is found under its
    /// name.
    spec fn fits(&self) -> bool {
        &&& self.slots@.dom().finite()
        &&& forall|name: Seq<char>| #[trigger]
            self.slots@.contains_key(name) ==> {
                &&& self.slots@[name] < self.accounts@.len()
                &&& self.accounts@[self.slots@[name] as int].name@ == name
            }
        &&& forall|slot: int|
            0 <= slot < self.accounts@.len() ==> {
                &&& self.slots@.contains_key((#[trigger] self.accounts@[slot]).name@)
                &&& self.slots@[self.accounts@[slot].name@] == slot
            }
    }

    /// The names of the accounts, in the order of their places.
    spec fn names(&self) -> Seq<Seq<char>> {
        self.accounts@.map_values(|account: Account| account.name@)
    }

    /// The name of the account at `slot`.
    spec fn name_at(&self, slot: usize) -> Seq<char> {
        self.names()[slot as int]
    }

    /// A store without accounts and without history.
    fn new() -> (store: Self)
        ensures
            store.fits(),
            store@ == Ledger::empty(),
    {
        Store { slots: StringHashMap::new(), accounts: Vec::new(), history: Vec::new() }
    }

    /// The place of the account `account`, if it exists.
    fn find(&self, account: &str) -> (found: Option<usize>)
        requires
            self.fits(),
        ensures
            match found {
                Some(slot) => {
                    &&& self@.has_account(account@)
                    &&& slot < self.accounts@.len()
                    &&& self.name_at(slot) == account@
                },
                None => !self@.has_account(account@),
            },
    {
        match self.slots.get(account) {
            Some(slot) => Some(*slot),
            None => None,
        }
    }

    /// The balance of the account at `slot`.
    fn balance(&self, slot: usize) -> (balance: u32)
        requires
            self.fits(),
            slot < self.accounts@.len(),
        ensures
            balance == self@.balances[self.name_at(slot)],
    {
        self.accounts[slot].balance
    }

    /// Sets the balance of the account at `slot`.
    fn write_balance(&mut self, slot: usize, balance: u32)
        requires
            old(self).fits(),
            slot < old(self).accounts@.len(),
        ensures
            final(self).fits(),
            final(self).accounts@.len() == old(self).accounts@.len(),
            final(self).names() == old(self).names(),
            final(self)@ == (Ledger {
                balances: old(self)@.balances.insert(old(self).name_at(slot), balance as nat),
                ..old(self)@
            }),
    {
        self.accounts[slot].balance = balance;
    }

    /// Adds the account `account`, with balance zero and no operations, and
    /// returns its place.
    fn open_account(&mut self, account: String) -> (slot: usize)
        requires
            old(self).fits(),
            !old(self)@.has_account(account@),
        ensures
            final(self).fits(),
            slot < final(self).accounts@.len(),
            final(self).name_at(slot) == account@,
            final(self)@ == (Ledger {
                balances: old(self)@.balances.insert(account@, 0),
                index: old(self)@.index.insert(account@, Seq::empty()),
                ..old(self)@
            }),
    {
        let slot = self.accounts.len();
        self.accounts.push(Account { name: account.clone(), balance: 0, operations: Vec::new() });
        self.slots.insert(account, slot);
        proof {
            assert(positions_view(self.accounts@[slot as int].operations@) =~= Seq::empty());
        }
        slot
    }

    /// Appends `operation` to the history and returns its position.
    fn append_history(&mut self, operation: Operation) -> (id: OperationId)
        requires
            old(self).fits(),
        ensures
            final(self).fits(),
            id == old(self)@.history.len(),
            final(self).accounts@.len() == old(self).accounts@.len(),
            final(self).names() == old(self).names(),
            final(self)@ == (Ledger {
                history: old(self)@.history.push(operation@),
                ..old(self)@
            }),
    {
        self.history.push(operation);
        self.history.len() - 1
    }

    /// Appends the position `id` to the index of the account at `slot`.
    fn append_account_index(&mut self, slot: usize, id: OperationId)
        requires
            old(self).fits(),
            slot < old(self).accounts@.len(),
        ensures
            final(self).fits(),
            final(self).accounts@.len() == old(self).accounts@.len(),
            final(self).names() == old(self).names(),
            final(self)@ == (Ledger {
                index: old(self)@.index.insert(
                    old(self).name_at(slot),
                    old(self)@.index[old(self).name_at(slot)].push(id as nat),
                ),
                ..old(self)@
            }),
    {
        self.accounts[slot].operations.push(id);
        proof {
            let name = old(self).name_at(slot);
            assert(positions_view(self.accounts@[slot as int].operations@)
                =~= old(self)@.index[name].push(id as nat));
        }
    }
}

/// An in-memory ledger of accounts, balances and the history of the
/// operations applied to them.
pub struct Bank {
    store: Store,
}

impl View for Bank {
    type V = Ledger;

    closed spec fn view(&self) -> Ledger {
        self.store@
    }
}

impl Default for Bank {
    /// A bank without accounts and without history, as `Bank::new` gives it.
    fn default() -> (bank: Self)
        ensures
            bank@ == Ledger::empty(),
            bank@.valid(),
    {
        Bank::new()
    }
}

impl Bank {
    /// What holds of a bank at every moment: its store fits together, and
    /// its value is a valid ledger.
    #[verifier::type_invariant]
    spec fn well_formed(&self) -> bool {
        &&& self.store.fits()
        &&& self@.valid()
    }

    /// A bank without accounts and without history.
    pub fn new() -> (bank: Self)
        ensures
            bank@ == Ledger::empty(),
            bank@.valid(),
    {
        proof {
            lemma_empty_valid();
        }
        Bank { store: Store::new() }
    }

    /// Takes the store out of the bank and leaves an empty one in its
    /// place. A command writes to the store in several steps; it does so
    /// while the store is out of the bank, and puts it back when the steps
    /// are done, so that the bank holds a valid ledger at every moment.
    fn take_store(&mut self) -> (store: Store)
        ensures
            store == old(self).store,
    {
        proof {
            lemma_empty_valid();
        }
        let mut store = Store::new();
        std::mem::swap(&mut self.store, &mut store);
        store
    }

    /// Refuses a zero amount.
    fn check_zero_amount(&self, amount: u32) -> (result: Result<(), BankError>)
        ensures
            match result {
                Ok(()) => amount != 0,
                Err(error) => amount == 0 && error@ == BankErrorView::InvalidAmount(amount as nat),
            },
    {
        if amount == 0 {
            return Err(BankError::InvalidAmount(amount));
        }
        Ok(())
    }

    /// Finds the place of the account `account` in the store, or refuses
    /// the name if no such account exists.
    fn check_exists_account(&self, account: &String) -> (result: Result<usize, BankError>)
        ensures
            match result {
                Ok(slot) => {
                    &&& self@.has_account(account@)
                    &&& slot < self.store.accounts@.len()
                    &&& self.store.name_at(slot) == account@
                },
                Err(error) => {
                    &&& !self@.has_account(account@)
                    &&& error@ == BankErrorView::AccountNotFound(account@)
                },
            },
    {
        proof {
            use_type_invariant(self);
        }
        match self.store.find(account.as_str()) {
            Some(slot) => Ok(slot),
            None => Err(BankError::AccountNotFound(account.clone())),
        }
    }

    /// The balance of the account `account`, or `AccountNotFound` if no such
    /// account exists. The bank does not change.
    pub fn get_account_balance(&self, account: String) -> (result: Result<u32, BankError>)
        ensures
            self@.valid(),
            match result {
                Ok(balance) => {
                    &&& self@.has_account(account@)
                    &&& balance == self@.balances[account@]
                },
                Err(error) => {
                    &&& !self@.has_account(account@)
                    &&& error@ == BankErrorView::AccountNotFound(account@)
                },
            },
    {
        proof {
            use_type_invariant(self);
        }
        match self.check_exists_account(&account) {
            Ok(slot) => Ok(self.store.balance(slot)),
            Err(error) => Err(error),
        }
    }

    /// The whole history, oldest entry first. The caller gets a shared
    /// reference and cannot change the bank through it.
    pub fn get_history(&self) -> (history: &Vec<Operation>)
        ensures
            self@.valid(),
            operations_view(history@) == self@.history,
            history@.len() == self@.history.len(),
            forall|id: int|
                0 <= id < history@.len() ==> (#[trigger] history@[id])@ == self@.history[id],
    {
        proof {
            use_type_invariant(self);
        }
        &self.store.history
    }

    /// The operations that involve the account `account`, oldest first, or
    /// `None` if no such account exists.
    pub fn get_account_history(&self, account: String) -> (result: Option<Vec<Operation>>)
        ensures
            self@.valid(),
            match result {
                Some(operations) => self@.account_history(account@) == Some(
                    operations_view(operations@),
                ),
                None => self@.account_history(account@) is None,
            },
    {
        proof {
            use_type_invariant(self);
        }
        let slot = match self.check_exists_account(&account) {
            Ok(slot) => slot,
            Err(_) => {
                return None;
            },
        };
        let ids = &self.store.accounts[slot].operations;
        let history = &self.store.history;
        let ghost listed = self@.index[account@];
        proof {
            assert(self@.indexed(account@) == positions(self@.history, account@));
            lemma_positions_listed(self@.history, account@);
        }
        let mut operations: Vec<Operation> = Vec::new();
        let mut next: usize = 0;
        while next < ids.len()
            invariant
                next <= ids@.len(),
                listed == positions_view(ids@),
                forall|j: int| 0 <= j < listed.len() ==> (#[trigger] listed[j]) < history@.len(),
                operations@.len() == next,
                forall|j: int|
                    0 <= j < next ==> (#[trigger] operations@[j])@ == history@[ids@[j] as int]@,
            decreases ids@.len() - next,
        {
            assert(listed[next as int] == ids@[next as int]);
            let id = ids[next];
            operations.push(history[id].clone());
            next = next + 1;
        }
        Some(operations)
    }

    /// The number of accounts.
    pub fn account_count(&self) -> (count: usize)
        ensures
            self@.valid(),
            count == self@.balances.dom().len(),
            count == self@.index.dom().len(),
    {
        proof {
            use_type_invariant(self);
            assert(self@.index.dom() =~= self.store.slots@.dom());
        }
        self.store.slots.len()
    }

    /// The positions in the history of the operations that involve the
    /// account `account`, oldest first, or `None` if no such account exists.
    pub fn get_account_operations(&self, account: String) -> (result: Option<&Vec<OperationId>>)
        ensures
            self@.valid(),
            match result {
                Some(ids) => {
                    &&& self@.index.contains_key(account@)
                    &&& ids@.map_values(|id: usize| id as nat) == self@.index[account@]
                },
                None => !self@.index.contains_key(account@),
            },
    {
        proof {
            use_type_invariant(self);
        }
        match self.check_exists_account(&account) {
            Ok(slot) => Some(&self.store.accounts[slot].operations),
            Err(_) => None,
        }
    }

    /// Creates the account `account` with balance zero and returns the
    /// position of the history entry that records it.
    ///
    /// The command is refused, and the bank left as it was, if an account of
    /// that name exists already.
    pub fn create_account(&mut self, account: String) -> (result: Result<OperationId, BankError>)
        ensures
            final(self)@.valid(),
            final(self)@ == old(self)@.submit(OperationView::CreateAccount(account@)),
            match result {
                Ok(id) => {
                    &&& old(self)@.refusal(OperationView::CreateAccount(account@)) is None
                    &&& id == old(self)@.history.len()
                },
                Err(error) => old(self)@.refusal(OperationView::CreateAccount(account@)) == Some(
                    error@,
                ),
            },
    {
        proof {
            use_type_invariant(&*self);
        }
        let ghost before = self@;
        let ghost operation = OperationView::CreateAccount(account@);
        if self.store.find(account.as_str()).is_some() {
            return Err(BankError::AccountAlreadyExists(account));
        }
        let mut store = self.take_store();
        let slot = store.open_account(account.clone());
        let id = store.append_history(Operation::CreateAccount(account));
        store.append_account_index(slot, id);
        proof {
            let after = before.apply(operation);
            assert(store@.index =~= after.index);
            lemma_submit_valid(before, operation);
        }
        self.store = store;
        Ok(id)
    }

    /// Adds `amount` to the balance of the account `account` and returns the
    /// position of the history entry that records it.
    ///
    /// The command is refused, and the bank left as it was, if the account
    /// does not exist, if the amount is zero, or if the new balance would
    /// exceed `u32::MAX`.
    pub fn increase_account(&mut self, account: String, amount: u32) -> (result: Result<
        OperationId,
        BankError,
    >)
        ensures
            final(self)@.valid(),
            final(self)@ == old(self)@.submit(
                OperationView::IncreaseAccount(account@, amount as nat),
            ),
            match result {
                Ok(id) => {
                    &&& old(self)@.refusal(OperationView::IncreaseAccount(account@, amount as nat))
                        is None
                    &&& id == old(self)@.history.len()
                },
                Err(error) => old(self)@.refusal(
                    OperationView::IncreaseAccount(account@, amount as nat),
                ) == Some(error@),
            },
    {
        proof {
            use_type_invariant(&*self);
        }
        let ghost before = self@;
        let ghost operation = OperationView::IncreaseAccount(account@, amount as nat);
        let slot = match self.check_exists_account(&account) {
            Ok(slot) => slot,
            Err(error) => {
                return Err(error);
            },
        };
        match self.check_zero_amount(amount) {
            Ok(()) => {},
            Err(error) => {
                return Err(error);
            },
        }
        let raised = match self.store.balance(slot).checked_add(amount) {
            Some(sum) => sum,
            None => {
                return Err(BankError::InvalidAmount(amount));
            },
        };
        let mut store = self.take_store();
        store.write_balance(slot, raised);
        let id = store.append_history(Operation::IncreaseAccount(account, amount));
        store.append_account_index(slot, id);
        proof {
            lemma_submit_valid(before, operation);
        }
        self.store = store;
        Ok(id)
    }

    /// Takes `amount` from the balance of the account `account` and returns
    /// the position of the history entry that records it.
    ///
    /// The command is refused, and the bank left as it was, if the account
    /// does not exist, if the amount is zero, or if it exceeds the balance.
    pub fn decrease_account(&mut self, account: String, amount: u32) -> (result: Result<
        OperationId,
        BankError,
    >)
        ensures
            final(self)@.valid(),
            final(self)@ == old(self)@.submit(
                OperationView::DecreaseAccount(account@, amount as nat),
            ),
            match result {
                Ok(id) => {
                    &&& old(self)@.refusal(OperationView::DecreaseAccount(account@, amount as nat))
                        is None
                    &&& id == old(self)@.history.len()
                },
                Err(error) => old(self)@.refusal(
                    OperationView::DecreaseAccount(account@, amount as nat),
                ) == Some(error@),
            },
    {
        proof {
            use_type_invariant(&*self);
        }
        let ghost before = self@;
        let ghost operation = OperationView::DecreaseAccount(account@, amount as nat);
        let slot = match self.check_exists_account(&account) {
            Ok(slot) => slot,
            Err(error) => {
                return Err(error);
            },
        };
        match self.check_zero_amount(amount) {
            Ok(()) => {},
            Err(error) => {
                return Err(error);
            },
        }
        let current = self.store.balance(slot);
        if current < amount {
            return Err(BankError::InsufficientFunds(amount));
        }
        let mut store = self.take_store();
        store.write_balance(slot, current - amount);
        let id = store.append_history(Operation::DecreaseAccount(account, amount));
        store.append_account_index(slot, id);
        proof {
            lemma_submit_valid(before, operation);
        }
        self.store = store;
        Ok(id)
    }

    /// Moves `amount` from the account `from` to the account `to`.
    ///
    /// The transfer is refused, and the bank left as it was, if the two
    /// names are the same, if either account does not exist, if the amount
    /// is zero, if it exceeds the balance of `from`, or if it would take the
    /// balance of `to` beyond `u32::MAX`. Otherwise both balances change
    /// together, and one history entry is recorded and indexed under both
    /// accounts.
    pub fn transfer(&mut self, from: String, to: String, amount: u32) -> (result: Result<
        (),
        BankError,
    >)
        ensures
            final(self)@.valid(),
            final(self)@ == old(self)@.submit(
                OperationView::Transfer(from@, to@, amount as nat),
            ),
            match result {
                Ok(()) => old(self)@.refusal(OperationView::Transfer(from@, to@, amount as nat))
                    is None,
                Err(error) => old(self)@.refusal(
                    OperationView::Transfer(from@, to@, amount as nat),
                ) == Some(error@),
            },
    {
        proof {
            use_type_invariant(&*self);
        }
        let ghost before = self@;
        let ghost operation = OperationView::Transfer(from@, to@, amount as nat);
        if from == to {
            return Err(BankError::TransferToSelf);
        }
        let source = match self.check_exists_account(&from) {
            Ok(slot) => slot,
            Err(error) => {
                return Err(error);
            },
        };
        let target = match self.check_exists_account(&to) {
            Ok(slot) => slot,
            Err(error) => {
                return Err(error);
            },
        };
        match self.check_zero_amount(amount) {
            Ok(()) => {},
            Err(error) => {
                return Err(error);
            },
        }
        let available = self.store.balance(source);
        if available < amount {
            return Err(BankError::InsufficientFunds(amount));
        }
        let raised = match self.store.balance(target).checked_add(amount) {
            Some(sum) => sum,
            None => {
                return Err(BankError::InvalidAmount(amount));
            },
        };
        let mut store = self.take_store();
        store.write_balance(source, available - amount);
        store.write_balance(target, raised);
        let id = store.append_history(Operation::Transfer(from, to, amount));
        store.append_account_index(source, id);
        store.append_account_index(target, id);
        proof {
            lemma_submit_valid(before, operation);
        }
        self.store = store;
        Ok(())
    }

    /// Submits a recorded operation as the command that it records.
    fn submit(&mut self, operation: &Operation) -> (result: Result<(), BankError>)
        ensures
            final(self)@.valid(),
            final(self)@ == old(self)@.submit(operation@),
            match result {
                Ok(()) => old(self)@.refusal(operation@) is None,
                Err(error) => old(self)@.refusal(operation@) == Some(error@),
            },
    {
        match operation {
            Operation::CreateAccount(account) => {
                match self.create_account(account.clone()) {
                    Ok(_) => Ok(()),
                    Err(error) => Err(error),
                }
            },
            Operation::IncreaseAccount(account, amount) => {
                match self.increase_account(account.clone(), *amount) {
                    Ok(_) => Ok(()),
                    Err(error) => Err(error),
                }
            },
            Operation::DecreaseAccount(account, amount) => {
                match self.decrease_account(account.clone(), *amount) {
                    Ok(_) => Ok(()),
                    Err(error) => Err(error),
                }
            },
            Operation::Transfer(from, to, amount) => self.transfer(
                from.clone(),
                to.clone(),
                *amount,
            ),
        }
    }

    /// Replays a recorded history: submits each operation of `history` in
    /// order, through the same checks as a command of its kind.
    ///
    /// The replay stops at the first operation that is refused and returns
    /// its error. The operations before it stay applied, that one and those
    /// after it are not. Replaying the history of one bank into a new bank
    /// gives a bank of the same value.
    pub fn restore(&mut self, history: &Vec<Operation>) -> (result: Result<(), BankError>)
        ensures
            final(self)@.valid(),
            final(self)@ == old(self)@.replay(operations_view(history@)),
            match result {
                Ok(()) => old(self)@.replay_refusal(operations_view(history@)) is None,
                Err(error) => old(self)@.replay_refusal(operations_view(history@)) == Some(
                    error@,
                ),
            },
            forall|source: Ledger|
                old(self)@ == Ledger::empty() && #[trigger] source.valid() && source.history
                    == operations_view(history@) ==> result is Ok && final(self)@ == source,
    {
        proof {
            use_type_invariant(&*self);
        }
        let ghost operations = operations_view(history@);
        let mut next: usize = 0;
        assert(operations.skip(0) =~= operations);
        while next < history.len()
            invariant
                next <= history@.len(),
                operations == operations_view(history@),
                self@.valid(),
                old(self)@.replay(operations) == self@.replay(operations.skip(next as int)),
                old(self)@.replay_refusal(operations) == self@.replay_refusal(
                    operations.skip(next as int),
                ),
            decreases history@.len() - next,
        {
            let ghost rest = operations.skip(next as int);
            assert(rest.skip(1) =~= operations.skip(next + 1));
            match self.submit(&history[next]) {
                Ok(()) => {},
                Err(error) => {
                    return Err(error);
                },
            }
            next = next + 1;
        }
        Ok(())
    }
}

} // verus!
