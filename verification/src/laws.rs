//! What holds of every ledger, proved over the model of [`Ledger`].

use crate::error::BankErrorView;
use crate::ledger::{net, positions, Ledger};
use crate::operation::OperationView;
use vstd::prelude::*;

verus! {

// Commands that are refused.

/// A command that is refused changes nothing: balances, index and history
/// are what they were, so no history entry is made.
pub proof fn lemma_refused_command_changes_nothing(ledger: Ledger, operation: OperationView)
    requires
        ledger.refusal(operation) is Some,
    ensures
        ledger.submit(operation) == ledger,
{
}

/// Increasing the balance of an existing account by zero is refused with
/// `InvalidAmount`, and nothing changes: no history entry is made.
pub proof fn lemma_increase_by_zero_refused(ledger: Ledger, name: Seq<char>)
    requires
        ledger.has_account(name),
    ensures
        ledger.refusal(OperationView::IncreaseAccount(name, 0)) == Some(
            BankErrorView::InvalidAmount(0),
        ),
        ledger.submit(OperationView::IncreaseAccount(name, 0)) == ledger,
{
}

/// Decreasing the balance of an existing account by zero is refused with
/// `InvalidAmount`, and nothing changes: no history entry is made.
pub proof fn lemma_decrease_by_zero_refused(ledger: Ledger, name: Seq<char>)
    requires
        ledger.has_account(name),
    ensures
        ledger.refusal(OperationView::DecreaseAccount(name, 0)) == Some(
            BankErrorView::InvalidAmount(0),
        ),
        ledger.submit(OperationView::DecreaseAccount(name, 0)) == ledger,
{
}

/// A transfer of zero between two different existing accounts is refused
/// with `InvalidAmount`, and nothing changes: no history entry is made.
pub proof fn lemma_transfer_of_zero_refused(ledger: Ledger, from: Seq<char>, to: Seq<char>)
    requires
        ledger.has_account(from),
        ledger.has_account(to),
        from != to,
    ensures
        ledger.refusal(OperationView::Transfer(from, to, 0)) == Some(
            BankErrorView::InvalidAmount(0),
        ),
        ledger.submit(OperationView::Transfer(from, to, 0)) == ledger,
{
}

/// A transfer from an account to itself is refused with `TransferToSelf`,
/// whatever the amount, and whether or not the account exists or covers the
/// amount. Nothing changes.
pub proof fn lemma_transfer_to_self_refused(ledger: Ledger, name: Seq<char>, amount: nat)
    ensures
        ledger.refusal(OperationView::Transfer(name, name, amount)) == Some(
            BankErrorView::TransferToSelf,
        ),
        ledger.submit(OperationView::Transfer(name, name, amount)) == ledger,
{
}

/// Decreasing the balance of an existing account by more than it holds is
/// refused with `InsufficientFunds`, and nothing changes.
pub proof fn lemma_decrease_beyond_balance_refused(ledger: Ledger, name: Seq<char>, amount: nat)
    requires
        ledger.has_account(name),
        amount > ledger.balances[name],
    ensures
        ledger.refusal(OperationView::DecreaseAccount(name, amount)) == Some(
            BankErrorView::InsufficientFunds(amount),
        ),
        ledger.submit(OperationView::DecreaseAccount(name, amount)) == ledger,
{
}

/// A transfer between two different existing accounts of more than the
/// source holds is refused with `InsufficientFunds`, and nothing changes.
pub proof fn lemma_transfer_beyond_balance_refused(
    ledger: Ledger,
    from: Seq<char>,
    to: Seq<char>,
    amount: nat,
)
    requires
        ledger.has_account(from),
        ledger.has_account(to),
        from != to,
        amount > ledger.balances[from],
    ensures
        ledger.refusal(OperationView::Transfer(from, to, amount)) == Some(
            BankErrorView::InsufficientFunds(amount),
        ),
        ledger.submit(OperationView::Transfer(from, to, amount)) == ledger,
{
}

// Commands that are applied.

/// An account can be created exactly once.
///
/// Creating an account that does not exist is accepted: the account then
/// exists with balance zero, and the history has one more entry, which
/// records the creation. Creating it again is refused with
/// `AccountAlreadyExists` and changes nothing, so the history holds one
/// entry for the creation and not two; and it stays refused after whatever
/// operations are replayed later.
pub proof fn lemma_create_account_once(
    ledger: Ledger,
    name: Seq<char>,
    later: Seq<OperationView>,
)
    requires
        !ledger.has_account(name),
    ensures
        ({
            let create = OperationView::CreateAccount(name);
            let created = ledger.submit(create);
            &&& ledger.refusal(create) is None
            &&& created.has_account(name)
            &&& created.balances[name] == 0
            &&& created.history == ledger.history.push(create)
            &&& created.refusal(create) == Some(BankErrorView::AccountAlreadyExists(name))
            &&& created.submit(create) == created
            &&& created.replay(later).refusal(create) == Some(
                BankErrorView::AccountAlreadyExists(name),
            )
        }),
{
    let create = OperationView::CreateAccount(name);
    lemma_account_persists(ledger.submit(create), later, name);
}

/// In a consistent ledger, the creation of an account is the first history
/// entry that involves it: before the creation no entry does, and right
/// after it exactly one does, the last of the history.
pub proof fn lemma_creation_is_first_entry(ledger: Ledger, name: Seq<char>)
    requires
        ledger.consistent(),
        !ledger.has_account(name),
    ensures
        positions(ledger.history, name) == Seq::<nat>::empty(),
        positions(ledger.submit(OperationView::CreateAccount(name)).history, name) == seq![
            ledger.history.len(),
        ],
{
    let create = OperationView::CreateAccount(name);
    assert(ledger.indexed(name) == positions(ledger.history, name));
    assert(!ledger.index.dom().contains(name));
    lemma_positions_push(ledger.history, create, name);
    assert(Seq::<nat>::empty().push(ledger.history.len()) =~= seq![ledger.history.len()]);
}

/// Increasing a balance and then decreasing it by the same amount brings
/// every balance back to what it was. Both commands are accepted, provided
/// that the account exists, the amount is not zero and the increased balance
/// does not exceed `u32::MAX`.
pub proof fn lemma_increase_then_decrease(ledger: Ledger, name: Seq<char>, amount: nat)
    requires
        ledger.has_account(name),
        amount > 0,
        ledger.balances[name] + amount <= u32::MAX,
    ensures
        ({
            let increase = OperationView::IncreaseAccount(name, amount);
            let decrease = OperationView::DecreaseAccount(name, amount);
            let raised = ledger.submit(increase);
            let lowered = raised.submit(decrease);
            &&& ledger.refusal(increase) is None
            &&& raised.balances[name] == ledger.balances[name] + amount
            &&& raised.refusal(decrease) is None
            &&& lowered.balances[name] == ledger.balances[name]
            &&& lowered.balances == ledger.balances
        }),
{
    let increase = OperationView::IncreaseAccount(name, amount);
    let decrease = OperationView::DecreaseAccount(name, amount);
    let lowered = ledger.submit(increase).submit(decrease);
    assert(lowered.balances =~= ledger.balances);
}

/// A transfer that is applied moves the amount: the source holds that much
/// less, the destination that much more, every other balance is as it was,
/// and the one new history entry is the last entry of both accounts' index.
pub proof fn lemma_transfer_moves_amount(
    ledger: Ledger,
    from: Seq<char>,
    to: Seq<char>,
    amount: nat,
)
    requires
        ledger.consistent(),
        ledger.refusal(OperationView::Transfer(from, to, amount)) is None,
    ensures
        ({
            let moved = ledger.apply(OperationView::Transfer(from, to, amount));
            &&& moved.balances[from] == ledger.balances[from] - amount
            &&& moved.balances[to] == ledger.balances[to] + amount
            &&& moved.balances[from] + moved.balances[to] == ledger.balances[from]
                + ledger.balances[to]
            &&& forall|name: Seq<char>|
                name != from && name != to ==> moved.has_account(name) == ledger.has_account(name)
                    && moved.balances[name] == ledger.balances[name]
            &&& moved.history.len() == ledger.history.len() + 1
            &&& moved.index[from] == ledger.index[from].push(ledger.history.len())
            &&& moved.index[to] == ledger.index[to].push(ledger.history.len())
        }),
{
    assert(ledger.index.dom().contains(from));
    assert(ledger.index.dom().contains(to));
}

// Every ledger that commands lead to is valid.

/// The empty ledger is valid.
pub proof fn lemma_empty_valid()
    ensures
        Ledger::empty().valid(),
{
    let empty = Ledger::empty();
    assert(empty.index.dom() =~= empty.balances.dom());
}

/// Applying an operation that a consistent ledger accepts gives a
/// consistent ledger.
pub proof fn lemma_apply_consistent(ledger: Ledger, operation: OperationView)
    requires
        ledger.consistent(),
        ledger.refusal(operation) is None,
    ensures
        ledger.apply(operation).consistent(),
{
    let next = ledger.apply(operation);
    let id = ledger.history.len();
    assert(next.index.dom() =~= next.balances.dom());
    assert forall|name: Seq<char>| #[trigger]
        next.indexed(name) == positions(next.history, name) by {
        lemma_positions_push(ledger.history, operation, name);
        assert(ledger.indexed(name) == positions(ledger.history, name));
        if operation.involves(name) {
            assert(next.indexed(name) =~= ledger.indexed(name).push(id));
        } else {
            assert(next.indexed(name) =~= ledger.indexed(name));
        }
    }
}

/// Whatever command is submitted to a valid ledger, the ledger stays valid.
pub proof fn lemma_submit_valid(ledger: Ledger, operation: OperationView)
    requires
        ledger.valid(),
    ensures
        ledger.submit(operation).valid(),
{
    if ledger.refusal(operation) is None {
        lemma_apply_consistent(ledger, operation);
        lemma_replay_push(Ledger::empty(), ledger.history, operation);
    }
}

/// Whatever commands are submitted to a valid ledger, in whatever order and
/// whether accepted or refused, the ledger stays valid.
pub proof fn lemma_submit_all_valid(ledger: Ledger, commands: Seq<OperationView>)
    requires
        ledger.valid(),
    ensures
        ledger.submit_all(commands).valid(),
    decreases commands.len(),
{
    if commands.len() > 0 {
        lemma_submit_all_valid(ledger, commands.drop_last());
        lemma_submit_valid(ledger.submit_all(commands.drop_last()), commands.last());
    }
}

/// The history only grows. Whatever commands are submitted, the entries
/// that were there stay at their positions, unchanged, and every account
/// that existed still exists.
pub proof fn lemma_history_only_grows(ledger: Ledger, commands: Seq<OperationView>)
    ensures
        ledger.history.is_prefix_of(ledger.submit_all(commands).history),
        forall|name: Seq<char>|
            ledger.has_account(name) ==> ledger.submit_all(commands).has_account(name),
    decreases commands.len(),
{
    if commands.len() > 0 {
        lemma_history_only_grows(ledger, commands.drop_last());
    }
}

/// An account that exists keeps existing, whatever is replayed.
pub proof fn lemma_account_persists(
    ledger: Ledger,
    operations: Seq<OperationView>,
    name: Seq<char>,
)
    requires
        ledger.has_account(name),
    ensures
        ledger.replay(operations).has_account(name),
    decreases operations.len(),
{
    if operations.len() > 0 && ledger.refusal(operations[0]) is None {
        lemma_account_persists(ledger.apply(operations[0]), operations.skip(1), name);
    }
}

// Replay.

/// Replaying a sequence with one more operation at its end is replaying
/// the sequence and then submitting that operation, provided that nothing
/// in the sequence is refused.
pub proof fn lemma_replay_push(
    ledger: Ledger,
    operations: Seq<OperationView>,
    operation: OperationView,
)
    requires
        ledger.replay_refusal(operations) is None,
    ensures
        ledger.replay(operations.push(operation)) == ledger.replay(operations).submit(operation),
        ledger.replay_refusal(operations.push(operation)) == ledger.replay(operations).refusal(
            operation,
        ),
    decreases operations.len(),
{
    let longer = operations.push(operation);
    if operations.len() == 0 {
        let rest = longer.skip(1);
        let applied = ledger.apply(operation);
        assert(longer[0] == operation);
        assert(rest.len() == 0);
        assert(applied.replay(rest) == applied);
        assert(applied.replay_refusal(rest) is None);
    } else {
        let first = operations[0];
        assert(longer[0] == first);
        assert(longer.skip(1) =~= operations.skip(1).push(operation));
        lemma_replay_push(ledger.apply(first), operations.skip(1), operation);
    }
}

/// Replaying a history rebuilds the ledger it was taken from.
///
/// Let any sequence of commands be submitted to a new bank, some accepted
/// and some refused, and let the history of that bank be replayed into
/// another new bank. Then no entry is refused, and the second bank has the
/// history of the first, the accounts of the first and the balance of the
/// first for every account: the two ledgers are equal.
pub proof fn lemma_replay_rebuilds_ledger(commands: Seq<OperationView>)
    ensures
        ({
            let source = Ledger::empty().submit_all(commands);
            let rebuilt = Ledger::empty().replay(source.history);
            &&& Ledger::empty().replay_refusal(source.history) is None
            &&& rebuilt.history == source.history
            &&& forall|name: Seq<char>|
                rebuilt.has_account(name) == source.has_account(name) && rebuilt.balances[name]
                    == source.balances[name]
            &&& rebuilt == source
        }),
{
    lemma_empty_valid();
    lemma_submit_all_valid(Ledger::empty(), commands);
}

/// Replaying operations that are all accepted changes each balance by what
/// the operations add to it, taken together. An account that the replay
/// creates starts from zero.
pub proof fn lemma_replay_adds_net(
    ledger: Ledger,
    operations: Seq<OperationView>,
    name: Seq<char>,
)
    requires
        ledger.replay_refusal(operations) is None,
    ensures
        ledger.replay(operations).balance_of(name) == ledger.balance_of(name) + net(
            operations,
            name,
        ),
    decreases operations.len(),
{
    if operations.len() > 0 {
        let first = operations[0];
        let next = ledger.apply(first);
        assert(next.balance_of(name) == ledger.balance_of(name) + first.effect(name));
        lemma_replay_adds_net(next, operations.skip(1), name);
    }
}

/// The balance of an account is what its history adds up to: the increases
/// and the transfers to it, less the decreases and the transfers from it.
pub proof fn lemma_balance_is_net_of_history(ledger: Ledger, name: Seq<char>)
    requires
        ledger.valid(),
    ensures
        ledger.balance_of(name) == net(ledger.history, name),
{
    lemma_replay_adds_net(Ledger::empty(), ledger.history, name);
}

// The index.

/// A new last entry is listed for the accounts it involves, after all their
/// earlier entries, and for no other account.
pub proof fn lemma_positions_push(
    history: Seq<OperationView>,
    operation: OperationView,
    name: Seq<char>,
)
    ensures
        positions(history.push(operation), name) == if operation.involves(name) {
            positions(history, name).push(history.len())
        } else {
            positions(history, name)
        },
{
    assert(history.push(operation).drop_last() =~= history);
}

/// Every position listed for an account is the position of a history entry
/// that involves the account, and the positions are listed in increasing
/// order.
pub proof fn lemma_positions_listed(history: Seq<OperationView>, name: Seq<char>)
    ensures
        forall|j: int|
            0 <= j < positions(history, name).len() ==> {
                &&& (#[trigger] positions(history, name)[j]) < history.len()
                &&& history[positions(history, name)[j] as int].involves(name)
            },
        forall|j: int, k: int|
            0 <= j < k < positions(history, name).len() ==> (#[trigger] positions(history, name)[j])
                < (#[trigger] positions(history, name)[k]),
    decreases history.len(),
{
    if history.len() > 0 {
        let earlier = history.drop_last();
        let listed = positions(history, name);
        let before = positions(earlier, name);
        lemma_positions_listed(earlier, name);
        assert forall|j: int| 0 <= j < listed.len() implies {
            &&& (#[trigger] listed[j]) < history.len()
            &&& history[listed[j] as int].involves(name)
        } by {
            if j < before.len() {
                assert(listed[j] == before[j]);
                assert(history[before[j] as int] == earlier[before[j] as int]);
            }
        }
        assert forall|j: int, k: int| 0 <= j < k < listed.len() implies (#[trigger] listed[j]) < (
        #[trigger] listed[k]) by {
            assert(listed[j] == before[j]);
            if k < before.len() {
                assert(listed[k] == before[k]);
            }
        }
    }
}

/// Every history entry that involves an account has its position listed for
/// the account.
pub proof fn lemma_positions_complete(history: Seq<OperationView>, name: Seq<char>, id: int)
    requires
        0 <= id < history.len(),
        history[id].involves(name),
    ensures
        positions(history, name).contains(id as nat),
    decreases history.len(),
{
    let listed = positions(history, name);
    if id == history.len() - 1 {
        assert(listed[listed.len() - 1] == id as nat);
    } else {
        let earlier = history.drop_last();
        let before = positions(earlier, name);
        assert(earlier[id] == history[id]);
        lemma_positions_complete(earlier, name, id);
        let j = choose|j: int| 0 <= j < before.len() && before[j] == id as nat;
        assert(listed[j] == id as nat);
    }
}

/// The index of a consistent ledger is exact. For an account that exists,
/// each position listed is the position of a history entry that involves
/// the account, the positions are listed in increasing order, and the
/// position of every entry that involves the account is listed. No entry
/// involves a name that has no account.
pub proof fn lemma_index_is_exact(ledger: Ledger, name: Seq<char>)
    requires
        ledger.consistent(),
    ensures
        ledger.has_account(name) <==> ledger.index.contains_key(name),
        forall|j: int|
            ledger.has_account(name) && 0 <= j < ledger.index[name].len() ==> {
                &&& (#[trigger] ledger.index[name][j]) < ledger.history.len()
                &&& ledger.history[ledger.index[name][j] as int].involves(name)
            },
        forall|j: int, k: int|
            ledger.has_account(name) && 0 <= j < k < ledger.index[name].len() ==> (
            #[trigger] ledger.index[name][j]) < (#[trigger] ledger.index[name][k]),
        forall|id: int|
            0 <= id < ledger.history.len() && (#[trigger] ledger.history[id]).involves(name) ==> {
                &&& ledger.has_account(name)
                &&& ledger.index[name].contains(id as nat)
            },
{
    assert(ledger.index.dom().contains(name) <==> ledger.balances.dom().contains(name));
    assert(ledger.indexed(name) == positions(ledger.history, name));
    lemma_positions_listed(ledger.history, name);
    assert forall|id: int|
        0 <= id < ledger.history.len() && (#[trigger] ledger.history[id]).involves(name) implies {
        &&& ledger.has_account(name)
        &&& ledger.index[name].contains(id as nat)
    } by {
        lemma_positions_complete(ledger.history, name, id);
    }
}

/// The history of an account is the history of the bank with the entries
/// left out that do not involve the account. So it is in the order in which
/// the operations happened, and it begins with the creation of the account.
pub proof fn lemma_account_history_filters(ledger: Ledger, name: Seq<char>)
    requires
        ledger.consistent(),
        ledger.has_account(name),
    ensures
        ledger.account_history(name) == Some(
            ledger.history.filter(|operation: OperationView| operation.involves(name)),
        ),
{
    assert(ledger.index.dom().contains(name));
    assert(ledger.indexed(name) == positions(ledger.history, name));
    lemma_positions_select(ledger.history, ledger.history.len() as int, name);
    assert(ledger.history.take(ledger.history.len() as int) =~= ledger.history);
}

/// The entries at the positions listed for an account, among the first
/// `count` entries of a history, are those of these entries that involve
/// the account.
proof fn lemma_positions_select(history: Seq<OperationView>, count: int, name: Seq<char>)
    requires
        0 <= count <= history.len(),
    ensures
        positions(history.take(count), name).map_values(|id: nat| history[id as int])
            == history.take(count).filter(|operation: OperationView| operation.involves(name)),
    decreases count,
{
    let involved = |operation: OperationView| operation.involves(name);
    let pick = |id: nat| history[id as int];
    let prefix = history.take(count);
    if count == 0 {
        assert(positions(prefix, name).map_values(pick) =~= Seq::empty());
        assert(prefix.filter(involved) =~= Seq::empty()) by {
            reveal(Seq::filter);
        }
    } else {
        let shorter = history.take(count - 1);
        assert(prefix.drop_last() =~= shorter);
        assert(prefix.last() == history[count - 1]);
        lemma_positions_select(history, count - 1, name);
        assert(prefix.filter(involved) == if involved(prefix.last()) {
            shorter.filter(involved).push(prefix.last())
        } else {
            shorter.filter(involved)
        }) by {
            reveal(Seq::filter);
        }
        if prefix.last().involves(name) {
            assert(positions(prefix, name) == positions(shorter, name).push((count - 1) as nat));
            assert(positions(prefix, name).map_values(pick) =~= positions(
                shorter,
                name,
            ).map_values(pick).push(history[count - 1]));
        }
    }
}

} // verus!
