//! What holds of the account state machine and of the registry over whole
//! histories, proved from their transition functions.

use crate::db::{
    account_of, blocked_by_lock, outcome, processed, AccountState, DepositState, LedgerEntry,
    MyError, RegistryState, Transaction,
};
use crate::fixed4::{fits, Fixed4};
use vstd::prelude::*;

verus! {

/// One step of an account's history: a transaction and the id it came under.
pub type Step = (u32, Transaction);

/// One step of a registry's history: the client, the id and the transaction.
pub type Request = (u16, u32, Transaction);

/// The account after every step of `steps` was offered in order, refused
/// ones leaving it as it was.
pub open spec fn replay(start: AccountState, steps: Seq<Step>) -> AccountState
    decreases steps.len(),
{
    if steps.len() == 0 {
        start
    } else {
        replay(start, steps.drop_last()).after(steps.last().0, steps.last().1)
    }
}

/// The registry after every request of `requests` was offered in order.
pub open spec fn replay_all(start: RegistryState, requests: Seq<Request>) -> RegistryState
    decreases requests.len(),
{
    if requests.len() == 0 {
        start
    } else {
        processed(
            replay_all(start, requests.drop_last()),
            requests.last().0,
            requests.last().1,
            requests.last().2,
        )
    }
}

/// Every step is a deposit of an amount above zero.
pub open spec fn all_valid_deposits(steps: Seq<Step>) -> bool {
    forall|i: int|
        0 <= i < steps.len() ==> (#[trigger] steps[i]).1 is Deposit
            && steps[i].1->Deposit_amount@ > 0
}

/// The sum of the amounts of a run of deposits.
pub open spec fn deposited(steps: Seq<Step>) -> int
    decreases steps.len(),
{
    if steps.len() == 0 {
        0
    } else {
        deposited(steps.drop_last()) + steps.last().1->Deposit_amount@
    }
}

/// Valid deposits into a fresh account add up: as long as their sum is
/// representable, the available balance is that sum, nothing is held, and
/// the account is not locked.
pub proof fn lemma_deposits_add_up(steps: Seq<Step>)
    requires
        all_valid_deposits(steps),
        fits(deposited(steps)),
    ensures
        replay(AccountState::fresh(), steps).available == deposited(steps),
        replay(AccountState::fresh(), steps).held == 0,
        !replay(AccountState::fresh(), steps).locked,
        0 <= deposited(steps),
    decreases steps.len(),
{
    if steps.len() > 0 {
        let before = steps.drop_last();
        assert forall|i: int| 0 <= i < before.len() implies (#[trigger] before[i]).1 is Deposit
            && before[i].1->Deposit_amount@ > 0 by {
            assert(before[i] == steps[i]);
        }
        assert(steps.last() == steps[steps.len() - 1]);
        lemma_deposits_nonnegative(before);
        lemma_deposits_add_up(before);
    }
}

/// A run of valid deposits has a sum of at least zero.
pub proof fn lemma_deposits_nonnegative(steps: Seq<Step>)
    requires
        all_valid_deposits(steps),
    ensures
        0 <= deposited(steps),
    decreases steps.len(),
{
    if steps.len() > 0 {
        let before = steps.drop_last();
        assert forall|i: int| 0 <= i < before.len() implies (#[trigger] before[i]).1 is Deposit
            && before[i].1->Deposit_amount@ > 0 by {
            assert(before[i] == steps[i]);
        }
        assert(steps.last() == steps[steps.len() - 1]);
        lemma_deposits_nonnegative(before);
    }
}

/// A withdrawal of an amount above zero is accepted exactly when the
/// amount is at most the available balance; it then lowers the available
/// balance by the amount and leaves the held balance alone.
pub proof fn lemma_withdrawal_needs_funds(state: AccountState, id: u32, amount: Fixed4)
    requires
        state.wf(),
        amount@ > 0,
    ensures
        state.apply(id, Transaction::Withdrawal { amount }) is Ok <==> amount@ <= state.available,
        amount@ > state.available ==> state.apply(id, Transaction::Withdrawal { amount }) == Err::<
            AccountState,
            MyError,
        >(MyError::InsufficientFunds),
        amount@ <= state.available ==> {
            &&& state.after(id, Transaction::Withdrawal { amount }).available == state.available
                - amount@
            &&& state.after(id, Transaction::Withdrawal { amount }).held == state.held
        },
{
}

/// A dispute that is accepted can always be resolved, and the resolve
/// gives back the account as it was before the dispute: both balances,
/// the lock and the ledger.
pub proof fn lemma_dispute_then_resolve_restores(state: AccountState, id: u32)
    requires
        state.wf(),
        state.apply(id, Transaction::Dispute) is Ok,
    ensures
        state.after(id, Transaction::Dispute).apply(id, Transaction::Resolve) == Ok::<
            AccountState,
            MyError,
        >(state),
{
    let disputed = state.after(id, Transaction::Dispute);
    let resolved = disputed.apply(id, Transaction::Resolve);
    assert(resolved is Ok);
    assert(resolved->Ok_0.ledger =~= state.ledger);
}

/// An accepted chargeback locks the account and marks the deposit as
/// charged back.
pub proof fn lemma_chargeback_locks(state: AccountState, id: u32)
    requires
        state.apply(id, Transaction::Chargeback) is Ok,
    ensures
        state.after(id, Transaction::Chargeback).locked,
        state.after(id, Transaction::Chargeback).is_charged_back(id),
        state.after(id, Transaction::Chargeback).available == state.available,
{
}

/// A charged-back deposit is final: every dispute, resolve and chargeback
/// on it is refused as already charged back and changes nothing, and the
/// account is locked.
pub proof fn lemma_charged_back_is_final(state: AccountState, id: u32, txn: Transaction)
    requires
        state.wf(),
        state.is_charged_back(id),
        !blocked_by_lock(txn),
    ensures
        state.apply(id, txn) == Err::<AccountState, MyError>(
            MyError::TransactionAlreadyChargedBack,
        ),
        state.after(id, txn) == state,
        state.locked,
{
}

/// No transaction unlocks an account or reopens a charged-back deposit.
pub proof fn lemma_lock_is_permanent(state: AccountState, id: u32, txn: Transaction)
    ensures
        state.locked ==> state.after(id, txn).locked,
        state.wf() ==> state.after(id, txn).wf(),
{
    let next = state.after(id, txn);
    if state.wf() {
        assert forall|other: u32| #[trigger] next.is_charged_back(other) implies next.locked by {
            if other != id {
                assert(state.is_charged_back(other));
            }
        }
    }
}

/// A locked account refuses every deposit and withdrawal, whatever its
/// amount and balance, and the registry is left as it was.
pub proof fn lemma_locked_account_refuses(
    accounts: RegistryState,
    client: u16,
    id: u32,
    txn: Transaction,
)
    requires
        accounts.contains_key(client),
        accounts[client].locked,
        blocked_by_lock(txn),
    ensures
        outcome(accounts, client, id, txn) == Err::<(), MyError>(MyError::AccountLocked),
        processed(accounts, client, id, txn) == accounts,
{
    assert(processed(accounts, client, id, txn) =~= accounts);
}

/// On a locked account the dispute family is still decided by the
/// account's own state machine.
pub proof fn lemma_lock_spares_disputes(
    accounts: RegistryState,
    client: u16,
    id: u32,
    txn: Transaction,
)
    requires
        !blocked_by_lock(txn),
    ensures
        outcome(accounts, client, id, txn) == account_of(accounts, client).answer(id, txn),
        processed(accounts, client, id, txn)[client] == account_of(accounts, client).after(
            id,
            txn,
        ),
{
}

/// Once an account is locked it stays locked through every later history
/// of requests, for this client or any other.
pub proof fn lemma_locked_stays_locked(accounts: RegistryState, client: u16, requests: Seq<Request>)
    requires
        accounts.contains_key(client),
        accounts[client].locked,
    ensures
        replay_all(accounts, requests).contains_key(client),
        replay_all(accounts, requests)[client].locked,
    decreases requests.len(),
{
    if requests.len() > 0 {
        lemma_locked_stays_locked(accounts, client, requests.drop_last());
    }
}

/// A locked account refuses deposits and withdrawals ever after, whatever
/// requests came in between and in whatever order.
pub proof fn lemma_locked_refuses_ever_after(
    accounts: RegistryState,
    client: u16,
    requests: Seq<Request>,
    id: u32,
    txn: Transaction,
)
    requires
        accounts.contains_key(client),
        accounts[client].locked,
        blocked_by_lock(txn),
    ensures
        outcome(replay_all(accounts, requests), client, id, txn) == Err::<(), MyError>(
            MyError::AccountLocked,
        ),
        processed(replay_all(accounts, requests), client, id, txn) == replay_all(
            accounts,
            requests,
        ),
{
    lemma_locked_stays_locked(accounts, client, requests);
    lemma_locked_account_refuses(replay_all(accounts, requests), client, id, txn);
}

/// In the registry a charged-back deposit stays charged back through
/// every later history: the lock keeps its entry from being replaced, so
/// every later dispute, resolve and chargeback on it is refused.
pub proof fn lemma_charged_back_ever_after(
    accounts: RegistryState,
    client: u16,
    id: u32,
    requests: Seq<Request>,
)
    requires
        accounts.contains_key(client),
        accounts[client].locked,
        accounts[client].is_charged_back(id),
    ensures
        replay_all(accounts, requests).contains_key(client),
        replay_all(accounts, requests)[client].locked,
        replay_all(accounts, requests)[client].is_charged_back(id),
        forall|txn: Transaction|
            !blocked_by_lock(txn) ==> #[trigger] outcome(
                replay_all(accounts, requests),
                client,
                id,
                txn,
            ) == Err::<(), MyError>(MyError::TransactionAlreadyChargedBack),
    decreases requests.len(),
{
    if requests.len() > 0 {
        lemma_charged_back_ever_after(accounts, client, id, requests.drop_last());
    }
}

/// A request changes no account but that of its own client.
pub proof fn lemma_accounts_are_independent(
    accounts: RegistryState,
    client: u16,
    id: u32,
    txn: Transaction,
    other: u16,
)
    requires
        other != client,
    ensures
        processed(accounts, client, id, txn).contains_key(other) == accounts.contains_key(other),
        account_of(processed(accounts, client, id, txn), other) == account_of(accounts, other),
{
}

/// No transaction removes a ledger entry or touches the entry of another
/// id, and a dispute, resolve or chargeback changes nothing of its own
/// entry but the dispute state.
pub proof fn lemma_entries_stay(state: AccountState, id: u32, txn: Transaction, other: u32)
    requires
        state.ledger.contains_key(other),
    ensures
        state.after(id, txn).ledger.contains_key(other),
        other != id ==> state.after(id, txn).ledger[other] == state.ledger[other],
        !blocked_by_lock(txn) ==> state.after(id, txn).ledger[other] is Deposit
            == state.ledger[other] is Deposit,
        !blocked_by_lock(txn) && state.ledger[other] is Deposit ==> state.after(
            id,
            txn,
        ).ledger[other]->Deposit_amount == state.ledger[other]->Deposit_amount,
        !blocked_by_lock(txn) && state.ledger[other] is Withdrawal ==> state.after(
            id,
            txn,
        ).ledger[other] == state.ledger[other],
{
}

/// Whether a deposit or withdrawal has an amount above zero, as every
/// transaction built from an amount text has; the dispute family is
/// always valid.
pub open spec fn valid(txn: Transaction) -> bool {
    match txn {
        Transaction::Deposit { amount } => amount@ > 0,
        Transaction::Withdrawal { amount } => amount@ > 0,
        _ => true,
    }
}

/// Every step carries a valid transaction.
pub open spec fn all_valid(steps: Seq<Step>) -> bool {
    forall|i: int| 0 <= i < steps.len() ==> valid((#[trigger] steps[i]).1)
}

/// What the entry under `id` freezes: the amount of a disputed deposit,
/// and nothing otherwise.
pub open spec fn frozen(ledger: Map<u32, LedgerEntry>, id: u32) -> int {
    if ledger.contains_key(id) {
        match ledger[id] {
            LedgerEntry::Deposit { amount, state: DepositState::Disputed } => amount@,
            _ => 0,
        }
    } else {
        0
    }
}

/// What the entries with an id below `n` freeze together.
pub open spec fn frozen_below(ledger: Map<u32, LedgerEntry>, n: nat) -> int
    decreases n,
{
    if n == 0 {
        0
    } else {
        frozen_below(ledger, (n - 1) as nat) + frozen(ledger, (n - 1) as u32)
    }
}

/// What all open disputes of a ledger freeze together.
pub open spec fn frozen_total(ledger: Map<u32, LedgerEntry>) -> int {
    frozen_below(ledger, 0x1_0000_0000)
}

/// The held balance covers every open dispute, and every recorded deposit
/// has an amount above zero.
pub open spec fn backed(state: AccountState) -> bool {
    &&& state.held >= frozen_total(state.ledger)
    &&& forall|id: u32| #[trigger]
        state.ledger.contains_key(id) && state.ledger[id] is Deposit
            ==> state.ledger[id]->Deposit_amount@ > 0
}

/// Replacing one entry changes the frozen sum by what that entry freezes
/// more or less than before.
pub proof fn lemma_frozen_after_insert(
    ledger: Map<u32, LedgerEntry>,
    id: u32,
    entry: LedgerEntry,
    n: nat,
)
    requires
        n <= 0x1_0000_0000,
    ensures
        frozen_below(ledger.insert(id, entry), n) == frozen_below(ledger, n) + if id < n {
            frozen(ledger.insert(id, entry), id) - frozen(ledger, id)
        } else {
            0
        },
    decreases n,
{
    if n > 0 {
        lemma_frozen_after_insert(ledger, id, entry, (n - 1) as nat);
        let k = (n - 1) as u32;
        if k != id {
            assert(frozen(ledger.insert(id, entry), k) == frozen(ledger, k));
        }
    }
}

/// Where no entry freezes a negative amount, no frozen sum is negative.
pub proof fn lemma_frozen_nonnegative(ledger: Map<u32, LedgerEntry>, n: nat)
    requires
        forall|id: u32| frozen(ledger, id) >= 0,
    ensures
        frozen_below(ledger, n) >= 0,
    decreases n,
{
    if n > 0 {
        lemma_frozen_nonnegative(ledger, (n - 1) as nat);
    }
}

/// An empty ledger freezes nothing.
pub proof fn lemma_frozen_empty(n: nat)
    ensures
        frozen_below(Map::<u32, LedgerEntry>::empty(), n) == 0,
    decreases n,
{
    if n > 0 {
        lemma_frozen_empty((n - 1) as nat);
    }
}

/// A valid transaction keeps the held balance covering the open disputes.
pub proof fn lemma_step_keeps_backing(state: AccountState, id: u32, txn: Transaction)
    requires
        backed(state),
        valid(txn),
    ensures
        backed(state.after(id, txn)),
{
    let next = state.after(id, txn);
    if state.apply(id, txn) is Ok {
        let entry = next.ledger[id];
        assert(next.ledger == state.ledger.insert(id, entry));
        lemma_frozen_after_insert(state.ledger, id, entry, 0x1_0000_0000);
        assert(state.ledger.contains_key(id) && state.ledger[id] is Deposit
            ==> state.ledger[id]->Deposit_amount@ > 0);
        assert forall|other: u32| #[trigger]
            next.ledger.contains_key(other) && next.ledger[other] is Deposit implies next.ledger[other]->Deposit_amount@
            > 0 by {
            if other != id {
                assert(state.ledger.contains_key(other) && state.ledger[other] is Deposit);
            }
        }
    }
}

/// From a fresh account on, valid transactions never take the held
/// balance below zero.
pub proof fn lemma_held_never_negative(steps: Seq<Step>)
    requires
        all_valid(steps),
    ensures
        backed(replay(AccountState::fresh(), steps)),
        replay(AccountState::fresh(), steps).held >= 0,
    decreases steps.len(),
{
    let end = replay(AccountState::fresh(), steps);
    if steps.len() == 0 {
        lemma_frozen_empty(0x1_0000_0000);
    } else {
        let before = steps.drop_last();
        assert forall|i: int| 0 <= i < before.len() implies valid((#[trigger] before[i]).1) by {
            assert(before[i] == steps[i]);
        }
        assert(valid(steps[steps.len() - 1].1));
        lemma_held_never_negative(before);
        lemma_step_keeps_backing(
            replay(AccountState::fresh(), before),
            steps.last().0,
            steps.last().1,
        );
    }
    assert forall|id: u32| frozen(end.ledger, id) >= 0 by {
        if end.ledger.contains_key(id) && end.ledger[id] is Deposit {
            assert(end.ledger[id]->Deposit_amount@ > 0);
        }
    }
    lemma_frozen_nonnegative(end.ledger, 0x1_0000_0000);
}

} // verus!
