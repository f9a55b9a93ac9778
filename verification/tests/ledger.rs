use transaction_processor::{Account, Database, Fixed4, MyError, Transaction};

fn deposit(text: &str) -> Transaction {
    Transaction::deposit(text).unwrap()
}

fn withdrawal(text: &str) -> Transaction {
    Transaction::withdrawal(text).unwrap()
}

#[test]
fn deposits_add_up_on_a_fresh_account() {
    let mut account = Account::new();
    assert_eq!(account.add_transaction(1, deposit("1.5")), Ok(()));
    assert_eq!(account.add_transaction(2, deposit("0.0001")), Ok(()));
    assert_eq!(account.add_transaction(3, deposit("100")), Ok(()));
    assert_eq!(account.available, Fixed4(1015001));
    assert_eq!(account.held, Fixed4(0));
    assert_eq!(account.total(), Fixed4(1015001));
    assert!(!account.locked);
    assert_eq!(account.transaction_count(), 3);
}

#[test]
fn withdrawal_succeeds_up_to_the_available_balance() {
    let mut account = Account::new();
    account.add_transaction(1, deposit("2.0")).unwrap();
    assert_eq!(account.add_transaction(2, withdrawal("2.0001")), Err(MyError::InsufficientFunds));
    assert_eq!(account.available, Fixed4(20000));
    assert_eq!(account.transaction_count(), 1);
    assert_eq!(account.add_transaction(3, withdrawal("2.0")), Ok(()));
    assert_eq!(account.available, Fixed4(0));
    assert_eq!(account.held, Fixed4(0));
    assert!(account.has_transaction(3));
    assert!(!account.has_transaction(2));
}

#[test]
fn dispute_moves_funds_to_held_and_resolve_moves_them_back() {
    let mut account = Account::new();
    account.add_transaction(1, deposit("10")).unwrap();
    account.add_transaction(2, deposit("5.25")).unwrap();
    assert_eq!(account.add_transaction(2, Transaction::dispute()), Ok(()));
    assert_eq!(account.available, Fixed4(100000));
    assert_eq!(account.held, Fixed4(52500));
    assert_eq!(account.total(), Fixed4(152500));
    assert_eq!(
        account.add_transaction(2, Transaction::dispute()),
        Err(MyError::TransactionAlreadyDisputed)
    );
    assert_eq!(account.add_transaction(2, Transaction::resolve()), Ok(()));
    assert_eq!(account.available, Fixed4(152500));
    assert_eq!(account.held, Fixed4(0));
    assert!(!account.locked);
    assert_eq!(
        account.add_transaction(2, Transaction::resolve()),
        Err(MyError::TransactionNotDisputed)
    );
    assert_eq!(
        account.add_transaction(2, Transaction::chargeback()),
        Err(MyError::TransactionNotDisputed)
    );
    assert_eq!(account.add_transaction(2, Transaction::dispute()), Ok(()));
    assert_eq!(account.held, Fixed4(52500));
}

#[test]
fn dispute_may_take_the_available_balance_below_zero() {
    let mut account = Account::new();
    account.add_transaction(1, deposit("100")).unwrap();
    account.add_transaction(2, withdrawal("60")).unwrap();
    assert_eq!(account.add_transaction(1, Transaction::dispute()), Ok(()));
    assert_eq!(account.available, Fixed4(-600000));
    assert_eq!(account.held, Fixed4(1000000));
    assert_eq!(account.total(), Fixed4(400000));
}

#[test]
fn charged_back_deposit_is_final() {
    let mut account = Account::new();
    account.add_transaction(1, deposit("100.0")).unwrap();
    account.add_transaction(1, Transaction::dispute()).unwrap();
    assert_eq!(account.add_transaction(1, Transaction::chargeback()), Ok(()));
    assert_eq!(account.available, Fixed4(0));
    assert_eq!(account.held, Fixed4(0));
    assert!(account.locked);
    for txn in [Transaction::chargeback(), Transaction::dispute(), Transaction::resolve()] {
        assert_eq!(account.add_transaction(1, txn), Err(MyError::TransactionAlreadyChargedBack));
        assert_eq!(account.available, Fixed4(0));
        assert_eq!(account.held, Fixed4(0));
        assert!(account.locked);
        assert_eq!(account.transaction_count(), 1);
    }
}

#[test]
fn withdrawals_cannot_be_disputed() {
    let mut account = Account::new();
    account.add_transaction(1, deposit("5")).unwrap();
    account.add_transaction(2, withdrawal("1")).unwrap();
    for txn in [Transaction::dispute(), Transaction::resolve(), Transaction::chargeback()] {
        assert_eq!(account.add_transaction(2, txn), Err(MyError::TransactionIsWithdrawal));
        assert_eq!(account.add_transaction(7, txn), Err(MyError::TransactionNotFound));
    }
    assert_eq!(account.available, Fixed4(40000));
    assert_eq!(account.held, Fixed4(0));
}

#[test]
fn later_entry_replaces_an_earlier_one_with_the_same_id() {
    let mut account = Account::new();
    account.add_transaction(1, deposit("5")).unwrap();
    account.add_transaction(1, withdrawal("1")).unwrap();
    assert_eq!(account.transaction_count(), 1);
    assert_eq!(account.add_transaction(1, Transaction::dispute()), Err(MyError::TransactionIsWithdrawal));
    account.add_transaction(1, deposit("2")).unwrap();
    assert_eq!(account.add_transaction(1, Transaction::dispute()), Ok(()));
    assert_eq!(account.available, Fixed4(40000));
    assert_eq!(account.held, Fixed4(20000));
}

#[test]
fn balances_stay_in_range() {
    let mut account = Account::new();
    let largest = Transaction::Deposit { amount: Fixed4(i64::MAX) };
    assert_eq!(account.add_transaction(1, largest), Ok(()));
    assert_eq!(account.add_transaction(2, deposit("0.0001")), Err(MyError::BalanceOutOfRange));
    assert_eq!(account.available, Fixed4(i64::MAX));
    assert_eq!(account.transaction_count(), 1);
    assert_eq!(account.add_transaction(1, Transaction::dispute()), Ok(()));
    assert_eq!(account.available, Fixed4(0));
    assert_eq!(account.held, Fixed4(i64::MAX));
    assert_eq!(account.add_transaction(3, deposit("0.0001")), Err(MyError::BalanceOutOfRange));
    assert_eq!(account.total(), Fixed4(i64::MAX));
}

#[test]
fn two_deposits_then_a_withdrawal() {
    let mut db = Database::new();
    assert_eq!(db.process_transaction(1, 1, deposit("1.0")), Ok(()));
    assert_eq!(db.process_transaction(1, 3, deposit("2.0")), Ok(()));
    assert_eq!(db.process_transaction(1, 4, withdrawal("1.5")), Ok(()));
    let account = db.get_account(1).unwrap();
    assert_eq!(account.available, Fixed4(15000));
    assert_eq!(account.held, Fixed4(0));
    assert!(!account.locked);
}

#[test]
fn chargeback_empties_and_locks_the_account() {
    let mut db = Database::new();
    assert_eq!(db.process_transaction(1, 1, deposit("100.0")), Ok(()));
    assert_eq!(db.process_transaction(1, 1, Transaction::dispute()), Ok(()));
    assert_eq!(db.process_transaction(1, 1, Transaction::chargeback()), Ok(()));
    {
        let account = db.get_account(1).unwrap();
        assert_eq!(account.available, Fixed4(0));
        assert_eq!(account.held, Fixed4(0));
        assert!(account.locked);
    }
    assert_eq!(
        db.process_transaction(1, 1, Transaction::resolve()),
        Err(MyError::TransactionAlreadyChargedBack)
    );
    let account = db.get_account(1).unwrap();
    assert_eq!(account.available, Fixed4(0));
    assert_eq!(account.held, Fixed4(0));
    assert!(account.locked);
    assert_eq!(account.transaction_count(), 1);
}

#[test]
fn withdrawal_beyond_the_balance_is_refused() {
    let mut db = Database::new();
    assert_eq!(db.process_transaction(2, 2, deposit("2.0")), Ok(()));
    assert_eq!(db.process_transaction(2, 5, withdrawal("3.0")), Err(MyError::InsufficientFunds));
    let account = db.get_account(2).unwrap();
    assert_eq!(account.available, Fixed4(20000));
    assert!(!account.has_transaction(5));
}

#[test]
fn dispute_of_a_withdrawal_or_an_unknown_id_is_refused() {
    let mut db = Database::new();
    assert_eq!(db.process_transaction(1, 1, deposit("10")), Ok(()));
    assert_eq!(db.process_transaction(1, 2, withdrawal("4")), Ok(()));
    assert_eq!(
        db.process_transaction(1, 2, Transaction::dispute()),
        Err(MyError::TransactionIsWithdrawal)
    );
    assert_eq!(
        db.process_transaction(1, 999, Transaction::dispute()),
        Err(MyError::TransactionNotFound)
    );
    let account = db.get_account(1).unwrap();
    assert_eq!(account.available, Fixed4(60000));
    assert_eq!(account.held, Fixed4(0));
}

#[test]
fn locked_account_refuses_deposits_and_withdrawals() {
    let mut db = Database::new();
    db.process_transaction(1, 1, deposit("10")).unwrap();
    db.process_transaction(1, 2, deposit("5")).unwrap();
    db.process_transaction(1, 3, deposit("1")).unwrap();
    db.process_transaction(1, 2, Transaction::dispute()).unwrap();
    db.process_transaction(1, 2, Transaction::chargeback()).unwrap();
    assert_eq!(db.process_transaction(1, 4, deposit("1")), Err(MyError::AccountLocked));
    assert_eq!(db.process_transaction(1, 5, withdrawal("1")), Err(MyError::AccountLocked));
    assert_eq!(db.process_transaction(1, 6, withdrawal("1000")), Err(MyError::AccountLocked));
    assert_eq!(db.process_transaction(1, 3, Transaction::dispute()), Ok(()));
    assert_eq!(db.process_transaction(1, 3, Transaction::resolve()), Ok(()));
    assert_eq!(
        db.process_transaction(1, 1, Transaction::resolve()),
        Err(MyError::TransactionNotDisputed)
    );
    assert_eq!(db.process_transaction(2, 7, deposit("1")), Ok(()));
    assert_eq!(db.process_transaction(1, 8, deposit("1")), Err(MyError::AccountLocked));
    let account = db.get_account(1).unwrap();
    assert!(account.locked);
    assert_eq!(account.available, Fixed4(110000));
    assert_eq!(account.held, Fixed4(0));
    assert_eq!(account.transaction_count(), 3);
    assert!(!db.get_account(2).unwrap().locked);
}

#[test]
fn account_is_created_even_when_the_transaction_fails() {
    let mut db = Database::new();
    assert!(db.get_account(7).is_none());
    assert_eq!(
        db.process_transaction(7, 1, Transaction::dispute()),
        Err(MyError::TransactionNotFound)
    );
    let account = db.get_account(7).unwrap();
    assert_eq!(account.available, Fixed4(0));
    assert_eq!(account.held, Fixed4(0));
    assert_eq!(account.total(), Fixed4(0));
    assert!(!account.locked);
    assert_eq!(account.transaction_count(), 0);
}

#[test]
fn client_ids_list_every_account_once() {
    let mut db = Database::new();
    assert!(db.get_all_client_ids().is_empty());
    db.process_transaction(1, 1, deposit("100.00")).unwrap();
    db.process_transaction(3, 2, deposit("200.00")).unwrap();
    db.process_transaction(1, 3, deposit("1.00")).unwrap();
    let mut ids = db.get_all_client_ids();
    ids.sort();
    assert_eq!(ids, vec![1, 3]);
}

#[test]
fn same_transaction_id_lives_apart_in_two_accounts() {
    let mut db = Database::new();
    db.process_transaction(1, 1, deposit("10")).unwrap();
    db.process_transaction(2, 1, deposit("20")).unwrap();
    db.process_transaction(2, 1, Transaction::dispute()).unwrap();
    assert_eq!(db.get_account(1).unwrap().available, Fixed4(100000));
    assert_eq!(db.get_account(1).unwrap().held, Fixed4(0));
    assert_eq!(db.get_account(2).unwrap().available, Fixed4(0));
    assert_eq!(db.get_account(2).unwrap().held, Fixed4(200000));
}
