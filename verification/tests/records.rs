use transaction_processor::{
    process_rows, process_transaction_record, Database, Failure, Fixed4, FormatError, MyError,
    RecordError, Row, RowError, TransactionKind, TransactionRecord,
};

fn plain(kind: &str, client: u16, tx: u32, amount: Option<&str>) -> TransactionRecord {
    TransactionRecord {
        transaction_type: kind.to_string(),
        client,
        tx,
        amount: amount.map(|a| a.to_string()),
    }
}

fn record(kind: &str, client: u16, tx: u32, amount: Option<&str>) -> Row {
    Ok(plain(kind, client, tx, amount))
}

fn unreadable(words: &str) -> Row {
    Err(words.to_string())
}

/// Applies the rows in order to a fresh registry.
fn run(rows: Vec<Row>) -> (Database, Vec<Failure>) {
    let mut database = Database::new();
    let errors = process_rows(&mut database, rows);
    (database, errors)
}

fn refused_with(failure: &Failure, expected: MyError) -> bool {
    matches!(&failure.error, RowError::Rejected(RecordError::Transaction(e)) if *e == expected)
}

#[test]
fn test_basic_transactions() {
    let (database, errors) = run(vec![
        record("deposit", 1, 1, Some("1.0")),
        record("deposit", 2, 2, Some("2.0")),
        record("deposit", 1, 3, Some("2.0")),
        record("withdrawal", 1, 4, Some("1.5")),
        record("withdrawal", 2, 5, Some("3.0")),
    ]);

    assert_eq!(errors.len(), 1);
    assert!(refused_with(&errors[0], MyError::InsufficientFunds));
    assert_eq!(errors[0].line, 6);

    let account1 = database.get_account(1).unwrap();
    assert_eq!(account1.available, Fixed4(15000));
    assert_eq!(account1.held, Fixed4(0));
    assert_eq!(account1.total(), Fixed4(15000));
    assert!(!account1.locked);

    let account2 = database.get_account(2).unwrap();
    assert_eq!(account2.available, Fixed4(20000));
    assert_eq!(account2.held, Fixed4(0));
    assert_eq!(account2.total(), Fixed4(20000));
    assert!(!account2.locked);
}

#[test]
fn test_advanced_transactions_with_disputes() {
    let (database, errors) = run(vec![
        record("deposit", 1, 1, Some("1.0")),
        record("deposit", 2, 2, Some("2.0")),
        record("deposit", 1, 3, Some("2.0")),
        record("withdrawal", 1, 4, Some("1.5")),
        record("withdrawal", 2, 5, Some("3.0")),
        record("dispute", 1, 1, None),
        record("resolve", 1, 1, None),
        record("deposit", 1, 6, Some("1.0")),
        record("dispute", 1, 3, None),
        record("chargeback", 1, 3, None),
    ]);

    assert_eq!(errors.len(), 1);
    assert!(refused_with(&errors[0], MyError::InsufficientFunds));

    let account1 = database.get_account(1).unwrap();
    assert_eq!(account1.available, Fixed4(5000));
    assert_eq!(account1.held, Fixed4(0));
    assert_eq!(account1.total(), Fixed4(5000));
    assert!(account1.locked);

    let account2 = database.get_account(2).unwrap();
    assert_eq!(account2.available, Fixed4(20000));
    assert!(!account2.locked);
}

#[test]
fn test_transaction_type_errors() {
    let (database, errors) = run(vec![
        record("deposit", 1, 1, Some("1.0")),
        record("invalid_transaction", 2, 2, Some("2.0")),
        record("deposit", 1, 3, Some("abc")),
        record("deposit", 3, 4, Some("5.0")),
    ]);

    assert_eq!(errors.len(), 2);
    assert_eq!(errors[0].line, 3);
    assert!(matches!(
        &errors[0].error,
        RowError::Rejected(RecordError::UnknownTransactionType(name)) if name == "invalid_transaction"
    ));
    assert_eq!(errors[1].line, 4);
    assert!(refused_with(
        &errors[1],
        MyError::InvalidAmountFormat(FormatError::InvalidNumber)
    ));

    let account1 = database.get_account(1).unwrap();
    assert_eq!(account1.available, Fixed4(10000));

    let account3 = database.get_account(3).unwrap();
    assert_eq!(account3.available, Fixed4(50000));
}

#[test]
fn test_csv_parsing_errors() {
    let (database, errors) = run(vec![
        record("deposit", 1, 1, Some("1.0")),
        unreadable("invalid digit found in string"),
        unreadable("invalid digit found in string"),
        record("deposit", 4, 3, Some("0.5")),
    ]);

    assert_eq!(errors.len(), 2);
    assert_eq!(errors[0].line, 3);
    assert!(matches!(
        &errors[0].error,
        RowError::Unreadable(words) if words.contains("invalid digit found in string")
    ));
    assert_eq!(errors[1].line, 4);
    assert!(matches!(
        &errors[1].error,
        RowError::Unreadable(words) if words.contains("invalid digit found in string")
    ));

    let account1 = database.get_account(1).unwrap();
    assert_eq!(account1.available, Fixed4(10000));

    let account4 = database.get_account(4).unwrap();
    assert_eq!(account4.available, Fixed4(5000));
}

#[test]
fn test_precision_handling() {
    let (database, errors) = run(vec![
        record("deposit", 1, 1, Some("0.0001")),
        record("deposit", 1, 2, Some("0.9999")),
        record("deposit", 2, 3, Some("123.45678")),
        record("withdrawal", 1, 4, Some("1.0")),
    ]);

    assert_eq!(errors.len(), 1);
    assert!(refused_with(
        &errors[0],
        MyError::InvalidAmountFormat(FormatError::TooManyDecimals)
    ));

    let account1 = database.get_account(1).unwrap();
    assert_eq!(account1.available, Fixed4(0));
    assert_eq!(account1.total(), Fixed4(0));

    assert!(database.get_account(2).is_none());
}

#[test]
fn test_empty_file() {
    let (database, errors) = run(vec![]);

    assert_eq!(errors.len(), 0);
    assert_eq!(database.get_all_client_ids().len(), 0);
}

#[test]
fn test_dispute_nonexistent_transaction() {
    let (database, errors) = run(vec![
        record("deposit", 1, 1, Some("100.0")),
        record("dispute", 1, 999, None),
    ]);

    assert_eq!(errors.len(), 1);
    assert!(refused_with(&errors[0], MyError::TransactionNotFound));
    assert_eq!(errors[0].line, 3);

    let account1 = database.get_account(1).unwrap();
    assert_eq!(account1.available, Fixed4(1000000));
    assert!(!account1.locked);
}

#[test]
fn test_transaction_audit_trail() {
    let (database, errors) = run(vec![
        record("deposit", 1, 1, Some("100.0")),
        record("withdrawal", 1, 2, Some("25.5")),
        record("deposit", 1, 3, Some("50.0")),
    ]);

    assert_eq!(errors.len(), 0);

    let account1 = database.get_account(1).unwrap();
    assert_eq!(account1.available, Fixed4(1245000));

    assert_eq!(account1.transaction_count(), 3);
    assert!(account1.has_transaction(1));
    assert!(account1.has_transaction(2));
    assert!(account1.has_transaction(3));
    assert!(!account1.has_transaction(4));
}

#[test]
fn test_whitespace_in_headers_and_fields() {
    let (database, errors) = run(vec![
        record(" deposit", 1, 1, Some(" 1.0")),
        record(" deposit", 2, 2, Some(" 2.0")),
        record(" withdrawal", 1, 4, Some(" 0.5")),
    ]);

    assert_eq!(errors.len(), 0);

    let account1 = database.get_account(1).unwrap();
    assert_eq!(account1.available, Fixed4(5000));

    let account2 = database.get_account(2).unwrap();
    assert_eq!(account2.available, Fixed4(20000));
}

#[test]
fn test_mixed_whitespace_scenarios() {
    let (database, errors) = run(vec![
        record("deposit", 1, 1, Some(" 100.50 ")),
        record("withdrawal", 1, 2, Some("25.25")),
        record("dispute", 1, 1, None),
        record("resolve", 1, 1, None),
    ]);

    assert_eq!(errors.len(), 0);

    let account1 = database.get_account(1).unwrap();
    assert_eq!(account1.available, Fixed4(752500));
    assert_eq!(account1.held, Fixed4(0));
}

#[test]
fn test_leading_and_trailing_whitespace_in_amounts() {
    let (database, errors) = run(vec![
        record("deposit", 1, 1, Some("  123.45  ")),
        record("deposit", 2, 2, Some("\t99.99\t")),
        record("withdrawal", 1, 3, Some("  50.00")),
    ]);

    assert_eq!(errors.len(), 0);

    let account1 = database.get_account(1).unwrap();
    assert_eq!(account1.available, Fixed4(734500));

    let account2 = database.get_account(2).unwrap();
    assert_eq!(account2.available, Fixed4(999900));
}

#[test]
fn test_whitespace_with_transaction_types() {
    let (database, errors) = run(vec![
        record(" deposit ", 1, 1, Some("100.0")),
        record("\twithdrawal\t", 1, 2, Some("25.0")),
        record(" dispute ", 1, 1, None),
        record("\tresolve\t", 1, 1, None),
        record(" chargeback ", 1, 1, None),
    ]);

    assert_eq!(errors.len(), 1);
    assert!(refused_with(&errors[0], MyError::TransactionNotDisputed));

    let account1 = database.get_account(1).unwrap();
    assert_eq!(account1.available, Fixed4(750000));
    assert_eq!(account1.held, Fixed4(0));
    assert!(!account1.locked);
}

#[test]
fn test_demo_test_csv_format() {
    let (database, errors) = run(vec![
        record("deposit", 1, 1, Some("1.0")),
        record("deposit", 2, 2, Some("2.0")),
        record("deposit", 1, 3, Some("2.0")),
        record("withdrawal", 1, 4, Some("1.5")),
        record("withdrawal", 2, 5, Some("3.0")),
    ]);

    assert_eq!(errors.len(), 1);
    assert!(refused_with(&errors[0], MyError::InsufficientFunds));

    let account1 = database.get_account(1).unwrap();
    assert_eq!(account1.available, Fixed4(15000));
    assert_eq!(account1.total(), Fixed4(15000));

    let account2 = database.get_account(2).unwrap();
    assert_eq!(account2.available, Fixed4(20000));
    assert_eq!(account2.total(), Fixed4(20000));
}

#[test]
fn kind_names_ignore_case() {
    assert_eq!(TransactionKind::from_name("DEPOSIT"), Some(TransactionKind::Deposit));
    assert_eq!(TransactionKind::from_name("Withdrawal"), Some(TransactionKind::Withdrawal));
    assert_eq!(TransactionKind::from_name("dIsPuTe"), Some(TransactionKind::Dispute));
    assert_eq!(TransactionKind::from_name(" RESOLVE\t"), Some(TransactionKind::Resolve));
    assert_eq!(TransactionKind::from_name("ChargeBack"), Some(TransactionKind::Chargeback));
    assert_eq!(TransactionKind::from_name("refund"), None);
    assert_eq!(TransactionKind::from_name(""), None);
    assert_eq!(TransactionKind::from_name("deposits"), None);
    assert_eq!(TransactionKind::from_name("de posit"), None);
}

#[test]
fn lowercase_names_are_matched_exactly() {
    assert_eq!(TransactionKind::from_lowercase("deposit"), Some(TransactionKind::Deposit));
    assert_eq!(TransactionKind::from_lowercase("  chargeback "), Some(TransactionKind::Chargeback));
    assert_eq!(TransactionKind::from_lowercase("Deposit"), None);
    assert_eq!(TransactionKind::from_lowercase("RESOLVE"), None);
}

#[test]
fn upper_case_record_is_applied() {
    let (database, errors) = run(vec![record("Deposit", 4, 1, Some("2.5"))]);
    assert_eq!(errors.len(), 0);
    assert_eq!(database.get_account(4).unwrap().available, Fixed4(25000));
}

#[test]
fn deposit_without_amount_is_refused() {
    let (database, errors) = run(vec![
        record("deposit", 1, 1, None),
        record("withdrawal", 1, 2, None),
    ]);
    assert_eq!(errors.len(), 2);
    assert!(matches!(
        errors[0].error,
        RowError::Rejected(RecordError::DepositRequiresAmount)
    ));
    assert!(matches!(
        errors[1].error,
        RowError::Rejected(RecordError::WithdrawalRequiresAmount)
    ));
    assert_eq!(errors[0].line, 2);
    assert_eq!(errors[1].line, 3);
    assert!(database.get_account(1).is_none());
}

#[test]
fn unknown_kind_keeps_the_name_as_given() {
    let (database, errors) = run(vec![record("Refund", 9, 1, Some("1.0"))]);
    assert_eq!(errors.len(), 1);
    assert!(matches!(
        &errors[0].error,
        RowError::Rejected(RecordError::UnknownTransactionType(name)) if name == "Refund"
    ));
    assert!(database.get_account(9).is_none());
}

#[test]
fn amount_of_dispute_record_is_ignored() {
    let (database, errors) = run(vec![
        record("deposit", 1, 1, Some("3.0")),
        record("dispute", 1, 1, Some("not an amount")),
    ]);
    assert_eq!(errors.len(), 0);
    let account = database.get_account(1).unwrap();
    assert_eq!(account.available, Fixed4(0));
    assert_eq!(account.held, Fixed4(30000));
}

#[test]
fn zero_amount_record_is_refused() {
    let (database, errors) = run(vec![record("deposit", 1, 1, Some("0.0000"))]);
    assert_eq!(errors.len(), 1);
    assert!(refused_with(&errors[0], MyError::AmountMustBePositive));
    assert!(database.get_account(1).is_none());
}

#[test]
fn single_record_is_applied_or_refused() {
    let mut database = Database::new();
    assert!(process_transaction_record(&mut database, plain("deposit", 1, 1, Some("2.5"))).is_ok());
    assert!(matches!(
        process_transaction_record(&mut database, plain("withdrawal", 1, 2, Some("2.5001"))),
        Err(RecordError::Transaction(MyError::InsufficientFunds))
    ));
    assert!(matches!(
        process_transaction_record(&mut database, plain("withdrawal", 1, 3, Some("1.2.3"))),
        Err(RecordError::Transaction(MyError::InvalidAmountFormat(FormatError::MultiplePoints)))
    ));
    assert!(process_transaction_record(&mut database, plain("WITHDRAWAL", 1, 4, Some("2.5"))).is_ok());
    let account = database.get_account(1).unwrap();
    assert_eq!(account.available, Fixed4(0));
    assert_eq!(account.transaction_count(), 2);
}

#[test]
fn failed_rows_do_not_stop_later_rows() {
    let (database, errors) = run(vec![
        unreadable("missing field"),
        record("withdrawal", 1, 1, Some("1.0")),
        record("refund", 1, 2, Some("1.0")),
        record("deposit", 1, 3, Some("1.0")),
        record("deposit", 1, 4, Some("x")),
        record("withdrawal", 1, 5, Some("0.25")),
    ]);
    let lines: Vec<usize> = errors.iter().map(|f| f.line).collect();
    assert_eq!(lines, vec![2, 3, 4, 6]);
    assert!(refused_with(&errors[1], MyError::InsufficientFunds));
    assert_eq!(database.get_account(1).unwrap().available, Fixed4(7500));
    assert_eq!(database.get_all_client_ids(), vec![1]);
}
