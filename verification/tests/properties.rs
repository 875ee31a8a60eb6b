use kithmonite::account::{Account, ClientId, Transaction, TransactionId, TransactionKind};
use kithmonite::money::{MonetaryValue, TransactionError};
use kithmonite::processor::{PaymentProcessingError, PaymentProcessor};
use kithmonite::records::{Output, TransactionKind as RecordKind, TransactionRow};
use rust_decimal::Decimal;

fn money(mantissa: i128, scale: u32) -> MonetaryValue {
    MonetaryValue::try_from_parts(mantissa, scale).expect("a non-negative decimal")
}

#[test]
fn construction_rounds_half_to_even() {
    // 0.00015 rounds up to 0.0002 (the lower neighbour 1 is odd) ...
    assert_eq!(money(15, 5).units(), 2);
    // ... while 0.00025 rounds down to 0.0002 (2 is even).
    assert_eq!(money(25, 5).units(), 2);
    // Away from a midpoint, rounding is to the nearest value.
    assert_eq!(money(12344, 8), money(1, 4));
    // Values with four or fewer fractional digits pass through exactly.
    assert_eq!(money(1, 0).units(), 10_000);
    assert_eq!(money(12345, 1).units(), 12_345_000);
}

#[test]
fn decimal_conversion_matches_parts() {
    // The same figure through `rust_decimal` and through its raw parts.
    let through_decimal =
        MonetaryValue::try_from_decimal(&Decimal::new(12345, 5)).expect("0.12345 is a decimal");
    assert_eq!(through_decimal, money(12345, 5));
    // A tie at the fifth digit: 0.12345 -> 0.1234 (4 is even).
    assert_eq!(through_decimal.units(), 1234);
}

#[test]
fn negative_decimal_rejected() {
    let r = MonetaryValue::try_from_decimal(&Decimal::new(-10, 1));
    assert_eq!(r, Err(TransactionError::NegativeBalance(-10_000)));
    let r = MonetaryValue::try_from_parts(-10, 1);
    assert_eq!(r, Err(TransactionError::NegativeBalance(-10_000)));
}

#[test]
fn negatively_signed_zero_is_zero() {
    // A zero coefficient means the value is zero, whatever the sign flag
    // says; construction accepts it.
    let negative_zero = Decimal::from_parts(0, 0, 0, true, 0);
    assert_eq!(
        MonetaryValue::try_from_decimal(&negative_zero),
        Ok(money(0, 0))
    );
}

#[test]
fn output_total_is_available_plus_held() {
    let mut account = Account::new(7);
    assert!(account.deposit(money(15, 1)).is_ok());
    assert!(account.hold(money(5, 1)).is_ok());

    let output = Output::from(account);
    assert_eq!(output.client, 7);
    assert_eq!(output.available, money(10, 1));
    assert_eq!(output.held, money(5, 1));
    assert_eq!(output.total, money(15, 1));
    assert_eq!(
        output.total.units(),
        output.available.units() + output.held.units()
    );
    assert!(!output.locked);
}

#[test]
fn chargeback_locks_account_for_good() {
    let mut processor = PaymentProcessor::new();
    assert!(processor
        .process(1, Transaction::new(1, TransactionKind::Deposit(money(10, 1))))
        .is_ok());
    assert!(processor.process(1, Transaction::new(1, TransactionKind::Dispute)).is_ok());
    assert!(processor.process(1, Transaction::new(1, TransactionKind::Chargeback)).is_ok());

    let account = processor.account_log(1).expect("an account should have been created");
    assert_eq!(account.state.available, money(0, 0));
    assert_eq!(account.state.held, money(0, 0));
    assert!(account.state.locked);

    // Every later transfer is rejected with `AccountLocked`.
    let r = processor.process(1, Transaction::new(2, TransactionKind::Deposit(money(50, 1))));
    assert_eq!(
        r,
        Err(PaymentProcessingError::TransactionError(TransactionError::AccountLocked))
    );
    let r = processor.process(1, Transaction::new(3, TransactionKind::Withdrawal(money(1, 1))));
    assert_eq!(
        r,
        Err(PaymentProcessingError::TransactionError(TransactionError::AccountLocked))
    );
    // Rejection covers every amount, up to the largest representable one.
    let largest = money(79228162514264337593543950335, 0);
    let r = processor.process(1, Transaction::new(4, TransactionKind::Deposit(largest)));
    assert_eq!(
        r,
        Err(PaymentProcessingError::TransactionError(TransactionError::AccountLocked))
    );
    let account = processor.account_log(1).expect("the account is still on file");
    assert!(account.state.locked);
    assert_eq!(account.state.available, money(0, 0));
}

#[test]
fn withdrawal_without_deposit_reports_shortfall() {
    let mut processor = PaymentProcessor::new();
    let r = processor.process(1, Transaction::new(1, TransactionKind::Withdrawal(money(10, 1))));
    assert_eq!(
        r,
        Err(PaymentProcessingError::TransactionError(TransactionError::NegativeBalance(
            -10_000,
        )))
    );
    let account = processor.account_log(1).expect("an account should have been created");
    assert_eq!(account.state.available, money(0, 0));
}

#[test]
fn second_dispute_reports_dispute_already_exists() {
    let mut processor = PaymentProcessor::new();
    assert!(processor
        .process(1, Transaction::new(1, TransactionKind::Deposit(money(10, 1))))
        .is_ok());
    assert!(processor.process(1, Transaction::new(1, TransactionKind::Dispute)).is_ok());
    let r = processor.process(1, Transaction::new(1, TransactionKind::Dispute));
    assert_eq!(r, Err(PaymentProcessingError::DisputeAlreadyExists));
}

#[test]
fn settling_without_dispute_reports_no_dispute() {
    let mut processor = PaymentProcessor::new();
    assert!(processor
        .process(1, Transaction::new(1, TransactionKind::Deposit(money(10, 1))))
        .is_ok());
    let r = processor.process(1, Transaction::new(1, TransactionKind::Chargeback));
    assert_eq!(r, Err(PaymentProcessingError::NoDispute));
    let r = processor.process(1, Transaction::new(1, TransactionKind::Resolve));
    assert_eq!(r, Err(PaymentProcessingError::NoDispute));
}

#[test]
fn dispute_of_unknown_or_non_deposit_id_is_a_no_op() {
    let mut processor = PaymentProcessor::new();
    assert!(processor
        .process(1, Transaction::new(1, TransactionKind::Deposit(money(10, 1))))
        .is_ok());
    assert!(processor
        .process(1, Transaction::new(2, TransactionKind::Withdrawal(money(5, 1))))
        .is_ok());

    // An id that is not on file, and an id that names a withdrawal: both
    // disputes are accepted silently and change nothing.
    assert!(processor.process(1, Transaction::new(9, TransactionKind::Dispute)).is_ok());
    assert!(processor.process(1, Transaction::new(2, TransactionKind::Dispute)).is_ok());

    let account = processor.account_log(1).expect("an account should have been created");
    assert_eq!(account.state.available, money(5, 1));
    assert_eq!(account.state.held, money(0, 0));
}

#[test]
fn chargeback_after_resolve_still_locks() {
    let mut processor = PaymentProcessor::new();
    assert!(processor
        .process(1, Transaction::new(1, TransactionKind::Deposit(money(10, 1))))
        .is_ok());
    assert!(processor.process(1, Transaction::new(1, TransactionKind::Dispute)).is_ok());
    assert!(processor.process(1, Transaction::new(1, TransactionKind::Resolve)).is_ok());

    // The dispute record is still on file, but the held funds are gone:
    // the chargeback locks the account as a side effect and then fails.
    let r = processor.process(1, Transaction::new(1, TransactionKind::Chargeback));
    assert_eq!(
        r,
        Err(PaymentProcessingError::TransactionError(TransactionError::NegativeBalance(
            -10_000,
        )))
    );
    let account = processor.account_log(1).expect("the account is still on file");
    assert!(account.state.locked);
    assert_eq!(account.state.available, money(10, 1));
}

#[test]
fn validation_requires_amount_for_transfers() {
    let row = TransactionRow { kind: RecordKind::Deposit, amount: None, client: 1, tx: 1 };
    assert_eq!(Transaction::try_from(row), Err(TransactionError::MissingAmount));

    let row = TransactionRow { kind: RecordKind::Withdrawal, amount: None, client: 1, tx: 1 };
    assert_eq!(Transaction::try_from(row), Err(TransactionError::MissingAmount));

    let row = TransactionRow {
        kind: RecordKind::Deposit,
        amount: Some(Decimal::new(-10, 1)),
        client: 1,
        tx: 1,
    };
    assert_eq!(
        Transaction::try_from(row),
        Err(TransactionError::NegativeBalance(-10_000))
    );

    let row = TransactionRow {
        kind: RecordKind::Withdrawal,
        amount: Some(Decimal::new(25, 1)),
        client: 1,
        tx: 9,
    };
    let t = Transaction::try_from(row).expect("2.5 is a valid amount");
    assert_eq!(t, Transaction::new(9, TransactionKind::Withdrawal(money(25, 1))));
}

#[test]
fn validation_ignores_amount_on_lifecycle_records() {
    let row = TransactionRow {
        kind: RecordKind::Dispute,
        amount: Some(Decimal::new(10, 1)),
        client: 1,
        tx: 4,
    };
    assert_eq!(
        Transaction::try_from(row),
        Ok(Transaction::new(4, TransactionKind::Dispute))
    );

    let row = TransactionRow { kind: RecordKind::Resolve, amount: None, client: 1, tx: 4 };
    assert_eq!(
        Transaction::try_from(row),
        Ok(Transaction::new(4, TransactionKind::Resolve))
    );

    let row = TransactionRow { kind: RecordKind::Chargeback, amount: None, client: 1, tx: 4 };
    assert_eq!(
        Transaction::try_from(row),
        Ok(Transaction::new(4, TransactionKind::Chargeback))
    );
}

#[test]
fn id_conversions_and_defaults() {
    assert_eq!(ClientId::from(7u16), ClientId(7));
    assert_eq!(u16::from(ClientId(7)), 7);
    assert_eq!(TransactionId::from(9u32), TransactionId(9));
    assert_eq!(ClientId::default(), ClientId(0));
    assert_eq!(TransactionId::default(), TransactionId(0));
    assert_eq!(MonetaryValue::default(), money(0, 0));
    let account = Account::default();
    assert_eq!(account.client_id, ClientId(0));
    assert_eq!(account.available, money(0, 0));
    assert_eq!(account.held, money(0, 0));
    assert!(!account.locked);
}

#[test]
fn accounts_drains_every_client_once() {
    let mut processor = PaymentProcessor::new();
    assert!(processor
        .process(1, Transaction::new(1, TransactionKind::Deposit(money(10, 1))))
        .is_ok());
    assert!(processor
        .process(2, Transaction::new(1, TransactionKind::Deposit(money(20, 1))))
        .is_ok());
    assert!(processor
        .process(1, Transaction::new(2, TransactionKind::Withdrawal(money(5, 1))))
        .is_ok());

    let mut accounts = processor.accounts();
    accounts.sort_by_key(|a| a.client_id.0);
    assert_eq!(accounts.len(), 2);
    assert_eq!(accounts[0].client_id.0, 1);
    assert_eq!(accounts[0].available, money(5, 1));
    assert_eq!(accounts[1].client_id.0, 2);
    assert_eq!(accounts[1].available, money(20, 1));
}
