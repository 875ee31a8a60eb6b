use kithmonite::account::Account;
use kithmonite::money::MonetaryValue;
use rust_decimal::Decimal;

/// A monetary value of `mantissa * 10^-scale` currency units.
fn money(mantissa: i128, scale: u32) -> MonetaryValue {
    MonetaryValue::try_from_parts(mantissa, scale).expect("a non-negative decimal")
}

#[test]
fn add_funds() {
    let mut account = Account::new(1);
    let deposit = money(20, 1);

    assert!(account.deposit(deposit).is_ok());
    assert_eq!(account.available, deposit);
}

#[test]
fn withdraw_funds() {
    let mut account = Account::new(1);
    let deposit = money(20, 1);
    let withdrawal = money(10, 1);

    assert!(account.deposit(deposit).is_ok());
    assert!(account.withdraw(withdrawal).is_ok());
    assert_eq!(account.available, money(10, 1));
}

#[test]
fn deposit_negative_funds() {
    let account = Account::new(1);
    let deposit =
        MonetaryValue::try_from_decimal(&Decimal::try_from(-2.0).expect("-2.0 is a valid decimal"));

    assert!(deposit.is_err());
    assert_eq!(account.available, money(0, 0));
}

#[test]
fn withdraw_more_than_available() {
    let mut account = Account::new(1);
    let deposit = money(20, 1);
    let withdrawal = money(30, 1);

    assert!(account.deposit(deposit).is_ok());
    assert!(account.withdraw(withdrawal).is_err());
    assert_eq!(account.available, money(20, 1));
}

#[test]
fn dispute_deposit() {
    let mut account = Account::new(1);
    let deposit = money(20, 1);

    assert!(account.deposit(deposit).is_ok());
    assert!(account.hold(deposit).is_ok());
    assert_eq!(account.available, money(0, 0));
    assert_eq!(account.held, money(20, 1));
}

#[test]
fn account_resolve_dispute() {
    let mut account = Account::new(1);
    let deposit = money(20, 1);

    assert!(account.deposit(deposit).is_ok());
    assert!(account.hold(deposit).is_ok());
    assert!(account.release(deposit).is_ok());
    assert_eq!(account.available, money(20, 1));
    assert_eq!(account.held, money(0, 0));
}

#[test]
fn account_chargeback_dispute() {
    let mut account = Account::new(1);
    let deposit = money(20, 1);

    assert!(account.deposit(deposit).is_ok());
    assert!(account.hold(deposit).is_ok());
    assert!(account.chargeback(deposit).is_ok());
    assert_eq!(account.available, money(0, 0));
    assert_eq!(account.held, money(0, 0));
    assert!(account.locked);
}

#[test]
fn spend_held_funds() {
    let mut account = Account::new(1);
    let deposit = money(20, 1);

    assert!(account.deposit(deposit).is_ok());
    assert!(account.hold(deposit).is_ok());
    assert!(account.withdraw(deposit).is_err());
    assert_eq!(account.available, money(0, 0));
    assert_eq!(account.held, deposit);
    assert!(!account.locked);
}

#[test]
fn spend_resolved_funds() {
    let mut account = Account::new(1);
    let deposit = money(20, 1);

    assert!(account.deposit(deposit).is_ok());
    assert!(account.hold(deposit).is_ok());
    assert!(account.release(deposit).is_ok());
    assert!(account.withdraw(deposit).is_ok());
    assert_eq!(account.available, money(0, 0));
    assert_eq!(account.held, money(0, 0));
    assert!(!account.locked);
}
