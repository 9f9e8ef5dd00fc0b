//! Tests of the ledger primitives.

use basic_dao::ledger::Ledger;
use basic_dao::types::DaoError;

#[test]
fn credit_creates_account_and_debit_drains_it() {
    let mut l = Ledger::new();
    assert_eq!(l.balance_of(1), 0);
    assert_eq!(l.account_tokens(1), None);
    l.credit(1, 30);
    assert_eq!(l.account_tokens(1), Some(30));
    l.credit(1, 5);
    assert_eq!(l.balance_of(1), 35);
    assert_eq!(l.debit(1, 35), Ok(()));
    assert_eq!(l.balance_of(1), 0);
    // The account stays once created, even when drained.
    assert_eq!(l.account_tokens(1), Some(0));
}

#[test]
fn debit_fails_without_cover() {
    let mut l = Ledger::new();
    l.credit(1, 10);
    assert_eq!(l.debit(1, 11), Err(DaoError::InsufficientFunds));
    assert_eq!(l.balance_of(1), 10);
    // An absent identity holds zero: debiting zero is fine, more is not.
    assert_eq!(l.debit(2, 0), Ok(()));
    assert_eq!(l.debit(2, 1), Err(DaoError::InsufficientFunds));
}

#[test]
fn transfer_to_self_burns_only_the_fee() {
    let mut l = Ledger::new();
    l.credit(1, 50);
    assert_eq!(l.transfer(1, 1, 20, 3), Ok(()));
    assert_eq!(l.balance_of(1), 47);
}
