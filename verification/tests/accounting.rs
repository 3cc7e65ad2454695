use lfest::accounting::account::TAccount;
use lfest::accounting::in_memory_accounting::{
    InMemoryTransactionAccounting, TREASURY_ACCOUNT, USER_ORDER_MARGIN_ACCOUNT, USER_WALLET_ACCOUNT,
};
use lfest::accounting::transaction::Transaction;
use lfest::accounting::utils::{accounting_equation_holds, debug_assert_accounting_equation};
use lfest::accounting::TransactionAccounting;
use lfest::currency::BaseCurrency;
use lfest::errors::Error;

#[test]
fn transaction_display() {
    let t = Transaction::new(0, 1, BaseCurrency::<1>::new(5, 0));
    assert_eq!(
        &t.to_string(),
        "Transaction( debit_account_id: USER_WALLET_ACCOUNT, credit_account_id: USER_ORDER_MARGIN_ACCOUNT, amount: 5.0 Base )"
    );
}

#[test]
fn test_accounting_equation() {
    debug_assert_accounting_equation(&[TAccount::<1, BaseCurrency<1>>::default(); 5]);
}

#[test]
fn in_memory_accounting_transfers_keep_the_books_balanced() {

    let mut acc = InMemoryTransactionAccounting::<1, BaseCurrency<1>>::new(BaseCurrency::new(10, 0));
    assert_eq!(acc.margin_balance_of(USER_WALLET_ACCOUNT), Ok(BaseCurrency::new(10, 0)));
    assert_eq!(acc.margin_balance_of(TREASURY_ACCOUNT), Ok(BaseCurrency::new(-10, 0)));
    assert_eq!(acc.margin_balance_of(6), Err(Error::AccountLookupFailure));
    assert!(accounting_equation_holds(acc.accounts()));

    let t = Transaction::new(
        USER_ORDER_MARGIN_ACCOUNT,
        USER_WALLET_ACCOUNT,
        BaseCurrency::new(3, 0),
    );
    assert_eq!(acc.create_margin_transfer(t), Ok(()));
    assert_eq!(acc.margin_balance_of(USER_WALLET_ACCOUNT), Ok(BaseCurrency::new(7, 0)));
    assert_eq!(
        acc.margin_balance_of(USER_ORDER_MARGIN_ACCOUNT),
        Ok(BaseCurrency::new(3, 0))
    );
    assert!(accounting_equation_holds(acc.accounts()));

    let t = Transaction::new(7, USER_WALLET_ACCOUNT, BaseCurrency::new(3, 0));
    assert_eq!(acc.create_margin_transfer(t), Err(Error::AccountLookupFailure));
    assert_eq!(acc.margin_balance_of(USER_WALLET_ACCOUNT), Ok(BaseCurrency::new(7, 0)));
}

#[test]
fn accounting_equation_detects_imbalance() {
    let mut accounts = [TAccount::<1, BaseCurrency<1>>::default(); 2];
    assert!(accounting_equation_holds(&accounts));
    accounts[0].post_credit(BaseCurrency::new(5, 0));
    assert!(!accounting_equation_holds(&accounts));
    accounts[1].post_debit(BaseCurrency::new(5, 0));
    assert!(accounting_equation_holds(&accounts));
    assert_eq!(accounts[0].net_balance(), BaseCurrency::new(-5, 0));
    assert_eq!(accounts[1].net_balance(), BaseCurrency::new(5, 0));
}

#[test]
fn unit_accounting_does_nothing() {
    let mut acc: () = <() as TransactionAccounting<1, BaseCurrency<1>>>::new(BaseCurrency::new(10, 0));
    let t = Transaction::new(0, 1, BaseCurrency::<1>::new(5, 0));
    assert_eq!(acc.create_margin_transfer(t), Ok(()));
    assert_eq!(
        <() as TransactionAccounting<1, BaseCurrency<1>>>::margin_balance_of(&acc, 0),
        Ok(BaseCurrency::new(0, 0))
    );
}
