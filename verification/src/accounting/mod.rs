//! Double entry bookkeeping of the margin transfers between the user and the venue.

pub mod account;
pub mod in_memory_accounting;
pub mod transaction;
pub mod utils;

use vstd::prelude::*;

use crate::accounting::transaction::Transaction;
use crate::currency::{zero_of, MarginCurrency, Monetary};
use crate::errors::Error;

verus! {

/// The identifier of an account in the accounting infrastructure.
pub type AccountId = usize;

/// The trait for settling transactions.
pub trait TransactionAccounting<const D: u8, M: MarginCurrency<D>>: Sized {
    /// Whether `transaction` can be posted with every balance staying in range.
    spec fn transfer_in_range(&self, transaction: Transaction<D, M>) -> bool;

    /// Whether the balance of `account` can be computed in range.
    spec fn balance_in_range(&self, account: AccountId) -> bool;

    /// Whether the implementation books the transfers, so that they move balances.
    spec fn records_transfers() -> bool;

    /// Whether `account` exists.
    spec fn has_account(&self, account: AccountId) -> bool;

    /// The mantissa of the margin balance of `account`.
    spec fn spec_margin_balance(&self, account: AccountId) -> int;

    /// Create a new instance with an initial balance for the user account.
    fn new(user_starting_wallet_balance: M) -> Self;

    /// Transfers a margin balance from one account to another: it fails exactly where an
    /// account does not exist, and then changes nothing; where the implementation books
    /// transfers, the debited account's balance rises and the credited one's falls by the
    /// amount and every other balance stays.
    fn create_margin_transfer(&mut self, transaction: Transaction<D, M>) -> (r: Result<(), Error>)
        requires
            old(self).transfer_in_range(transaction),
        ensures
            r is Err <==> !old(self).has_account(transaction.spec_debit_account_id())
                || !old(self).has_account(transaction.spec_credit_account_id()),
            r is Err ==> r == Err::<(), Error>(Error::AccountLookupFailure) && *final(self) == *old(self),
            forall|a: AccountId| #[trigger] final(self).has_account(a) == old(self).has_account(a),
            r is Ok && Self::records_transfers() ==> forall|a: AccountId|
                #[trigger] final(self).spec_margin_balance(a) == old(self).spec_margin_balance(a)
                    + (if a == transaction.spec_debit_account_id() {
                    transaction.spec_amount().raw()
                } else {
                    0
                }) - (if a == transaction.spec_credit_account_id() {
                    transaction.spec_amount().raw()
                } else {
                    0
                }),
    ;

    /// Query a balance of an account denoted in the margin currency; an account that does
    /// not exist fails the query.
    fn margin_balance_of(&self, account: AccountId) -> (r: Result<M, Error>)
        requires
            self.balance_in_range(account),
        ensures
            r is Ok <==> self.has_account(account),
            r is Ok ==> M::raw(r->Ok_0) == self.spec_margin_balance(account),
            r is Err ==> r == Err::<M, Error>(Error::AccountLookupFailure),
    ;
}

/// No-Op implementation which can be useful sometimes.
impl<const D: u8, M: MarginCurrency<D>> TransactionAccounting<D, M> for () {
    open spec fn transfer_in_range(&self, transaction: Transaction<D, M>) -> bool {
        true
    }

    open spec fn balance_in_range(&self, account: AccountId) -> bool {
        true
    }

    /// Nothing is booked.
    open spec fn records_transfers() -> bool {
        false
    }

    open spec fn has_account(&self, account: AccountId) -> bool {
        true
    }

    /// Every balance reads as zero.
    open spec fn spec_margin_balance(&self, account: AccountId) -> int {
        0
    }

    fn new(user_starting_wallet_balance: M) -> (r: Self) {
    }

    fn create_margin_transfer(&mut self, transaction: Transaction<D, M>) -> (r: Result<(), Error>)
        ensures
            r is Ok,
    {
        Ok(())
    }

    fn margin_balance_of(&self, account: AccountId) -> (r: Result<M, Error>)
        ensures
            r is Ok && M::raw(r->Ok_0) == 0,
    {
        Ok(zero_of::<D, M>())
    }
}

} // verus!
