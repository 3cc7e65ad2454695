//! Keeps the accounts of the margin transfers in memory.

use vstd::prelude::*;

use crate::accounting::account::TAccount;
use crate::accounting::transaction::Transaction;
use crate::accounting::utils::{
    accounting_equation, debug_assert_accounting_equation, lemma_sums_update, sum_credits,
    sum_debits,
};
use crate::accounting::{AccountId, TransactionAccounting};
use crate::currency::{MarginCurrency, Monetary};
use crate::decimal::in_i64;
use crate::errors::Error;

verus! {

/// The number of accounts.
pub const N_ACCOUNTS: usize = 6;

/// The users wallet account.
pub const USER_WALLET_ACCOUNT: usize = 0;

/// The users order margin account
pub const USER_ORDER_MARGIN_ACCOUNT: usize = 1;

/// The users position margin account.
pub const USER_POSITION_MARGIN_ACCOUNT: usize = 2;

/// The exchanges fee account.
pub const EXCHANGE_FEE_ACCOUNT: usize = 3;

/// The brokers margin account.
pub const BROKER_MARGIN_ACCOUNT: usize = 4;

/// The treasury account.
pub const TREASURY_ACCOUNT: usize = 5;

/// Keeps track of transaction in memory.
#[derive(Debug)]
pub struct InMemoryTransactionAccounting<const D: u8, M> {
    /// Accounts are allocated at the start as they are known upfront.
    margin_accounts: Vec<TAccount<D, M>>,
}

impl<const D: u8, M: MarginCurrency<D>> InMemoryTransactionAccounting<D, M> {
    pub closed spec fn spec_accounts(self) -> Seq<TAccount<D, M>> {
        self.margin_accounts@
    }

    /// There are `N_ACCOUNTS` accounts and their debits equal their credits.
    pub open spec fn wf(self) -> bool {
        &&& self.spec_accounts().len() == N_ACCOUNTS
        &&& accounting_equation(self.spec_accounts())
    }

    /// The accounts.
    pub fn accounts(&self) -> (r: &[TAccount<D, M>])
        ensures
            r@ == self.spec_accounts(),
    {
        self.margin_accounts.as_slice()
    }
}

impl<const D: u8, M: MarginCurrency<D>> TransactionAccounting<D, M> for InMemoryTransactionAccounting<
    D,
    M,
> {
    /// The accounting is well formed, the transaction is valid and, where both accounts
    /// exist and the transfer is booked, neither posting leaves the range of `i64`.
    open spec fn transfer_in_range(&self, transaction: Transaction<D, M>) -> bool {
        let both_exist = transaction.spec_debit_account_id() < N_ACCOUNTS
            && transaction.spec_credit_account_id() < N_ACCOUNTS;
        &&& self.wf()
        &&& transaction.wf()
        &&& both_exist ==> in_i64(
            self.spec_accounts()[transaction.spec_debit_account_id() as int].spec_debits()
                + transaction.spec_amount().raw(),
        )
        &&& both_exist ==> in_i64(
            self.spec_accounts()[transaction.spec_credit_account_id() as int].spec_credits()
                + transaction.spec_amount().raw(),
        )
    }

    open spec fn records_transfers() -> bool {
        true
    }

    open spec fn has_account(&self, account: AccountId) -> bool {
        account < N_ACCOUNTS
    }

    /// The net balance of the account: its debits less its credits.
    open spec fn spec_margin_balance(&self, account: AccountId) -> int {
        if account < N_ACCOUNTS {
            self.spec_accounts()[account as int].spec_net_balance()
        } else {
            0
        }
    }

    open spec fn balance_in_range(&self, account: AccountId) -> bool {
        &&& self.wf()
        &&& account < N_ACCOUNTS ==> in_i64(self.spec_accounts()[account as int].spec_net_balance())
    }

    /// The user's wallet is debited and the treasury credited with the starting balance.
    fn new(user_starting_wallet_balance: M) -> (r: Self)
        ensures
            r.wf(),
            r.spec_accounts()[USER_WALLET_ACCOUNT as int].spec_debits()
                == user_starting_wallet_balance.raw(),
            r.spec_accounts()[USER_WALLET_ACCOUNT as int].spec_credits() == 0,
            r.spec_accounts()[TREASURY_ACCOUNT as int].spec_credits()
                == user_starting_wallet_balance.raw(),
            r.spec_accounts()[TREASURY_ACCOUNT as int].spec_debits() == 0,
            forall|i: int|
                0 <= i < N_ACCOUNTS && i != USER_WALLET_ACCOUNT && i != TREASURY_ACCOUNT
                    ==> #[trigger] r.spec_accounts()[i].spec_debits() == 0
                    && r.spec_accounts()[i].spec_credits() == 0,
    {
        let mut margin_accounts: Vec<TAccount<D, M>> = Vec::new();
        let mut i: usize = 0;
        while i < N_ACCOUNTS
            invariant
                i <= N_ACCOUNTS,
                margin_accounts@.len() == i,
                forall|k: int|
                    0 <= k < i ==> (#[trigger] margin_accounts@[k]).spec_debits() == 0
                        && margin_accounts@[k].spec_credits() == 0,
            decreases N_ACCOUNTS - i,
        {
            margin_accounts.push(TAccount::default());
            i = i + 1;
        }
        proof {
            user_starting_wallet_balance.lemma_raw_range();
        }
        let mut wallet = margin_accounts[USER_WALLET_ACCOUNT];
        wallet.post_debit(user_starting_wallet_balance);
        let mut treasury = margin_accounts[TREASURY_ACCOUNT];
        treasury.post_credit(user_starting_wallet_balance);
        let ghost zeroed = margin_accounts@;
        proof {
            assert(sum_debits(zeroed) == 0 && sum_credits(zeroed) == 0) by {
                reveal_with_fuel(sum_debits, 7);
                reveal_with_fuel(sum_credits, 7);
            }
            lemma_sums_update(zeroed, USER_WALLET_ACCOUNT as int, wallet);
            lemma_sums_update(
                zeroed.update(USER_WALLET_ACCOUNT as int, wallet),
                TREASURY_ACCOUNT as int,
                treasury,
            );
        }
        margin_accounts.set(USER_WALLET_ACCOUNT, wallet);
        margin_accounts.set(TREASURY_ACCOUNT, treasury);
        let s = InMemoryTransactionAccounting { margin_accounts };
        debug_assert_accounting_equation(s.margin_accounts.as_slice());
        s
    }

    /// Posts the amount as a debit of the debit account and a credit of the credit account;
    /// an account that does not exist fails the transfer and changes nothing.
    fn create_margin_transfer(&mut self, transaction: Transaction<D, M>) -> (r: Result<(), Error>)
        ensures
            final(self).wf(),
            r is Err <==> transaction.spec_debit_account_id() >= N_ACCOUNTS
                || transaction.spec_credit_account_id() >= N_ACCOUNTS,
            r is Err ==> r == Err::<(), Error>(Error::AccountLookupFailure) && *final(self) == *old(self),
            r is Ok ==> forall|i: int|
                0 <= i < N_ACCOUNTS ==> {
                    &&& #[trigger] final(self).spec_accounts()[i].spec_debits() == old(self).spec_accounts()[i].spec_debits()
                        + if i == transaction.spec_debit_account_id() {
                        transaction.spec_amount().raw()
                    } else {
                        0
                    }
                    &&& final(self).spec_accounts()[i].spec_credits() == old(self).spec_accounts()[i].spec_credits()
                        + if i == transaction.spec_credit_account_id() {
                        transaction.spec_amount().raw()
                    } else {
                        0
                    }
                },
    {
        let debit_id = transaction.debit_account_id();
        let credit_id = transaction.credit_account_id();
        if debit_id >= N_ACCOUNTS {
            return Err(Error::AccountLookupFailure);
        }
        if credit_id >= N_ACCOUNTS {
            return Err(Error::AccountLookupFailure);
        }
        let amnt = transaction.amount();
        let ghost before = self.margin_accounts@;
        let mut debit_account = self.margin_accounts[debit_id];
        debit_account.post_debit(amnt);
        let mut credit_account = self.margin_accounts[credit_id];
        credit_account.post_credit(amnt);
        proof {
            lemma_sums_update(before, debit_id as int, debit_account);
            lemma_sums_update(before.update(debit_id as int, debit_account), credit_id as int, credit_account);
        }
        self.margin_accounts.set(debit_id, debit_account);
        self.margin_accounts.set(credit_id, credit_account);
        debug_assert_accounting_equation(self.margin_accounts.as_slice());
        assert forall|a: AccountId|
            #[trigger] self.spec_margin_balance(a) == old(self).spec_margin_balance(a) + (if a
                == transaction.spec_debit_account_id() {
                transaction.spec_amount().raw()
            } else {
                0
            }) - (if a == transaction.spec_credit_account_id() {
                transaction.spec_amount().raw()
            } else {
                0
            }) by {
            if a < N_ACCOUNTS {
                assert(self.margin_accounts@[a as int] == before.update(debit_id as int, debit_account).update(
                    credit_id as int,
                    credit_account,
                )[a as int]);
            }
        }
        Ok(())
    }

    /// The net balance of the account; an account that does not exist fails the query.
    fn margin_balance_of(&self, account: AccountId) -> (r: Result<M, Error>)
        ensures
            account >= N_ACCOUNTS ==> r == Err::<M, Error>(Error::AccountLookupFailure),
            account < N_ACCOUNTS ==> r is Ok && r->Ok_0.raw()
                == self.spec_accounts()[account as int].spec_net_balance(),
    {
        if account >= N_ACCOUNTS {
            return Err(Error::AccountLookupFailure);
        }
        Ok(self.margin_accounts[account].net_balance())
    }
}

} // verus!
