//! A transfer of margin between two accounts.

use vstd::prelude::*;
use vstd::string::StringExecFns;

use crate::accounting::in_memory_accounting::{
    BROKER_MARGIN_ACCOUNT, EXCHANGE_FEE_ACCOUNT, TREASURY_ACCOUNT, USER_ORDER_MARGIN_ACCOUNT,
    USER_POSITION_MARGIN_ACCOUNT, USER_WALLET_ACCOUNT,
};
use crate::accounting::AccountId;
use crate::currency::{text_of, MarginCurrency, Monetary};
use crate::decimal::{decimal_text, MAX_DECIMALS};

verus! {

/// The name of an account of the in-memory accounting.
pub open spec fn account_name(id: AccountId) -> Seq<char> {
    if id == USER_WALLET_ACCOUNT {
        "USER_WALLET_ACCOUNT"@
    } else if id == USER_ORDER_MARGIN_ACCOUNT {
        "USER_ORDER_MARGIN_ACCOUNT"@
    } else if id == USER_POSITION_MARGIN_ACCOUNT {
        "USER_POSITION_MARGIN_ACCOUNT"@
    } else if id == EXCHANGE_FEE_ACCOUNT {
        "EXCHANGE_FEE_ACCOUNT"@
    } else if id == BROKER_MARGIN_ACCOUNT {
        "BROKER_MARGIN_ACCOUNT"@
    } else {
        "TREASURY_ACCOUNT"@
    }
}

/// For making accounts more readable in `Debug` formatting.
pub fn account_from_int(id: AccountId) -> (r: &'static str)
    requires
        id <= TREASURY_ACCOUNT,
    ensures
        r@ == account_name(id),
{
    if id == USER_WALLET_ACCOUNT {
        "USER_WALLET_ACCOUNT"
    } else if id == USER_ORDER_MARGIN_ACCOUNT {
        "USER_ORDER_MARGIN_ACCOUNT"
    } else if id == USER_POSITION_MARGIN_ACCOUNT {
        "USER_POSITION_MARGIN_ACCOUNT"
    } else if id == EXCHANGE_FEE_ACCOUNT {
        "EXCHANGE_FEE_ACCOUNT"
    } else if id == BROKER_MARGIN_ACCOUNT {
        "BROKER_MARGIN_ACCOUNT"
    } else {
        "TREASURY_ACCOUNT"
    }
}

/// A transaction involves two parties.
#[derive(Debug, Clone, Copy)]
pub struct Transaction<const D: u8, M> {
    debit_account_id: AccountId,
    credit_account_id: AccountId,
    amount: M,
}

impl<const D: u8, M: MarginCurrency<D>> Transaction<D, M> {
    pub closed spec fn spec_debit_account_id(self) -> AccountId {
        self.debit_account_id
    }

    pub closed spec fn spec_credit_account_id(self) -> AccountId {
        self.credit_account_id
    }

    pub closed spec fn spec_amount(self) -> M {
        self.amount
    }

    /// The amount is positive and the two accounts differ.
    pub open spec fn wf(self) -> bool {
        &&& self.spec_amount().raw() > 0
        &&& self.spec_debit_account_id() != self.spec_credit_account_id()
    }

    /// Create a new transaction of a positive `amount` between two different accounts.
    pub fn new(debit_account_id: AccountId, credit_account_id: AccountId, amount: M) -> (r: Self)
        requires
            amount.raw() > 0,
            debit_account_id != credit_account_id,
        ensures
            r.wf(),
            r.spec_debit_account_id() == debit_account_id,
            r.spec_credit_account_id() == credit_account_id,
            r.spec_amount() == amount,
    {
        Transaction { debit_account_id, credit_account_id, amount }
    }

    /// The account that is debited.
    pub fn debit_account_id(&self) -> (r: AccountId)
        ensures
            r == self.spec_debit_account_id(),
    {
        self.debit_account_id
    }

    /// The account that is credited.
    pub fn credit_account_id(&self) -> (r: AccountId)
        ensures
            r == self.spec_credit_account_id(),
    {
        self.credit_account_id
    }

    /// The amount transferred.
    pub fn amount(&self) -> (r: M)
        ensures
            r == self.spec_amount(),
    {
        self.amount
    }

    /// The text of the transaction, e.g. `Transaction( debit_account_id: USER_WALLET_ACCOUNT,
    /// credit_account_id: USER_ORDER_MARGIN_ACCOUNT, amount: 5.0 Base )`.
    pub fn to_string(&self) -> (r: String)
        requires
            D <= MAX_DECIMALS,
            self.spec_debit_account_id() <= TREASURY_ACCOUNT,
            self.spec_credit_account_id() <= TREASURY_ACCOUNT,
        ensures
            r@ == "Transaction( debit_account_id: "@ + account_name(self.spec_debit_account_id())
                + ", credit_account_id: "@ + account_name(self.spec_credit_account_id())
                + ", amount: "@ + decimal_text(D, self.spec_amount().raw() as i64)
                + M::unit_suffix() + " )"@,
    {
        let mut out = String::from_str("Transaction( debit_account_id: ");
        out.append(account_from_int(self.debit_account_id));
        out.append(", credit_account_id: ");
        out.append(account_from_int(self.credit_account_id));
        out.append(", amount: ");
        let amount = text_of(self.amount);
        out.append(amount.as_str());
        out.append(" )");
        out
    }
}

} // verus!
