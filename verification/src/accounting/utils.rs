//! The accounting equation of double entry bookkeeping.

use vstd::prelude::*;

use crate::accounting::account::TAccount;
use crate::currency::Monetary;

verus! {

/// The sum of the debits posted to the accounts.
pub open spec fn sum_debits<const D: u8, M: Monetary<D>>(accounts: Seq<TAccount<D, M>>) -> int
    decreases accounts.len(),
{
    if accounts.len() == 0 {
        0
    } else {
        sum_debits(accounts.drop_last()) + accounts.last().spec_debits()
    }
}

/// The sum of the credits posted to the accounts.
pub open spec fn sum_credits<const D: u8, M: Monetary<D>>(accounts: Seq<TAccount<D, M>>) -> int
    decreases accounts.len(),
{
    if accounts.len() == 0 {
        0
    } else {
        sum_credits(accounts.drop_last()) + accounts.last().spec_credits()
    }
}

/// The accounting equation: the cumulative debits of all accounts equal their credits.
pub open spec fn accounting_equation<const D: u8, M: Monetary<D>>(
    accounts: Seq<TAccount<D, M>>,
) -> bool {
    sum_debits(accounts) == sum_credits(accounts)
}

/// Changing one account changes the sums of debits and credits by the change of that account.
pub proof fn lemma_sums_update<const D: u8, M: Monetary<D>>(
    accounts: Seq<TAccount<D, M>>,
    idx: int,
    account: TAccount<D, M>,
)
    requires
        0 <= idx < accounts.len(),
    ensures
        sum_debits(accounts.update(idx, account)) == sum_debits(accounts) - accounts[idx].spec_debits()
            + account.spec_debits(),
        sum_credits(accounts.update(idx, account)) == sum_credits(accounts)
            - accounts[idx].spec_credits() + account.spec_credits(),
    decreases accounts.len(),
{
    let u = accounts.update(idx, account);
    if idx == accounts.len() - 1 {
        assert(u.drop_last() =~= accounts.drop_last());
    } else {
        lemma_sums_update(accounts.drop_last(), idx, account);
        assert(u.drop_last() =~= accounts.drop_last().update(idx, account));
    }
}

/// Whether the accounting equation holds for the accounts.
pub fn accounting_equation_holds<const D: u8, M: Monetary<D>>(accounts: &[TAccount<D, M>]) -> (r:
    bool)
    ensures
        r == accounting_equation(accounts@),
{
    let n = accounts.len();
    let mut debit_sum: i128 = 0;
    let mut credit_sum: i128 = 0;
    let mut i: usize = 0;
    while i < n
        invariant
            n == accounts@.len(),
            i <= n,
            debit_sum == sum_debits(accounts@.subrange(0, i as int)),
            credit_sum == sum_credits(accounts@.subrange(0, i as int)),
            -0x8000_0000_0000_0000 * i <= debit_sum <= 0x7fff_ffff_ffff_ffff * i,
            -0x8000_0000_0000_0000 * i <= credit_sum <= 0x7fff_ffff_ffff_ffff * i,
        decreases n - i,
    {
        let account = accounts[i];
        proof {
            account.lemma_in_range();
            assert(accounts@.subrange(0, i + 1).drop_last() =~= accounts@.subrange(0, i as int));
        }
        debit_sum = debit_sum + account.debits_posted().mantissa() as i128;
        credit_sum = credit_sum + account.credits_posted().mantissa() as i128;
        i = i + 1;
    }
    proof {
        assert(accounts@.subrange(0, n as int) =~= accounts@);
    }
    debit_sum == credit_sum
}

/// Asserts that the accounting equation holds true.
/// Verus proves that the assertion never fails: callers establish the equation.
pub fn debug_assert_accounting_equation<const D: u8, M: Monetary<D>>(accounts: &[TAccount<D, M>])
    requires
        accounting_equation(accounts@),
{
    let holds = accounting_equation_holds(accounts);
    assert(holds);
}

} // verus!
