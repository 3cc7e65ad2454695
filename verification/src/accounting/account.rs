//! A T-Account of double entry bookkeeping.

use vstd::prelude::*;

use crate::currency::{diff_of, sum_of, zero_of, Monetary};
use crate::decimal::in_i64;

verus! {

/// A T-Account keeps track of debits and credits.
#[derive(Debug, Clone, Copy)]
pub struct TAccount<const D: u8, M> {
    debits_posted: M,
    credits_posted: M,
}

impl<const D: u8, M: Monetary<D>> Default for TAccount<D, M> {
    /// An account without postings.
    fn default() -> (r: Self)
        ensures
            r.spec_debits() == 0,
            r.spec_credits() == 0,
    {
        TAccount { debits_posted: zero_of::<D, M>(), credits_posted: zero_of::<D, M>() }
    }
}

impl<const D: u8, M: Monetary<D>> TAccount<D, M> {
    pub closed spec fn spec_debits(self) -> int {
        self.debits_posted.raw()
    }

    pub closed spec fn spec_credits(self) -> int {
        self.credits_posted.raw()
    }

    /// The net balance: debits less credits.
    pub open spec fn spec_net_balance(self) -> int {
        self.spec_debits() - self.spec_credits()
    }

    pub proof fn lemma_in_range(self)
        ensures
            in_i64(self.spec_debits()),
            in_i64(self.spec_credits()),
    {
        self.debits_posted.lemma_raw_range();
        self.credits_posted.lemma_raw_range();
    }

    /// An account with the given postings.
    pub fn from_parts(debits_posted: M, credits_posted: M) -> (r: Self)
        ensures
            r.spec_debits() == debits_posted.raw(),
            r.spec_credits() == credits_posted.raw(),
    {
        TAccount { debits_posted, credits_posted }
    }

    /// The sum of the debits posted.
    pub fn debits_posted(&self) -> (r: M)
        ensures
            r.raw() == self.spec_debits(),
    {
        self.debits_posted
    }

    /// The sum of the credits posted.
    pub fn credits_posted(&self) -> (r: M)
        ensures
            r.raw() == self.spec_credits(),
    {
        self.credits_posted
    }

    /// Post a debit.
    pub fn post_debit(&mut self, amount: M)
        requires
            in_i64(old(self).spec_debits() + amount.raw()),
        ensures
            final(self).spec_debits() == old(self).spec_debits() + amount.raw(),
            final(self).spec_credits() == old(self).spec_credits(),
    {
        self.debits_posted = sum_of(self.debits_posted, amount);
    }

    /// Post a credit.
    pub fn post_credit(&mut self, amount: M)
        requires
            in_i64(old(self).spec_credits() + amount.raw()),
        ensures
            final(self).spec_credits() == old(self).spec_credits() + amount.raw(),
            final(self).spec_debits() == old(self).spec_debits(),
    {
        self.credits_posted = sum_of(self.credits_posted, amount);
    }

    /// The net balance: debits less credits.
    pub fn net_balance(&self) -> (r: M)
        requires
            in_i64(self.spec_net_balance()),
        ensures
            r.raw() == self.spec_net_balance(),
    {
        diff_of(self.debits_posted, self.credits_posted)
    }
}

} // verus!
