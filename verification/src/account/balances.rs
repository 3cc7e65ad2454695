//! The balances of the account in its margin currency.

use vstd::prelude::*;
use vstd::string::StringExecFns;

use crate::currency::{diff_of, neg_of, sum_of, text_of, zero_of, MarginCurrency, Monetary};
use crate::decimal::{decimal_text, in_i64, MAX_DECIMALS};

verus! {

/// The equity and bad debt after applying the signed equity change `delta`:
/// a change which would push the equity below zero bankrupts the account,
/// the excess loss becomes bad debt and the equity is floored at zero.
pub open spec fn spec_apply_to_equity(equity: int, bad_debt: int, delta: int) -> (int, int) {
    if equity + delta < 0 {
        (0, bad_debt - (equity + delta))
    } else {
        (equity + delta, bad_debt)
    }
}

/// Whether applying `delta` keeps every value in range.
pub open spec fn apply_to_equity_in_range(equity: int, bad_debt: int, delta: int) -> bool {
    &&& in_i64(equity + delta)
    &&& equity + delta < 0 ==> in_i64(bad_debt - (equity + delta))
}

/// Contains user balances including margin amounts.
#[derive(Debug, Clone, Copy, PartialEq, Eq)]
pub struct Balances<const D: u8, M> {
    /// The wallet balance that is used to provide margin for positions and orders.
    equity: M,
    /// The total amount of fees paid or received.
    total_fees_paid: M,
    /// The cumulative losses which exceeded the account equity and were absorbed by the
    /// venue (insurance fund / auto-deleveraging on a real exchange).
    bad_debt: M,
}

impl<const D: u8, M: MarginCurrency<D>> Balances<D, M> {
    pub closed spec fn spec_equity(self) -> int {
        self.equity.raw()
    }

    pub closed spec fn spec_total_fees_paid(self) -> int {
        self.total_fees_paid.raw()
    }

    pub closed spec fn spec_bad_debt(self) -> int {
        self.bad_debt.raw()
    }

    pub proof fn lemma_in_range(self)
        ensures
            in_i64(self.spec_equity()),
            in_i64(self.spec_total_fees_paid()),
            in_i64(self.spec_bad_debt()),
    {
        self.equity.lemma_raw_range();
        self.total_fees_paid.lemma_raw_range();
        self.bad_debt.lemma_raw_range();
    }

    /// Create a new instance with an initial balance.
    pub fn new(init_balance: M) -> (r: Self)
        ensures
            r.spec_equity() == init_balance.raw(),
            r.spec_total_fees_paid() == 0,
            r.spec_bad_debt() == 0,
    {
        Balances {
            equity: init_balance,
            total_fees_paid: zero_of::<D, M>(),
            bad_debt: zero_of::<D, M>(),
        }
    }

    /// Create an instance from all its parts.
    pub fn from_parts(equity: M, total_fees_paid: M, bad_debt: M) -> (r: Self)
        ensures
            r.spec_equity() == equity.raw(),
            r.spec_total_fees_paid() == total_fees_paid.raw(),
            r.spec_bad_debt() == bad_debt.raw(),
    {
        Balances { equity, total_fees_paid, bad_debt }
    }

    /// The wallet balance that is used to provide margin for positions and orders.
    pub fn equity(&self) -> (r: M)
        ensures
            r.raw() == self.spec_equity(),
    {
        self.equity
    }

    /// The total amount of fees paid or received.
    pub fn total_fees_paid(&self) -> (r: M)
        ensures
            r.raw() == self.spec_total_fees_paid(),
    {
        self.total_fees_paid
    }

    /// The losses the venue absorbed because they exceeded the equity.
    pub fn bad_debt(&self) -> (r: M)
        ensures
            r.raw() == self.spec_bad_debt(),
    {
        self.bad_debt
    }

    /// If `fee` is negative then we receive balance.
    /// A fee exceeding the equity bankrupts the account; see `apply_to_equity`.
    pub fn account_for_fee(&mut self, fee: M)
        requires
            old(self).spec_equity() >= 0,
            fee.raw() != i64::MIN,
            apply_to_equity_in_range(old(self).spec_equity(), old(self).spec_bad_debt(), -fee.raw()),
            in_i64(old(self).spec_total_fees_paid() + fee.raw()),
        ensures
            (final(self).spec_equity(), final(self).spec_bad_debt()) == spec_apply_to_equity(
                old(self).spec_equity(),
                old(self).spec_bad_debt(),
                -fee.raw(),
            ),
            final(self).spec_total_fees_paid() == old(self).spec_total_fees_paid() + fee.raw(),
            final(self).spec_equity() >= 0,
            final(self).spec_equity() - final(self).spec_bad_debt() == old(self).spec_equity() - old(
                self).spec_bad_debt() - fee.raw(),
    {
        self.apply_to_equity(neg_of(fee));
        self.total_fees_paid = sum_of(self.total_fees_paid, fee);
    }

    /// Profit and loss are applied to the available balance.
    /// A loss exceeding the equity bankrupts the account; see `apply_to_equity`.
    pub fn apply_pnl(&mut self, pnl: M)
        requires
            apply_to_equity_in_range(old(self).spec_equity(), old(self).spec_bad_debt(), pnl.raw()),
        ensures
            (final(self).spec_equity(), final(self).spec_bad_debt()) == spec_apply_to_equity(
                old(self).spec_equity(),
                old(self).spec_bad_debt(),
                pnl.raw(),
            ),
            final(self).spec_total_fees_paid() == old(self).spec_total_fees_paid(),
            final(self).spec_equity() >= 0,
            final(self).spec_equity() - final(self).spec_bad_debt() == old(self).spec_equity() - old(
                self).spec_bad_debt() + pnl.raw(),
    {
        self.apply_to_equity(pnl);
    }

    /// Apply a signed equity change from a realized pnl or fee.
    ///
    /// A change which would push the equity below zero bankrupts the account:
    /// a real venue absorbs the excess loss (insurance fund / auto-deleveraging)
    /// rather than collecting it from the trader, so the excess is recorded as
    /// bad debt and the equity is floored at zero.
    pub fn apply_to_equity(&mut self, delta: M)
        requires
            apply_to_equity_in_range(old(self).spec_equity(), old(self).spec_bad_debt(), delta.raw()),
        ensures
            (final(self).spec_equity(), final(self).spec_bad_debt()) == spec_apply_to_equity(
                old(self).spec_equity(),
                old(self).spec_bad_debt(),
                delta.raw(),
            ),
            final(self).spec_total_fees_paid() == old(self).spec_total_fees_paid(),
    {
        let new_equity = sum_of(self.equity, delta);
        if new_equity.mantissa() < 0 {
            self.bad_debt = diff_of(self.bad_debt, new_equity);
            self.equity = zero_of::<D, M>();
        } else {
            self.equity = new_equity;
        }
    }

    /// The text of the balances, e.g.
    /// `equity: 1000.00000 Quote, total_fees_paid: 5.00000 Quote, bad_debt: 0.00000 Quote`.
    pub fn to_string(&self) -> (r: String)
        requires
            D <= MAX_DECIMALS,
        ensures
            r@ == "equity: "@ + decimal_text(D, self.spec_equity() as i64) + M::unit_suffix()
                + ", total_fees_paid: "@ + decimal_text(D, self.spec_total_fees_paid() as i64)
                + M::unit_suffix() + ", bad_debt: "@ + decimal_text(D, self.spec_bad_debt() as i64)
                + M::unit_suffix(),
    {
        let mut out = String::from_str("equity: ");
        let equity = text_of(self.equity);
        out.append(equity.as_str());
        out.append(", total_fees_paid: ");
        let fees = text_of(self.total_fees_paid);
        out.append(fees.as_str());
        out.append(", bad_debt: ");
        let bad_debt = text_of(self.bad_debt);
        out.append(bad_debt.as_str());
        out
    }
}


/// Applying a profit or loss to the equity floors the equity at zero and books the part of
/// a loss beyond the equity as bad debt, so that equity minus bad debt moves by exactly the
/// profit or loss.
pub proof fn apply_to_equity_keeps_net_worth(equity: int, bad_debt: int, delta: int)
    requires
        equity >= 0,
        bad_debt >= 0,
    ensures
        ({
            let (e, b) = spec_apply_to_equity(equity, bad_debt, delta);
            &&& e == if equity + delta > 0 { equity + delta } else { 0 }
            &&& b == bad_debt + if equity + delta < 0 { -(equity + delta) } else { 0 }
            &&& e - b == equity - bad_debt + delta
            &&& e >= 0
            &&& b >= bad_debt
        }),
{
}

} // verus!
