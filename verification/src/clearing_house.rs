//! A clearinghouse clears and settles all trades and collects margin

use core::marker::PhantomData;

use vstd::prelude::*;

use crate::account::account_impl::Account;
use crate::account_tracker::AccountTracker;
use crate::account::position::{reduces_position, spec_realized_pnl};
use crate::currency::{
    abs_of, diff_of, neg_of, times, Currency, Decimal, MarginCurrency, Monetary, QuoteCurrency,
};
use crate::decimal::{abs, in_i64, spec_mul, MAX_DECIMALS};
use crate::types::{Side, TimestampNs, UserOrderId};

verus! {

/// Whether an order adds liquidity to the book or takes it.
#[derive(Debug, Clone, Copy, PartialEq, Eq, Structural)]
pub enum FeeType {
    Maker,
    Taker,
}

/// The side of a fill of a signed quantity: positive quantities buy, others sell.
pub open spec fn side_of_quantity(quantity: int) -> Side {
    if quantity > 0 {
        Side::Buy
    } else {
        Side::Sell
    }
}

/// The fee of a fill of `quantity` (unsigned mantissa of `Q`) at `price`, at the fee rate `fee`.
pub open spec fn spec_fill_fee<const D: u8, Q: Currency<D>>(quantity: int, price: int, fee: int) -> int {
    spec_mul(D, <Q::PairedCurrency as MarginCurrency<D>>::spec_convert_from(quantity, price), fee)
}

/// A clearing house acts as an intermediary in futures transactions.
/// It guarantees the performance of the parties to each transaction.
/// The main task of the clearing house is to keep track of all the transactions
/// that take place, so that at can calculate the net position of each account.
///
/// If in total the transactions have lost money,
/// the account is required to provide variation margin to the exchange clearing
/// house. If there has been a gain on the transactions, the account receives
/// variation margin from the clearing house.
#[derive(Debug)]
pub struct ClearingHouse<const D: u8, A, Q, U> {
    _phantom: PhantomData<(A, Q, U)>,
}

impl<const D: u8, A, Q, U> Clone for ClearingHouse<D, A, Q, U> {
    fn clone(&self) -> (r: Self) {
        ClearingHouse { _phantom: PhantomData }
    }
}

impl<const D: u8, A: AccountTracker<D, Q, U>, Q: Currency<D>, U: UserOrderId> ClearingHouse<
    D,
    A,
    Q,
    U,
> {
    /// Create a new instance.
    pub fn new() -> (r: Self) {
        ClearingHouse { _phantom: PhantomData }
    }

    /// Settlement refers to the actual transfer of funds or assets between the buyer and
    /// seller to fulfill the trade. As the `ClearingHouse` is the central counterparty to
    /// every trade, it is the buyer of every sell order, and the seller of every buy order.
    ///
    /// # Arguments:
    /// `quantity`: The number of contract traded, where a negative number indicates a sell.
    /// `fill_price`: The execution price of the trade
    /// `fee`: The fee fraction for this type of order settlement.
    ///
    /// The trade, its fee and, where the fill reduces the position, its realized profit net
    /// of the fee are logged with the tracker; a zero quantity leaves the account unchanged.
    pub fn settle_filled_order(
        &mut self,
        account: &mut Account<D, Q, U>,
        account_tracker: &mut A,
        quantity: Q,
        fill_price: QuoteCurrency<D>,
        fee: Decimal<D>,
        ts_ns: TimestampNs,
    )
        requires
            D <= MAX_DECIMALS,
            old(account).wf(),
            old(account).spec_balances().spec_equity() >= 0,
            fill_price.raw() > 0,
            quantity.raw() != i64::MIN,
            quantity.raw() != 0 ==> {
                &&& in_i64(
                    <Q::PairedCurrency as MarginCurrency<D>>::spec_convert_from(
                        abs(quantity.raw()),
                        fill_price.raw(),
                    ),
                )
                &&& in_i64(spec_fill_fee::<D, Q>(abs(quantity.raw()), fill_price.raw(), fee.raw()))
                &&& old(account).change_position_in_range(
                    abs(quantity.raw()),
                    fill_price.raw(),
                    side_of_quantity(quantity.raw()),
                    spec_fill_fee::<D, Q>(abs(quantity.raw()), fill_price.raw(), fee.raw()),
                )
                &&& reduces_position(
                    old(account).spec_position().spec_quantity(),
                    side_of_quantity(quantity.raw()),
                ) ==> in_i64(
                    spec_realized_pnl::<D, Q>(
                        old(account).spec_position().spec_quantity(),
                        old(account).spec_position().spec_entry_price(),
                        abs(quantity.raw()),
                        fill_price.raw(),
                    ) - spec_fill_fee::<D, Q>(abs(quantity.raw()), fill_price.raw(), fee.raw()),
                )
            },
        ensures
            quantity.raw() == 0 ==> *final(account) == *old(account),
            quantity.raw() != 0 ==> final(account).position_changed(
                *old(account),
                abs(quantity.raw()),
                fill_price.raw(),
                side_of_quantity(quantity.raw()),
                spec_fill_fee::<D, Q>(abs(quantity.raw()), fill_price.raw(), fee.raw()),
            ),
            final(account).spec_active_limit_orders() == old(account).spec_active_limit_orders(),
    {
        let side = if quantity.mantissa() > 0 {
            Side::Buy
        } else {
            Side::Sell
        };
        account_tracker.log_trade(side, fill_price, quantity);
        if quantity.mantissa() == 0 {
            return;
        }
        let filled_qty = abs_of(quantity);
        let notional_value = <Q::PairedCurrency as MarginCurrency<D>>::convert_from(
            filled_qty.mantissa(),
            fill_price,
        );
        let fee_amount = times(notional_value, fee);
        account_tracker.log_fee(fee_amount);
        let position_qty = account.position().quantity().mantissa();
        let reduces = (position_qty > 0 && quantity.mantissa() < 0) || (position_qty < 0
            && quantity.mantissa() > 0);
        if reduces {
            let entry_price = account.position().entry_price();
            let closed = if filled_qty.mantissa() < abs_of(account.position().quantity()).mantissa() {
                filled_qty.mantissa()
            } else {
                abs_of(account.position().quantity()).mantissa()
            };
            let pnl = <Q::PairedCurrency as MarginCurrency<D>>::pnl(entry_price, fill_price, closed);
            let rpnl = if position_qty > 0 {
                pnl
            } else {
                neg_of(pnl)
            };
            account_tracker.log_rpnl(diff_of(rpnl, fee_amount), ts_ns);
        }
        account.change_position(filled_qty, fill_price, side, fee_amount);
    }
}

} // verus!
