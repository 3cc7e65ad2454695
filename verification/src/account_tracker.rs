//! Tracking of the performance of an account.

use vstd::prelude::*;

use crate::account::balances::Balances;
use crate::currency::{Currency, QuoteCurrency};
use crate::market_state::MarketState;
use crate::types::{LimitOrder, NewOrder, Side, TimestampNs, UserOrderId};

verus! {

/// Defines the possible sources of returns to use
#[derive(Debug, Clone, Copy, PartialEq, Eq, Structural)]
pub enum ReturnsSource {
    /// Daily sampled returns
    Daily,
    /// Hourly sampled returns
    Hourly,
    /// Tick-by-tick sampled returns
    TickByTick,
}

/// Something that tracks the performance of the Account.
///
/// # Generics:
/// - `D` is the constant decimal precision of the currencies,
/// - `Q` is the currency of order quantities, whose paired currency holds the margin,
/// - `U` is the user order identifier.
pub trait AccountTracker<const D: u8, Q: Currency<D>, U: UserOrderId> {
    /// Update with newest market info.
    fn update(&mut self, market_state: &MarketState<D>);

    /// Process information about the user balances.
    fn sample_user_balances(
        &mut self,
        user_balances: &Balances<D, Q::PairedCurrency>,
        mid_price: QuoteCurrency<D>,
    );

    /// Log a `LimitOrder` submission event.
    fn log_limit_order_submission(&mut self, limit_order: &LimitOrder<D, Q, U, NewOrder>);

    /// Log a `LimitOrder` cancellation event.
    fn log_limit_order_cancellation(&mut self);

    /// Log a `LimitOrder` fill event.
    fn log_limit_order_fill(&mut self, fully_filled: bool, fill_qty: Q);

    /// Log a market order fill event.
    fn log_market_order_fill(&mut self);

    /// Log a trade
    fn log_trade(&mut self, side: Side, price: QuoteCurrency<D>, quantity: Q);

    /// Log a fee paid, in the margin currency.
    fn log_fee(&mut self, fee: Q::PairedCurrency);

    /// Log the realized profit and loss of a fill, net of its fee, at `ts_ns`.
    fn log_rpnl(&mut self, net_rpnl: Q::PairedCurrency, ts_ns: TimestampNs);
}

/// Performs no tracking of account performance
#[derive(Default, Debug, Clone, Copy, PartialEq, Eq, Structural)]
pub struct NoAccountTracker;

impl<const D: u8, Q: Currency<D>, U: UserOrderId> AccountTracker<D, Q, U> for NoAccountTracker {
    fn update(&mut self, market_state: &MarketState<D>) {
    }

    fn sample_user_balances(
        &mut self,
        user_balances: &Balances<D, Q::PairedCurrency>,
        mid_price: QuoteCurrency<D>,
    ) {
    }

    fn log_limit_order_submission(&mut self, limit_order: &LimitOrder<D, Q, U, NewOrder>) {
    }

    fn log_limit_order_cancellation(&mut self) {
    }

    fn log_limit_order_fill(&mut self, fully_filled: bool, fill_qty: Q) {
    }

    fn log_market_order_fill(&mut self) {
    }

    fn log_trade(&mut self, side: Side, price: QuoteCurrency<D>, quantity: Q) {
    }

    fn log_fee(&mut self, fee: Q::PairedCurrency) {
    }

    fn log_rpnl(&mut self, net_rpnl: Q::PairedCurrency, ts_ns: TimestampNs) {
    }
}

impl NoAccountTracker {
    /// The text of the tracker, which is empty.
    pub fn to_string(&self) -> (r: String)
        ensures
            r@ == Seq::<char>::empty(),
    {
        String::new()
    }
}

} // verus!
