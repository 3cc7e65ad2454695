//! The leveraged futures exchange: the account, the market it trades in and the events
//! its resting limit orders go through.

use vstd::prelude::*;

use crate::account::account_impl::Account;
use crate::account::balances::Balances;
use crate::account::position::spec_unrealized_pnl;
use crate::account::sorted_orders::{first_with_id, has_id, lemma_sum_bounds};
use crate::clearing_house::spec_fill_fee;
use crate::config::Config;
use crate::currency::{abs_of, times, Currency, MarginCurrency, Monetary, QuoteCurrency};
use crate::decimal::{
    abs, checked_mul_mantissa, in_i64, lemma_scale_pos, scale, spec_mul, trunc_div, MAX_DECIMALS,
};
use crate::market_state::{MarketState, MarketUpdate};
use crate::trades::Trade;
use crate::types::{
    CancelBy, ExchangeOrderMeta, Filled, LimitOrder, MaxNumberOfActiveOrders, NewOrder, OrderId, OrderIdNotFound, Pending, Side, TimestampNs,
    UserOrderId,
};

verus! {

/// The solvency of an account after a fill was settled and its collateral reconciled.
#[derive(Debug, Clone, Copy, PartialEq, Eq, Structural)]
pub enum Solvency {
    /// The equity covers the required collateral.
    Solvent,
    /// The equity covers the maintenance margin but not the initial margin of the position.
    InitialMarginDeficit,
    /// The position was force-closed.
    Liquidated,
    /// A loss exceeded the equity and was absorbed by the venue as bad debt.
    Bankrupt,
}

/// In `account`, `cancelled` is an order whose cancellation frees the most collateral:
/// none other leaves less required collateral behind.
pub open spec fn cancels_largest_contributor<const D: u8, Q: Currency<D>, U: UserOrderId>(
    account: Account<D, Q, U>,
    cancelled: LimitOrder<D, Q, U, Pending<Q>>,
) -> bool {
    exists|on_bids: bool, idx: int|
        #[trigger] account.frees_most_collateral(on_bids, idx) && cancelled.spec_id()
            == account.order_id_at(on_bids, idx)
}

/// `next` is `account` after one cancellation of a margin call: the margin excess of
/// `account` was negative, `cancelled` frees the most collateral, and only the resting
/// orders changed, by the cancellation of `cancelled`.
pub open spec fn margin_call_step<const D: u8, Q: Currency<D>, U: UserOrderId>(
    account: Account<D, Q, U>,
    cancelled: LimitOrder<D, Q, U, Pending<Q>>,
    next: Account<D, Q, U>,
) -> bool {
    &&& account.spec_margin_excess() < 0
    &&& cancels_largest_contributor(account, cancelled)
    &&& next.spec_active_limit_orders().limit_order_removed(
        account.spec_active_limit_orders(),
        CancelBy::OrderId(cancelled.spec_id()),
        Ok(cancelled),
    )
    &&& next.spec_position() == account.spec_position()
    &&& next.spec_balances() == account.spec_balances()
    &&& next.spec_init_margin_req() == account.spec_init_margin_req()
    &&& next.spec_maker_fee() == account.spec_maker_fee()
}

/// A margin call from `accounts[0]`: the cancellation of `cancels[k]` takes `accounts[k]`
/// to `accounts[k + 1]`, each one made while the margin excess was negative, and the call
/// ends as soon as the margin excess is not negative or no order rests.
pub open spec fn margin_call_run<const D: u8, Q: Currency<D>, U: UserOrderId>(
    accounts: Seq<Account<D, Q, U>>,
    cancels: Seq<LimitOrder<D, Q, U, Pending<Q>>>,
) -> bool {
    &&& accounts.len() == cancels.len() + 1
    &&& forall|k: int|
        0 <= k < cancels.len() ==> margin_call_step(accounts[k], #[trigger] cancels[k], accounts[k + 1])
    &&& accounts.last().spec_margin_excess() >= 0
        || accounts.last().spec_active_limit_orders().spec_num_active() == 0
}

/// A trade fills a resting order only where it crosses it: a buy order only by a sell whose
/// price is below the order's limit price, a sell order only by a buy whose price is above
/// it. Conversely a crossing trade of some size fills an order with something remaining, as
/// much as both have, and is used up exactly where it was not larger than the order.
pub proof fn trade_fills_the_orders_it_crosses<const D: u8, U: UserOrderId>(
    trade: Trade<D>,
    order: LimitOrder<D, QuoteCurrency<D>, U, Pending<QuoteCurrency<D>>>,
)
    ensures
        LimitOrderFills::<D, QuoteCurrency<D>, U>::spec_fill(&trade, order) is Some ==> {
            &&& order.spec_side() == Side::Buy ==> trade.side == Side::Sell && trade.price.raw()
                < order.spec_limit_price().raw()
            &&& order.spec_side() == Side::Sell ==> trade.side == Side::Buy && trade.price.raw()
                > order.spec_limit_price().raw()
        },
        ({
            let crosses = (order.spec_side() == Side::Buy && trade.side == Side::Sell
                && trade.price.raw() < order.spec_limit_price().raw()) || (order.spec_side()
                == Side::Sell && trade.side == Side::Buy && trade.price.raw()
                > order.spec_limit_price().raw());
            let size = abs(trade.quantity.raw());
            let remaining = order.spec_remaining_quantity().raw();
            crosses && size > 0 && remaining > 0 ==> (LimitOrderFills::<
                D,
                QuoteCurrency<D>,
                U,
            >::spec_fill(&trade, order) matches Some((filled, exhausted)) && filled == (if size
                < remaining {
                size
            } else {
                remaining
            }) && exhausted == (size <= remaining))
        }),
{
}

/// The fill of a resting limit order.
#[derive(Debug, Clone)]
pub enum LimitOrderFill<const D: u8, Q: Currency<D>, U: UserOrderId> {
    /// Part of the order was filled; the rest keeps resting.
    PartiallyFilled {
        /// The quantity of this fill.
        filled_quantity: Q,
        /// The fee of this fill.
        fee: Q::PairedCurrency,
        /// The order as it rests after the fill.
        order_after_fill: LimitOrder<D, Q, U, Pending<Q>>,
    },
    /// The rest of the order was filled.
    FullyFilled {
        /// The quantity of this fill.
        filled_quantity: Q,
        /// The fee of this fill.
        fee: Q::PairedCurrency,
        /// The order in its filled state.
        order_after_fill: LimitOrder<D, Q, U, Filled<Q>>,
    },
}

/// An event of a resting limit order.
#[derive(Debug, Clone)]
pub enum LimitOrderEvent<const D: u8, Q: Currency<D>, U: UserOrderId> {
    /// The order was filled, partially or fully.
    Fill(LimitOrderFill<D, Q, U>),
    /// The venue cancelled the order to cover the account's collateral.
    ForcedCancel(LimitOrder<D, Q, U, Pending<Q>>),
}

/// The order in its filled state where a fill filled it fully; `None` for a partial fill.
pub open spec fn fully_filled_order<const D: u8, Q: Currency<D>, U: UserOrderId>(
    fill: LimitOrderFill<D, Q, U>,
) -> Option<LimitOrder<D, Q, U, Filled<Q>>> {
    match fill {
        LimitOrderFill::FullyFilled { order_after_fill, .. } => Some(order_after_fill),
        LimitOrderFill::PartiallyFilled { .. } => None,
    }
}

/// The side of the fill that closes a position of `quantity`: a short is bought back,
/// a long is sold.
pub open spec fn closing_side(quantity: int) -> Side {
    if quantity < 0 {
        Side::Buy
    } else {
        Side::Sell
    }
}

/// The solvency of `account` after a reconciliation that started with `bad_debt_before` of
/// bad debt and force-closed the position where `liquidated`.
pub open spec fn spec_solvency<const D: u8, Q: Currency<D>, U: UserOrderId>(
    bad_debt_before: int,
    liquidated: bool,
    account: Account<D, Q, U>,
) -> Solvency {
    if account.spec_balances().spec_bad_debt() > bad_debt_before {
        Solvency::Bankrupt
    } else if liquidated {
        Solvency::Liquidated
    } else if account.spec_margin_excess() < 0 {
        Solvency::InitialMarginDeficit
    } else {
        Solvency::Solvent
    }
}

/// A market update which may fill resting limit orders, such as a trade or a candle.
pub trait LimitOrderFills<const D: u8, Q: Currency<D>, U: UserOrderId>: Sized {
    /// Whether the update may fill resting buy orders.
    spec fn spec_can_fill_bids(&self) -> bool;

    /// Whether the update may fill resting sell orders.
    spec fn spec_can_fill_asks(&self) -> bool;

    /// The quantity mantissa of `order` the update fills, if any, and whether the fill
    /// exhausts the update.
    spec fn spec_fill(&self, order: LimitOrder<D, Q, U, Pending<Q>>) -> Option<(int, bool)>;

    /// What is left of the update after it was offered `order`.
    spec fn spec_after_fill(&self, order: LimitOrder<D, Q, U, Pending<Q>>) -> Self;

    /// The time of the update at the exchange.
    spec fn spec_fill_timestamp(&self) -> TimestampNs;

    /// Whether the update may fill resting buy orders.
    fn can_fill_bids(&self) -> (r: bool)
        ensures
            r == self.spec_can_fill_bids(),
    ;

    /// Whether the update may fill resting sell orders.
    fn can_fill_asks(&self) -> (r: bool)
        ensures
            r == self.spec_can_fill_asks(),
    ;

    /// The time of the update at the exchange.
    fn fill_timestamp_ns(&self) -> (r: TimestampNs)
        ensures
            r == self.spec_fill_timestamp(),
    ;

    /// The quantity of `order` the update fills, if any, and whether the fill exhausts the
    /// update, which keeps what is left of it; a fill takes a positive quantity of at most
    /// the order's remaining quantity.
    fn limit_order_filled(&mut self, order: &LimitOrder<D, Q, U, Pending<Q>>) -> (r: Option<(Q, bool)>)
        ensures
            *final(self) == old(self).spec_after_fill(*order),
            r is None <==> old(self).spec_fill(*order) is None,
            r matches Some((quantity, exhausted)) ==> {
                &&& old(self).spec_fill(*order) == Some((quantity.raw(), exhausted))
                &&& 0 < quantity.raw() <= order.spec_remaining_quantity().raw()
            },
    ;
}

/// The quantity mantissa a trade of the signed quantity mantissa `quantity` at `price` by a
/// taker on `side` fills of `order`: a sell below the limit price of a buy order, or a buy
/// above the limit price of a sell order, fills the order up to the trade's size; the fill
/// exhausts the trade where it takes all of it.
pub open spec fn spec_trade_fill<const D: u8, U: UserOrderId>(
    price: int,
    quantity: int,
    side: Side,
    order: LimitOrder<D, QuoteCurrency<D>, U, Pending<QuoteCurrency<D>>>,
) -> Option<(int, bool)> {
    let crosses = match order.spec_side() {
        Side::Buy => side == Side::Sell && price < order.spec_limit_price().raw(),
        Side::Sell => side == Side::Buy && price > order.spec_limit_price().raw(),
    };
    let size = abs(quantity);
    let remaining = order.spec_remaining_quantity().raw();
    if crosses && size > 0 && remaining > 0 {
        let filled = if size < remaining {
            size
        } else {
            remaining
        };
        Some((filled, filled == size))
    } else {
        None
    }
}

/// A trade fills the resting orders on the other side of its taker which it crosses, up to
/// its size: what it fills is taken from its quantity.
impl<const D: u8, U: UserOrderId> LimitOrderFills<D, QuoteCurrency<D>, U> for Trade<D> {
    open spec fn spec_can_fill_bids(&self) -> bool {
        self.side == Side::Sell
    }

    open spec fn spec_can_fill_asks(&self) -> bool {
        self.side == Side::Buy
    }

    open spec fn spec_fill(
        &self,
        order: LimitOrder<D, QuoteCurrency<D>, U, Pending<QuoteCurrency<D>>>,
    ) -> Option<(int, bool)> {
        spec_trade_fill(self.price.raw(), self.quantity.raw(), self.side, order)
    }

    open spec fn spec_after_fill(
        &self,
        order: LimitOrder<D, QuoteCurrency<D>, U, Pending<QuoteCurrency<D>>>,
    ) -> Self {
        match spec_trade_fill(self.price.raw(), self.quantity.raw(), self.side, order) {
            Some((filled, _)) => Trade {
                quantity: QuoteCurrency::spec_with_mantissa(
                    (if self.quantity.raw() < 0 {
                        self.quantity.raw() + filled
                    } else {
                        self.quantity.raw() - filled
                    }) as i64,
                ),
                ..*self
            },
            None => *self,
        }
    }

    open spec fn spec_fill_timestamp(&self) -> TimestampNs {
        self.timestamp_exchange_ns
    }

    fn can_fill_bids(&self) -> (r: bool) {
        match self.side {
            Side::Sell => true,
            Side::Buy => false,
        }
    }

    fn can_fill_asks(&self) -> (r: bool) {
        match self.side {
            Side::Buy => true,
            Side::Sell => false,
        }
    }

    fn fill_timestamp_ns(&self) -> (r: TimestampNs) {
        self.timestamp_exchange_ns
    }

    fn limit_order_filled(
        &mut self,
        order: &LimitOrder<D, QuoteCurrency<D>, U, Pending<QuoteCurrency<D>>>,
    ) -> (r: Option<(QuoteCurrency<D>, bool)>) {
        let price = self.price.mantissa();
        let limit = order.limit_price().mantissa();
        let crosses = match order.side() {
            Side::Buy => match self.side {
                Side::Sell => price < limit,
                Side::Buy => false,
            },
            Side::Sell => match self.side {
                Side::Buy => price > limit,
                Side::Sell => false,
            },
        };
        let q = self.quantity.mantissa();
        let remaining = order.remaining_quantity().mantissa();
        if !crosses || q == 0 || remaining <= 0 {
            return None;
        }
        let (filled, exhausted): (i64, bool) = if q == i64::MIN {
            (remaining, false)
        } else {
            let size: i64 = if q < 0 {
                -q
            } else {
                q
            };
            if size < remaining {
                (size, true)
            } else {
                (remaining, remaining == size)
            }
        };
        let rest: i64 = if q < 0 {
            q + filled
        } else {
            q - filled
        };
        self.quantity = QuoteCurrency::from_mantissa(rest);
        proof {
            QuoteCurrency::<D>::lemma_with_mantissa(rest);
        }
        Some((QuoteCurrency::from_mantissa(filled), exhausted))
    }
}

/// A fill, or the reconciliation of the collateral after it, could not be settled: one of
/// its values left the range of an `i64`, or a liquidation found no bid or ask to close the
/// position at.
#[derive(Debug, Clone, Copy, PartialEq, Eq, Structural)]
pub struct UnsettledFill;

/// The remaining quantity of the best of `orders`, the last one; zero without orders.
pub open spec fn best_remaining<const D: u8, Q: Currency<D>, U: UserOrderId>(
    orders: Seq<LimitOrder<D, Q, U, Pending<Q>>>,
) -> int {
    if orders.len() == 0 {
        0
    } else {
        orders.last().spec_remaining_quantity().raw()
    }
}

/// How offering the best resting order of a side to a market update ended.
#[derive(Debug, Clone, Copy, PartialEq, Eq, Structural)]
pub enum FillStep {
    /// No order of the side rests.
    NoOrder,
    /// The update does not fill the best order.
    NoFill,
    /// The update filled the best order: `exhausted` where that used the update up, `stops`
    /// where the reconciliation after it liquidated or bankrupted the account.
    Filled { exhausted: bool, stops: bool },
    /// The fill, or the reconciliation after it, could not be settled.
    Unsettled,
}

/// The checks of a side go on after `step`: a fill that neither used the update up nor
/// ended in a liquidation or bankruptcy.
pub open spec fn continues(step: FillStep) -> bool {
    step == FillStep::Filled { exhausted: false, stops: false }
}

/// `step` was a fill whose reconciliation liquidated or bankrupted the account.
pub open spec fn stops(step: FillStep) -> bool {
    match step {
        FillStep::Filled { stops, .. } => stops,
        _ => false,
    }
}

/// `after` is `before` once a fill of `quantity` of `order` at `ts_ns`, reported as `fill`,
/// was settled (`filled`, with the fill event recorded) and, where the values of the
/// reconciliation fit, the collateral was reconciled (`reconciled`, reporting `solvency`)
/// and its forced cancellations joined the events; `step` reports how it ended.
pub open spec fn fill_settled<const D: u8, Q: Currency<D>, U: UserOrderId>(
    before: Exchange<D, Q, U>,
    order: LimitOrder<D, Q, U, Pending<Q>>,
    quantity: int,
    exhausted: bool,
    ts_ns: TimestampNs,
    filled: Exchange<D, Q, U>,
    fill: LimitOrderFill<D, Q, U>,
    reconciled: Exchange<D, Q, U>,
    solvency: Solvency,
    after: Exchange<D, Q, U>,
    step: FillStep,
) -> bool {
    &&& filled.limit_order_filled_from(
        before,
        order,
        quantity,
        ts_ns,
        fill,
        before.spec_limit_order_events().push(LimitOrderEvent::Fill(fill)),
    )
    &&& if filled.reconcile_in_range() {
        &&& reconciled.reconciled_from(
            filled,
            before.spec_account().spec_balances().spec_bad_debt(),
            solvency,
        )
        &&& after.drained_from(reconciled)
        &&& step == FillStep::Filled {
            exhausted,
            stops: solvency == Solvency::Liquidated || solvency == Solvency::Bankrupt,
        }
    } else {
        after == filled && step == FillStep::Unsettled
    }
}

/// `after` is `before` once a fill of `quantity` of `order` at `ts_ns` was settled as
/// `fill_settled` describes, through some intermediate states; `step` reports how it ended.
pub open spec fn fill_settles<const D: u8, Q: Currency<D>, U: UserOrderId>(
    before: Exchange<D, Q, U>,
    order: LimitOrder<D, Q, U, Pending<Q>>,
    quantity: int,
    exhausted: bool,
    ts_ns: TimestampNs,
    after: Exchange<D, Q, U>,
    step: FillStep,
) -> bool {
    exists|
        filled: Exchange<D, Q, U>,
        fill: LimitOrderFill<D, Q, U>,
        reconciled: Exchange<D, Q, U>,
        solvency: Solvency,
    |
        #[trigger] fill_settled(
            before,
            order,
            quantity,
            exhausted,
            ts_ns,
            filled,
            fill,
            reconciled,
            solvency,
            after,
            step,
        )
}


/// `after` and `next_update` are `before` and `update` once the best resting order of
/// `side` was offered to the update, which `step` reports.
pub open spec fn stepped<const D: u8, Q: Currency<D>, U: UserOrderId, M: LimitOrderFills<D, Q, U>>(
    after: Exchange<D, Q, U>,
    before: Exchange<D, Q, U>,
    update: M,
    next_update: M,
    side: Side,
    step: FillStep,
) -> bool {
    match before.best_of(side) {
        None => step == FillStep::NoOrder && after == before && next_update == update,
        Some(order) => {
            &&& next_update == update.spec_after_fill(order)
            &&& match update.spec_fill(order) {
                None => step == FillStep::NoFill && after == before,
                Some((quantity, exhausted)) => if !before.fill_in_range(order, quantity) {
                    step == FillStep::Unsettled && after == before
                } else {
                    fill_settles(before, order, quantity, exhausted, next_update.spec_fill_timestamp(), after, step)
                },
            }
        },
    }
}

/// The checks of `side`: `states[i + 1]` and `updates[i + 1]` follow `states[i]` and
/// `updates[i]` by the offer `steps[i]`; the checks go on after every offer but the last.
pub open spec fn side_run<const D: u8, Q: Currency<D>, U: UserOrderId, M: LimitOrderFills<D, Q, U>>(
    states: Seq<Exchange<D, Q, U>>,
    updates: Seq<M>,
    steps: Seq<FillStep>,
    side: Side,
) -> bool {
    &&& steps.len() >= 1
    &&& states.len() == steps.len() + 1
    &&& updates.len() == steps.len() + 1
    &&& forall|i: int| 0 <= i < steps.len() ==> stepped(
        states[i + 1],
        states[i],
        updates[i],
        updates[i + 1],
        side,
        #[trigger] steps[i],
    )
    &&& forall|i: int| 0 <= i < steps.len() - 1 ==> continues(#[trigger] steps[i])
    &&& !continues(steps.last())
}

/// The checks of the active orders of `start` against `update`, ending in `end` with `r`:
/// the events are cleared; where the update can fill buy orders their checks run
/// (`bids`, `bid_updates`, `bid_steps`), then, unless they stopped, the checks of the sell
/// orders where what is left of the update can fill them (`asks`, `ask_updates`,
/// `ask_steps`). An unsettled fill ends them with an error; a liquidation or bankruptcy is
/// recorded.
pub open spec fn fill_run<const D: u8, Q: Currency<D>, U: UserOrderId, M: LimitOrderFills<D, Q, U>>(
    start: Exchange<D, Q, U>,
    update: M,
    bids: Seq<Exchange<D, Q, U>>,
    bid_updates: Seq<M>,
    bid_steps: Seq<FillStep>,
    asks: Seq<Exchange<D, Q, U>>,
    ask_updates: Seq<M>,
    ask_steps: Seq<FillStep>,
    end: Exchange<D, Q, U>,
    r: Result<(), UnsettledFill>,
) -> bool {
    let bids_run = update.spec_can_fill_bids();
    let bid_end = bid_steps.last();
    let bids_go_on = !bids_run || bid_end == FillStep::NoOrder || bid_end == FillStep::NoFill;
    let mid_update = if bids_run {
        bid_updates.last()
    } else {
        update
    };
    let asks_run = mid_update.spec_can_fill_asks();
    let ask_end = ask_steps.last();
    &&& !update.spec_can_fill_bids() && !update.spec_can_fill_asks() ==> r is Ok && end.cleared_from(start)
    &&& update.spec_can_fill_bids() || update.spec_can_fill_asks() ==> {
        &&& bids_run ==> side_run(bids, bid_updates, bid_steps, Side::Buy) && bids[0].cleared_from(start)
            && bid_updates[0] == update
        &&& bids_run && bid_end == FillStep::Unsettled ==> end == bids.last() && r is Err
        &&& bids_run && stops(bid_end) ==> end.flagged_from(
            bids.last(),
        ) && r is Ok
        &&& bids_run && bid_end == (FillStep::Filled { exhausted: true, stops: false }) ==> end
            == bids.last() && r is Ok
        &&& bids_go_on ==> {
            &&& asks_run ==> side_run(asks, ask_updates, ask_steps, Side::Sell) && ask_updates[0]
                == mid_update && (if bids_run {
                asks[0] == bids.last()
            } else {
                asks[0].cleared_from(start)
            })
            &&& asks_run && ask_end == FillStep::Unsettled ==> end == asks.last() && r is Err
            &&& asks_run && stops(ask_end) ==> end.flagged_from(
                asks.last(),
            ) && r is Ok
            &&& asks_run && ask_end != FillStep::Unsettled && !stops(ask_end) ==> end == asks.last()
                && r is Ok
            &&& !asks_run ==> r is Ok && (if bids_run {
                end == bids.last()
            } else {
                end.cleared_from(start)
            })
        }
    }
}

/// The errors of an update of the exchange with new market information.
#[derive(Debug, Clone, Copy, PartialEq, Eq, Structural)]
pub enum RiskError {
    /// The position was force-closed: the market crossed its liquidation price, or a fill of
    /// the update left its equity below its maintenance margin.
    Liquidate,
    /// A liquidation or fill that the update called for could not be settled, as a value of
    /// it does not fit an `i64` or the market has no bid or ask to close the position at.
    UnsettledFill,
}

/// `after` is `updated` once its position was force-closed and the cancelled resting orders
/// joined the limit order events.
pub open spec fn liquidated_and_drained<const D: u8, Q: Currency<D>, U: UserOrderId>(
    updated: Exchange<D, Q, U>,
    after: Exchange<D, Q, U>,
) -> bool {
    exists|liquidated: Exchange<D, Q, U>|
        #[trigger] liquidated.liquidated_from(updated) && after.drained_from(liquidated)
}

/// `end` and `r` are the outcome of the checks of the active orders of `start` against
/// `update`, as `fill_run` describes them.
pub open spec fn orders_checked<const D: u8, Q: Currency<D>, U: UserOrderId, M: LimitOrderFills<D, Q, U>>(
    start: Exchange<D, Q, U>,
    update: M,
    end: Exchange<D, Q, U>,
    r: Result<(), UnsettledFill>,
) -> bool {
    exists|bids: Seq<Exchange<D, Q, U>>, bid_updates: Seq<M>, bid_steps: Seq<FillStep>, asks: Seq<Exchange<D, Q, U>>, ask_updates: Seq<M>, ask_steps: Seq<FillStep>|
        #[trigger] fill_run(start, update, bids, bid_updates, bid_steps, asks, ask_updates, ask_steps, end, r)
}

/// The outcome `after` and `r` of an update once the market state of `updated` took it:
/// where the price-based maintenance check cannot be computed, the update is refused; a
/// position whose liquidation price the market crossed is force-closed at the new prices,
/// where that can be settled; otherwise the active orders are checked against the update,
/// and a liquidation during their fills is reported as such.
pub open spec fn update_settled<const D: u8, Q: Currency<D>, U: UserOrderId, M: LimitOrderFills<D, Q, U>>(
    updated: Exchange<D, Q, U>,
    update: M,
    after: Exchange<D, Q, U>,
    r: Result<(), RiskError>,
) -> bool {
    if !updated.maintenance_in_range() {
        r == Err::<(), RiskError>(RiskError::UnsettledFill) && after == updated
    } else if updated.crossed_liquidation_price() {
        if updated.spec_market_state().spec_bid() > 0 && updated.spec_market_state().spec_ask() > 0
            && updated.liquidation_in_range() {
            r == Err::<(), RiskError>(RiskError::Liquidate) && liquidated_and_drained(updated, after)
        } else {
            r == Err::<(), RiskError>(RiskError::UnsettledFill) && after == updated
        }
    } else {
        ||| orders_checked(updated, update, after, Err(UnsettledFill))
            && r == Err::<(), RiskError>(RiskError::UnsettledFill)
        ||| orders_checked(updated, update, after, Ok(())) && r == (if after.spec_liquidated_during_fills() {
            Err::<(), RiskError>(RiskError::Liquidate)
        } else {
            Ok(())
        })
    }
}

/// The result of a settled market order: the filled order together with every side effect
/// of settling it.
#[derive(Debug, Clone)]
pub struct MarketOrderSettlement<const D: u8, Q: Currency<D>, U: UserOrderId> {
    /// The id the exchange gave the order.
    pub order_id: OrderId,
    /// The side of the order.
    pub side: Side,
    /// The filled quantity.
    pub quantity: Q,
    /// The price at which the order was filled.
    pub fill_price: QuoteCurrency<D>,
    /// The time of the fill at the exchange.
    pub ts_ns_executed: TimestampNs,
    /// The resting limit orders the venue force-cancelled to keep the account's required
    /// collateral covered after this fill (margin call).
    pub forced_cancels: Vec<LimitOrder<D, Q, U, Pending<Q>>>,
    /// The solvency of the account after settlement and collateral reconciliation.
    pub solvency: Solvency,
}

/// `after` is `before` once a market fill of `quantity` at `price` on `side` was settled:
/// `filled` after the fill and, where the values of the reconciliation fit, `reconciled`
/// after it, whose forced cancellations `r` hands out with the solvency; otherwise the fill
/// stays and `r` is an error.
pub open spec fn market_settled<const D: u8, Q: Currency<D>, U: UserOrderId>(
    before: Exchange<D, Q, U>,
    side: Side,
    quantity: int,
    price: int,
    filled: Exchange<D, Q, U>,
    reconciled: Exchange<D, Q, U>,
    after: Exchange<D, Q, U>,
    r: Result<(Vec<LimitOrder<D, Q, U, Pending<Q>>>, Solvency), UnsettledFill>,
) -> bool {
    &&& filled.market_filled_from(before, side, quantity, price)
    &&& if filled.reconcile_in_range() {
        &&& r matches Ok((cancelled, solvency)) && reconciled.reconciled_from(
            filled,
            before.spec_account().spec_balances().spec_bad_debt(),
            solvency,
        ) && cancelled@ == reconciled.spec_forced_cancels()
        &&& after.cancels_taken_from(reconciled)
    } else {
        after == filled && r is Err
    }
}

/// `after` is `before` once a market fill was settled as `market_settled` describes, through
/// some intermediate states.
pub open spec fn market_settles<const D: u8, Q: Currency<D>, U: UserOrderId>(
    before: Exchange<D, Q, U>,
    side: Side,
    quantity: int,
    price: int,
    after: Exchange<D, Q, U>,
    r: Result<(Vec<LimitOrder<D, Q, U, Pending<Q>>>, Solvency), UnsettledFill>,
) -> bool {
    exists|filled: Exchange<D, Q, U>, reconciled: Exchange<D, Q, U>|
        #[trigger] market_settled(before, side, quantity, price, filled, reconciled, after, r)
}

/// `after` is `before` once a market order of `quantity` on `side` was submitted: it was
/// settled at the market price into `settled` with the outcome `outcome`; a settled order
/// takes the next order id and is reported with its fill, an unsettled one is an error.
pub open spec fn market_order_submitted<const D: u8, Q: Currency<D>, U: UserOrderId>(
    before: Exchange<D, Q, U>,
    side: Side,
    quantity: Q,
    settled: Exchange<D, Q, U>,
    outcome: Result<(Vec<LimitOrder<D, Q, U, Pending<Q>>>, Solvency), UnsettledFill>,
    after: Exchange<D, Q, U>,
    r: Result<MarketOrderSettlement<D, Q, U>, UnsettledFill>,
) -> bool {
    let price = before.spec_market_price(side);
    &&& market_settles(before, side, quantity.raw(), price, settled, outcome)
    &&& outcome is Err ==> r is Err && after == settled
    &&& outcome matches Ok((cancelled, solvency)) ==> {
        &&& after.spec_next_order_id().0 == before.spec_next_order_id().0 + 1
        &&& after.spec_account() == settled.spec_account()
        &&& after.spec_config() == settled.spec_config()
        &&& after.spec_market_state() == settled.spec_market_state()
        &&& after.spec_limit_order_events() == settled.spec_limit_order_events()
        &&& after.spec_forced_cancels() == settled.spec_forced_cancels()
        &&& after.spec_liquidated_during_fills() == settled.spec_liquidated_during_fills()
        &&& r matches Ok(settlement) && settlement.order_id == before.spec_next_order_id()
            && settlement.side == side && settlement.quantity == quantity
            && settlement.fill_price.raw() == price
            && settlement.ts_ns_executed == before.spec_market_state().spec_current_ts_ns()
            && settlement.forced_cancels@ == cancelled@ && settlement.solvency == solvency
    }
}

/// Why a limit order was not accepted.
#[derive(Debug, Clone, Copy, PartialEq, Eq)]
pub enum SubmitLimitOrderError<const D: u8> {
    /// The order would have crossed the market: a good-till-crossing order only rests.
    GoodTillCrossingRejectedOrder {
        /// The limit price of the order.
        limit_price: QuoteCurrency<D>,
        /// The best price on the other side of the market.
        away_market_quotation_price: QuoteCurrency<D>,
    },
    /// The book of the order's side is full.
    MaxNumberOfActiveOrders(MaxNumberOfActiveOrders),
    /// The notional value of the resting orders of the order's side would leave the range
    /// of an `i64`.
    NotionalOutOfRange,
}

/// Why an amendment of a limit order was not accepted.
#[derive(Debug, Clone, Copy, PartialEq, Eq)]
pub enum AmendLimitOrderError<const D: u8> {
    /// The order was accepted once but rests no longer: it was filled or cancelled.
    OrderNoLongerActive,
    /// No order with this id was ever accepted.
    OrderIdNotFound {
        /// The id of the order to amend.
        order_id: OrderId,
    },
    /// The new quantity does not exceed what of the order is already filled; the order was
    /// cancelled.
    AmendQtyAlreadyFilled,
    /// The remaining quantity of the amended order does not fit an `i64`.
    QuantityOutOfRange,
    /// The amended order was not accepted.
    SubmitLimitOrder(SubmitLimitOrderError<D>),
}

/// `after` and `r` follow from `before` once the resting order `order_id` was cancelled
/// (`cancelled`) and `replacement`, which is `new_order` with `leaves` as its quantity, was
/// submitted in its place with the result `submitted`.
pub open spec fn replaced_with<const D: u8, Q: Currency<D>, U: UserOrderId>(
    before: Exchange<D, Q, U>,
    order_id: OrderId,
    new_order: LimitOrder<D, Q, U, NewOrder>,
    leaves: int,
    cancelled: Exchange<D, Q, U>,
    replacement: LimitOrder<D, Q, U, NewOrder>,
    submitted: Result<LimitOrder<D, Q, U, Pending<Q>>, SubmitLimitOrderError<D>>,
    after: Exchange<D, Q, U>,
    r: Result<LimitOrder<D, Q, U, Pending<Q>>, AmendLimitOrderError<D>>,
) -> bool {
    &&& cancelled.cancelled_by_id(before, order_id)
    &&& replacement.spec_side() == new_order.spec_side()
    &&& replacement.spec_limit_price() == new_order.spec_limit_price()
    &&& replacement.spec_user_order_id() == new_order.spec_user_order_id()
    &&& replacement.spec_remaining_quantity().raw() == leaves
    &&& after.limit_order_submitted(cancelled, replacement, submitted)
    &&& r == match submitted {
        Ok(p) => Ok(p),
        Err(e) => Err(AmendLimitOrderError::SubmitLimitOrder(e)),
    }
}

/// `after` and `r` follow from `before` once the resting order `order_id` was replaced by
/// `new_order` with `leaves` as its quantity, as `replaced_with` describes.
pub open spec fn replaced<const D: u8, Q: Currency<D>, U: UserOrderId>(
    before: Exchange<D, Q, U>,
    order_id: OrderId,
    new_order: LimitOrder<D, Q, U, NewOrder>,
    leaves: int,
    after: Exchange<D, Q, U>,
    r: Result<LimitOrder<D, Q, U, Pending<Q>>, AmendLimitOrderError<D>>,
) -> bool {
    exists|
        cancelled: Exchange<D, Q, U>,
        replacement: LimitOrder<D, Q, U, NewOrder>,
        submitted: Result<LimitOrder<D, Q, U, Pending<Q>>, SubmitLimitOrderError<D>>,
    |
        #[trigger] replaced_with(
            before,
            order_id,
            new_order,
            leaves,
            cancelled,
            replacement,
            submitted,
            after,
            r,
        )
}

/// The amendment of the resting order `existing` of `before` to `new_order`: the new
/// remaining quantity is the new quantity less what of `existing` is already filled; where
/// nothing remains the order is cancelled, otherwise it is replaced by `new_order` with that
/// remaining quantity, which takes a new order id.
pub open spec fn amended_at<const D: u8, Q: Currency<D>, U: UserOrderId>(
    before: Exchange<D, Q, U>,
    existing: LimitOrder<D, Q, U, Pending<Q>>,
    new_order: LimitOrder<D, Q, U, NewOrder>,
    after: Exchange<D, Q, U>,
    r: Result<LimitOrder<D, Q, U, Pending<Q>>, AmendLimitOrderError<D>>,
) -> bool {
    let leaves = new_order.spec_remaining_quantity().raw() - existing.spec_filled_quantity().raw();
    if !in_i64(leaves) {
        after == before && r == Err::<LimitOrder<D, Q, U, Pending<Q>>, AmendLimitOrderError<D>>(
            AmendLimitOrderError::QuantityOutOfRange,
        )
    } else if leaves <= 0 {
        &&& r == Err::<LimitOrder<D, Q, U, Pending<Q>>, AmendLimitOrderError<D>>(
            AmendLimitOrderError::AmendQtyAlreadyFilled,
        )
        &&& after.cancelled_by_id(before, existing.spec_id())
    } else {
        replaced(before, existing.spec_id(), new_order, leaves, after, r)
    }
}

/// `after` and `r` follow from `before` by the amendment of the first resting order with id
/// `order_id` in the book of `new_order`'s side, as `amended_at` describes.
pub open spec fn amended_existing<const D: u8, Q: Currency<D>, U: UserOrderId>(
    before: Exchange<D, Q, U>,
    order_id: OrderId,
    new_order: LimitOrder<D, Q, U, NewOrder>,
    after: Exchange<D, Q, U>,
    r: Result<LimitOrder<D, Q, U, Pending<Q>>, AmendLimitOrderError<D>>,
) -> bool {
    let book = before.book_of(new_order.spec_side());
    exists|idx: int|
        #[trigger] first_with_id(book, order_id, idx) && amended_at(before, book[idx], new_order, after, r)
}

/// The main leveraged futures exchange for simulated trading.
///
/// Generics:
/// - `D`: The constant decimal precision of the currencies.
/// - `Q`: Either `BaseCurrency` or `QuoteCurrency` depending on the futures type.
/// - `U`: The type of user order id to use. Set to `NoUserOrderId` if you don't need one.
#[derive(Debug, Clone)]
pub struct Exchange<const D: u8, Q: Currency<D>, U: UserOrderId> {
    /// The exchange configuration.
    config: Config<D, Q::PairedCurrency>,
    /// The current state of the simulated market.
    market_state: MarketState<D>,
    /// The id the next accepted order gets.
    next_order_id: OrderId,
    /// The account contains the position and balance.
    account: Account<D, Q, U>,
    /// The limit order events (fills and forced cancellations), in occurrence order.
    limit_order_events: Vec<LimitOrderEvent<D, Q, U>>,
    /// The resting orders force-cancelled by the venue, not yet routed into the events.
    forced_cancel_scratch: Vec<LimitOrder<D, Q, U, Pending<Q>>>,
    /// Whether a fill-triggered reconciliation liquidated or bankrupted the account during
    /// the latest check of the active orders.
    liquidated_during_fills: bool,
}

impl<const D: u8, Q: Currency<D>, U: UserOrderId> Exchange<D, Q, U> {
    pub closed spec fn spec_config(self) -> Config<D, Q::PairedCurrency> {
        self.config
    }

    pub closed spec fn spec_market_state(self) -> MarketState<D> {
        self.market_state
    }

    pub closed spec fn spec_next_order_id(self) -> OrderId {
        self.next_order_id
    }

    pub closed spec fn spec_account(self) -> Account<D, Q, U> {
        self.account
    }

    pub closed spec fn spec_limit_order_events(self) -> Seq<LimitOrderEvent<D, Q, U>> {
        self.limit_order_events@
    }

    pub closed spec fn spec_forced_cancels(self) -> Seq<LimitOrder<D, Q, U, Pending<Q>>> {
        self.forced_cancel_scratch@
    }

    pub closed spec fn spec_liquidated_during_fills(self) -> bool {
        self.liquidated_during_fills
    }

    /// The account is well formed and its equity is not negative.
    pub open spec fn wf(self) -> bool {
        &&& D <= MAX_DECIMALS
        &&& self.spec_account().wf()
        &&& self.spec_account().spec_balances().spec_equity() >= 0
    }

    /// The fee a fill of `quantity` at `price` pays at the maker fee rate.
    pub open spec fn spec_maker_fee(self, quantity: int, price: int) -> int {
        spec_fill_fee::<D, Q>(
            quantity,
            price,
            self.spec_config().spec_contract_spec().spec_fee_maker(),
        )
    }

    /// The fee a fill of `quantity` at `price` pays at the taker fee rate.
    pub open spec fn spec_taker_fee(self, quantity: int, price: int) -> int {
        spec_fill_fee::<D, Q>(
            quantity,
            price,
            self.spec_config().spec_contract_spec().spec_fee_taker(),
        )
    }

    /// The price at which a liquidation closes the position: the ask buys back a short,
    /// the bid sells a long.
    pub open spec fn spec_liquidation_price(self) -> int {
        if self.spec_account().spec_position().spec_quantity() < 0 {
            self.spec_market_state().spec_ask()
        } else {
            self.spec_market_state().spec_bid()
        }
    }

    /// The taker fee of the fill that closes the position.
    pub open spec fn spec_liquidation_fee(self) -> int {
        spec_fill_fee::<D, Q>(
            abs(self.spec_account().spec_position().spec_quantity()),
            self.spec_liquidation_price(),
            self.spec_config().spec_contract_spec().spec_fee_taker(),
        )
    }

    /// The maintenance margin of the position.
    pub open spec fn spec_maintenance_margin(self) -> int {
        spec_mul(
            D,
            self.spec_account().spec_position().spec_notional(),
            self.spec_config().spec_contract_spec().spec_maintenance_margin(),
        )
    }

    /// The position is open and the equity no longer covers its maintenance margin.
    pub open spec fn needs_liquidation(self) -> bool {
        &&& self.spec_account().spec_position().spec_quantity() != 0
        &&& self.spec_account().spec_balances().spec_equity() < self.spec_maintenance_margin()
    }

    /// Whether every value of the fill that closes the position fits an `i64`.
    pub open spec fn liquidation_in_range(self) -> bool {
        let quantity = self.spec_account().spec_position().spec_quantity();
        let price = self.spec_liquidation_price();
        &&& quantity != i64::MIN
        &&& in_i64(<Q::PairedCurrency as MarginCurrency<D>>::spec_convert_from(abs(quantity), price))
        &&& in_i64(self.spec_liquidation_fee())
        &&& self.spec_account().change_position_in_range(
            abs(quantity),
            price,
            closing_side(quantity),
            self.spec_liquidation_fee(),
        )
    }

    /// Whether every value of a fill of `filled_quantity` of `order` fits an `i64`.
    pub open spec fn fill_in_range(
        self,
        order: LimitOrder<D, Q, U, Pending<Q>>,
        filled_quantity: int,
    ) -> bool {
        let price = order.spec_limit_price().raw();
        &&& in_i64(order.spec_filled_quantity().raw() + filled_quantity)
        &&& in_i64(<Q::PairedCurrency as MarginCurrency<D>>::spec_convert_from(filled_quantity, price))
        &&& in_i64(self.spec_maker_fee(filled_quantity, price))
        &&& self.spec_account().change_position_in_range(
            filled_quantity,
            price,
            order.spec_side(),
            self.spec_maker_fee(filled_quantity, price),
        )
    }

    /// `order` is the best resting order of its side.
    pub open spec fn is_best(self, order: LimitOrder<D, Q, U, Pending<Q>>) -> bool {
        let books = self.spec_account().spec_active_limit_orders();
        match order.spec_side() {
            Side::Buy => books.spec_bids().spec_orders().len() > 0
                && order == books.spec_bids().spec_orders().last(),
            Side::Sell => books.spec_asks().spec_orders().len() > 0
                && order == books.spec_asks().spec_orders().last(),
        }
    }


    /// The best resting order of `side`: the last of its book, if any.
    pub open spec fn best_of(self, side: Side) -> Option<LimitOrder<D, Q, U, Pending<Q>>> {
        let orders = match side {
            Side::Buy => self.spec_account().spec_active_limit_orders().spec_bids().spec_orders(),
            Side::Sell => self.spec_account().spec_active_limit_orders().spec_asks().spec_orders(),
        };
        if orders.len() == 0 {
            None
        } else {
            Some(orders.last())
        }
    }

    /// `self` is `before` after a fill of `quantity` of `order`, its best order, at `ts_ns`
    /// that `fill` reports, where the limit order events became `events`: the account
    /// changed its position and paid the maker fee, and the order left the book where the
    /// fill exhausted it.
    pub open spec fn limit_order_filled_from(
        self,
        before: Self,
        order: LimitOrder<D, Q, U, Pending<Q>>,
        quantity: int,
        ts_ns: TimestampNs,
        fill: LimitOrderFill<D, Q, U>,
        events: Seq<LimitOrderEvent<D, Q, U>>,
    ) -> bool {
        let price = order.spec_limit_price().raw();
        let fee = before.spec_maker_fee(quantity, price);
        let books = self.spec_account().spec_active_limit_orders();
        let old_books = before.spec_account().spec_active_limit_orders();
        &&& self.wf()
        &&& self.spec_account().position_changed(before.spec_account(), quantity, price, order.spec_side(), fee)
        &&& order.spec_side() == Side::Buy ==> books.spec_bids().filled_best(
            old_books.spec_bids(),
            quantity,
            ts_ns,
            fully_filled_order(fill),
        ) && books.spec_asks() == old_books.spec_asks()
        &&& order.spec_side() == Side::Sell ==> books.spec_asks().filled_best(
            old_books.spec_asks(),
            quantity,
            ts_ns,
            fully_filled_order(fill),
        ) && books.spec_bids() == old_books.spec_bids()
        &&& fill is FullyFilled <==> quantity == order.spec_remaining_quantity().raw()
        &&& fill matches LimitOrderFill::FullyFilled { filled_quantity: q, fee: f, .. } ==> q.raw()
            == quantity && f.raw() == fee
        &&& fill matches LimitOrderFill::PartiallyFilled { filled_quantity: q, fee: f, order_after_fill }
            ==> {
            &&& q.raw() == quantity
            &&& f.raw() == fee
            &&& order.spec_side() == Side::Buy ==> order_after_fill == books.spec_bids().spec_orders().last()
            &&& order.spec_side() == Side::Sell ==> order_after_fill == books.spec_asks().spec_orders().last()
        }
        &&& self.spec_config() == before.spec_config()
        &&& self.spec_market_state() == before.spec_market_state()
        &&& self.spec_next_order_id() == before.spec_next_order_id()
        &&& self.spec_liquidated_during_fills() == before.spec_liquidated_during_fills()
        &&& self.spec_limit_order_events() == events
        &&& self.spec_forced_cancels() == before.spec_forced_cancels()
    }

    /// `self` is `before` after the margin call `accounts`, `cancels` of a reconciliation:
    /// without a liquidation it starts from the account of `before` and its cancellations
    /// join the forced cancels; after a liquidation no order rests and it cancels nothing.
    pub open spec fn margin_called(
        self,
        before: Self,
        accounts: Seq<Account<D, Q, U>>,
        cancels: Seq<LimitOrder<D, Q, U, Pending<Q>>>,
    ) -> bool {
        &&& margin_call_run(accounts, cancels)
        &&& accounts.last() == self.spec_account()
        &&& before.needs_liquidation() ==> cancels.len() == 0
        &&& !before.needs_liquidation() ==> accounts[0] == before.spec_account()
            && self.spec_forced_cancels() == before.spec_forced_cancels() + cancels
    }

    /// `self` is `before` after a reconciliation of the collateral, starting from
    /// `bad_debt_before` of bad debt, that reported `r`.
    pub open spec fn reconciled_from(self, before: Self, bad_debt_before: int, r: Solvency) -> bool {
        &&& self.wf()
        &&& exists|accounts: Seq<Account<D, Q, U>>, cancels: Seq<LimitOrder<D, Q, U, Pending<Q>>>|
            #[trigger] self.margin_called(before, accounts, cancels)
        &&& self.spec_account().collateral_in_range()
        &&& before.needs_liquidation() ==> {
            &&& self.spec_account().position_changed(
                before.spec_account(),
                abs(before.spec_account().spec_position().spec_quantity()),
                before.spec_liquidation_price(),
                closing_side(before.spec_account().spec_position().spec_quantity()),
                before.spec_liquidation_fee(),
            )
            &&& self.spec_account().spec_position().spec_quantity() == 0
            &&& self.spec_account().spec_active_limit_orders().spec_num_active() == 0
        }
        &&& !before.needs_liquidation() ==> {
            &&& self.spec_account().spec_position() == before.spec_account().spec_position()
            &&& self.spec_account().spec_balances() == before.spec_account().spec_balances()
            &&& self.spec_account().spec_init_margin_req() == before.spec_account().spec_init_margin_req()
            &&& self.spec_account().spec_maker_fee() == before.spec_account().spec_maker_fee()
        }
        &&& self.spec_account().spec_margin_excess() >= 0
            || self.spec_account().spec_active_limit_orders().spec_num_active() == 0
        &&& self.spec_forced_cancels().len()
            + self.spec_account().spec_active_limit_orders().spec_num_active()
            == before.spec_forced_cancels().len()
            + before.spec_account().spec_active_limit_orders().spec_num_active()
        &&& self.spec_forced_cancels().subrange(0, before.spec_forced_cancels().len() as int)
            == before.spec_forced_cancels()
        &&& r == spec_solvency(bad_debt_before, before.needs_liquidation(), self.spec_account())
        &&& self.spec_account().spec_active_limit_orders().spec_bids().spec_orders().len()
            <= before.spec_account().spec_active_limit_orders().spec_bids().spec_orders().len()
        &&& self.spec_account().spec_active_limit_orders().spec_asks().spec_orders().len()
            <= before.spec_account().spec_active_limit_orders().spec_asks().spec_orders().len()
        &&& self.spec_account().spec_active_limit_orders().spec_bids().spec_orders().len()
            == before.spec_account().spec_active_limit_orders().spec_bids().spec_orders().len()
            ==> self.spec_account().spec_active_limit_orders().spec_bids().spec_orders()
            == before.spec_account().spec_active_limit_orders().spec_bids().spec_orders()
        &&& self.spec_account().spec_active_limit_orders().spec_asks().spec_orders().len()
            == before.spec_account().spec_active_limit_orders().spec_asks().spec_orders().len()
            ==> self.spec_account().spec_active_limit_orders().spec_asks().spec_orders()
            == before.spec_account().spec_active_limit_orders().spec_asks().spec_orders()
        &&& self.spec_config() == before.spec_config()
        &&& self.spec_market_state() == before.spec_market_state()
        &&& self.spec_next_order_id() == before.spec_next_order_id()
        &&& self.spec_liquidated_during_fills() == before.spec_liquidated_during_fills()
        &&& self.spec_limit_order_events() == before.spec_limit_order_events()
    }

    /// `self` is `before` after its forced cancellations were routed into the limit order
    /// events, in their order.
    pub open spec fn drained_from(self, before: Self) -> bool {
        &&& self.spec_limit_order_events() == before.spec_limit_order_events()
            + before.spec_forced_cancels().map_values(
            |o: LimitOrder<D, Q, U, Pending<Q>>| LimitOrderEvent::ForcedCancel(o),
        )
        &&& self.spec_forced_cancels().len() == 0
        &&& self.spec_config() == before.spec_config()
        &&& self.spec_market_state() == before.spec_market_state()
        &&& self.spec_next_order_id() == before.spec_next_order_id()
        &&& self.spec_liquidated_during_fills() == before.spec_liquidated_during_fills()
        &&& self.spec_account() == before.spec_account()
    }

    /// Create a new Exchange with the desired config: the account starts neutral with the
    /// starting balance and no resting orders, in a market without prices.
    pub fn new(config: Config<D, Q::PairedCurrency>) -> (r: Self)
        requires
            D <= MAX_DECIMALS,
            config.spec_starting_wallet_balance() >= 0,
            config.spec_max_num_open_orders() > 0,
            0 < config.spec_contract_spec().spec_init_margin_req() <= scale(D),
        ensures
            r.wf(),
            r.spec_config() == config,
            r.spec_market_state().spec_bid() == 0,
            r.spec_market_state().spec_ask() == 0,
            r.spec_market_state().spec_last_trade_price() == 0,
            r.spec_market_state().spec_current_ts_ns() == TimestampNs(0),
            r.spec_market_state().spec_step() == 0,
            r.spec_next_order_id() == OrderId(0),
            r.spec_account().spec_balances().spec_equity() == config.spec_starting_wallet_balance(),
            r.spec_account().spec_balances().spec_total_fees_paid() == 0,
            r.spec_account().spec_balances().spec_bad_debt() == 0,
            r.spec_account().spec_position().spec_quantity() == 0,
            r.spec_account().spec_position().spec_entry_price() == 0,
            r.spec_account().spec_init_margin_req() == config.spec_contract_spec().spec_init_margin_req(),
            r.spec_account().spec_maker_fee() == config.spec_contract_spec().spec_fee_maker(),
            r.spec_account().spec_active_limit_orders().spec_num_active() == 0,
            r.spec_account().spec_active_limit_orders().spec_bids().spec_capacity()
                == config.spec_max_num_open_orders(),
            r.spec_account().spec_active_limit_orders().spec_asks().spec_capacity()
                == config.spec_max_num_open_orders(),
            r.spec_limit_order_events().len() == 0,
            r.spec_forced_cancels().len() == 0,
    {
        let balances = Balances::new(config.starting_wallet_balance());
        let max_active_orders = config.max_num_open_orders();
        let init_margin_req = config.contract_spec().init_margin_req();
        let maker_fee = config.contract_spec().fee_maker();
        let account = Account::new(balances, max_active_orders, init_margin_req, maker_fee);
        Exchange {
            config,
            market_state: MarketState::default(),
            next_order_id: OrderId(0),
            account,
            limit_order_events: Vec::new(),
            forced_cancel_scratch: Vec::new(),
            liquidated_during_fills: false,
        }
    }

    /// The exchange configuration.
    pub fn config(&self) -> (r: &Config<D, Q::PairedCurrency>)
        ensures
            *r == self.spec_config(),
    {
        &self.config
    }

    /// The current state of the simulated market.
    pub fn market_state(&self) -> (r: &MarketState<D>)
        ensures
            *r == self.spec_market_state(),
    {
        &self.market_state
    }

    /// The account of the trader.
    pub fn account(&self) -> (r: &Account<D, Q, U>)
        ensures
            *r == self.spec_account(),
    {
        &self.account
    }

    /// The limit order events, in occurrence order.
    pub fn limit_order_events(&self) -> (r: &Vec<LimitOrderEvent<D, Q, U>>)
        ensures
            r@ == self.spec_limit_order_events(),
    {
        &self.limit_order_events
    }

    /// Set the best bid and ask, which lie apart with the bid below the ask.
    pub fn set_best_bid_and_ask(&mut self, bid: QuoteCurrency<D>, ask: QuoteCurrency<D>)
        requires
            bid.raw() < ask.raw(),
        ensures
            final(self).spec_market_state().spec_bid() == bid.raw(),
            final(self).spec_market_state().spec_ask() == ask.raw(),
            final(self).spec_market_state().spec_last_trade_price() == old(
                self,
            ).spec_market_state().spec_last_trade_price(),
            final(self).spec_market_state().spec_current_ts_ns() == old(
                self,
            ).spec_market_state().spec_current_ts_ns(),
            final(self).spec_market_state().spec_step() == old(self).spec_market_state().spec_step(),
            final(self).spec_config() == old(self).spec_config(),
            final(self).spec_account() == old(self).spec_account(),
            final(self).spec_next_order_id() == old(self).spec_next_order_id(),
            final(self).spec_liquidated_during_fills() == old(self).spec_liquidated_during_fills(),
            final(self).spec_limit_order_events() == old(self).spec_limit_order_events(),
            final(self).spec_forced_cancels() == old(self).spec_forced_cancels(),
    {
        self.market_state.set_bid(bid);
        self.market_state.set_ask(ask);
    }

    /// Fill `filled_quantity` of `order`, the best resting order of its side, at its limit
    /// price: the account changes its position, pays the maker fee and the order leaves the
    /// book where the fill exhausts it.
    pub fn fill_limit_order(
        &mut self,
        order: LimitOrder<D, Q, U, Pending<Q>>,
        filled_quantity: Q,
        ts_ns: TimestampNs,
    ) -> (r: LimitOrderFill<D, Q, U>)
        requires
            old(self).wf(),
            old(self).is_best(order),
            0 < filled_quantity.raw() <= order.spec_remaining_quantity().raw(),
            old(self).fill_in_range(order, filled_quantity.raw()),
        ensures
            final(self).limit_order_filled_from(
                *old(self),
                order,
                filled_quantity.raw(),
                ts_ns,
                r,
                old(self).spec_limit_order_events(),
            ),
            r matches LimitOrderFill::FullyFilled { filled_quantity: q, .. } ==> q == filled_quantity,
            r matches LimitOrderFill::PartiallyFilled { filled_quantity: q, .. } ==> q == filled_quantity,
    {
        let side = order.side();
        let limit_price = order.limit_price();
        proof {
            let books = self.account.spec_active_limit_orders();
            if side == Side::Buy {
                books.spec_bids().lemma_wf();
                assert(books.spec_bids().spec_orders()[books.spec_bids().spec_orders().len() - 1]
                    == order);
            } else {
                books.spec_asks().lemma_wf();
                assert(books.spec_asks().spec_orders()[books.spec_asks().spec_orders().len() - 1]
                    == order);
            }
        }
        let notional = Q::PairedCurrency::convert_from(filled_quantity.mantissa(), limit_price);
        let fee = times(notional, self.config.contract_spec().fee_maker());
        let filled = self.account.fill_best(side, filled_quantity, limit_price, fee, ts_ns);
        match filled {
            Some(order_after_fill) => LimitOrderFill::FullyFilled {
                filled_quantity,
                fee,
                order_after_fill,
            },
            None => {
                let rest = match side {
                    Side::Buy => self.account.active_limit_orders().best_bid(),
                    Side::Sell => self.account.active_limit_orders().best_ask(),
                };
                LimitOrderFill::PartiallyFilled {
                    filled_quantity,
                    fee,
                    order_after_fill: rest.unwrap().clone(),
                }
            },
        }
    }

    /// Cancel an active limit order; an unknown identifier is refused and changes nothing.
    pub fn cancel_limit_order(&mut self, cancel_by: CancelBy<U>) -> (r: Result<
        LimitOrder<D, Q, U, Pending<Q>>,
        OrderIdNotFound<U>,
    >)
        requires
            old(self).wf(),
        ensures
            final(self).wf(),
            final(self).spec_account().spec_position() == old(self).spec_account().spec_position(),
            final(self).spec_account().spec_balances() == old(self).spec_account().spec_balances(),
            final(self).spec_account().spec_init_margin_req() == old(self).spec_account().spec_init_margin_req(),
            final(self).spec_account().spec_maker_fee() == old(self).spec_account().spec_maker_fee(),
            final(self).spec_account().spec_active_limit_orders().limit_order_removed(
                old(self).spec_account().spec_active_limit_orders(),
                cancel_by,
                r,
            ),
            r is Err ==> *final(self) == *old(self),
            final(self).spec_config() == old(self).spec_config(),
            final(self).spec_market_state() == old(self).spec_market_state(),
            final(self).spec_next_order_id() == old(self).spec_next_order_id(),
            final(self).spec_liquidated_during_fills() == old(self).spec_liquidated_during_fills(),
            final(self).spec_limit_order_events() == old(self).spec_limit_order_events(),
            final(self).spec_forced_cancels() == old(self).spec_forced_cancels(),
    {
        self.account.cancel_limit_order(cancel_by)
    }

    /// Force-close the position like a venue's liquidation engine: every resting limit order
    /// of the account is cancelled first and kept for the forced-cancel events, then the
    /// position is closed by a fill at the ask (a short) or the bid (a long) which pays the
    /// taker fee. A realized loss beyond the equity becomes bad debt.
    pub fn force_liquidate(&mut self)
        requires
            old(self).wf(),
            old(self).spec_account().spec_position().spec_quantity() != 0,
            old(self).spec_market_state().spec_bid() > 0,
            old(self).spec_market_state().spec_ask() > 0,
            old(self).liquidation_in_range(),
        ensures
            final(self).wf(),
            final(self).spec_account().position_changed(
                old(self).spec_account(),
                abs(old(self).spec_account().spec_position().spec_quantity()),
                old(self).spec_liquidation_price(),
                closing_side(old(self).spec_account().spec_position().spec_quantity()),
                old(self).spec_liquidation_fee(),
            ),
            final(self).spec_account().spec_position().spec_quantity() == 0,
            final(self).spec_account().spec_active_limit_orders().spec_num_active() == 0,
            final(self).spec_forced_cancels().len() == old(self).spec_forced_cancels().len()
                + old(self).spec_account().spec_active_limit_orders().spec_num_active(),
            final(self).spec_forced_cancels().subrange(0, old(self).spec_forced_cancels().len() as int)
                == old(self).spec_forced_cancels(),
            final(self).spec_config() == old(self).spec_config(),
            final(self).spec_market_state() == old(self).spec_market_state(),
            final(self).spec_next_order_id() == old(self).spec_next_order_id(),
            final(self).spec_liquidated_during_fills() == old(self).spec_liquidated_during_fills(),
            final(self).spec_limit_order_events() == old(self).spec_limit_order_events(),
    {
        let ghost before = *self;
        while self.account.active_limit_orders().num_active() > 0
            invariant
                self.account.wf(),
                self.account.spec_position() == before.account.spec_position(),
                self.account.spec_balances() == before.account.spec_balances(),
                self.account.spec_init_margin_req() == before.account.spec_init_margin_req(),
                self.account.spec_maker_fee() == before.account.spec_maker_fee(),
                self.config == before.config,
                self.market_state == before.market_state,
                self.next_order_id == before.next_order_id,
                self.liquidated_during_fills == before.liquidated_during_fills,
                self.limit_order_events@ == before.limit_order_events@,
                self.forced_cancel_scratch@.len()
                    + self.account.spec_active_limit_orders().spec_num_active()
                    == before.forced_cancel_scratch@.len()
                    + before.account.spec_active_limit_orders().spec_num_active(),
                self.forced_cancel_scratch@.len() >= before.forced_cancel_scratch@.len(),
                self.forced_cancel_scratch@.subrange(0, before.forced_cancel_scratch@.len() as int)
                    == before.forced_cancel_scratch@,
            decreases self.account.spec_active_limit_orders().spec_num_active(),
        {
            let ghost books = self.account.spec_active_limit_orders();
            let id = match self.account.active_limit_orders().best_bid() {
                Some(order) => order.id(),
                None => self.account.active_limit_orders().best_ask().unwrap().id(),
            };
            proof {
                let bids = books.spec_bids().spec_orders();
                let asks = books.spec_asks().spec_orders();
                if bids.len() > 0 {
                    assert(bids[bids.len() - 1].spec_id() == id);
                } else {
                    assert(asks[asks.len() - 1].spec_id() == id);
                }
            }
            let cancelled = self.account.cancel_limit_order(CancelBy::OrderId(id));
            proof {
                let after = self.account.spec_active_limit_orders();
                if has_id(books.spec_bids().spec_orders(), id) {
                    let idx = choose|idx: int|
                        {
                            &&& first_with_id(books.spec_bids().spec_orders(), id, idx)
                            &&& cancelled.ok()->0 == books.spec_bids().spec_orders()[idx]
                            &&& after.spec_bids().spec_orders() == books.spec_bids().spec_orders().remove(idx)
                        };
                    assert(after.spec_bids().spec_orders().len() == books.spec_bids().spec_orders().len() - 1);
                } else {
                    let idx = choose|idx: int|
                        {
                            &&& first_with_id(books.spec_asks().spec_orders(), id, idx)
                            &&& cancelled.ok()->0 == books.spec_asks().spec_orders()[idx]
                            &&& after.spec_asks().spec_orders() == books.spec_asks().spec_orders().remove(idx)
                        };
                    assert(after.spec_asks().spec_orders().len() == books.spec_asks().spec_orders().len() - 1);
                }
            }
            let ghost prev = self.forced_cancel_scratch@;
            match cancelled {
                Ok(order) => {
                    self.forced_cancel_scratch.push(order);
                },
                Err(_) => {},
            }
            proof {
                let len = before.forced_cancel_scratch@.len() as int;
                assert(self.forced_cancel_scratch@.subrange(0, len) =~= prev.subrange(0, len));
            }
        }
        let position_qty = self.account.position().quantity();
        let (side, fill_price) = if position_qty.mantissa() < 0 {
            (Side::Buy, self.market_state.ask())
        } else {
            (Side::Sell, self.market_state.bid())
        };
        let quantity = abs_of(position_qty);
        let notional = Q::PairedCurrency::convert_from(quantity.mantissa(), fill_price);
        let fee = times(notional, self.config.contract_spec().fee_taker());
        self.account.change_position(quantity, fill_price, side, fee);
    }

    /// Route the forced cancellations into the limit order events, in their order.
    pub fn drain_forced_cancels_into_events(&mut self)
        ensures
            final(self).drained_from(*old(self)),
    {
        let ghost events = self.limit_order_events@;
        let ghost before = *self;
        let n = self.forced_cancel_scratch.len();
        let mut i: usize = 0;
        while i < n
            invariant
                n == self.forced_cancel_scratch@.len(),
                self.forced_cancel_scratch@ == before.forced_cancel_scratch@,
                self.config == before.config,
                self.market_state == before.market_state,
                self.next_order_id == before.next_order_id,
                self.liquidated_during_fills == before.liquidated_during_fills,
                self.account == before.account,
                i <= n,
                self.limit_order_events@ == events + self.forced_cancel_scratch@.subrange(0, i as int).map_values(
                    |o: LimitOrder<D, Q, U, Pending<Q>>| LimitOrderEvent::ForcedCancel(o),
                ),
            decreases n - i,
        {
            let order = self.forced_cancel_scratch[i].clone();
            self.limit_order_events.push(LimitOrderEvent::ForcedCancel(order));
            proof {
                assert(self.forced_cancel_scratch@.subrange(0, i + 1) =~= self.forced_cancel_scratch@.subrange(0, i as int).push(order));
                assert(self.limit_order_events@ =~= events + self.forced_cancel_scratch@.subrange(0, i + 1).map_values(
                    |o: LimitOrder<D, Q, U, Pending<Q>>| LimitOrderEvent::ForcedCancel(o),
                ));
            }
            i = i + 1;
        }
        proof {
            assert(self.forced_cancel_scratch@.subrange(0, n as int) =~= self.forced_cancel_scratch@);
        }
        self.forced_cancel_scratch = Vec::new();
    }

    /// Append a new limit order as active order; a full book of its side refuses it.
    pub fn append_limit_order(&mut self, order: LimitOrder<D, Q, U, Pending<Q>>) -> (r: Result<
        (),
        MaxNumberOfActiveOrders,
    >)
        requires
            old(self).wf(),
            order.spec_side() == Side::Buy && old(self).spec_account().spec_active_limit_orders().spec_bids().spec_orders().len() < old(self).spec_account().spec_active_limit_orders().spec_bids().spec_capacity() ==> in_i64(
                old(self).spec_account().spec_active_limit_orders().spec_bids().spec_notional_sum()
                    + order.spec_notional(),
            ),
            order.spec_side() == Side::Sell && old(self).spec_account().spec_active_limit_orders().spec_asks().spec_orders().len() < old(self).spec_account().spec_active_limit_orders().spec_asks().spec_capacity() ==> in_i64(
                old(self).spec_account().spec_active_limit_orders().spec_asks().spec_notional_sum()
                    + order.spec_notional(),
            ),
        ensures
            final(self).wf(),
            final(self).spec_account().spec_position() == old(self).spec_account().spec_position(),
            final(self).spec_account().spec_balances() == old(self).spec_account().spec_balances(),
            final(self).spec_account().spec_init_margin_req() == old(self).spec_account().spec_init_margin_req(),
            final(self).spec_account().spec_maker_fee() == old(self).spec_account().spec_maker_fee(),
            order.spec_side() == Side::Buy ==> final(self).spec_account().spec_active_limit_orders().spec_bids().inserted(
                old(self).spec_account().spec_active_limit_orders().spec_bids(),
                order,
                r,
            ) && final(self).spec_account().spec_active_limit_orders().spec_asks() == old(self).spec_account().spec_active_limit_orders().spec_asks(),
            order.spec_side() == Side::Sell ==> final(self).spec_account().spec_active_limit_orders().spec_asks().inserted(
                old(self).spec_account().spec_active_limit_orders().spec_asks(),
                order,
                r,
            ) && final(self).spec_account().spec_active_limit_orders().spec_bids() == old(self).spec_account().spec_active_limit_orders().spec_bids(),
            final(self).spec_config() == old(self).spec_config(),
            final(self).spec_market_state() == old(self).spec_market_state(),
            final(self).spec_next_order_id() == old(self).spec_next_order_id(),
            final(self).spec_liquidated_during_fills() == old(self).spec_liquidated_during_fills(),
            final(self).spec_limit_order_events() == old(self).spec_limit_order_events(),
            final(self).spec_forced_cancels() == old(self).spec_forced_cancels(),
    {
        self.account.try_insert_order(order)
    }

    /// Reconcile the account collateral after a fill was settled, as a venue does:
    ///
    /// 1. the position is force-closed where the equity no longer covers its maintenance
    ///    margin;
    /// 2. resting limit orders are force-cancelled, the largest collateral contributor
    ///    first, until the equity covers the required collateral or no order rests;
    /// 3. the resulting solvency is reported, where `bad_debt_before` decides whether this
    ///    settlement bankrupted the account.
    ///
    /// The cancelled orders are kept for the forced-cancel events.
    pub fn reconcile_margin(&mut self, bad_debt_before: Q::PairedCurrency) -> (r: Solvency)
        requires
            old(self).wf(),
            old(self).spec_account().collateral_in_range(),
            in_i64(old(self).spec_maintenance_margin()),
            old(self).needs_liquidation() ==> {
                &&& old(self).spec_market_state().spec_bid() > 0
                &&& old(self).spec_market_state().spec_ask() > 0
                &&& old(self).liquidation_in_range()
            },
        ensures
            final(self).reconciled_from(*old(self), bad_debt_before.raw(), r),
    {
        let ghost before = *self;
        proof {
            self.account.spec_active_limit_orders().spec_bids().lemma_wf();
            self.account.spec_active_limit_orders().spec_asks().lemma_wf();
            self.account.lemma_collateral_for(
                self.account.spec_active_limit_orders().spec_bids().spec_notional_sum(),
                self.account.spec_active_limit_orders().spec_asks().spec_notional_sum(),
            );
            self.account.spec_balances().lemma_in_range();
        }
        let liquidated = if self.account.position().quantity().mantissa() != 0 {
            let notional = self.account.position().notional();
            let maintenance = times(notional, self.config.contract_spec().maintenance_margin());
            self.account.balances().equity().mantissa() < maintenance.mantissa()
        } else {
            false
        };
        if liquidated {
            self.force_liquidate();
            proof {
                let acc = self.account;
                acc.spec_active_limit_orders().spec_bids().lemma_wf();
                acc.spec_active_limit_orders().spec_asks().lemma_wf();
                assert(acc.spec_active_limit_orders().spec_bids().spec_orders().len() == 0);
                assert(acc.spec_active_limit_orders().spec_asks().spec_orders().len() == 0);
                assert(acc.spec_active_limit_orders().spec_bids().spec_orders() =~= Seq::empty());
                assert(acc.spec_active_limit_orders().spec_asks().spec_orders() =~= Seq::empty());
                assert(acc.spec_position().spec_entry_price() == 0);
                assert(acc.spec_position().spec_notional() == 0);
                lemma_scale_pos(D);
                assert(trunc_div(0, scale(D)) == 0);
                acc.spec_balances().lemma_in_range();
                assert(acc.collateral_in_range());
                let ob = before.account.spec_active_limit_orders().spec_bids().spec_orders();
                let oa = before.account.spec_active_limit_orders().spec_asks().spec_orders();
                if ob.len() == 0 {
                    assert(ob =~= Seq::empty());
                }
                if oa.len() == 0 {
                    assert(oa =~= Seq::empty());
                }
            }
        }
        let ghost mid = *self;
        let ghost mut accounts: Seq<Account<D, Q, U>> = seq![self.account];
        let ghost mut cancels: Seq<LimitOrder<D, Q, U, Pending<Q>>> = Seq::empty();
        proof {
            assert(mid.forced_cancel_scratch@ + cancels =~= mid.forced_cancel_scratch@);
            assert(mid.account.spec_active_limit_orders().spec_bids().spec_orders().len()
                <= before.account.spec_active_limit_orders().spec_bids().spec_orders().len());
            assert(mid.account.spec_active_limit_orders().spec_asks().spec_orders().len()
                <= before.account.spec_active_limit_orders().spec_asks().spec_orders().len());
        }
        loop
            invariant
                self.account.wf(),
                self.account.spec_balances().spec_equity() >= 0,
                self.account.collateral_in_range(),
                self.account.spec_position() == mid.account.spec_position(),
                self.account.spec_balances() == mid.account.spec_balances(),
                self.account.spec_init_margin_req() == mid.account.spec_init_margin_req(),
                self.account.spec_maker_fee() == mid.account.spec_maker_fee(),
                self.config == before.config,
                self.market_state == before.market_state,
                self.next_order_id == before.next_order_id,
                self.liquidated_during_fills == before.liquidated_during_fills,
                self.limit_order_events@ == before.limit_order_events@,
                accounts.len() == cancels.len() + 1,
                accounts[0] == mid.account,
                accounts.last() == self.account,
                forall|k: int|
                    0 <= k < cancels.len() ==> margin_call_step(
                        accounts[k],
                        #[trigger] cancels[k],
                        accounts[k + 1],
                    ),
                self.forced_cancel_scratch@ == mid.forced_cancel_scratch@ + cancels,
                liquidated ==> cancels.len() == 0
                    && self.account.spec_active_limit_orders().spec_num_active() == 0,
                !liquidated ==> mid.account == before.account
                    && mid.forced_cancel_scratch@ == before.forced_cancel_scratch@,
                self.forced_cancel_scratch@.len()
                    + self.account.spec_active_limit_orders().spec_num_active()
                    == mid.forced_cancel_scratch@.len()
                    + mid.account.spec_active_limit_orders().spec_num_active(),
                self.forced_cancel_scratch@.len() >= mid.forced_cancel_scratch@.len(),
                self.forced_cancel_scratch@.subrange(0, mid.forced_cancel_scratch@.len() as int)
                    == mid.forced_cancel_scratch@,
                self.account.spec_active_limit_orders().spec_bids().spec_orders().len()
                    <= mid.account.spec_active_limit_orders().spec_bids().spec_orders().len(),
                self.account.spec_active_limit_orders().spec_asks().spec_orders().len()
                    <= mid.account.spec_active_limit_orders().spec_asks().spec_orders().len(),
                self.account.spec_active_limit_orders().spec_bids().spec_orders().len()
                    == mid.account.spec_active_limit_orders().spec_bids().spec_orders().len()
                    ==> self.account.spec_active_limit_orders().spec_bids().spec_orders()
                    == mid.account.spec_active_limit_orders().spec_bids().spec_orders(),
                self.account.spec_active_limit_orders().spec_asks().spec_orders().len()
                    == mid.account.spec_active_limit_orders().spec_asks().spec_orders().len()
                    ==> self.account.spec_active_limit_orders().spec_asks().spec_orders()
                    == mid.account.spec_active_limit_orders().spec_asks().spec_orders(),
            ensures
                self.account.spec_margin_excess() >= 0
                    || self.account.spec_active_limit_orders().spec_num_active() == 0,
            decreases self.account.spec_active_limit_orders().spec_num_active(),
        {
            let excess = self.account.margin_excess();
            if excess.mantissa() >= 0 {
                break;
            }
            let victim = self.account.largest_collateral_contributor();
            let id = match victim {
                None => {
                    break;
                },
                Some(id) => id,
            };
            let ghost acc = self.account;
            let ghost books = acc.spec_active_limit_orders();
            let ghost victim = choose|on_bids: bool, idx: int|
                acc.frees_most_collateral(on_bids, idx) && id == acc.order_id_at(on_bids, idx);
            proof {
                let (on_bids, idx) = victim;
                assert(acc.frees_most_collateral(on_bids, idx));
                if on_bids {
                    assert(books.spec_bids().spec_orders()[idx].spec_id() == id);
                } else {
                    assert(books.spec_asks().spec_orders()[idx].spec_id() == id);
                }
                lemma_sum_bounds(books.spec_bids().spec_orders());
                lemma_sum_bounds(books.spec_asks().spec_orders());
            }
            let cancelled = self.account.cancel_limit_order(CancelBy::OrderId(id));
            proof {
                let after = self.account.spec_active_limit_orders();
                if has_id(books.spec_bids().spec_orders(), id) {
                    let k = choose|k: int|
                        {
                            &&& first_with_id(books.spec_bids().spec_orders(), id, k)
                            &&& cancelled.ok()->0 == books.spec_bids().spec_orders()[k]
                            &&& after.spec_bids().spec_orders() == books.spec_bids().spec_orders().remove(k)
                            &&& after.spec_bids().spec_notional_sum() == books.spec_bids().spec_notional_sum()
                                - books.spec_bids().spec_orders()[k].spec_notional()
                        };
                    assert(0 <= books.spec_bids().spec_orders()[k].spec_notional());
                    assert(cancelled.ok()->0.spec_id() == id);
                } else {
                    let k = choose|k: int|
                        {
                            &&& first_with_id(books.spec_asks().spec_orders(), id, k)
                            &&& cancelled.ok()->0 == books.spec_asks().spec_orders()[k]
                            &&& after.spec_asks().spec_orders() == books.spec_asks().spec_orders().remove(k)
                            &&& after.spec_asks().spec_notional_sum() == books.spec_asks().spec_notional_sum()
                                - books.spec_asks().spec_orders()[k].spec_notional()
                        };
                    assert(0 <= books.spec_asks().spec_orders()[k].spec_notional());
                    assert(cancelled.ok()->0.spec_id() == id);
                }
                acc.lemma_collateral_monotone(self.account);
            }
            let ghost prev = self.forced_cancel_scratch@;
            match cancelled {
                Ok(order) => {
                    self.forced_cancel_scratch.push(order);
                    proof {
                        let (on_bids, idx) = victim;
                        assert(acc.frees_most_collateral(on_bids, idx));
                        assert(cancels_largest_contributor(acc, order));
                        assert(margin_call_step(acc, order, self.account));
                        let old_accounts = accounts;
                        let old_cancels = cancels;
                        accounts = accounts.push(self.account);
                        cancels = cancels.push(order);
                        assert forall|k: int| 0 <= k < cancels.len() implies margin_call_step(
                            accounts[k],
                            #[trigger] cancels[k],
                            accounts[k + 1],
                        ) by {
                            if k < old_cancels.len() {
                                assert(cancels[k] == old_cancels[k]);
                                assert(accounts[k] == old_accounts[k]);
                                assert(accounts[k + 1] == old_accounts[k + 1]);
                            } else {
                                assert(accounts[k] == acc);
                            }
                        }
                        assert(self.forced_cancel_scratch@ =~= mid.forced_cancel_scratch@ + cancels);
                    }
                },
                Err(_) => {},
            }
            proof {
                let len = mid.forced_cancel_scratch@.len() as int;
                assert(self.forced_cancel_scratch@.subrange(0, len) =~= prev.subrange(0, len));
            }
        }
        proof {
            assert(self.forced_cancel_scratch@.subrange(0, before.forced_cancel_scratch@.len() as int)
                =~= before.forced_cancel_scratch@);
            assert(margin_call_run(accounts, cancels));
            assert(self.margin_called(before, accounts, cancels));
        }
        let bad_debt = self.account.balances().bad_debt();
        if bad_debt.mantissa() > bad_debt_before.mantissa() {
            Solvency::Bankrupt
        } else if liquidated {
            Solvency::Liquidated
        } else if self.account.margin_excess().mantissa() < 0 {
            Solvency::InitialMarginDeficit
        } else {
            Solvency::Solvent
        }
    }

    /// Whether liquidation was the outcome of the latest check of the active orders.
    pub fn liquidated_during_fills(&self) -> (r: bool)
        ensures
            r == self.spec_liquidated_during_fills(),
    {
        self.liquidated_during_fills
    }

    /// Whether every value of a fill of `filled_quantity` of `order` fits an `i64`.
    pub fn fill_fits(&self, order: &LimitOrder<D, Q, U, Pending<Q>>, filled_quantity: Q) -> (r: bool)
        requires
            self.wf(),
            order.spec_limit_price().raw() > 0,
            filled_quantity.raw() > 0,
        ensures
            r == self.fill_in_range(*order, filled_quantity.raw()),
    {
        if order.filled_quantity().mantissa().checked_add(filled_quantity.mantissa()).is_none() {
            return false;
        }
        let price = order.limit_price();
        let notional = match Q::PairedCurrency::checked_convert_from(filled_quantity.mantissa(), price) {
            Some(v) => v,
            None => {
                return false;
            },
        };
        let fee = match checked_mul_mantissa::<D>(
            notional.mantissa(),
            self.config.contract_spec().fee_maker().mantissa(),
        ) {
            Some(v) => Q::PairedCurrency::from_mantissa(v),
            None => {
                return false;
            },
        };
        self.account.change_position_fits(filled_quantity, price, order.side(), fee)
    }

    /// Whether every value of the fill that closes the position fits an `i64`.
    pub fn liquidation_fits(&self) -> (r: bool)
        requires
            self.wf(),
            self.spec_account().spec_position().spec_quantity() != 0,
            self.spec_market_state().spec_bid() > 0,
            self.spec_market_state().spec_ask() > 0,
        ensures
            r == self.liquidation_in_range(),
    {
        let q = self.account.position().quantity().mantissa();
        if q == i64::MIN {
            return false;
        }
        let (side, price) = if q < 0 {
            (Side::Buy, self.market_state.ask())
        } else {
            (Side::Sell, self.market_state.bid())
        };
        let quantity = abs_of(self.account.position().quantity());
        let notional = match Q::PairedCurrency::checked_convert_from(quantity.mantissa(), price) {
            Some(v) => v,
            None => {
                return false;
            },
        };
        let fee = match checked_mul_mantissa::<D>(
            notional.mantissa(),
            self.config.contract_spec().fee_taker().mantissa(),
        ) {
            Some(v) => Q::PairedCurrency::from_mantissa(v),
            None => {
                return false;
            },
        };
        self.account.change_position_fits(quantity, price, side, fee)
    }

    /// Whether everything a reconciliation of the collateral computes fits an `i64`.
    pub open spec fn reconcile_in_range(self) -> bool {
        &&& self.spec_account().collateral_in_range()
        &&& in_i64(self.spec_maintenance_margin())
        &&& self.needs_liquidation() ==> {
            &&& self.spec_market_state().spec_bid() > 0
            &&& self.spec_market_state().spec_ask() > 0
            &&& self.liquidation_in_range()
        }
    }

    /// Whether everything a reconciliation of the collateral computes fits an `i64`.
    pub fn reconcile_fits(&self) -> (r: bool)
        requires
            self.wf(),
        ensures
            r == self.reconcile_in_range(),
    {
        if !self.account.collateral_fits() {
            return false;
        }
        proof {
            self.account.spec_active_limit_orders().spec_bids().lemma_wf();
            self.account.spec_active_limit_orders().spec_asks().lemma_wf();
            self.account.lemma_collateral_for(
                self.account.spec_active_limit_orders().spec_bids().spec_notional_sum(),
                self.account.spec_active_limit_orders().spec_asks().spec_notional_sum(),
            );
            self.account.spec_balances().lemma_in_range();
        }
        let notional = self.account.position().notional();
        let maintenance = match checked_mul_mantissa::<D>(
            notional.mantissa(),
            self.config.contract_spec().maintenance_margin().mantissa(),
        ) {
            Some(v) => v,
            None => {
                return false;
            },
        };
        let q = self.account.position().quantity().mantissa();
        if q != 0 && self.account.balances().equity().mantissa() < maintenance {
            self.market_state.bid().mantissa() > 0 && self.market_state.ask().mantissa() > 0
                && self.liquidation_fits()
        } else {
            true
        }
    }

    /// `self` is `before` with its limit order events cleared and no liquidation recorded.
    pub open spec fn cleared_from(self, before: Self) -> bool {
        &&& self.spec_config() == before.spec_config()
        &&& self.spec_market_state() == before.spec_market_state()
        &&& self.spec_next_order_id() == before.spec_next_order_id()
        &&& self.spec_account() == before.spec_account()
        &&& self.spec_forced_cancels() == before.spec_forced_cancels()
        &&& self.spec_limit_order_events().len() == 0
        &&& !self.spec_liquidated_during_fills()
    }

    /// `self` is `before` with a liquidation during the fills recorded.
    pub open spec fn flagged_from(self, before: Self) -> bool {
        &&& self.spec_config() == before.spec_config()
        &&& self.spec_market_state() == before.spec_market_state()
        &&& self.spec_next_order_id() == before.spec_next_order_id()
        &&& self.spec_account() == before.spec_account()
        &&& self.spec_forced_cancels() == before.spec_forced_cancels()
        &&& self.spec_limit_order_events() == before.spec_limit_order_events()
        &&& self.spec_liquidated_during_fills()
    }

    /// The book of `side` shrank or its best order's remaining quantity did.
    pub open spec fn side_shrank(self, before: Self, side: Side) -> bool {
        let now = match side {
            Side::Buy => self.spec_account().spec_active_limit_orders().spec_bids().spec_orders(),
            Side::Sell => self.spec_account().spec_active_limit_orders().spec_asks().spec_orders(),
        };
        let was = match side {
            Side::Buy => before.spec_account().spec_active_limit_orders().spec_bids().spec_orders(),
            Side::Sell => before.spec_account().spec_active_limit_orders().spec_asks().spec_orders(),
        };
        now.len() < was.len() || (now.len() == was.len() && best_remaining(now) < best_remaining(was))
    }

    /// Offer the best resting order of `side` to the update: where the update fills it, the
    /// fill is settled, followed by a reconciliation of the collateral whose forced
    /// cancellations join the events.
    fn offer_best<M: LimitOrderFills<D, Q, U>>(&mut self, update: &mut M, side: Side) -> (r: FillStep)
        requires
            old(self).wf(),
        ensures
            final(self).wf(),
            stepped(*final(self), *old(self), *old(update), *final(update), side, r),
            continues(r) ==> final(self).side_shrank(*old(self), side),
            final(self).spec_config() == old(self).spec_config(),
            final(self).spec_market_state() == old(self).spec_market_state(),
            final(self).spec_next_order_id() == old(self).spec_next_order_id(),
    {
        let best = match side {
            Side::Buy => self.account.active_limit_orders().best_bid(),
            Side::Sell => self.account.active_limit_orders().best_ask(),
        };
        let best = match best {
            Some(order) => order.clone(),
            None => {
                return FillStep::NoOrder;
            },
        };
        proof {
            let books = self.account.spec_active_limit_orders();
            if side == Side::Buy {
                books.spec_bids().lemma_wf();
                let orders = books.spec_bids().spec_orders();
                assert(orders[orders.len() - 1] == best);
            } else {
                books.spec_asks().lemma_wf();
                let orders = books.spec_asks().spec_orders();
                assert(orders[orders.len() - 1] == best);
            }
            assert(best.spec_side() == side);
            assert(best.spec_limit_price().raw() > 0);
        }
        let offered = update.limit_order_filled(&best);
        let (filled_quantity, exhausted) = match offered {
            Some(f) => f,
            None => {
                return FillStep::NoFill;
            },
        };
        if !self.fill_fits(&best, filled_quantity) {
            return FillStep::Unsettled;
        }
        let ghost before = *self;
        let bad_debt_before = self.account.balances().bad_debt();
        let ts_ns = update.fill_timestamp_ns();
        let fill = self.fill_limit_order(best, filled_quantity, ts_ns);
        let ghost the_fill = fill;
        self.limit_order_events.push(LimitOrderEvent::Fill(fill));
        let ghost filled = *self;
        proof {
            assert(filled.limit_order_filled_from(
                before,
                best,
                filled_quantity.raw(),
                ts_ns,
                the_fill,
                before.spec_limit_order_events().push(LimitOrderEvent::Fill(the_fill)),
            ));
        }
        if !self.reconcile_fits() {
            proof {
                assert(fill_settled(
                    before,
                    best,
                    filled_quantity.raw(),
                    exhausted,
                    ts_ns,
                    filled,
                    the_fill,
                    filled,
                    Solvency::Solvent,
                    *self,
                    FillStep::Unsettled,
                ));
                assert(fill_settles(before, best, filled_quantity.raw(), exhausted, ts_ns, *self, FillStep::Unsettled));
            }
            return FillStep::Unsettled;
        }
        let solvency = self.reconcile_margin(bad_debt_before);
        let ghost reconciled = *self;
        self.drain_forced_cancels_into_events();
        let stops = match solvency {
            Solvency::Liquidated => true,
            Solvency::Bankrupt => true,
            _ => false,
        };
        let r = FillStep::Filled { exhausted, stops };
        proof {
            assert(fill_settled(
                before,
                best,
                filled_quantity.raw(),
                exhausted,
                ts_ns,
                filled,
                the_fill,
                reconciled,
                solvency,
                *self,
                r,
            ));
            assert(fill_settles(before, best, filled_quantity.raw(), exhausted, ts_ns, *self, r));
            let was = match side {
                Side::Buy => before.spec_account().spec_active_limit_orders().spec_bids().spec_orders(),
                Side::Sell => before.spec_account().spec_active_limit_orders().spec_asks().spec_orders(),
            };
            let mid = match side {
                Side::Buy => filled.spec_account().spec_active_limit_orders().spec_bids().spec_orders(),
                Side::Sell => filled.spec_account().spec_active_limit_orders().spec_asks().spec_orders(),
            };
            if mid.len() == was.len() {
                assert(best_remaining(mid) < best_remaining(was));
            }
        }
        r
    }

    /// Offer the best resting orders of `side` to the update, one after the other, until
    /// an offer does not end in a fill after which the checks continue.
    fn fill_side<M: LimitOrderFills<D, Q, U>>(&mut self, update: &mut M, side: Side) -> (r: FillStep)
        requires
            old(self).wf(),
        ensures
            final(self).wf(),
            !continues(r),
            exists|states: Seq<Self>, updates: Seq<M>, steps: Seq<FillStep>|
                #[trigger] side_run(states, updates, steps, side) && states[0] == *old(self)
                    && updates[0] == *old(update) && states.last() == *final(self)
                    && updates.last() == *final(update) && steps.last() == r,
            final(self).spec_config() == old(self).spec_config(),
            final(self).spec_market_state() == old(self).spec_market_state(),
            final(self).spec_next_order_id() == old(self).spec_next_order_id(),
    {
        let ghost mut states: Seq<Self> = seq![*self];
        let ghost mut updates: Seq<M> = seq![*update];
        let ghost mut steps: Seq<FillStep> = Seq::empty();
        loop
            invariant
                self.wf(),
                states.len() == steps.len() + 1,
                updates.len() == steps.len() + 1,
                states[0] == *old(self),
                updates[0] == *old(update),
                self.config == old(self).config,
                self.market_state == old(self).market_state,
                self.next_order_id == old(self).next_order_id,
                states.last() == *self,
                updates.last() == *update,
                forall|i: int| 0 <= i < steps.len() ==> stepped(
                    states[i + 1],
                    states[i],
                    updates[i],
                    updates[i + 1],
                    side,
                    #[trigger] steps[i],
                ),
                forall|i: int| 0 <= i < steps.len() ==> continues(#[trigger] steps[i]),
            decreases
                (match side {
                    Side::Buy => self.spec_account().spec_active_limit_orders().spec_bids().spec_orders(),
                    Side::Sell => self.spec_account().spec_active_limit_orders().spec_asks().spec_orders(),
                }).len(),
                best_remaining(match side {
                    Side::Buy => self.spec_account().spec_active_limit_orders().spec_bids().spec_orders(),
                    Side::Sell => self.spec_account().spec_active_limit_orders().spec_asks().spec_orders(),
                }),
        {
            let ghost prev_state = *self;
            let ghost prev_update = *update;
            let step = self.offer_best(update, side);
            proof {
                states = states.push(*self);
                updates = updates.push(*update);
                steps = steps.push(step);
                assert(steps[steps.len() - 1] == step);
                assert(states[steps.len() as int - 1] == prev_state);
                assert(updates[steps.len() as int - 1] == prev_update);
                if side == Side::Buy {
                    prev_state.spec_account().spec_active_limit_orders().spec_bids().lemma_wf();
                    self.spec_account().spec_active_limit_orders().spec_bids().lemma_wf();
                } else {
                    prev_state.spec_account().spec_active_limit_orders().spec_asks().lemma_wf();
                    self.spec_account().spec_active_limit_orders().spec_asks().lemma_wf();
                }
            }
            match step {
                FillStep::Filled { exhausted: false, stops: false } => {},
                _ => {
                    proof {
                        assert(side_run(states, updates, steps, side));
                    }
                    return step;
                },
            }
        }
    }

    /// Checks for the execution of active limit orders in the account. The limit order
    /// events are cleared first. Where the update can fill buy orders, their best ones are
    /// offered to it one after the other, then, where what is left of the update can fill
    /// sell orders, the best sell orders; see `fill_run` for the whole sequence. Each fill is
    /// followed by a reconciliation of the collateral whose forced cancellations join the
    /// events; a liquidation or bankruptcy stops the checks and is recorded, and so does an
    /// update that is exhausted. A fill or reconciliation that cannot be settled stops the
    /// checks with an error.
    pub fn check_active_orders<M: LimitOrderFills<D, Q, U>>(&mut self, market_update: M) -> (r:
        Result<(), UnsettledFill>)
        requires
            old(self).wf(),
        ensures
            final(self).wf(),
            final(self).spec_config() == old(self).spec_config(),
            final(self).spec_market_state() == old(self).spec_market_state(),
            final(self).spec_next_order_id() == old(self).spec_next_order_id(),
            !market_update.spec_can_fill_bids() && !market_update.spec_can_fill_asks() ==> r is Ok
                && final(self).cleared_from(*old(self)),
            exists|bids: Seq<Self>, bid_updates: Seq<M>, bid_steps: Seq<FillStep>, asks: Seq<Self>, ask_updates: Seq<M>, ask_steps: Seq<FillStep>|
                #[trigger] fill_run(
                    *old(self),
                    market_update,
                    bids,
                    bid_updates,
                    bid_steps,
                    asks,
                    ask_updates,
                    ask_steps,
                    *final(self),
                    r,
                ),
    {
        self.limit_order_events = Vec::new();
        self.liquidated_during_fills = false;
        let ghost start = *old(self);
        let ghost cleared = *self;
        proof {
            assert(cleared.cleared_from(start));
        }
        let ghost no_steps: Seq<FillStep> = Seq::empty();
        let ghost no_states: Seq<Self> = Seq::empty();
        let ghost no_updates: Seq<M> = Seq::empty();
        if !market_update.can_fill_bids() && !market_update.can_fill_asks() {
            proof {
                assert(fill_run(start, market_update, no_states, no_updates, no_steps, no_states, no_updates, no_steps, *self, Ok(())));
            }
            return Ok(());
        }
        let mut update = market_update;
        let ghost mut bids = no_states;
        let ghost mut bid_updates = no_updates;
        let ghost mut bid_steps = no_steps;
        if update.can_fill_bids() {
            let step = self.fill_side(&mut update, Side::Buy);
            proof {
                let (s, u, st) = choose|s: Seq<Self>, u: Seq<M>, st: Seq<FillStep>|
                    #[trigger] side_run(s, u, st, Side::Buy) && s[0] == cleared && u[0] == market_update
                        && s.last() == *self && u.last() == update && st.last() == step;
                bids = s;
                bid_updates = u;
                bid_steps = st;
            }
            match step {
                FillStep::Unsettled => {
                    proof {
                        assert(fill_run(start, market_update, bids, bid_updates, bid_steps, no_states, no_updates, no_steps, *self, Err(UnsettledFill)));
                    }
                    return Err(UnsettledFill);
                },
                FillStep::Filled { exhausted: _, stops: true } => {
                    let ghost ended = *self;
                    self.liquidated_during_fills = true;
                    proof {
                        assert(self.flagged_from(ended));
                        assert(fill_run(start, market_update, bids, bid_updates, bid_steps, no_states, no_updates, no_steps, *self, Ok(())));
                    }
                    return Ok(());
                },
                FillStep::Filled { exhausted: true, stops: false } => {
                    proof {
                        assert(fill_run(start, market_update, bids, bid_updates, bid_steps, no_states, no_updates, no_steps, *self, Ok(())));
                    }
                    return Ok(());
                },
                _ => {},
            }
        }
        let ghost mid = *self;
        let ghost mid_update = update;
        if update.can_fill_asks() {
            let step = self.fill_side(&mut update, Side::Sell);
            let ghost mut asks = no_states;
            let ghost mut ask_updates = no_updates;
            let ghost mut ask_steps = no_steps;
            proof {
                let (s, u, st) = choose|s: Seq<Self>, u: Seq<M>, st: Seq<FillStep>|
                    #[trigger] side_run(s, u, st, Side::Sell) && s[0] == mid && u[0] == mid_update
                        && s.last() == *self && u.last() == update && st.last() == step;
                asks = s;
                ask_updates = u;
                ask_steps = st;
            }
            match step {
                FillStep::Unsettled => {
                    proof {
                        assert(fill_run(start, market_update, bids, bid_updates, bid_steps, asks, ask_updates, ask_steps, *self, Err(UnsettledFill)));
                    }
                    return Err(UnsettledFill);
                },
                FillStep::Filled { exhausted: _, stops: true } => {
                    let ghost ended = *self;
                    self.liquidated_during_fills = true;
                    proof {
                        assert(self.flagged_from(ended));
                        assert(fill_run(start, market_update, bids, bid_updates, bid_steps, asks, ask_updates, ask_steps, *self, Ok(())));
                    }
                    return Ok(());
                },
                _ => {
                    proof {
                        assert(fill_run(start, market_update, bids, bid_updates, bid_steps, asks, ask_updates, ask_steps, *self, Ok(())));
                    }
                    return Ok(());
                },
            }
        }
        proof {
            assert(fill_run(start, market_update, bids, bid_updates, bid_steps, no_states, no_updates, no_steps, *self, Ok(())));
        }
        Ok(())
    }

    /// The unrealized profit of the position valued at the current bid (a long) or ask (a
    /// short).
    pub open spec fn spec_mark_pnl(self) -> int {
        spec_unrealized_pnl::<D, Q>(
            self.spec_account().spec_position().spec_quantity(),
            self.spec_account().spec_position().spec_entry_price(),
            self.spec_market_state().spec_bid(),
            self.spec_market_state().spec_ask(),
        )
    }

    /// The market crossed the liquidation price of the position: valued at the current bid
    /// (a long) or ask (a short), its equity no longer covers its maintenance margin.
    pub open spec fn crossed_liquidation_price(self) -> bool {
        &&& self.spec_account().spec_position().spec_quantity() != 0
        &&& self.spec_account().spec_balances().spec_equity() + self.spec_mark_pnl()
            < self.spec_maintenance_margin()
    }

    /// The price-based maintenance check can be computed: the position is flat, or the market
    /// has a bid and an ask and the quantity, notional value and maintenance margin of the
    /// position, its unrealized profit and the equity with that profit fit an `i64`.
    pub open spec fn maintenance_in_range(self) -> bool {
        let position = self.spec_account().spec_position();
        let quantity = position.spec_quantity();
        let entry = position.spec_entry_price();
        let bid = self.spec_market_state().spec_bid();
        let ask = self.spec_market_state().spec_ask();
        ||| quantity == 0
        ||| {
            &&& quantity != i64::MIN
            &&& bid > 0
            &&& ask > 0
            &&& in_i64(position.spec_notional())
            &&& in_i64(self.spec_maintenance_margin())
            &&& quantity < 0 ==> <Q::PairedCurrency as MarginCurrency<D>>::pnl_in_range(entry, ask, quantity)
            &&& quantity > 0 ==> <Q::PairedCurrency as MarginCurrency<D>>::pnl_in_range(entry, bid, quantity)
            &&& in_i64(self.spec_account().spec_balances().spec_equity() + self.spec_mark_pnl())
        }
    }

    /// Whether the market crossed the liquidation price of the position; `None` where that
    /// cannot be computed.
    pub fn liquidation_due(&self) -> (r: Option<bool>)
        requires
            self.wf(),
        ensures
            r is Some <==> self.maintenance_in_range(),
            r matches Some(due) ==> due == self.crossed_liquidation_price(),
    {
        let q = self.account.position().quantity().mantissa();
        if q == 0 {
            return Some(false);
        }
        if q == i64::MIN {
            return None;
        }
        let bid = self.market_state.bid();
        let ask = self.market_state.ask();
        if bid.mantissa() <= 0 || ask.mantissa() <= 0 {
            return None;
        }
        let entry = self.account.position().entry_price();
        let aq: i64 = if q < 0 {
            -q
        } else {
            q
        };
        let notional = match Q::PairedCurrency::checked_convert_from(aq, entry) {
            Some(v) => v.mantissa(),
            None => {
                return None;
            },
        };
        let maintenance = match checked_mul_mantissa::<D>(
            notional,
            self.config.contract_spec().maintenance_margin().mantissa(),
        ) {
            Some(v) => v,
            None => {
                return None;
            },
        };
        let pnl_fits = if q < 0 {
            Q::PairedCurrency::pnl_fits(entry, ask, q)
        } else {
            Q::PairedCurrency::pnl_fits(entry, bid, q)
        };
        if !pnl_fits {
            return None;
        }
        let pnl = self.account.position().unrealized_pnl(bid, ask).mantissa();
        match self.account.balances().equity().mantissa().checked_add(pnl) {
            Some(value) => Some(value < maintenance),
            None => None,
        }
    }

    /// `self` is `before` once its position was force-closed, as `force_liquidate` does it.
    pub open spec fn liquidated_from(self, before: Self) -> bool {
        let quantity = before.spec_account().spec_position().spec_quantity();
        &&& self.wf()
        &&& self.spec_account().position_changed(
            before.spec_account(),
            abs(quantity),
            before.spec_liquidation_price(),
            closing_side(quantity),
            before.spec_liquidation_fee(),
        )
        &&& self.spec_account().spec_position().spec_quantity() == 0
        &&& self.spec_account().spec_active_limit_orders().spec_num_active() == 0
        &&& self.spec_forced_cancels().len() == before.spec_forced_cancels().len()
            + before.spec_account().spec_active_limit_orders().spec_num_active()
        &&& self.spec_forced_cancels().subrange(0, before.spec_forced_cancels().len() as int)
            == before.spec_forced_cancels()
        &&& self.spec_config() == before.spec_config()
        &&& self.spec_market_state() == before.spec_market_state()
        &&& self.spec_next_order_id() == before.spec_next_order_id()
        &&& self.spec_liquidated_during_fills() == before.spec_liquidated_during_fills()
        &&& self.spec_limit_order_events() == before.spec_limit_order_events()
    }

    /// `self` is `before` once its market state took `update`, with its limit order events
    /// cleared and no liquidation recorded.
    pub open spec fn updated_from<M: MarketUpdate<D>>(self, before: Self, update: M) -> bool {
        let market = self.spec_market_state();
        let prices = update.spec_updated(before.spec_market_state());
        &&& market.spec_bid() == prices.spec_bid()
        &&& market.spec_ask() == prices.spec_ask()
        &&& market.spec_last_trade_price() == prices.spec_last_trade_price()
        &&& market.spec_current_ts_ns() == update.spec_timestamp_exchange_ns()
        &&& market.spec_step() == before.spec_market_state().spec_step() + 1
        &&& self.spec_config() == before.spec_config()
        &&& self.spec_next_order_id() == before.spec_next_order_id()
        &&& self.spec_account() == before.spec_account()
        &&& self.spec_forced_cancels() == before.spec_forced_cancels()
        &&& self.spec_limit_order_events().len() == 0
        &&& !self.spec_liquidated_during_fills()
    }

    /// Update the exchange with new market information: the limit order events are cleared
    /// and the market state takes the update. A position whose liquidation price the market
    /// crossed (`crossed_liquidation_price`) is then force-closed, its resting orders
    /// cancelled into the events, and `RiskError::Liquidate` is returned. Otherwise the active limit orders are
    /// checked against the update (`check_active_orders`); a liquidation during their fills
    /// is reported as `RiskError::Liquidate` too. The events of the update are then
    /// available through `limit_order_events`. See `update_settled` for the whole outcome.
    pub fn update_state<M: MarketUpdate<D> + LimitOrderFills<D, Q, U>>(&mut self, market_update: M) -> (r:
        Result<(), RiskError>)
        requires
            old(self).wf(),
            old(self).spec_market_state().spec_step() < u64::MAX,
        ensures
            final(self).wf(),
            final(self).spec_config() == old(self).spec_config(),
            final(self).spec_next_order_id() == old(self).spec_next_order_id(),
            final(self).spec_market_state().spec_bid() == market_update.spec_updated(
                old(self).spec_market_state(),
            ).spec_bid(),
            final(self).spec_market_state().spec_ask() == market_update.spec_updated(
                old(self).spec_market_state(),
            ).spec_ask(),
            final(self).spec_market_state().spec_last_trade_price() == market_update.spec_updated(
                old(self).spec_market_state(),
            ).spec_last_trade_price(),
            final(self).spec_market_state().spec_current_ts_ns()
                == market_update.spec_timestamp_exchange_ns(),
            final(self).spec_market_state().spec_step() == old(self).spec_market_state().spec_step()
                + 1,
            exists|updated: Self|
                #[trigger] updated.updated_from(*old(self), market_update) && update_settled(
                    updated,
                    market_update,
                    *final(self),
                    r,
                ),
    {
        let ghost before = *self;
        let ghost update = market_update;
        self.limit_order_events = Vec::new();
        self.liquidated_during_fills = false;
        let _ = self.market_state.update_state(&market_update);
        let ghost updated = *self;
        proof {
            assert(updated.updated_from(before, update));
        }
        match self.liquidation_due() {
            None => {
                proof {
                    assert(update_settled(updated, update, *self, Err(RiskError::UnsettledFill)));
                }
                return Err(RiskError::UnsettledFill);
            },
            Some(true) => {
                if self.market_state.bid().mantissa() <= 0 || self.market_state.ask().mantissa() <= 0
                    || !self.liquidation_fits() {
                    proof {
                        assert(update_settled(updated, update, *self, Err(RiskError::UnsettledFill)));
                    }
                    return Err(RiskError::UnsettledFill);
                }
                self.force_liquidate();
                let ghost liquidated = *self;
                proof {
                    assert(liquidated.liquidated_from(updated));
                }
                self.drain_forced_cancels_into_events();
                proof {
                    assert(liquidated_and_drained(updated, *self));
                    assert(update_settled(updated, update, *self, Err(RiskError::Liquidate)));
                }
                return Err(RiskError::Liquidate);
            },
            Some(false) => {},
        }
        proof {
            assert(updated.maintenance_in_range() && !updated.crossed_liquidation_price());
        }
        let checked = self.check_active_orders(market_update);
        proof {
            assert(orders_checked(updated, update, *self, checked));
        }
        match checked {
            Err(e) => {
                proof {
                    assert(e == UnsettledFill);
                    assert(orders_checked(updated, update, *self, Err(UnsettledFill)));
                    assert(update_settled(updated, update, *self, Err(RiskError::UnsettledFill)));
                }
                Err(RiskError::UnsettledFill)
            },
            Ok(v) => {
                let r = if self.liquidated_during_fills {
                    Err(RiskError::Liquidate)
                } else {
                    Ok(())
                };
                proof {
                    assert(checked == Ok::<(), UnsettledFill>(v));
                    assert(v == ());
                    assert(orders_checked(updated, update, *self, Ok(())));
                    assert(update_settled(updated, update, *self, r));
                }
                r
            },
        }
    }

    /// The price a market order on `side` is filled at: the ask for a buy, the bid for a
    /// sell.
    pub open spec fn spec_market_price(self, side: Side) -> int {
        match side {
            Side::Buy => self.spec_market_state().spec_ask(),
            Side::Sell => self.spec_market_state().spec_bid(),
        }
    }

    /// Whether every value of a market fill of `quantity` at `price` on `side` fits an
    /// `i64`.
    pub open spec fn market_fill_in_range(self, side: Side, quantity: int, price: int) -> bool {
        &&& in_i64(<Q::PairedCurrency as MarginCurrency<D>>::spec_convert_from(quantity, price))
        &&& in_i64(self.spec_taker_fee(quantity, price))
        &&& self.spec_account().change_position_in_range(
            quantity,
            price,
            side,
            self.spec_taker_fee(quantity, price),
        )
    }

    /// `self` is `before` after a market fill of `quantity` at `price` on `side`: the account
    /// changed its position and paid the taker fee; nothing else changed.
    pub open spec fn market_filled_from(self, before: Self, side: Side, quantity: int, price: int) -> bool {
        &&& self.wf()
        &&& self.spec_account().position_changed(
            before.spec_account(),
            quantity,
            price,
            side,
            before.spec_taker_fee(quantity, price),
        )
        &&& self.spec_account().spec_active_limit_orders() == before.spec_account().spec_active_limit_orders()
        &&& self.spec_config() == before.spec_config()
        &&& self.spec_market_state() == before.spec_market_state()
        &&& self.spec_next_order_id() == before.spec_next_order_id()
        &&& self.spec_liquidated_during_fills() == before.spec_liquidated_during_fills()
        &&& self.spec_limit_order_events() == before.spec_limit_order_events()
        &&& self.spec_forced_cancels() == before.spec_forced_cancels()
    }

    /// `self` is `before` with its forced cancellations handed out.
    pub open spec fn cancels_taken_from(self, before: Self) -> bool {
        &&& self.spec_account() == before.spec_account()
        &&& self.spec_config() == before.spec_config()
        &&& self.spec_market_state() == before.spec_market_state()
        &&& self.spec_next_order_id() == before.spec_next_order_id()
        &&& self.spec_liquidated_during_fills() == before.spec_liquidated_during_fills()
        &&& self.spec_limit_order_events() == before.spec_limit_order_events()
        &&& self.spec_forced_cancels().len() == 0
    }

    /// Settle an immediately filled market order of `filled_quantity` at `fill_price` on
    /// `side`: the account changes its position and pays the taker fee, then its collateral
    /// is reconciled. Returns the orders the venue force-cancelled because of it and the
    /// resulting solvency. A fill whose values do not fit an `i64` is refused and changes
    /// nothing; a fill whose reconciliation cannot be settled stays, with an error.
    pub fn settle_filled_market_order(
        &mut self,
        side: Side,
        filled_quantity: Q,
        fill_price: QuoteCurrency<D>,
    ) -> (r: Result<(Vec<LimitOrder<D, Q, U, Pending<Q>>>, Solvency), UnsettledFill>)
        requires
            old(self).wf(),
            old(self).spec_forced_cancels().len() == 0,
            filled_quantity.raw() > 0,
            fill_price.raw() > 0,
        ensures
            final(self).wf(),
            !old(self).market_fill_in_range(side, filled_quantity.raw(), fill_price.raw()) ==> r is Err
                && *final(self) == *old(self),
            old(self).market_fill_in_range(side, filled_quantity.raw(), fill_price.raw())
                ==> market_settles(
                *old(self),
                side,
                filled_quantity.raw(),
                fill_price.raw(),
                *final(self),
                r,
            ),
    {
        let notional = match Q::PairedCurrency::checked_convert_from(filled_quantity.mantissa(), fill_price) {
            Some(v) => v,
            None => {
                return Err(UnsettledFill);
            },
        };
        let fee = match checked_mul_mantissa::<D>(
            notional.mantissa(),
            self.config.contract_spec().fee_taker().mantissa(),
        ) {
            Some(v) => Q::PairedCurrency::from_mantissa(v),
            None => {
                return Err(UnsettledFill);
            },
        };
        if !self.account.change_position_fits(filled_quantity, fill_price, side, fee) {
            return Err(UnsettledFill);
        }
        let ghost before = *self;
        let bad_debt_before = self.account.balances().bad_debt();
        self.account.change_position(filled_quantity, fill_price, side, fee);
        let ghost filled = *self;
        proof {
            assert(filled.market_filled_from(before, side, filled_quantity.raw(), fill_price.raw()));
        }
        if !self.reconcile_fits() {
            proof {
                assert(market_settled(before, side, filled_quantity.raw(), fill_price.raw(), filled, filled, *self, Err(UnsettledFill)));
            }
            return Err(UnsettledFill);
        }
        let solvency = self.reconcile_margin(bad_debt_before);
        let ghost reconciled = *self;
        let mut cancelled = Vec::new();
        core::mem::swap(&mut cancelled, &mut self.forced_cancel_scratch);
        let r = Ok((cancelled, solvency));
        proof {
            assert(market_settled(before, side, filled_quantity.raw(), fill_price.raw(), filled, reconciled, *self, r));
        }
        r
    }

    /// Submit a market order of `quantity` on `side`: it is filled at once against the best
    /// ask (a buy) or bid (a sell) and settled, and it takes the next order id.
    ///
    /// On success the settlement reports the filled order, the resting limit orders the venue
    /// force-cancelled because of it and the resulting solvency. A fill that cannot be
    /// settled is refused with an error; see `settle_filled_market_order`.
    pub fn submit_market_order(&mut self, side: Side, quantity: Q) -> (r: Result<
        MarketOrderSettlement<D, Q, U>,
        UnsettledFill,
    >)
        requires
            old(self).wf(),
            old(self).spec_forced_cancels().len() == 0,
            quantity.raw() > 0,
            old(self).spec_market_state().spec_bid() > 0,
            old(self).spec_market_state().spec_ask() > 0,
            old(self).spec_next_order_id().0 < u64::MAX,
        ensures
            final(self).wf(),
            !old(self).market_fill_in_range(side, quantity.raw(), old(self).spec_market_price(side))
                ==> r is Err && *final(self) == *old(self),
            old(self).market_fill_in_range(side, quantity.raw(), old(self).spec_market_price(side))
                ==> exists|
                settled: Self,
                outcome: Result<(Vec<LimitOrder<D, Q, U, Pending<Q>>>, Solvency), UnsettledFill>,
            |
                #[trigger] market_order_submitted(
                    *old(self),
                    side,
                    quantity,
                    settled,
                    outcome,
                    *final(self),
                    r,
                ),
    {
        let fill_price = match side {
            Side::Buy => self.market_state.ask(),
            Side::Sell => self.market_state.bid(),
        };
        let ts_ns_executed = self.market_state.current_timestamp_ns();
        let order_id = self.next_order_id;
        let settled = self.settle_filled_market_order(side, quantity, fill_price);
        match settled {
            Err(e) => {
                proof {
                    let price = fill_price.raw();
                    if old(self).market_fill_in_range(side, quantity.raw(), price) {
                        assert(market_settles(*old(self), side, quantity.raw(), price, *self, settled));
                        assert(market_order_submitted(*old(self), side, quantity, *self, settled, *self, Err(e)));
                    }
                }
                Err(e)
            },
            Ok((forced_cancels, solvency)) => {
                let ghost settled_state = *self;
                let ghost cancels = forced_cancels@;
                self.next_order_id.incr();
                let r = Ok(MarketOrderSettlement {
                    order_id,
                    side,
                    quantity,
                    fill_price,
                    ts_ns_executed,
                    forced_cancels,
                    solvency,
                });
                proof {
                    let price = fill_price.raw();
                    assert(market_settles(*old(self), side, quantity.raw(), price, settled_state, settled));
                    assert(market_order_submitted(*old(self), side, quantity, settled_state, settled, *self, r));
                }
                r
            },
        }
    }

    /// A limit order on `side` at `limit_price` is marketable: a buy at or above the ask, a
    /// sell at or below the bid.
    pub open spec fn is_marketable(self, side: Side, limit_price: int) -> bool {
        match side {
            Side::Buy => limit_price >= self.spec_market_state().spec_ask(),
            Side::Sell => limit_price <= self.spec_market_state().spec_bid(),
        }
    }

    /// The book of `side` is full.
    pub open spec fn book_full(self, side: Side) -> bool {
        let books = self.spec_account().spec_active_limit_orders();
        match side {
            Side::Buy => books.spec_bids().spec_orders().len() >= books.spec_bids().spec_capacity(),
            Side::Sell => books.spec_asks().spec_orders().len() >= books.spec_asks().spec_capacity(),
        }
    }

    /// The notional value of the orders of `side` with an order of notional value `notional`
    /// added fits an `i64`.
    pub open spec fn notional_fits(self, side: Side, notional: int) -> bool {
        let books = self.spec_account().spec_active_limit_orders();
        match side {
            Side::Buy => in_i64(books.spec_bids().spec_notional_sum() + notional),
            Side::Sell => in_i64(books.spec_asks().spec_notional_sum() + notional),
        }
    }

    /// `self` is `before` once `order` was submitted as a limit order with the result `r`:
    /// it took the next order id and the current time; a marketable order is rejected, as
    /// it is good till crossing; otherwise it rests in the book of its side unless that book
    /// is full or its notional value no longer fits.
    pub open spec fn limit_order_submitted(
        self,
        before: Self,
        order: LimitOrder<D, Q, U, NewOrder>,
        r: Result<LimitOrder<D, Q, U, Pending<Q>>, SubmitLimitOrderError<D>>,
    ) -> bool {
        &&& (self.spec_next_order_id().0 == before.spec_next_order_id().0 + 1)
        &&& (self.spec_config() == before.spec_config())
        &&& (self.spec_market_state() == before.spec_market_state())
        &&& (self.spec_liquidated_during_fills() == before.spec_liquidated_during_fills())
        &&& (self.spec_limit_order_events() == before.spec_limit_order_events())
        &&& (self.spec_forced_cancels() == before.spec_forced_cancels())
        &&& (self.spec_account().spec_position() == before.spec_account().spec_position())
        &&& (self.spec_account().spec_balances() == before.spec_account().spec_balances())
        &&& (self.spec_account().spec_init_margin_req() == before.spec_account().spec_init_margin_req())
        &&& (self.spec_account().spec_maker_fee() == before.spec_account().spec_maker_fee())
        &&& (r is Err ==> self.spec_account().spec_active_limit_orders().spec_bids() == before.spec_account().spec_active_limit_orders().spec_bids() && self.spec_account().spec_active_limit_orders().spec_asks()
            == before.spec_account().spec_active_limit_orders().spec_asks())
        &&& (before.is_marketable(order.spec_side(), order.spec_limit_price().raw()) ==> (r matches Err(
            SubmitLimitOrderError::GoodTillCrossingRejectedOrder {
                limit_price,
                away_market_quotation_price,
            },
        ) && limit_price == order.spec_limit_price()
            && away_market_quotation_price.raw() == before.spec_market_price(order.spec_side())))
        &&& (!before.is_marketable(order.spec_side(), order.spec_limit_price().raw()) && before.book_full(order.spec_side()) ==> r matches Err(
            SubmitLimitOrderError::MaxNumberOfActiveOrders(_),
        ))
        &&& (!before.is_marketable(order.spec_side(), order.spec_limit_price().raw()) && !before.book_full(order.spec_side()) && !before.notional_fits(
            order.spec_side(),
            order.spec_notional(),
        ) ==> r == Err::<LimitOrder<D, Q, U, Pending<Q>>, SubmitLimitOrderError<D>>(
            SubmitLimitOrderError::NotionalOutOfRange,
        ))
        &&& (!before.is_marketable(order.spec_side(), order.spec_limit_price().raw()) && !before.book_full(order.spec_side()) && before.notional_fits(
            order.spec_side(),
            order.spec_notional(),
        ) ==> (r matches Ok(p) && {
            &&& p.spec_side() == order.spec_side()
            &&& p.spec_limit_price() == order.spec_limit_price()
            &&& p.spec_remaining_quantity() == order.spec_remaining_quantity()
            &&& p.spec_user_order_id() == order.spec_user_order_id()
            &&& p.spec_id() == before.spec_next_order_id()
            &&& p.spec_ts() == before.spec_market_state().spec_current_ts_ns()
            &&& p.spec_filled_quantity().raw() == 0
            &&& p.spec_side() == Side::Buy ==> self.spec_account().spec_active_limit_orders().spec_bids().inserted(
                before.spec_account().spec_active_limit_orders().spec_bids(),
                p,
                Ok(()),
            ) && self.spec_account().spec_active_limit_orders().spec_asks() == before.spec_account().spec_active_limit_orders().spec_asks()
            &&& p.spec_side() == Side::Sell ==> self.spec_account().spec_active_limit_orders().spec_asks().inserted(
                before.spec_account().spec_active_limit_orders().spec_asks(),
                p,
                Ok(()),
            ) && self.spec_account().spec_active_limit_orders().spec_bids() == before.spec_account().spec_active_limit_orders().spec_bids()
        }))
    }

    /// Submit a new limit order: it takes the next order id and the current time. A
    /// marketable order is rejected, as it is good till crossing; otherwise it rests in the
    /// book of its side unless that book is full or its notional value no longer fits.
    pub fn submit_limit_order(&mut self, order: LimitOrder<D, Q, U, NewOrder>) -> (r: Result<
        LimitOrder<D, Q, U, Pending<Q>>,
        SubmitLimitOrderError<D>,
    >)
        requires
            old(self).wf(),
            old(self).spec_next_order_id().0 < u64::MAX,
        ensures
            final(self).wf(),
            final(self).limit_order_submitted(*old(self), order, r),
    {
        let id = self.next_order_id;
        self.next_order_id.incr();
        let meta = ExchangeOrderMeta::new(id, self.market_state.current_timestamp_ns());
        let order = order.into_pending(meta);
        let side = order.side();
        let limit_price = order.limit_price();
        let away = match side {
            Side::Buy => self.market_state.ask(),
            Side::Sell => self.market_state.bid(),
        };
        let marketable = match side {
            Side::Buy => limit_price.mantissa() >= away.mantissa(),
            Side::Sell => limit_price.mantissa() <= away.mantissa(),
        };
        if marketable {
            return Err(
                SubmitLimitOrderError::GoodTillCrossingRejectedOrder {
                    limit_price,
                    away_market_quotation_price: away,
                },
            );
        }
        let (has_room, sum) = match side {
            Side::Buy => {
                let bids = self.account.active_limit_orders().bids();
                (bids.len() < bids.capacity() as usize, bids.notional_sum())
            },
            Side::Sell => {
                let asks = self.account.active_limit_orders().asks();
                (asks.len() < asks.capacity() as usize, asks.notional_sum())
            },
        };
        let remaining = order.remaining_quantity();
        proof {
            self.account.spec_active_limit_orders().spec_bids().lemma_wf();
            self.account.spec_active_limit_orders().spec_asks().lemma_wf();
            Q::PairedCurrency::lemma_convert_nonneg(remaining.raw(), limit_price.raw());
        }
        if has_room {
            let notional = match Q::PairedCurrency::checked_convert_from(
                remaining.mantissa(),
                limit_price,
            ) {
                Some(n) => n,
                None => {
                    return Err(SubmitLimitOrderError::NotionalOutOfRange);
                },
            };
            if sum.mantissa().checked_add(notional.mantissa()).is_none() {
                return Err(SubmitLimitOrderError::NotionalOutOfRange);
            }
        }
        match self.append_limit_order(order) {
            Ok(()) => Ok(order),
            Err(e) => Err(SubmitLimitOrderError::MaxNumberOfActiveOrders(e)),
        }
    }

    /// The resting orders of `side`, the best one last.
    pub open spec fn book_of(self, side: Side) -> Seq<LimitOrder<D, Q, U, Pending<Q>>> {
        match side {
            Side::Buy => self.spec_account().spec_active_limit_orders().spec_bids().spec_orders(),
            Side::Sell => self.spec_account().spec_active_limit_orders().spec_asks().spec_orders(),
        }
    }

    /// `self` is `before` once the resting order `removed` was cancelled by the id
    /// `order_id`.
    pub open spec fn removed_by_cancel(
        self,
        before: Self,
        order_id: OrderId,
        removed: LimitOrder<D, Q, U, Pending<Q>>,
    ) -> bool {
        &&& self.spec_account().spec_active_limit_orders().limit_order_removed(
            before.spec_account().spec_active_limit_orders(),
            CancelBy::OrderId(order_id),
            Ok(removed),
        )
        &&& self.spec_account().spec_position() == before.spec_account().spec_position()
        &&& self.spec_account().spec_balances() == before.spec_account().spec_balances()
        &&& self.spec_account().spec_init_margin_req() == before.spec_account().spec_init_margin_req()
        &&& self.spec_account().spec_maker_fee() == before.spec_account().spec_maker_fee()
        &&& self.spec_config() == before.spec_config()
        &&& self.spec_market_state() == before.spec_market_state()
        &&& self.spec_next_order_id() == before.spec_next_order_id()
        &&& self.spec_liquidated_during_fills() == before.spec_liquidated_during_fills()
        &&& self.spec_limit_order_events() == before.spec_limit_order_events()
        &&& self.spec_forced_cancels() == before.spec_forced_cancels()
    }

    /// `self` is `before` once a resting order was cancelled by the id `order_id`.
    pub open spec fn cancelled_by_id(self, before: Self, order_id: OrderId) -> bool {
        exists|removed: LimitOrder<D, Q, U, Pending<Q>>|
            #[trigger] self.removed_by_cancel(before, order_id, removed)
    }

    /// `self` is `before` after `order_id` was amended to `new_order` with the result `r`:
    /// where no order with that id rests in the book of `new_order`'s side, the amendment is
    /// refused, as no longer active where the id was given out already; otherwise see
    /// `amended_at`.
    pub open spec fn amended_from(
        self,
        before: Self,
        order_id: OrderId,
        new_order: LimitOrder<D, Q, U, NewOrder>,
        r: Result<LimitOrder<D, Q, U, Pending<Q>>, AmendLimitOrderError<D>>,
    ) -> bool {
        if !has_id(before.book_of(new_order.spec_side()), order_id) {
            &&& self == before
            &&& r == Err::<LimitOrder<D, Q, U, Pending<Q>>, AmendLimitOrderError<D>>(
                if order_id.0 < before.spec_next_order_id().0 {
                    AmendLimitOrderError::OrderNoLongerActive
                } else {
                    AmendLimitOrderError::OrderIdNotFound { order_id }
                },
            )
        } else {
            amended_existing(before, order_id, new_order, self, r)
        }
    }

    /// Amend the resting limit order `existing_order_id`, assumed to be on the side of
    /// `new_order`. The change of the quantity applies to what of the order remains: where
    /// nothing would remain the order is cancelled; otherwise it is cancelled and
    /// `new_order`, with the remaining quantity, is submitted in its place and takes a new
    /// order id. See `amended_from` for the whole outcome.
    pub fn amend_limit_order(
        &mut self,
        existing_order_id: OrderId,
        new_order: LimitOrder<D, Q, U, NewOrder>,
    ) -> (r: Result<LimitOrder<D, Q, U, Pending<Q>>, AmendLimitOrderError<D>>)
        requires
            old(self).wf(),
            old(self).spec_next_order_id().0 < u64::MAX,
        ensures
            final(self).wf(),
            final(self).amended_from(*old(self), existing_order_id, new_order, r),
    {
        let ghost before = *self;
        let ghost requested = new_order;
        let mut new_order = new_order;
        let side = new_order.side();
        let existing = match self.account.active_limit_orders().get_by_id(existing_order_id, side) {
            Some(order) => order.clone(),
            None => {
                if existing_order_id.0 < self.next_order_id.0 {
                    return Err(AmendLimitOrderError::OrderNoLongerActive);
                }
                return Err(AmendLimitOrderError::OrderIdNotFound { order_id: existing_order_id });
            },
        };
        let ghost book = before.book_of(side);
        let ghost idx = choose|idx: int| first_with_id(book, existing_order_id, idx) && existing == book[idx];
        proof {
            assert(first_with_id(book, existing_order_id, idx) && existing == book[idx]);
            assert(has_id(book, existing_order_id));
        }
        let filled = existing.filled_quantity().mantissa();
        let remaining = new_order.remaining_quantity().mantissa();
        let leaves = match remaining.checked_sub(filled) {
            Some(v) => v,
            None => {
                proof {
                    assert(amended_at(before, existing, requested, *self, Err(AmendLimitOrderError::QuantityOutOfRange)));
                }
                return Err(AmendLimitOrderError::QuantityOutOfRange);
            },
        };
        if leaves <= 0 {
            let cancelled = self.cancel_limit_order(CancelBy::OrderId(existing_order_id));
            proof {
                let removed = cancelled->Ok_0;
                assert(self.removed_by_cancel(before, existing_order_id, removed));
                assert(self.cancelled_by_id(before, existing_order_id));
                assert(amended_at(before, existing, requested, *self, Err(AmendLimitOrderError::AmendQtyAlreadyFilled)));
            }
            return Err(AmendLimitOrderError::AmendQtyAlreadyFilled);
        }
        new_order.set_remaining_quantity(Q::from_mantissa(leaves));
        let cancelled = self.cancel_limit_order(CancelBy::OrderId(existing_order_id));
        let ghost after_cancel = *self;
        proof {
            let removed = cancelled->Ok_0;
            assert(self.removed_by_cancel(before, existing_order_id, removed));
            assert(after_cancel.cancelled_by_id(before, existing_order_id));
        }
        let submitted = self.submit_limit_order(new_order);
        let r = match submitted {
            Ok(p) => Ok(p),
            Err(e) => Err(AmendLimitOrderError::SubmitLimitOrder(e)),
        };
        proof {
            assert(replaced_with(before, existing_order_id, requested, leaves as int, after_cancel, new_order, submitted, *self, r));
            assert(replaced(before, existing_order_id, requested, leaves as int, *self, r));
            assert(amended_at(before, existing, requested, *self, r));
        }
        r
    }
}

} // verus!
