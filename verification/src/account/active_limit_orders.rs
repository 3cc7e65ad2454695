//! The active limit orders of a user, split into bids and asks.

use vstd::prelude::*;

use crate::account::bids_asks::{Asks, Bids};
use crate::account::position::Position;
use crate::account::sorted_orders::{
    first_with_id, has_id, has_user_id, insert_then_remove_by_id_restores, SortedOrders,
};
use crate::currency::{sum_of, Currency, Decimal, Monetary};
use crate::decimal::{in_i64, scale, MAX_DECIMALS};
use crate::types::{
    CancelBy, Filled, LimitOrder, MaxNumberOfActiveOrders, OrderId, OrderIdNotFound, Pending, Side,
    TimestampNs, UserOrderId,
};
use crate::utils::{order_margin, spec_order_margin};

verus! {

/// The datatype that holds the active limit orders of a user.
///
/// Generics:
/// - `D`: The constant decimal precision of the currencies.
/// - `Q`: Either `BaseCurrency` or `QuoteCurrency` depending on the futures type.
/// - `U`: The type of user order id to use. Set to `NoUserOrderId` if you don't need one.
#[derive(Debug, Clone)]
pub struct ActiveLimitOrders<const D: u8, Q: Currency<D>, U: UserOrderId> {
    /// Stores all the active buy orders in ascending price priority.
    /// Best bid with oldest timestamp is the last element.
    bids: SortedOrders<D, Q, U, Bids>,
    /// Stores all the active sell orders in descending price priority.
    /// Best ask with oldest timestamp is the last element.
    asks: SortedOrders<D, Q, U, Asks>,
}

impl<const D: u8, Q: Currency<D>, U: UserOrderId> ActiveLimitOrders<D, Q, U> {
    pub closed spec fn spec_bids(self) -> SortedOrders<D, Q, U, Bids> {
        self.bids
    }

    pub closed spec fn spec_asks(self) -> SortedOrders<D, Q, U, Asks> {
        self.asks
    }

    /// Both books are well formed.
    pub open spec fn wf(self) -> bool {
        self.spec_bids().wf() && self.spec_asks().wf()
    }

    /// The number of active orders.
    pub open spec fn spec_num_active(self) -> nat {
        self.spec_bids().spec_orders().len() + self.spec_asks().spec_orders().len()
    }

    /// The order margin of the resting orders next to `position`.
    pub open spec fn spec_order_margin(self, init_margin_req: int, position: Position<D, Q>) -> int {
        spec_order_margin(
            D,
            self.spec_bids().spec_notional_sum(),
            self.spec_asks().spec_notional_sum(),
            position.spec_quantity(),
            position.spec_notional(),
            init_margin_req,
        )
    }

    /// Whether every intermediate value of the order margin next to `position` fits an `i64`,
    /// if the buy and sell notional values were `bids_notional` and `asks_notional`.
    pub open spec fn order_margin_in_range(
        bids_notional: int,
        asks_notional: int,
        init_margin_req: int,
        position: Position<D, Q>,
    ) -> bool {
        &&& position.wf()
        &&& position.spec_quantity() != i64::MIN
        &&& in_i64(position.spec_notional())
        &&& in_i64(bids_notional - position.spec_notional())
        &&& in_i64(asks_notional - position.spec_notional())
        &&& in_i64(
            spec_order_margin(
                D,
                bids_notional,
                asks_notional,
                position.spec_quantity(),
                position.spec_notional(),
                init_margin_req,
            ),
        )
    }

    proof fn lemma_wf(self)
        requires
            self.wf(),
        ensures
            0 <= self.spec_bids().spec_notional_sum() <= i64::MAX,
            0 <= self.spec_asks().spec_notional_sum() <= i64::MAX,
    {
        self.spec_bids().lemma_wf();
        self.spec_asks().lemma_wf();
    }

    /// Create a new order book instance with a maximum capacity for bids and asks.
    /// The capacity must be non zero as we need at least space for one limit order.
    pub fn with_capacity(max_active_orders_per_side: u16) -> (r: Self)
        requires
            max_active_orders_per_side > 0,
            D <= MAX_DECIMALS,
        ensures
            r.wf(),
            r.spec_bids().spec_orders().len() == 0,
            r.spec_asks().spec_orders().len() == 0,
            r.spec_bids().spec_capacity() == max_active_orders_per_side,
            r.spec_asks().spec_capacity() == max_active_orders_per_side,
    {
        ActiveLimitOrders {
            bids: SortedOrders::with_capacity(max_active_orders_per_side),
            asks: SortedOrders::with_capacity(max_active_orders_per_side),
        }
    }

    /// The active buy orders.
    pub fn bids(&self) -> (r: &SortedOrders<D, Q, U, Bids>)
        ensures
            *r == self.spec_bids(),
    {
        &self.bids
    }

    /// The active sell orders.
    pub fn asks(&self) -> (r: &SortedOrders<D, Q, U, Asks>)
        ensures
            *r == self.spec_asks(),
    {
        &self.asks
    }

    /// Get the number of active limit orders.
    pub fn num_active(&self) -> (r: usize)
        requires
            self.wf(),
        ensures
            r == self.spec_num_active(),
    {
        self.bids.len() + self.asks.len()
    }

    /// `true` is there are no active orders.
    pub fn is_empty(&self) -> (r: bool)
        ensures
            r == (self.spec_num_active() == 0),
    {
        self.bids.is_empty() && self.asks.is_empty()
    }

    /// The best bid has the highest limit price of all buy orders and the oldest timestamp.
    pub fn best_bid(&self) -> (r: Option<&LimitOrder<D, Q, U, Pending<Q>>>)
        ensures
            r is None <==> self.spec_bids().spec_orders().len() == 0,
            r is Some ==> *r->0 == self.spec_bids().spec_orders().last(),
    {
        self.bids.best()
    }

    /// The best ask has the lowest limit price of all sell orders and the oldest timestamp.
    pub fn best_ask(&self) -> (r: Option<&LimitOrder<D, Q, U, Pending<Q>>>)
        ensures
            r is None <==> self.spec_asks().spec_orders().len() == 0,
            r is Some ==> *r->0 == self.spec_asks().spec_orders().last(),
    {
        self.asks.best()
    }

    /// Try to insert a new `LimitOrder` into the book of its side.
    /// Returns an error if the maximum capacity of that side is reached.
    pub fn try_insert(&mut self, order: LimitOrder<D, Q, U, Pending<Q>>) -> (r: Result<
        (),
        MaxNumberOfActiveOrders,
    >)
        requires
            old(self).wf(),
            order.spec_side() == Side::Buy && old(self).spec_bids().spec_orders().len() < old(
                self).spec_bids().spec_capacity() ==> in_i64(
                old(self).spec_bids().spec_notional_sum() + order.spec_notional(),
            ),
            order.spec_side() == Side::Sell && old(self).spec_asks().spec_orders().len() < old(
                self).spec_asks().spec_capacity() ==> in_i64(
                old(self).spec_asks().spec_notional_sum() + order.spec_notional(),
            ),
        ensures
            final(self).wf(),
            order.spec_side() == Side::Buy ==> final(self).spec_bids().inserted(
                old(self).spec_bids(),
                order,
                r,
            ) && final(self).spec_asks() == old(self).spec_asks(),
            order.spec_side() == Side::Sell ==> final(self).spec_asks().inserted(
                old(self).spec_asks(),
                order,
                r,
            ) && final(self).spec_bids() == old(self).spec_bids(),
    {
        match order.side() {
            Side::Buy => self.bids.try_insert(order),
            Side::Sell => self.asks.try_insert(order),
        }
    }

    /// The order margin of the resting orders next to `position`.
    pub fn order_margin(&self, init_margin_req: Decimal<D>, position: &Position<D, Q>) -> (r:
        Q::PairedCurrency)
        requires
            self.wf(),
            Self::order_margin_in_range(
                self.spec_bids().spec_notional_sum(),
                self.spec_asks().spec_notional_sum(),
                init_margin_req.raw(),
                *position,
            ),
        ensures
            r.raw() == self.spec_order_margin(init_margin_req.raw(), *position),
    {
        order_margin(self.bids.notional_sum(), self.asks.notional_sum(), init_margin_req, position)
    }

    /// Get the order margin if a new order were to be added.
    pub fn order_margin_with_order(
        &self,
        new_order: &LimitOrder<D, Q, U, Pending<Q>>,
        init_margin_req: Decimal<D>,
        position: &Position<D, Q>,
    ) -> (r: Q::PairedCurrency)
        requires
            self.wf(),
            0 < init_margin_req.raw() <= scale(D),
            new_order.spec_side() == Side::Buy ==> in_i64(
                self.spec_bids().spec_notional_sum() + new_order.spec_notional(),
            ) && Self::order_margin_in_range(
                self.spec_bids().spec_notional_sum() + new_order.spec_notional(),
                self.spec_asks().spec_notional_sum(),
                init_margin_req.raw(),
                *position,
            ),
            new_order.spec_side() == Side::Sell ==> in_i64(
                self.spec_asks().spec_notional_sum() + new_order.spec_notional(),
            ) && Self::order_margin_in_range(
                self.spec_bids().spec_notional_sum(),
                self.spec_asks().spec_notional_sum() + new_order.spec_notional(),
                init_margin_req.raw(),
                *position,
            ),
        ensures
            new_order.spec_side() == Side::Buy ==> r.raw() == spec_order_margin(
                D,
                self.spec_bids().spec_notional_sum() + new_order.spec_notional(),
                self.spec_asks().spec_notional_sum(),
                position.spec_quantity(),
                position.spec_notional(),
                init_margin_req.raw(),
            ),
            new_order.spec_side() == Side::Sell ==> r.raw() == spec_order_margin(
                D,
                self.spec_bids().spec_notional_sum(),
                self.spec_asks().spec_notional_sum() + new_order.spec_notional(),
                position.spec_quantity(),
                position.spec_notional(),
                init_margin_req.raw(),
            ),
    {
        proof {
            self.lemma_wf();
            new_order.spec_limit_price().lemma_raw_range();
        }
        let mut buy_notional = self.bids.notional_sum();
        let mut sell_notional = self.asks.notional_sum();
        let price = new_order.limit_price();
        let quantity = new_order.remaining_quantity();
        proof {
            crate::account::sorted_orders::lemma_order_notional_nonneg(*new_order);
        }
        let new_notional = new_order.notional();
        match new_order.side() {
            Side::Buy => {
                buy_notional = sum_of(buy_notional, new_notional);
            },
            Side::Sell => {
                sell_notional = sum_of(sell_notional, new_notional);
            },
        }
        order_margin(buy_notional, sell_notional, init_margin_req, position)
    }

    /// Get a `LimitOrder` by the given `OrderId` if any.
    pub fn get_by_id(&self, order_id: OrderId, side: Side) -> (r: Option<
        &LimitOrder<D, Q, U, Pending<Q>>,
    >)
        ensures
            side == Side::Buy ==> (r is None <==> !has_id(self.spec_bids().spec_orders(), order_id)),
            side == Side::Sell ==> (r is None <==> !has_id(self.spec_asks().spec_orders(), order_id)),
            side == Side::Buy && r is Some ==> self.spec_bids().spec_orders().contains(*r->0)
                && r->0.spec_id() == order_id,
            side == Side::Sell && r is Some ==> self.spec_asks().spec_orders().contains(*r->0)
                && r->0.spec_id() == order_id,
            side == Side::Buy && r is Some ==> exists|idx: int|
                first_with_id(self.spec_bids().spec_orders(), order_id, idx) && *r->0
                    == self.spec_bids().spec_orders()[idx],
            side == Side::Sell && r is Some ==> exists|idx: int|
                first_with_id(self.spec_asks().spec_orders(), order_id, idx) && *r->0
                    == self.spec_asks().spec_orders()[idx],
    {
        match side {
            Side::Buy => self.bids.get_by_id(order_id),
            Side::Sell => self.asks.get_by_id(order_id),
        }
    }

    /// Remove an active `LimitOrder` based on its order id: bids are searched first.
    pub fn remove_by_id(&mut self, id: OrderId) -> (r: Option<LimitOrder<D, Q, U, Pending<Q>>>)
        requires
            old(self).wf(),
        ensures
            final(self).wf(),
            has_id(old(self).spec_bids().spec_orders(), id) ==> final(self).spec_bids().removed_by_id(
                old(self).spec_bids(),
                id,
                r,
            ) && final(self).spec_asks() == old(self).spec_asks(),
            !has_id(old(self).spec_bids().spec_orders(), id) ==> final(self).spec_asks().removed_by_id(
                old(self).spec_asks(),
                id,
                r,
            ) && final(self).spec_bids() == old(self).spec_bids(),
    {
        if let Some(order) = self.bids.remove_by_id(id) {
            return Some(order);
        }
        self.asks.remove_by_id(id)
    }

    /// Remove an active `LimitOrder` based on its user order id: bids are searched first.
    pub fn remove_by_user_id(&mut self, uid: U) -> (r: Option<LimitOrder<D, Q, U, Pending<Q>>>)
        requires
            old(self).wf(),
        ensures
            final(self).wf(),
            has_user_id(old(self).spec_bids().spec_orders(), uid) ==> final(
                self).spec_bids().removed_by_user_id(old(self).spec_bids(), uid, r) && final(
                self).spec_asks() == old(self).spec_asks(),
            !has_user_id(old(self).spec_bids().spec_orders(), uid) ==> final(
                self).spec_asks().removed_by_user_id(old(self).spec_asks(), uid, r) && final(
                self).spec_bids() == old(self).spec_bids(),
    {
        if let Some(order) = self.bids.remove_by_user_id(uid) {
            return Some(order);
        }
        self.asks.remove_by_user_id(uid)
    }

    /// `self` is `before` after `remove_limit_order(by)` returned `r`: the order is removed
    /// from the book of its side by `removed_by_id` or `removed_by_user_id`, and an unknown
    /// identifier is refused with the books unchanged.
    pub open spec fn limit_order_removed(
        self,
        before: Self,
        by: CancelBy<U>,
        r: Result<LimitOrder<D, Q, U, Pending<Q>>, OrderIdNotFound<U>>,
    ) -> bool {
        &&& self.wf()
        &&& by matches CancelBy::OrderId(id) ==> {
            &&& r is Err <==> !has_id(before.spec_bids().spec_orders(), id) && !has_id(
                before.spec_asks().spec_orders(),
                id,
            )
            &&& r is Err ==> r == Err::<LimitOrder<D, Q, U, Pending<Q>>, OrderIdNotFound<U>>(
                OrderIdNotFound::OrderId(id),
            ) && self == before
            &&& has_id(before.spec_bids().spec_orders(), id) ==> self.spec_bids().removed_by_id(
                before.spec_bids(),
                id,
                r.ok(),
            ) && self.spec_asks() == before.spec_asks()
            &&& !has_id(before.spec_bids().spec_orders(), id) ==> self.spec_asks().removed_by_id(
                before.spec_asks(),
                id,
                r.ok(),
            ) && self.spec_bids() == before.spec_bids()
        }
        &&& by matches CancelBy::UserOrderId(uid) ==> {
            &&& r is Err <==> !has_user_id(before.spec_bids().spec_orders(), uid) && !has_user_id(
                before.spec_asks().spec_orders(),
                uid,
            )
            &&& r is Err ==> r == Err::<LimitOrder<D, Q, U, Pending<Q>>, OrderIdNotFound<U>>(
                OrderIdNotFound::UserOrderId(uid),
            ) && self == before
            &&& has_user_id(before.spec_bids().spec_orders(), uid) ==> self.spec_bids().removed_by_user_id(
                before.spec_bids(),
                uid,
                r.ok(),
            ) && self.spec_asks() == before.spec_asks()
            &&& !has_user_id(before.spec_bids().spec_orders(), uid) ==> self.spec_asks().removed_by_user_id(
                before.spec_asks(),
                uid,
                r.ok(),
            ) && self.spec_bids() == before.spec_bids()
        }
    }

    /// Remove an order from being tracked for margin purposes.
    pub fn remove_limit_order(&mut self, by: CancelBy<U>) -> (r: Result<
        LimitOrder<D, Q, U, Pending<Q>>,
        OrderIdNotFound<U>,
    >)
        requires
            old(self).wf(),
        ensures
            final(self).limit_order_removed(*old(self), by, r),
    {
        match by {
            CancelBy::OrderId(order_id) => match self.remove_by_id(order_id) {
                Some(order) => Ok(order),
                None => Err(OrderIdNotFound::OrderId(order_id)),
            },
            CancelBy::UserOrderId(user_order_id) => match self.remove_by_user_id(user_order_id) {
                Some(order) => Ok(order),
                None => Err(OrderIdNotFound::UserOrderId(user_order_id)),
            },
        }
    }

    /// Fill the best limit order of `side`, which reduces the order margin.
    pub fn fill_best(&mut self, side: Side, filled_quantity: Q, ts_ns: TimestampNs) -> (r: Option<
        LimitOrder<D, Q, U, Filled<Q>>,
    >)
        requires
            old(self).wf(),
            side == Side::Buy && old(self).spec_bids().spec_orders().len() > 0 ==> 0
                < filled_quantity.raw()
                <= old(self).spec_bids().spec_orders().last().spec_remaining_quantity().raw()
                && in_i64(
                old(self).spec_bids().spec_orders().last().spec_filled_quantity().raw()
                    + filled_quantity.raw(),
            ),
            side == Side::Sell && old(self).spec_asks().spec_orders().len() > 0 ==> 0
                < filled_quantity.raw()
                <= old(self).spec_asks().spec_orders().last().spec_remaining_quantity().raw()
                && in_i64(
                old(self).spec_asks().spec_orders().last().spec_filled_quantity().raw()
                    + filled_quantity.raw(),
            ),
        ensures
            final(self).wf(),
            side == Side::Buy ==> final(self).spec_bids().filled_best(
                old(self).spec_bids(),
                filled_quantity.raw(),
                ts_ns,
                r,
            ) && final(self).spec_asks() == old(self).spec_asks(),
            side == Side::Sell ==> final(self).spec_asks().filled_best(
                old(self).spec_asks(),
                filled_quantity.raw(),
                ts_ns,
                r,
            ) && final(self).spec_bids() == old(self).spec_bids(),
    {
        match side {
            Side::Buy => self.bids.fill_best(filled_quantity, ts_ns),
            Side::Sell => self.asks.fill_best(filled_quantity, ts_ns),
        }
    }
}


/// Cancelling by its id an order that was just inserted gives back that order and leaves
/// both books as they were before the insertion, where no active order had that id.
pub proof fn insert_then_cancel_by_id_restores<const D: u8, Q: Currency<D>, U: UserOrderId>(
    before: ActiveLimitOrders<D, Q, U>,
    inserted: ActiveLimitOrders<D, Q, U>,
    cancelled: ActiveLimitOrders<D, Q, U>,
    order: LimitOrder<D, Q, U, Pending<Q>>,
    r: Result<LimitOrder<D, Q, U, Pending<Q>>, OrderIdNotFound<U>>,
)
    requires
        before.wf(),
        !has_id(before.spec_bids().spec_orders(), order.spec_id()),
        !has_id(before.spec_asks().spec_orders(), order.spec_id()),
        order.spec_side() == Side::Buy ==> inserted.spec_bids().inserted(
            before.spec_bids(),
            order,
            Ok(()),
        ) && inserted.spec_asks() == before.spec_asks(),
        order.spec_side() == Side::Sell ==> inserted.spec_asks().inserted(
            before.spec_asks(),
            order,
            Ok(()),
        ) && inserted.spec_bids() == before.spec_bids(),
        cancelled.limit_order_removed(inserted, CancelBy::OrderId(order.spec_id()), r),
    ensures
        r == Ok::<LimitOrder<D, Q, U, Pending<Q>>, OrderIdNotFound<U>>(order),
        cancelled.spec_bids().spec_orders() == before.spec_bids().spec_orders(),
        cancelled.spec_asks().spec_orders() == before.spec_asks().spec_orders(),
        cancelled.spec_bids().spec_notional_sum() == before.spec_bids().spec_notional_sum(),
        cancelled.spec_asks().spec_notional_sum() == before.spec_asks().spec_notional_sum(),
{
    let id = order.spec_id();
    if order.spec_side() == Side::Buy {
        let b = inserted.spec_bids().spec_orders();
        let idx = choose|idx: int|
            crate::account::sorted_orders::insertion_point::<D, Q, U, Bids>(
                before.spec_bids().spec_orders(),
                order,
                idx,
            ) && b == before.spec_bids().spec_orders().insert(idx, order);
        assert(b[idx] == order);
        assert(has_id(b, id));
        insert_then_remove_by_id_restores(
            before.spec_bids(),
            inserted.spec_bids(),
            cancelled.spec_bids(),
            order,
            r.ok(),
        );
    } else {
        let a = inserted.spec_asks().spec_orders();
        let idx = choose|idx: int|
            crate::account::sorted_orders::insertion_point::<D, Q, U, Asks>(
                before.spec_asks().spec_orders(),
                order,
                idx,
            ) && a == before.spec_asks().spec_orders().insert(idx, order);
        assert(a[idx] == order);
        assert(has_id(a, id));
        insert_then_remove_by_id_restores(
            before.spec_asks(),
            inserted.spec_asks(),
            cancelled.spec_asks(),
            order,
            r.ok(),
        );
    }
}


/// `next` is `book` after one change of the resting orders: the accepted insertion of
/// `order` where `insert`, otherwise the successful cancellation of `order` by `by`.
pub open spec fn book_changed<const D: u8, Q: Currency<D>, U: UserOrderId>(
    next: ActiveLimitOrders<D, Q, U>,
    book: ActiveLimitOrders<D, Q, U>,
    insert: bool,
    order: LimitOrder<D, Q, U, Pending<Q>>,
    by: CancelBy<U>,
) -> bool {
    if insert {
        &&& order.spec_side() == Side::Buy ==> next.spec_bids().inserted(book.spec_bids(), order, Ok(()))
            && next.spec_asks() == book.spec_asks()
        &&& order.spec_side() == Side::Sell ==> next.spec_asks().inserted(book.spec_asks(), order, Ok(()))
            && next.spec_bids() == book.spec_bids()
    } else {
        next.limit_order_removed(book, by, Ok(order))
    }
}

/// The number of insertions among the changes.
pub open spec fn num_insertions(inserts: Seq<bool>) -> nat
    decreases inserts.len(),
{
    if inserts.len() == 0 {
        0
    } else {
        num_insertions(inserts.drop_last()) + if inserts.last() {
            1nat
        } else {
            0nat
        }
    }
}

/// One accepted insertion adds one active order, one successful cancellation removes one.
pub proof fn book_change_counts<const D: u8, Q: Currency<D>, U: UserOrderId>(
    next: ActiveLimitOrders<D, Q, U>,
    book: ActiveLimitOrders<D, Q, U>,
    insert: bool,
    order: LimitOrder<D, Q, U, Pending<Q>>,
    by: CancelBy<U>,
)
    requires
        book.wf(),
        book_changed(next, book, insert, order, by),
    ensures
        next.wf(),
        next.spec_num_active() == book.spec_num_active() + if insert {
            1int
        } else {
            -1int
        },
{
    if insert {
        if order.spec_side() == Side::Buy {
            let idx = choose|idx: int|
                crate::account::sorted_orders::insertion_point::<D, Q, U, Bids>(
                    book.spec_bids().spec_orders(),
                    order,
                    idx,
                ) && next.spec_bids().spec_orders() == book.spec_bids().spec_orders().insert(idx, order);
            assert(book.spec_bids().spec_orders().len() < book.spec_bids().spec_capacity());
        } else {
            let idx = choose|idx: int|
                crate::account::sorted_orders::insertion_point::<D, Q, U, Asks>(
                    book.spec_asks().spec_orders(),
                    order,
                    idx,
                ) && next.spec_asks().spec_orders() == book.spec_asks().spec_orders().insert(idx, order);
            assert(book.spec_asks().spec_orders().len() < book.spec_asks().spec_capacity());
        }
    } else {
        match by {
            CancelBy::OrderId(id) => {
                if has_id(book.spec_bids().spec_orders(), id) {
                    let idx = choose|idx: int|
                        first_with_id(book.spec_bids().spec_orders(), id, idx)
                            && next.spec_bids().spec_orders() == book.spec_bids().spec_orders().remove(idx)
                            && Some(order) == Some(book.spec_bids().spec_orders()[idx])
                            && next.spec_bids().spec_notional_sum() == book.spec_bids().spec_notional_sum()
                            - book.spec_bids().spec_orders()[idx].spec_notional();
                } else {
                    let idx = choose|idx: int|
                        first_with_id(book.spec_asks().spec_orders(), id, idx)
                            && next.spec_asks().spec_orders() == book.spec_asks().spec_orders().remove(idx)
                            && Some(order) == Some(book.spec_asks().spec_orders()[idx])
                            && next.spec_asks().spec_notional_sum() == book.spec_asks().spec_notional_sum()
                            - book.spec_asks().spec_orders()[idx].spec_notional();
                }
            },
            CancelBy::UserOrderId(uid) => {
                if has_user_id(book.spec_bids().spec_orders(), uid) {
                    let idx = choose|idx: int|
                        crate::account::sorted_orders::first_with_user_id(book.spec_bids().spec_orders(), uid, idx)
                            && next.spec_bids().spec_orders() == book.spec_bids().spec_orders().remove(idx)
                            && Some(order) == Some(book.spec_bids().spec_orders()[idx])
                            && next.spec_bids().spec_notional_sum() == book.spec_bids().spec_notional_sum()
                            - book.spec_bids().spec_orders()[idx].spec_notional();
                } else {
                    let idx = choose|idx: int|
                        crate::account::sorted_orders::first_with_user_id(book.spec_asks().spec_orders(), uid, idx)
                            && next.spec_asks().spec_orders() == book.spec_asks().spec_orders().remove(idx)
                            && Some(order) == Some(book.spec_asks().spec_orders()[idx])
                            && next.spec_asks().spec_notional_sum() == book.spec_asks().spec_notional_sum()
                            - book.spec_asks().spec_orders()[idx].spec_notional();
                }
            },
        }
    }
}

/// After a sequence of accepted insertions and successful cancellations, where
/// `books[k + 1]` follows `books[k]` by the change `k`, the number of active orders is the
/// number at the start plus the insertions less the cancellations.
pub proof fn active_orders_count_changes<const D: u8, Q: Currency<D>, U: UserOrderId>(
    books: Seq<ActiveLimitOrders<D, Q, U>>,
    inserts: Seq<bool>,
    orders: Seq<LimitOrder<D, Q, U, Pending<Q>>>,
    bys: Seq<CancelBy<U>>,
)
    requires
        books.len() == inserts.len() + 1,
        orders.len() == inserts.len(),
        bys.len() == inserts.len(),
        books[0].wf(),
        forall|k: int|
            0 <= k < inserts.len() ==> book_changed(
                books[k + 1],
                books[k],
                #[trigger] inserts[k],
                orders[k],
                bys[k],
            ),
    ensures
        books.last().wf(),
        books.last().spec_num_active() == books[0].spec_num_active() + num_insertions(inserts)
            - (inserts.len() - num_insertions(inserts)),
    decreases inserts.len(),
{
    if inserts.len() > 0 {
        let n = inserts.len() - 1;
        let prefix = books.drop_last();
        assert forall|k: int| 0 <= k < inserts.drop_last().len() implies book_changed(
            prefix[k + 1],
            prefix[k],
            #[trigger] inserts.drop_last()[k],
            orders.drop_last()[k],
            bys.drop_last()[k],
        ) by {
            assert(inserts.drop_last()[k] == inserts[k]);
            assert(book_changed(books[k + 1], books[k], inserts[k], orders[k], bys[k]));
        }
        active_orders_count_changes(prefix, inserts.drop_last(), orders.drop_last(), bys.drop_last());
        assert(book_changed(books[n + 1], books[n], inserts[n], orders[n], bys[n]));
        book_change_counts(books[n + 1], books[n], inserts[n], orders[n], bys[n]);
    }
}

} // verus!
