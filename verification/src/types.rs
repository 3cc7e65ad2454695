//! Order types: sides, identifiers, timestamps and limit orders in their life cycle
//! `NewOrder` -> `Pending` -> `Filled`.

use vstd::prelude::*;

use crate::currency::{
    diff_of, spec_notional_of, sum_of, Currency, MarginCurrency, Monetary, QuoteCurrency,
};
use crate::decimal::{in_i64, MAX_DECIMALS};
use crate::errors::OrderError;

verus! {

/// The side of an order.
#[derive(Debug, Clone, Copy, PartialEq, Eq, Structural, Hash)]
pub enum Side {
    /// Buy side.
    Buy,
    /// Sell side.
    Sell,
}

impl Side {
    /// The opposite side.
    pub fn inverted(self) -> (r: Side)
        ensures
            r != self,
    {
        match self {
            Side::Buy => Side::Sell,
            Side::Sell => Side::Buy,
        }
    }
}

/// The identifier an exchange assigns to an order.
#[derive(Debug, Clone, Copy, PartialEq, Eq, Structural, Hash, Default, PartialOrd, Ord)]
pub struct OrderId(pub u64);

impl From<u64> for OrderId {
    fn from(v: u64) -> (r: Self) {
        OrderId(v)
    }
}

impl vstd::std_specs::convert::FromSpecImpl<u64> for OrderId {
    open spec fn obeys_from_spec() -> bool {
        true
    }

    open spec fn from_spec(v: u64) -> Self {
        OrderId(v)
    }
}

impl OrderId {
    /// The next identifier.
    pub fn incr(&mut self)
        requires
            old(self).0 < u64::MAX,
        ensures
            final(self).0 == old(self).0 + 1,
    {
        self.0 = self.0 + 1;
    }
}

/// A timestamp in nanoseconds.
#[derive(Debug, Clone, Copy, PartialEq, Eq, Structural, Hash, Default, PartialOrd, Ord)]
pub struct TimestampNs(pub i64);

impl From<i64> for TimestampNs {
    fn from(v: i64) -> (r: Self) {
        TimestampNs(v)
    }
}

impl vstd::std_specs::convert::FromSpecImpl<i64> for TimestampNs {
    open spec fn obeys_from_spec() -> bool {
        true
    }

    open spec fn from_spec(v: i64) -> Self {
        TimestampNs(v)
    }
}

/// An identifier the user gives an order.
pub trait UserOrderId: Copy + Sized + core::fmt::Debug {
    /// `true` if both identifiers are the same.
    fn same_as(&self, other: &Self) -> (r: bool)
        ensures
            r == (*self == *other),
    ;
}

/// The user order identifier of users who do not identify their orders.
#[derive(Debug, Clone, Copy, PartialEq, Eq, Structural, Hash, Default)]
pub struct NoUserOrderId;

impl UserOrderId for NoUserOrderId {
    fn same_as(&self, other: &Self) -> (r: bool) {
        true
    }
}

impl UserOrderId for i32 {
    fn same_as(&self, other: &Self) -> (r: bool) {
        *self == *other
    }
}

impl UserOrderId for i64 {
    fn same_as(&self, other: &Self) -> (r: bool) {
        *self == *other
    }
}

impl UserOrderId for u32 {
    fn same_as(&self, other: &Self) -> (r: bool) {
        *self == *other
    }
}

impl UserOrderId for u64 {
    fn same_as(&self, other: &Self) -> (r: bool) {
        *self == *other
    }
}

/// The information an exchange attaches to an order it accepted.
#[derive(Debug, Clone, Copy, PartialEq, Eq, Structural, Hash, Default)]
pub struct ExchangeOrderMeta {
    id: OrderId,
    ts_exchange_received: TimestampNs,
}

impl ExchangeOrderMeta {
    /// Create a new instance.
    pub fn new(id: OrderId, ts_exchange_received: TimestampNs) -> (r: Self)
        ensures
            r.spec_id() == id,
            r.spec_ts() == ts_exchange_received,
    {
        ExchangeOrderMeta { id, ts_exchange_received }
    }

    pub closed spec fn spec_id(self) -> OrderId {
        self.id
    }

    pub closed spec fn spec_ts(self) -> TimestampNs {
        self.ts_exchange_received
    }

    /// The order id.
    pub fn id(&self) -> (r: OrderId)
        ensures
            r == self.spec_id(),
    {
        self.id
    }

    /// The timestamp at which the exchange received the order.
    pub fn ts_exchange_received(&self) -> (r: TimestampNs)
        ensures
            r == self.spec_ts(),
    {
        self.ts_exchange_received
    }
}

/// The state of an order which was not yet submitted.
#[derive(Debug, Clone, Copy, PartialEq, Eq, Structural, Hash, Default)]
pub struct NewOrder;

/// The state of an order which rests in the book of the exchange.
#[derive(Debug, Clone, Copy, PartialEq, Eq)]
pub struct Pending<Q> {
    meta: ExchangeOrderMeta,
    filled_quantity: Q,
}

/// The state of an order which was fully filled.
#[derive(Debug, Clone, Copy, PartialEq, Eq)]
pub struct Filled<Q> {
    meta: ExchangeOrderMeta,
    ts_ns_executed: TimestampNs,
    filled_quantity: Q,
}

impl<Q> Pending<Q> {
    pub closed spec fn spec_meta(self) -> ExchangeOrderMeta {
        self.meta
    }

    pub closed spec fn spec_filled_quantity(self) -> Q {
        self.filled_quantity
    }

    /// The exchange information of the order.
    pub fn meta(&self) -> (r: &ExchangeOrderMeta)
        ensures
            *r == self.spec_meta(),
    {
        &self.meta
    }
}

impl<Q> Filled<Q> {
    pub closed spec fn spec_meta(self) -> ExchangeOrderMeta {
        self.meta
    }

    pub closed spec fn spec_ts_executed(self) -> TimestampNs {
        self.ts_ns_executed
    }

    pub closed spec fn spec_filled_quantity(self) -> Q {
        self.filled_quantity
    }

    /// The exchange information of the order.
    pub fn meta(&self) -> (r: &ExchangeOrderMeta)
        ensures
            *r == self.spec_meta(),
    {
        &self.meta
    }

    /// The timestamp at which the order was fully filled.
    pub fn ts_ns_executed(&self) -> (r: TimestampNs)
        ensures
            r == self.spec_ts_executed(),
    {
        self.ts_ns_executed
    }
}

/// A limit order for `Q` (the quantity currency) in the state `S`.
#[derive(Debug, Copy, PartialEq, Eq)]
pub struct LimitOrder<const D: u8, Q: Currency<D>, U: UserOrderId, S> {
    user_order_id: U,
    side: Side,
    limit_price: QuoteCurrency<D>,
    remaining_quantity: Q,
    state: S,
}

impl<const D: u8, Q: Currency<D>, U: UserOrderId, S: Copy> Clone for LimitOrder<D, Q, U, S> {
    fn clone(&self) -> (r: Self)
        ensures
            r == *self,
    {
        proof {
            use_type_invariant(self);
        }
        *self
    }
}

impl<const D: u8, Q: Currency<D>, U: UserOrderId, S> LimitOrder<D, Q, U, S> {
    /// The limit price is positive and the remaining quantity is not negative.
    #[verifier::type_invariant]
    pub closed spec fn wf(self) -> bool {
        &&& self.limit_price.raw() > 0
        &&& self.remaining_quantity.raw() >= 0
    }

    pub closed spec fn spec_side(self) -> Side {
        self.side
    }

    pub closed spec fn spec_limit_price(self) -> QuoteCurrency<D> {
        self.limit_price
    }

    pub closed spec fn spec_remaining_quantity(self) -> Q {
        self.remaining_quantity
    }

    pub closed spec fn spec_user_order_id(self) -> U {
        self.user_order_id
    }

    pub closed spec fn spec_state(self) -> S {
        self.state
    }

    /// The mantissa of the value of the remaining quantity at the limit price,
    /// in the paired currency of `Q`.
    pub open spec fn spec_notional(self) -> int {
        spec_notional_of::<D, Q>(self.spec_remaining_quantity().raw(), self.spec_limit_price().raw())
    }

    /// The side of the order.
    pub fn side(&self) -> (r: Side)
        ensures
            r == self.spec_side(),
    {
        self.side
    }

    /// The limit price of the order.
    pub fn limit_price(&self) -> (r: QuoteCurrency<D>)
        ensures
            r == self.spec_limit_price(),
            r.raw() > 0,
    {
        proof {
            use_type_invariant(self);
        }
        self.limit_price
    }

    /// The quantity which is not yet filled.
    pub fn remaining_quantity(&self) -> (r: Q)
        ensures
            r == self.spec_remaining_quantity(),
            r.raw() >= 0,
    {
        proof {
            use_type_invariant(self);
        }
        self.remaining_quantity
    }

    /// The identifier the user gave the order.
    pub fn user_order_id(&self) -> (r: U)
        ensures
            r == self.spec_user_order_id(),
    {
        self.user_order_id
    }

    /// The state of the order.
    pub fn state(&self) -> (r: &S)
        ensures
            *r == self.spec_state(),
    {
        &self.state
    }

    /// The value of the remaining quantity at the limit price.
    pub fn notional(&self) -> (r: Q::PairedCurrency)
        requires
            D <= MAX_DECIMALS,
            in_i64(self.spec_notional()),
        ensures
            r.raw() == self.spec_notional(),
            r.raw() >= 0,
    {
        proof {
            use_type_invariant(self);
            Q::PairedCurrency::lemma_convert_nonneg(
                self.remaining_quantity.raw(),
                self.limit_price.raw(),
            );
        }
        Q::PairedCurrency::convert_from(self.remaining_quantity.mantissa(), self.limit_price)
    }
}

impl<const D: u8, Q: Currency<D>> LimitOrder<D, Q, NoUserOrderId, NewOrder> {
    /// Create a new limit order without a user order id.
    pub fn new(side: Side, limit_price: QuoteCurrency<D>, quantity: Q) -> (r: Result<Self, OrderError>)
        ensures
            limit_price.raw() <= 0 ==> r == Err::<Self, OrderError>(OrderError::InvalidLimitPrice),
            limit_price.raw() > 0 && quantity.raw() <= 0 ==> r == Err::<Self, OrderError>(
                OrderError::InvalidOrderSize,
            ),
            limit_price.raw() > 0 && quantity.raw() > 0 ==> r is Ok && r->Ok_0.spec_side() == side
                && r->Ok_0.spec_limit_price() == limit_price && r->Ok_0.spec_remaining_quantity()
                == quantity,
    {
        Self::new_with_user_order_id(side, limit_price, quantity, NoUserOrderId)
    }
}

impl<const D: u8, Q: Currency<D>, U: UserOrderId> LimitOrder<D, Q, U, NewOrder> {
    /// Create a new limit order with a user order id.
    pub fn new_with_user_order_id(
        side: Side,
        limit_price: QuoteCurrency<D>,
        quantity: Q,
        user_order_id: U,
    ) -> (r: Result<Self, OrderError>)
        ensures
            limit_price.raw() <= 0 ==> r == Err::<Self, OrderError>(OrderError::InvalidLimitPrice),
            limit_price.raw() > 0 && quantity.raw() <= 0 ==> r == Err::<Self, OrderError>(
                OrderError::InvalidOrderSize,
            ),
            limit_price.raw() > 0 && quantity.raw() > 0 ==> r is Ok && r->Ok_0.spec_side() == side
                && r->Ok_0.spec_limit_price() == limit_price && r->Ok_0.spec_remaining_quantity()
                == quantity && r->Ok_0.spec_user_order_id() == user_order_id,
    {
        if limit_price.mantissa() <= 0 {
            return Err(OrderError::InvalidLimitPrice);
        }
        if quantity.mantissa() <= 0 {
            return Err(OrderError::InvalidOrderSize);
        }
        Ok(LimitOrder {
            user_order_id,
            side,
            limit_price,
            remaining_quantity: quantity,
            state: NewOrder,
        })
    }

    /// Replace the quantity of the order.
    pub fn set_remaining_quantity(&mut self, quantity: Q)
        requires
            quantity.raw() > 0,
        ensures
            final(self).spec_remaining_quantity() == quantity,
            final(self).spec_side() == old(self).spec_side(),
            final(self).spec_limit_price() == old(self).spec_limit_price(),
            final(self).spec_user_order_id() == old(self).spec_user_order_id(),
    {
        proof {
            use_type_invariant(&*self);
        }
        self.remaining_quantity = quantity;
    }

    /// The order after the exchange accepted it: nothing of it is filled yet.
    pub fn into_pending(self, meta: ExchangeOrderMeta) -> (r: LimitOrder<D, Q, U, Pending<Q>>)
        ensures
            r.spec_side() == self.spec_side(),
            r.spec_limit_price() == self.spec_limit_price(),
            r.spec_remaining_quantity() == self.spec_remaining_quantity(),
            r.spec_user_order_id() == self.spec_user_order_id(),
            r.spec_state().spec_meta() == meta,
            r.spec_state().spec_filled_quantity().raw() == 0,
    {
        proof {
            use_type_invariant(&self);
        }
        LimitOrder {
            user_order_id: self.user_order_id,
            side: self.side,
            limit_price: self.limit_price,
            remaining_quantity: self.remaining_quantity,
            state: Pending { meta, filled_quantity: Q::from_mantissa(0) },
        }
    }
}

impl<const D: u8, Q: Currency<D>, U: UserOrderId> LimitOrder<D, Q, U, Pending<Q>> {
    pub open spec fn spec_id(self) -> OrderId {
        self.spec_state().spec_meta().spec_id()
    }

    pub open spec fn spec_ts(self) -> TimestampNs {
        self.spec_state().spec_meta().spec_ts()
    }

    pub open spec fn spec_filled_quantity(self) -> Q {
        self.spec_state().spec_filled_quantity()
    }

    /// The order id.
    pub fn id(&self) -> (r: OrderId)
        ensures
            r == self.spec_id(),
    {
        self.state.meta.id()
    }

    /// The timestamp at which the exchange received the order.
    pub fn ts_exchange_received(&self) -> (r: TimestampNs)
        ensures
            r == self.spec_ts(),
    {
        self.state.meta.ts_exchange_received()
    }

    /// The quantity filled so far.
    pub fn filled_quantity(&self) -> (r: Q)
        ensures
            r == self.spec_filled_quantity(),
    {
        self.state.filled_quantity
    }

    /// Fill `quantity` of the order: it moves from the remaining to the filled quantity.
    pub fn fill(&mut self, quantity: Q)
        requires
            0 < quantity.raw() <= old(self).spec_remaining_quantity().raw(),
            in_i64(old(self).spec_filled_quantity().raw() + quantity.raw()),
        ensures
            final(self).spec_remaining_quantity().raw() == old(
                self,
            ).spec_remaining_quantity().raw() - quantity.raw(),
            final(self).spec_filled_quantity().raw() == old(self).spec_filled_quantity().raw()
                + quantity.raw(),
            final(self).spec_side() == old(self).spec_side(),
            final(self).spec_limit_price() == old(self).spec_limit_price(),
            final(self).spec_user_order_id() == old(self).spec_user_order_id(),
            final(self).spec_state().spec_meta() == old(self).spec_state().spec_meta(),
    {
        proof {
            use_type_invariant(&*self);
            self.remaining_quantity.lemma_raw_range();
            quantity.lemma_raw_range();
        }
        let remaining = diff_of(self.remaining_quantity, quantity);
        let filled = sum_of(self.state.filled_quantity, quantity);
        self.remaining_quantity = remaining;
        self.state.filled_quantity = filled;
    }

    /// The order in its fully filled state.
    pub fn into_filled(self, ts_ns_executed: TimestampNs) -> (r: LimitOrder<D, Q, U, Filled<Q>>)
        ensures
            r.spec_side() == self.spec_side(),
            r.spec_limit_price() == self.spec_limit_price(),
            r.spec_remaining_quantity() == self.spec_remaining_quantity(),
            r.spec_user_order_id() == self.spec_user_order_id(),
            r.spec_state().spec_meta() == self.spec_state().spec_meta(),
            r.spec_state().spec_ts_executed() == ts_ns_executed,
            r.spec_state().spec_filled_quantity() == self.spec_filled_quantity(),
    {
        proof {
            use_type_invariant(&self);
        }
        LimitOrder {
            user_order_id: self.user_order_id,
            side: self.side,
            limit_price: self.limit_price,
            remaining_quantity: self.remaining_quantity,
            state: Filled {
                meta: self.state.meta,
                ts_ns_executed,
                filled_quantity: self.state.filled_quantity,
            },
        }
    }
}

impl<const D: u8, Q: Currency<D>, U: UserOrderId> LimitOrder<D, Q, U, Filled<Q>> {
    /// The order id.
    pub fn id(&self) -> (r: OrderId)
        ensures
            r == self.spec_state().spec_meta().spec_id(),
    {
        self.state.meta.id()
    }

    /// The filled quantity.
    pub fn filled_quantity(&self) -> (r: Q)
        ensures
            r == self.spec_state().spec_filled_quantity(),
    {
        self.state.filled_quantity
    }
}

/// Which order to cancel.
#[derive(Debug, Clone, Copy, PartialEq, Eq)]
pub enum CancelBy<U> {
    /// Cancel the order with this exchange order id.
    OrderId(OrderId),
    /// Cancel the order with this user order id.
    UserOrderId(U),
}

/// No active order has the given identifier.
#[derive(Debug, Clone, Copy, PartialEq, Eq)]
pub enum OrderIdNotFound<U> {
    /// No active order has this exchange order id.
    OrderId(OrderId),
    /// No active order has this user order id.
    UserOrderId(U),
}

/// The maximum number of active orders of a side is reached.
#[derive(Debug, Clone, Copy, PartialEq, Eq, Structural)]
pub struct MaxNumberOfActiveOrders(pub u16);

} // verus!
