//! The price-time priority of resting limit orders for each side of the book.

use vstd::prelude::*;

use crate::currency::{Currency, Monetary};
use crate::types::{LimitOrder, Pending, Side, UserOrderId};

verus! {

/// The outcome of comparing a new order with an existing one.
#[derive(Debug, Clone, Copy, PartialEq, Eq, Structural)]
pub enum Priority {
    /// The new order comes before the existing one.
    Less,
    /// Both orders share their price and timestamp.
    Equal,
    /// The new order comes after the existing one.
    Greater,
}

/// Compares two orders of one side by their ranked price, ascending,
/// and for equal prices by their timestamp, descending: older orders come later.
pub open spec fn spec_priority(price_a: int, ts_a: i64, price_b: int, ts_b: i64) -> Priority {
    if price_a < price_b {
        Priority::Less
    } else if price_a > price_b {
        Priority::Greater
    } else if ts_a < ts_b {
        Priority::Greater
    } else if ts_a > ts_b {
        Priority::Less
    } else {
        Priority::Equal
    }
}

/// Provides the sorting between two limit orders.
/// This differs for bids and asks.
pub trait Cmp<const D: u8, Q: Currency<D>, U: UserOrderId> {
    /// The side whose orders are sorted by this marker.
    spec fn spec_side() -> Side;

    /// The price by which orders are ranked: better prices rank higher.
    spec fn rank_price(price: int) -> int;

    /// If `true`, the side is the same as the marker struct implementing this function.
    /// Used for asserting that only limit orders of the correct side are included.
    fn is_same_side(side: Side) -> (r: bool)
        ensures
            r == (side == Self::spec_side()),
    ;

    /// Compare a new order with an existing one for ordering them appropriately.
    /// The best price and oldest order always comes last.
    fn cmp(
        new_order: &LimitOrder<D, Q, U, Pending<Q>>,
        existing_order: &LimitOrder<D, Q, U, Pending<Q>>,
    ) -> (r: Priority)
        ensures
            r == spec_priority(
                Self::rank_price(new_order.spec_limit_price().raw()),
                new_order.spec_ts().0,
                Self::rank_price(existing_order.spec_limit_price().raw()),
                existing_order.spec_ts().0,
            ),
    ;
}

/// zero-sized marker struct indicating sorting for bids.
#[derive(Debug, Clone, Copy, PartialEq, Eq, Structural)]
pub struct Bids;

/// zero-sized marker struct indicating sorting for asks.
#[derive(Debug, Clone, Copy, PartialEq, Eq, Structural)]
pub struct Asks;

impl<const D: u8, Q: Currency<D>, U: UserOrderId> Cmp<D, Q, U> for Bids {
    open spec fn spec_side() -> Side {
        Side::Buy
    }

    /// Higher bids are better.
    open spec fn rank_price(price: int) -> int {
        price
    }

    fn is_same_side(side: Side) -> (r: bool) {
        side == Side::Buy
    }

    /// New orders which have a higher price will come later in the vector.
    /// Older orders at the same price level come later in the vector.
    fn cmp(
        new_order: &LimitOrder<D, Q, U, Pending<Q>>,
        existing_order: &LimitOrder<D, Q, U, Pending<Q>>,
    ) -> (r: Priority) {
        let new_price = new_order.limit_price().mantissa();
        let existing_price = existing_order.limit_price().mantissa();
        if new_price < existing_price {
            Priority::Less
        } else if new_price > existing_price {
            Priority::Greater
        } else {
            let new_ts = new_order.ts_exchange_received().0;
            let existing_ts = existing_order.ts_exchange_received().0;
            if new_ts < existing_ts {
                Priority::Greater
            } else if new_ts > existing_ts {
                Priority::Less
            } else {
                Priority::Equal
            }
        }
    }
}

impl<const D: u8, Q: Currency<D>, U: UserOrderId> Cmp<D, Q, U> for Asks {
    open spec fn spec_side() -> Side {
        Side::Sell
    }

    /// Lower asks are better.
    open spec fn rank_price(price: int) -> int {
        -price
    }

    fn is_same_side(side: Side) -> (r: bool) {
        side == Side::Sell
    }

    /// New orders which have a lower price will come later in the vector.
    /// Older orders at the same price level come later in the vector.
    fn cmp(
        new_order: &LimitOrder<D, Q, U, Pending<Q>>,
        existing_order: &LimitOrder<D, Q, U, Pending<Q>>,
    ) -> (r: Priority) {
        let new_price = new_order.limit_price().mantissa();
        let existing_price = existing_order.limit_price().mantissa();
        if new_price < existing_price {
            Priority::Greater
        } else if new_price > existing_price {
            Priority::Less
        } else {
            let new_ts = new_order.ts_exchange_received().0;
            let existing_ts = existing_order.ts_exchange_received().0;
            if new_ts < existing_ts {
                Priority::Greater
            } else if new_ts > existing_ts {
                Priority::Less
            } else {
                Priority::Equal
            }
        }
    }
}

/// Orders which come no later than each other share their price and timestamp.
pub proof fn lemma_priority_antisymmetric(pa: int, ta: i64, pb: int, tb: i64)
    ensures
        spec_priority(pa, ta, pb, tb) == Priority::Greater <==> spec_priority(pb, tb, pa, ta)
            == Priority::Less,
        spec_priority(pa, ta, pb, tb) == Priority::Equal <==> (pa == pb && ta == tb),
{
}

/// "Comes no later than" is transitive.
pub proof fn lemma_priority_transitive(pa: int, ta: i64, pb: int, tb: i64, pc: int, tc: i64)
    requires
        spec_priority(pa, ta, pb, tb) != Priority::Greater,
        spec_priority(pb, tb, pc, tc) != Priority::Greater,
    ensures
        spec_priority(pa, ta, pc, tc) != Priority::Greater,
{
}

} // verus!
