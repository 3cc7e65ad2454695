//! Contains a data structure for maintaining an ordered list of limit orders,
//! optimized for a small number of active ones.

use std::marker::PhantomData;

use vstd::prelude::*;

use crate::account::bids_asks::{
    lemma_priority_antisymmetric, lemma_priority_transitive, spec_priority, Cmp, Priority,
};
use crate::currency::{diff_of, sum_of, zero_of, Currency, MarginCurrency, Monetary};
use crate::decimal::{in_i64, MAX_DECIMALS};
use crate::types::{
    Filled, LimitOrder, MaxNumberOfActiveOrders, OrderId, Pending, Side, TimestampNs, UserOrderId,
};

verus! {

/// The sum of the notional values of the orders.
pub open spec fn sum_notional<const D: u8, Q: Currency<D>, U: UserOrderId>(
    s: Seq<LimitOrder<D, Q, U, Pending<Q>>>,
) -> int
    decreases s.len(),
{
    if s.len() == 0 {
        0
    } else {
        sum_notional(s.drop_last()) + s.last().spec_notional()
    }
}

/// Every order has a positive limit price and a non-negative remaining quantity.
pub open spec fn orders_valid<const D: u8, Q: Currency<D>, U: UserOrderId>(
    s: Seq<LimitOrder<D, Q, U, Pending<Q>>>,
) -> bool {
    forall|i: int|
        0 <= i < s.len() ==> #[trigger] s[i].spec_limit_price().raw() > 0
            && s[i].spec_remaining_quantity().raw() >= 0
}

/// Every order is on `side`.
pub open spec fn orders_on_side<const D: u8, Q: Currency<D>, U: UserOrderId>(
    s: Seq<LimitOrder<D, Q, U, Pending<Q>>>,
    side: Side,
) -> bool {
    forall|i: int| 0 <= i < s.len() ==> #[trigger] s[i].spec_side() == side
}

/// The price-time priority of order `a` relative to order `b` on the side of `S`.
pub open spec fn order_priority<const D: u8, Q: Currency<D>, U: UserOrderId, S: Cmp<D, Q, U>>(
    a: LimitOrder<D, Q, U, Pending<Q>>,
    b: LimitOrder<D, Q, U, Pending<Q>>,
) -> Priority {
    spec_priority(
        S::rank_price(a.spec_limit_price().raw()),
        a.spec_ts().0,
        S::rank_price(b.spec_limit_price().raw()),
        b.spec_ts().0,
    )
}

/// The orders are sorted by ascending priority: the best price and oldest order is last.
pub open spec fn orders_sorted<const D: u8, Q: Currency<D>, U: UserOrderId, S: Cmp<D, Q, U>>(
    s: Seq<LimitOrder<D, Q, U, Pending<Q>>>,
) -> bool {
    forall|i: int, j: int|
        #![trigger s[i], s[j]]
        0 <= i < j < s.len() ==> order_priority::<D, Q, U, S>(s[i], s[j]) != Priority::Greater
}

/// `idx` is where `try_insert` places `o` in `s`:
/// the first position whose order does not come before `o`.
pub open spec fn insertion_point<const D: u8, Q: Currency<D>, U: UserOrderId, S: Cmp<D, Q, U>>(
    s: Seq<LimitOrder<D, Q, U, Pending<Q>>>,
    o: LimitOrder<D, Q, U, Pending<Q>>,
    idx: int,
) -> bool {
    &&& 0 <= idx <= s.len()
    &&& forall|k: int|
        0 <= k < idx ==> order_priority::<D, Q, U, S>(o, #[trigger] s[k]) == Priority::Greater
    &&& idx < s.len() ==> order_priority::<D, Q, U, S>(o, s[idx]) != Priority::Greater
}

/// `idx` is the first position of an order with id `order_id` in `s`.
pub open spec fn first_with_id<const D: u8, Q: Currency<D>, U: UserOrderId>(
    s: Seq<LimitOrder<D, Q, U, Pending<Q>>>,
    order_id: OrderId,
    idx: int,
) -> bool {
    &&& 0 <= idx < s.len()
    &&& s[idx].spec_id() == order_id
    &&& forall|k: int| 0 <= k < idx ==> (#[trigger] s[k]).spec_id() != order_id
}

/// Some order of `s` has id `order_id`.
pub open spec fn has_id<const D: u8, Q: Currency<D>, U: UserOrderId>(
    s: Seq<LimitOrder<D, Q, U, Pending<Q>>>,
    order_id: OrderId,
) -> bool {
    exists|k: int| 0 <= k < s.len() && (#[trigger] s[k]).spec_id() == order_id
}

/// `idx` is the first position of an order with user order id `uid` in `s`.
pub open spec fn first_with_user_id<const D: u8, Q: Currency<D>, U: UserOrderId>(
    s: Seq<LimitOrder<D, Q, U, Pending<Q>>>,
    uid: U,
    idx: int,
) -> bool {
    &&& 0 <= idx < s.len()
    &&& s[idx].spec_user_order_id() == uid
    &&& forall|k: int| 0 <= k < idx ==> (#[trigger] s[k]).spec_user_order_id() != uid
}

/// Some order of `s` has user order id `uid`.
pub open spec fn has_user_id<const D: u8, Q: Currency<D>, U: UserOrderId>(
    s: Seq<LimitOrder<D, Q, U, Pending<Q>>>,
    uid: U,
) -> bool {
    exists|k: int| 0 <= k < s.len() && (#[trigger] s[k]).spec_user_order_id() == uid
}

/// `after` is `before` with `quantity` more of it filled.
pub open spec fn filled_by<const D: u8, Q: Currency<D>, U: UserOrderId>(
    after: LimitOrder<D, Q, U, Pending<Q>>,
    before: LimitOrder<D, Q, U, Pending<Q>>,
    quantity: int,
) -> bool {
    &&& after.spec_remaining_quantity().raw() == before.spec_remaining_quantity().raw() - quantity
    &&& after.spec_filled_quantity().raw() == before.spec_filled_quantity().raw() + quantity
    &&& after.spec_side() == before.spec_side()
    &&& after.spec_limit_price() == before.spec_limit_price()
    &&& after.spec_user_order_id() == before.spec_user_order_id()
    &&& after.spec_state().spec_meta() == before.spec_state().spec_meta()
}

pub proof fn lemma_order_notional_nonneg<const D: u8, Q: Currency<D>, U: UserOrderId>(
    o: LimitOrder<D, Q, U, Pending<Q>>,
)
    requires
        D <= MAX_DECIMALS,
        o.spec_limit_price().raw() > 0,
        o.spec_remaining_quantity().raw() >= 0,
    ensures
        o.spec_notional() >= 0,
{
    Q::PairedCurrency::lemma_convert_nonneg(
        o.spec_remaining_quantity().raw(),
        o.spec_limit_price().raw(),
    );
}

pub proof fn lemma_sum_concat<const D: u8, Q: Currency<D>, U: UserOrderId>(
    a: Seq<LimitOrder<D, Q, U, Pending<Q>>>,
    b: Seq<LimitOrder<D, Q, U, Pending<Q>>>,
)
    ensures
        sum_notional(a + b) == sum_notional(a) + sum_notional(b),
    decreases b.len(),
{
    if b.len() == 0 {
        assert(a + b =~= a);
    } else {
        lemma_sum_concat(a, b.drop_last());
        assert((a + b).drop_last() =~= a + b.drop_last());
    }
}

pub proof fn lemma_sum_insert<const D: u8, Q: Currency<D>, U: UserOrderId>(
    s: Seq<LimitOrder<D, Q, U, Pending<Q>>>,
    idx: int,
    o: LimitOrder<D, Q, U, Pending<Q>>,
)
    requires
        0 <= idx <= s.len(),
    ensures
        sum_notional(s.insert(idx, o)) == sum_notional(s) + o.spec_notional(),
{
    let a = s.subrange(0, idx);
    let b = s.subrange(idx, s.len() as int);
    assert(s =~= a + b);
    assert(s.insert(idx, o) =~= (a + seq![o]) + b);
    let ao = a + seq![o];
    assert(ao.drop_last() =~= a);
    assert(ao.last() == o);
    assert(sum_notional(ao) == sum_notional(a) + o.spec_notional());
    lemma_sum_concat(a, b);
    lemma_sum_concat(ao, b);
}

pub proof fn lemma_sum_remove<const D: u8, Q: Currency<D>, U: UserOrderId>(
    s: Seq<LimitOrder<D, Q, U, Pending<Q>>>,
    idx: int,
)
    requires
        0 <= idx < s.len(),
    ensures
        sum_notional(s.remove(idx)) == sum_notional(s) - s[idx].spec_notional(),
{
    let r = s.remove(idx);
    lemma_sum_insert(r, idx, s[idx]);
    assert(r.insert(idx, s[idx]) =~= s);
}

/// The notional values of valid orders are not negative and none exceeds their sum.
pub proof fn lemma_sum_bounds<const D: u8, Q: Currency<D>, U: UserOrderId>(
    s: Seq<LimitOrder<D, Q, U, Pending<Q>>>,
)
    requires
        D <= MAX_DECIMALS,
        orders_valid(s),
    ensures
        sum_notional(s) >= 0,
        forall|i: int| 0 <= i < s.len() ==> 0 <= #[trigger] s[i].spec_notional() <= sum_notional(s),
    decreases s.len(),
{
    if s.len() > 0 {
        let p = s.drop_last();
        assert(orders_valid(p)) by {
            assert forall|i: int| 0 <= i < p.len() implies #[trigger] p[i].spec_limit_price().raw()
                > 0 && p[i].spec_remaining_quantity().raw() >= 0 by {
                assert(p[i] == s[i]);
            }
        }
        lemma_sum_bounds(p);
        lemma_order_notional_nonneg(s.last());
        assert forall|i: int| 0 <= i < s.len() implies 0 <= #[trigger] s[i].spec_notional()
            <= sum_notional(s) by {
            if i < s.len() - 1 {
                assert(s[i] == p[i]);
            }
        }
    }
}

pub proof fn lemma_insert_sorted<const D: u8, Q: Currency<D>, U: UserOrderId, S: Cmp<D, Q, U>>(
    s: Seq<LimitOrder<D, Q, U, Pending<Q>>>,
    o: LimitOrder<D, Q, U, Pending<Q>>,
    idx: int,
)
    requires
        orders_sorted::<D, Q, U, S>(s),
        insertion_point::<D, Q, U, S>(s, o, idx),
    ensures
        orders_sorted::<D, Q, U, S>(s.insert(idx, o)),
{
    let t = s.insert(idx, o);
    assert forall|i: int, j: int| 0 <= i < j < t.len() implies order_priority::<D, Q, U, S>(
        #[trigger] t[i],
        #[trigger] t[j],
    ) != Priority::Greater by {
        let po = S::rank_price(o.spec_limit_price().raw());
        let to = o.spec_ts().0;
        if i < idx {
            let pi = S::rank_price(s[i].spec_limit_price().raw());
            let ti = s[i].spec_ts().0;
            lemma_priority_antisymmetric(po, to, pi, ti);
            if j == idx {
            } else if j > idx {
                let pj = S::rank_price(s[j - 1].spec_limit_price().raw());
                let tj = s[j - 1].spec_ts().0;
                assert(order_priority::<D, Q, U, S>(s[i], s[j - 1]) != Priority::Greater);
            }
        } else if i == idx {
            if j - 1 > idx {
                let pi = S::rank_price(s[idx].spec_limit_price().raw());
                let ti = s[idx].spec_ts().0;
                let pj = S::rank_price(s[j - 1].spec_limit_price().raw());
                let tj = s[j - 1].spec_ts().0;
                assert(order_priority::<D, Q, U, S>(s[idx], s[j - 1]) != Priority::Greater);
                lemma_priority_transitive(po, to, pi, ti, pj, tj);
            }
        } else {
            assert(order_priority::<D, Q, U, S>(s[i - 1], s[j - 1]) != Priority::Greater);
        }
    }
}

pub proof fn lemma_remove_sorted<const D: u8, Q: Currency<D>, U: UserOrderId, S: Cmp<D, Q, U>>(
    s: Seq<LimitOrder<D, Q, U, Pending<Q>>>,
    idx: int,
)
    requires
        orders_sorted::<D, Q, U, S>(s),
        0 <= idx < s.len(),
    ensures
        orders_sorted::<D, Q, U, S>(s.remove(idx)),
{
    let t = s.remove(idx);
    assert forall|i: int, j: int| 0 <= i < j < t.len() implies order_priority::<D, Q, U, S>(
        #[trigger] t[i],
        #[trigger] t[j],
    ) != Priority::Greater by {
        let i2 = if i < idx {
            i
        } else {
            i + 1
        };
        let j2 = if j < idx {
            j
        } else {
            j + 1
        };
        assert(t[i] == s[i2] && t[j] == s[j2]);
    }
}

/// Maintains a list of orders, sorted by price and time priority.
/// Optimized for fast insert and removal operations for a small number of orders like 1, 2 or 3.
/// The best price and oldest timestamp order is at the last index.
/// Bids and asks are stored separately, hence the `S` marker (`Bids` or `Asks`).
#[derive(Debug)]
pub struct SortedOrders<const D: u8, Q: Currency<D>, U: UserOrderId, S> {
    orders: Vec<LimitOrder<D, Q, U, Pending<Q>>>,
    capacity: u16,
    notional_sum: Q::PairedCurrency,
    _side: PhantomData<S>,
}

impl<const D: u8, Q: Currency<D>, U: UserOrderId, S> SortedOrders<D, Q, U, S> {
    /// The orders, in ascending priority.
    pub closed spec fn spec_orders(self) -> Seq<LimitOrder<D, Q, U, Pending<Q>>> {
        self.orders@
    }

    /// The maximum number of orders.
    pub closed spec fn spec_capacity(self) -> u16 {
        self.capacity
    }

    /// The mantissa of the sum of the notional values of the orders.
    pub closed spec fn spec_notional_sum(self) -> int {
        self.notional_sum.raw()
    }
}

/// A clone which retains the capacity, as the capacity bounds the number of orders.
impl<const D: u8, Q: Currency<D>, U: UserOrderId, S> Clone for SortedOrders<D, Q, U, S> {
    fn clone(&self) -> (r: Self)
        ensures
            r.spec_orders() == self.spec_orders(),
            r.spec_capacity() == self.spec_capacity(),
            r.spec_notional_sum() == self.spec_notional_sum(),
    {
        let mut orders: Vec<LimitOrder<D, Q, U, Pending<Q>>> = Vec::with_capacity(
            self.capacity as usize,
        );
        let n = self.orders.len();
        let mut i: usize = 0;
        while i < n
            invariant
                n == self.orders@.len(),
                i <= n,
                orders@ =~= self.orders@.subrange(0, i as int),
            decreases n - i,
        {
            orders.push(self.orders[i].clone());
            i = i + 1;
        }
        SortedOrders {
            orders,
            capacity: self.capacity,
            notional_sum: self.notional_sum,
            _side: PhantomData,
        }
    }
}

impl<const D: u8, Q: Currency<D>, U: UserOrderId, S: Cmp<D, Q, U>> SortedOrders<D, Q, U, S> {
    /// The orders fit the capacity, are valid, of the right side and sorted,
    /// and the notional sum is the sum of their notional values.
    pub open spec fn wf(self) -> bool {
        &&& D <= MAX_DECIMALS
        &&& 0 < self.spec_capacity()
        &&& self.spec_orders().len() <= self.spec_capacity()
        &&& orders_valid(self.spec_orders())
        &&& orders_on_side(self.spec_orders(), S::spec_side())
        &&& orders_sorted::<D, Q, U, S>(self.spec_orders())
        &&& self.spec_notional_sum() == sum_notional(self.spec_orders())
    }

    /// `self` is `before` after `try_insert(order)` returned `r`: a full book refuses the
    /// order, otherwise it is placed after every order it ranks above.
    pub open spec fn inserted(
        self,
        before: Self,
        order: LimitOrder<D, Q, U, Pending<Q>>,
        r: Result<(), MaxNumberOfActiveOrders>,
    ) -> bool {
        &&& self.wf()
        &&& self.spec_capacity() == before.spec_capacity()
        &&& before.spec_orders().len() >= before.spec_capacity() ==> r == Err::<
            (),
            MaxNumberOfActiveOrders,
        >(MaxNumberOfActiveOrders(before.spec_capacity())) && self == before
        &&& before.spec_orders().len() < before.spec_capacity() ==> {
            &&& r is Ok
            &&& self.spec_notional_sum() == before.spec_notional_sum() + order.spec_notional()
            &&& exists|idx: int|
                insertion_point::<D, Q, U, S>(before.spec_orders(), order, idx)
                    && self.spec_orders() == before.spec_orders().insert(idx, order)
        }
    }

    /// `self` is `before` after `remove_by_id(order_id)` returned `r`:
    /// the first order with that id is removed and returned, if there is one.
    pub open spec fn removed_by_id(
        self,
        before: Self,
        order_id: OrderId,
        r: Option<LimitOrder<D, Q, U, Pending<Q>>>,
    ) -> bool {
        &&& self.wf()
        &&& self.spec_capacity() == before.spec_capacity()
        &&& r is None <==> !has_id(before.spec_orders(), order_id)
        &&& r is None ==> self == before
        &&& r is Some ==> exists|idx: int|
            {
                &&& first_with_id(before.spec_orders(), order_id, idx)
                &&& r->0 == before.spec_orders()[idx]
                &&& self.spec_orders() == before.spec_orders().remove(idx)
                &&& self.spec_notional_sum() == before.spec_notional_sum()
                    - before.spec_orders()[idx].spec_notional()
            }
    }

    /// `self` is `before` after `remove_by_user_id(uid)` returned `r`:
    /// the first order with that user order id is removed and returned, if there is one.
    pub open spec fn removed_by_user_id(
        self,
        before: Self,
        uid: U,
        r: Option<LimitOrder<D, Q, U, Pending<Q>>>,
    ) -> bool {
        &&& self.wf()
        &&& self.spec_capacity() == before.spec_capacity()
        &&& r is None <==> !has_user_id(before.spec_orders(), uid)
        &&& r is None ==> self == before
        &&& r is Some ==> exists|idx: int|
            {
                &&& first_with_user_id(before.spec_orders(), uid, idx)
                &&& r->0 == before.spec_orders()[idx]
                &&& self.spec_orders() == before.spec_orders().remove(idx)
                &&& self.spec_notional_sum() == before.spec_notional_sum()
                    - before.spec_orders()[idx].spec_notional()
            }
    }

    /// `self` is `before` after `fill_best(quantity, ts_ns)` returned `r`: the best order
    /// is filled by `quantity`, and leaves the book in its filled state if nothing remains.
    pub open spec fn filled_best(
        self,
        before: Self,
        quantity: int,
        ts_ns: TimestampNs,
        r: Option<LimitOrder<D, Q, U, Filled<Q>>>,
    ) -> bool {
        let best = before.spec_orders().last();
        &&& self.wf()
        &&& self.spec_capacity() == before.spec_capacity()
        &&& before.spec_orders().len() == 0 ==> r is None && self == before
        &&& before.spec_orders().len() > 0 && quantity == best.spec_remaining_quantity().raw() ==> {
            &&& r is Some
            &&& self.spec_orders() == before.spec_orders().drop_last()
            &&& self.spec_notional_sum() == before.spec_notional_sum() - best.spec_notional()
            &&& r->0.spec_side() == best.spec_side()
            &&& r->0.spec_limit_price() == best.spec_limit_price()
            &&& r->0.spec_user_order_id() == best.spec_user_order_id()
            &&& r->0.spec_remaining_quantity().raw() == 0
            &&& r->0.spec_state().spec_meta() == best.spec_state().spec_meta()
            &&& r->0.spec_state().spec_ts_executed() == ts_ns
            &&& r->0.spec_state().spec_filled_quantity().raw() == best.spec_filled_quantity().raw()
                + quantity
        }
        &&& before.spec_orders().len() > 0 && quantity < best.spec_remaining_quantity().raw() ==> {
            &&& r is None
            &&& self.spec_orders().len() == before.spec_orders().len()
            &&& self.spec_orders().drop_last() == before.spec_orders().drop_last()
            &&& filled_by(self.spec_orders().last(), best, quantity)
            &&& self.spec_notional_sum() == before.spec_notional_sum() - best.spec_notional()
                + self.spec_orders().last().spec_notional()
        }
    }

    /// Facts every well formed instance has.
    pub proof fn lemma_wf(self)
        requires
            self.wf(),
        ensures
            self.spec_notional_sum() >= 0,
            in_i64(self.spec_notional_sum()),
            forall|i: int|
                0 <= i < self.spec_orders().len() ==> 0 <= #[trigger] self.spec_orders()[i].spec_notional()
                    <= self.spec_notional_sum(),
    {
        lemma_sum_bounds(self.spec_orders());
        self.notional_sum.lemma_raw_range();
    }

    /// Create a new instance with a fixed capacity.
    /// This capacity is retained across `.clone()` calls as well.
    pub fn with_capacity(cap: u16) -> (r: Self)
        requires
            cap > 0,
            D <= MAX_DECIMALS,
        ensures
            r.wf(),
            r.spec_orders().len() == 0,
            r.spec_capacity() == cap,
            r.spec_notional_sum() == 0,
    {
        SortedOrders {
            orders: Vec::with_capacity(cap as usize),
            capacity: cap,
            notional_sum: zero_of::<D, Q::PairedCurrency>(),
            _side: PhantomData,
        }
    }

    /// The number of orders.
    pub fn len(&self) -> (r: usize)
        ensures
            r == self.spec_orders().len(),
    {
        self.orders.len()
    }

    /// `true` if there are no orders.
    pub fn is_empty(&self) -> (r: bool)
        ensures
            r == (self.spec_orders().len() == 0),
    {
        self.orders.len() == 0
    }

    /// The maximum number of orders.
    pub fn capacity(&self) -> (r: u16)
        ensures
            r == self.spec_capacity(),
    {
        self.capacity
    }

    fn capacity_len(&self) -> (r: usize)
        ensures
            r == self.spec_capacity(),
    {
        self.capacity as usize
    }

    /// The sum of the notional values of the orders.
    pub fn notional_sum(&self) -> (r: Q::PairedCurrency)
        ensures
            r.raw() == self.spec_notional_sum(),
    {
        self.notional_sum
    }

    /// The orders, in ascending priority.
    pub fn orders(&self) -> (r: &Vec<LimitOrder<D, Q, U, Pending<Q>>>)
        ensures
            r@ == self.spec_orders(),
    {
        &self.orders
    }

    /// The order with the best price and, among those, the oldest one.
    pub fn best(&self) -> (r: Option<&LimitOrder<D, Q, U, Pending<Q>>>)
        ensures
            r is None <==> self.spec_orders().len() == 0,
            r is Some ==> *r->0 == self.spec_orders().last(),
    {
        if self.orders.len() == 0 {
            None
        } else {
            let last = self.orders.len() - 1;
            Some(&self.orders[last])
        }
    }

    /// Fill the best limit order, popping it if fully filled
    /// and returning it in the `Filled` state.
    pub fn fill_best(&mut self, filled_quantity: Q, ts_ns: TimestampNs) -> (r: Option<
        LimitOrder<D, Q, U, Filled<Q>>,
    >)
        requires
            old(self).wf(),
            old(self).spec_orders().len() > 0 ==> 0 < filled_quantity.raw()
                <= old(self).spec_orders().last().spec_remaining_quantity().raw(),
            old(self).spec_orders().len() > 0 ==> in_i64(
                old(self).spec_orders().last().spec_filled_quantity().raw() + filled_quantity.raw(),
            ),
        ensures
            final(self).filled_best(*old(self), filled_quantity.raw(), ts_ns, r),
    {
        if self.orders.len() == 0 {
            return None;
        }
        proof {
            self.lemma_wf();
        }
        let ghost old_orders = self.orders@;
        let ghost old_sum = self.notional_sum.raw();
        let mut order = self.orders.pop().unwrap();
        assert(order == old_orders.last());
        assert(old_orders[old_orders.len() - 1].spec_notional() <= old_sum);
        assert(self.orders@ == old_orders.drop_last());
        assert(old_orders.drop_last() + seq![order] =~= old_orders);
        let old_notional = order.notional();
        order.fill(filled_quantity);
        proof {
            Q::PairedCurrency::lemma_convert_monotone(
                order.spec_remaining_quantity().raw(),
                old_orders.last().spec_remaining_quantity().raw(),
                order.spec_limit_price().raw(),
            );
            Q::PairedCurrency::lemma_convert_nonneg(
                order.spec_remaining_quantity().raw(),
                order.spec_limit_price().raw(),
            );
            Q::PairedCurrency::lemma_convert_zero(order.spec_limit_price().raw());
        }
        let new_notional = order.notional();
        self.notional_sum = sum_of(diff_of(self.notional_sum, old_notional), new_notional);
        let remaining = order.remaining_quantity();
        if remaining.mantissa() == 0 {
            proof {
                let p = old_orders.drop_last();
                assert(orders_valid(p)) by {
                    assert forall|i: int| 0 <= i < p.len() implies #[trigger] p[i].spec_limit_price().raw()
                        > 0 && p[i].spec_remaining_quantity().raw() >= 0 by {
                        assert(p[i] == old_orders[i]);
                    }
                }
                assert(orders_sorted::<D, Q, U, S>(p)) by {
                    assert forall|i: int, j: int| 0 <= i < j < p.len() implies order_priority::<
                        D,
                        Q,
                        U,
                        S,
                    >(#[trigger] p[i], #[trigger] p[j]) != Priority::Greater by {
                        assert(p[i] == old_orders[i] && p[j] == old_orders[j]);
                    }
                }
            }
            Some(order.into_filled(ts_ns))
        } else {
            self.orders.push(order);
            proof {
                let t = self.orders@;
                assert(t.drop_last() =~= old_orders.drop_last());
                assert(orders_sorted::<D, Q, U, S>(t)) by {
                    assert forall|i: int, j: int| 0 <= i < j < t.len() implies order_priority::<
                        D,
                        Q,
                        U,
                        S,
                    >(#[trigger] t[i], #[trigger] t[j]) != Priority::Greater by {
                        assert(order_priority::<D, Q, U, S>(old_orders[i], old_orders[j])
                            != Priority::Greater);
                        if j == t.len() - 1 {
                            assert(t[j].spec_ts() == old_orders[j].spec_ts());
                        } else {
                            assert(t[j] == old_orders[j]);
                        }
                        assert(t[i] == old_orders[i]);
                    }
                }
            }
            None
        }
    }

    /// Get a `LimitOrder` by the given `OrderId` if any.
    pub fn get_by_id(&self, order_id: OrderId) -> (r: Option<&LimitOrder<D, Q, U, Pending<Q>>>)
        ensures
            r is None <==> !has_id(self.spec_orders(), order_id),
            r is Some ==> exists|idx: int|
                first_with_id(self.spec_orders(), order_id, idx) && *r->0 == self.spec_orders()[idx],
    {
        let n = self.orders.len();
        let mut i: usize = 0;
        while i < n
            invariant
                n == self.orders@.len(),
                i <= n,
                forall|k: int| 0 <= k < i ==> (#[trigger] self.orders@[k]).spec_id() != order_id,
            decreases n - i,
        {
            if self.orders[i].id() == order_id {
                assert(first_with_id(self.spec_orders(), order_id, i as int));
                return Some(&self.orders[i]);
            }
            i = i + 1;
        }
        None
    }

    /// Remove a limit order based on its `OrderId`.
    pub fn remove_by_id(&mut self, order_id: OrderId) -> (r: Option<LimitOrder<D, Q, U, Pending<Q>>>)
        requires
            old(self).wf(),
        ensures
            final(self).removed_by_id(*old(self), order_id, r),
    {
        let n = self.orders.len();
        let mut i: usize = 0;
        while i < n
            invariant
                n == self.orders@.len(),
                i <= n,
                *self == *old(self),
                self.wf(),
                forall|k: int| 0 <= k < i ==> (#[trigger] self.orders@[k]).spec_id() != order_id,
            decreases n - i,
        {
            if self.orders[i].id() == order_id {
                assert(first_with_id(self.spec_orders(), order_id, i as int));
                return Some(self.remove_at(i));
            }
            i = i + 1;
        }
        None
    }
    /// Remove the order at position `idx`, keeping the notional sum up to date.
    fn remove_at(&mut self, idx: usize) -> (r: LimitOrder<D, Q, U, Pending<Q>>)
        requires
            old(self).wf(),
            idx < old(self).spec_orders().len(),
        ensures
            final(self).wf(),
            final(self).spec_capacity() == old(self).spec_capacity(),
            r == old(self).spec_orders()[idx as int],
            final(self).spec_orders() == old(self).spec_orders().remove(idx as int),
            final(self).spec_notional_sum() == old(self).spec_notional_sum() - old(self).spec_orders()[idx as int].spec_notional(),
    {
        proof {
            self.lemma_wf();
            lemma_sum_remove(self.orders@, idx as int);
            lemma_remove_sorted::<D, Q, U, S>(self.orders@, idx as int);
        }
        let ghost old_orders = self.orders@;
        assert(0 <= old_orders[idx as int].spec_notional() <= self.spec_notional_sum());
        let order = self.orders.remove(idx);
        let notional = order.notional();
        self.notional_sum = diff_of(self.notional_sum, notional);
        proof {
            let t = self.orders@;
            assert forall|i: int| 0 <= i < t.len() implies #[trigger] t[i].spec_limit_price().raw() > 0
                && t[i].spec_remaining_quantity().raw() >= 0 && t[i].spec_side() == S::spec_side() by {
                if i < idx {
                    assert(t[i] == old_orders[i]);
                } else {
                    assert(t[i] == old_orders[i + 1]);
                }
            }
        }
        order
    }

    /// Remove a limit order based on its user order id.
    pub fn remove_by_user_id(&mut self, uid: U) -> (r: Option<LimitOrder<D, Q, U, Pending<Q>>>)
        requires
            old(self).wf(),
        ensures
            final(self).removed_by_user_id(*old(self), uid, r),
    {
        let n = self.orders.len();
        let mut i: usize = 0;
        while i < n
            invariant
                n == self.orders@.len(),
                i <= n,
                *self == *old(self),
                self.wf(),
                forall|k: int|
                    0 <= k < i ==> (#[trigger] self.orders@[k]).spec_user_order_id() != uid,
            decreases n - i,
        {
            if self.orders[i].user_order_id().same_as(&uid) {
                assert(first_with_user_id(self.spec_orders(), uid, i as int));
                return Some(self.remove_at(i));
            }
            i = i + 1;
        }
        None
    }

    /// Insert a new limit order if there is enough capacity,
    /// otherwise return an error.
    pub fn try_insert(&mut self, order: LimitOrder<D, Q, U, Pending<Q>>) -> (r: Result<
        (),
        MaxNumberOfActiveOrders,
    >)
        requires
            old(self).wf(),
            order.spec_side() == S::spec_side(),
            old(self).spec_orders().len() < old(self).spec_capacity() ==> in_i64(
                old(self).spec_notional_sum() + order.spec_notional(),
            ),
        ensures
            final(self).inserted(*old(self), order, r),
    {
        if self.orders.len() >= self.capacity_len() {
            return Err(MaxNumberOfActiveOrders(self.capacity));
        }
        let price = order.limit_price();
        let quantity = order.remaining_quantity();
        proof {
            self.lemma_wf();
            lemma_order_notional_nonneg(order);
        }
        let notional = order.notional();
        let ghost old_orders = self.orders@;
        let n = self.orders.len();
        let mut i: usize = 0;
        let ghost mut gi: int = 0;
        while i < n
            invariant
                gi == i,
                i <= n,
                n == old_orders.len(),
                self.orders@ == old_orders,
                forall|k: int|
                    0 <= k < gi ==> order_priority::<D, Q, U, S>(order, #[trigger] old_orders[k])
                        == Priority::Greater,
            ensures
                gi == i,
                i <= n,
                self.orders@ == old_orders,
                forall|k: int|
                    0 <= k < gi ==> order_priority::<D, Q, U, S>(order, #[trigger] old_orders[k])
                        == Priority::Greater,
                i < n ==> order_priority::<D, Q, U, S>(order, old_orders[gi]) != Priority::Greater,
            decreases n - i,
        {
            let priority = S::cmp(&order, &self.orders[i]);
            if priority != Priority::Greater {
                break;
            }
            i = i + 1;
            proof {
                gi = gi + 1;
            }
        }
        proof {
            lemma_insert_sorted::<D, Q, U, S>(old_orders, order, gi);
            lemma_sum_insert(old_orders, gi, order);
        }
        self.orders.insert(i, order);
        self.notional_sum = sum_of(self.notional_sum, notional);
        proof {
            let t = self.orders@;
            assert(t == old_orders.insert(gi, order));
            assert forall|k: int| 0 <= k < t.len() implies #[trigger] t[k].spec_limit_price().raw() > 0
                && t[k].spec_remaining_quantity().raw() >= 0 && t[k].spec_side() == S::spec_side() by {
                if k < gi {
                    assert(t[k] == old_orders[k]);
                } else if k > gi {
                    assert(t[k] == old_orders[k - 1]);
                }
            }
            assert(insertion_point::<D, Q, U, S>(old_orders, order, gi));
        }
        Ok(())
    }
}


/// Removing by id an order that was just inserted gives back that order and leaves the
/// book as it was before the insertion, where no order of the book had that id.
pub proof fn insert_then_remove_by_id_restores<
    const D: u8,
    Q: Currency<D>,
    U: UserOrderId,
    S: Cmp<D, Q, U>,
>(
    before: SortedOrders<D, Q, U, S>,
    inserted: SortedOrders<D, Q, U, S>,
    removed: SortedOrders<D, Q, U, S>,
    order: LimitOrder<D, Q, U, Pending<Q>>,
    r: Option<LimitOrder<D, Q, U, Pending<Q>>>,
)
    requires
        before.wf(),
        !has_id(before.spec_orders(), order.spec_id()),
        inserted.inserted(before, order, Ok(())),
        removed.removed_by_id(inserted, order.spec_id(), r),
    ensures
        r == Some(order),
        removed.spec_orders() == before.spec_orders(),
        removed.spec_notional_sum() == before.spec_notional_sum(),
        removed.spec_capacity() == before.spec_capacity(),
{
    let id = order.spec_id();
    let b = before.spec_orders();
    let idx = choose|idx: int|
        insertion_point::<D, Q, U, S>(b, order, idx) && inserted.spec_orders() == b.insert(
            idx,
            order,
        );
    let m = inserted.spec_orders();
    assert(m[idx] == order);
    assert(has_id(m, id));
    let j = choose|j: int|
        {
            &&& first_with_id(m, id, j)
            &&& r->0 == m[j]
            &&& removed.spec_orders() == m.remove(j)
            &&& removed.spec_notional_sum() == inserted.spec_notional_sum() - m[j].spec_notional()
        };
    if j < idx {
        assert(m[j] == b[j]);
        assert(has_id(b, id));
    }
    if j > idx {
        assert(m[idx].spec_id() != id);
    }
    assert(j == idx);
    assert(m.remove(idx) =~= b);
}

} // verus!
