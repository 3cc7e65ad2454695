//! The trader's account: position, balances and resting limit orders.

use vstd::prelude::*;

use crate::account::active_limit_orders::{insert_then_cancel_by_id_restores, ActiveLimitOrders};
use crate::account::sorted_orders::{has_id, lemma_sum_bounds};
use crate::account::balances::{apply_to_equity_in_range, spec_apply_to_equity, Balances};
use crate::account::position::{
    change_in_range, reduces_position, spec_new_entry_price, spec_new_quantity, spec_realized_pnl,
    Position,
};
use crate::currency::{
    diff_of, max_of, sum_of, times, zero_of, Currency, Decimal, MarginCurrency, Monetary,
    QuoteCurrency,
};
use crate::decimal::{
    abs, checked_mul_mantissa, in_i64, lemma_scale_pos, lemma_trunc_div_monotone, lemma_trunc_div_nonneg, scale, spec_mul,
    MAX_DECIMALS,
};
use crate::types::{
    CancelBy, Filled, LimitOrder, MaxNumberOfActiveOrders, OrderId, OrderIdNotFound, Pending,
    Side, TimestampNs, UserOrderId,
};
use crate::utils::{spec_max, spec_order_margin};

verus! {

/// Relevant information about the traders account.
///
/// Generics:
/// - `D`: The constant decimal precision of the currencies.
/// - `Q`: Either `BaseCurrency` or `QuoteCurrency` depending on the futures type.
/// - `U`: The type of user order id to use. Set to `NoUserOrderId` if you don't need one.
#[derive(Debug, Clone)]
pub struct Account<const D: u8, Q: Currency<D>, U: UserOrderId> {
    /// The current position of the account.
    position: Position<D, Q>,
    /// The account balances of the account.
    balances: Balances<D, Q::PairedCurrency>,
    /// The initial margin requirement is set based on the selected leverage of the account.
    init_margin_req: Decimal<D>,
    /// The maker fee rate of the venue, used to reserve fees for resting limit orders.
    maker_fee: Decimal<D>,
    /// The active limit orders of the account.
    active_limit_orders: ActiveLimitOrders<D, Q, U>,
}

impl<const D: u8, Q: Currency<D>, U: UserOrderId> Account<D, Q, U> {
    pub closed spec fn spec_position(self) -> Position<D, Q> {
        self.position
    }

    pub closed spec fn spec_balances(self) -> Balances<D, Q::PairedCurrency> {
        self.balances
    }

    pub closed spec fn spec_init_margin_req(self) -> int {
        self.init_margin_req.raw()
    }

    pub closed spec fn spec_maker_fee(self) -> int {
        self.maker_fee.raw()
    }

    pub closed spec fn spec_active_limit_orders(self) -> ActiveLimitOrders<D, Q, U> {
        self.active_limit_orders
    }

    /// The position and the order books are well formed and the initial margin requirement
    /// lies in `(0, 1]`.
    pub open spec fn wf(self) -> bool {
        &&& D <= MAX_DECIMALS
        &&& self.spec_position().wf()
        &&& self.spec_active_limit_orders().wf()
        &&& 0 < self.spec_init_margin_req() <= scale(D)
    }

    /// The sum of the notional values of all resting orders.
    pub open spec fn spec_resting_notional(self) -> int {
        self.spec_active_limit_orders().spec_bids().spec_notional_sum()
            + self.spec_active_limit_orders().spec_asks().spec_notional_sum()
    }

    /// The maker fees reserved for the resting limit orders; a rebate reserves nothing.
    pub open spec fn spec_reserved_maker_fees(self) -> int {
        spec_mul(D, self.spec_resting_notional(), spec_max(self.spec_maker_fee(), 0))
    }

    /// The margin of the position at its entry price.
    pub open spec fn spec_position_margin(self) -> int {
        spec_mul(D, self.spec_position().spec_notional(), self.spec_init_margin_req())
    }

    /// The margin of the resting orders next to the position.
    pub open spec fn spec_order_margin(self) -> int {
        self.spec_active_limit_orders().spec_order_margin(
            self.spec_init_margin_req(),
            self.spec_position(),
        )
    }

    /// The position margin, the order margin and the reserved maker fees.
    pub open spec fn spec_required_collateral(self) -> int {
        self.spec_position_margin() + self.spec_order_margin() + self.spec_reserved_maker_fees()
    }

    /// The signed difference between the equity and the required collateral.
    pub open spec fn spec_margin_excess(self) -> int {
        self.spec_balances().spec_equity() - self.spec_required_collateral()
    }

    /// The order margin if `new_order` were also resting.
    pub open spec fn spec_order_margin_with_order(
        self,
        new_order: LimitOrder<D, Q, U, Pending<Q>>,
    ) -> int {
        spec_order_margin(
            D,
            self.spec_active_limit_orders().spec_bids().spec_notional_sum() + (if new_order.spec_side()
                == Side::Buy {
                new_order.spec_notional()
            } else {
                0
            }),
            self.spec_active_limit_orders().spec_asks().spec_notional_sum() + (if new_order.spec_side()
                == Side::Sell {
                new_order.spec_notional()
            } else {
                0
            }),
            self.spec_position().spec_quantity(),
            self.spec_position().spec_notional(),
            self.spec_init_margin_req(),
        )
    }

    /// The maker fee that `new_order` would reserve; a rebate reserves nothing.
    pub open spec fn spec_new_fee_reserve(self, new_order: LimitOrder<D, Q, U, Pending<Q>>) -> int {
        spec_mul(D, new_order.spec_notional(), spec_max(self.spec_maker_fee(), 0))
    }

    /// The margin excess if `new_order` were also resting, including its order margin and
    /// maker fee reserve.
    pub open spec fn spec_margin_excess_with_order(
        self,
        new_order: LimitOrder<D, Q, U, Pending<Q>>,
    ) -> int {
        self.spec_balances().spec_equity() - self.spec_position_margin()
            - self.spec_order_margin_with_order(new_order) - self.spec_reserved_maker_fees()
            - self.spec_new_fee_reserve(new_order)
    }


    /// The required collateral if the buy and sell orders had the notional values `bids` and
    /// `asks`.
    pub open spec fn spec_required_collateral_for(self, bids: int, asks: int) -> int {
        self.spec_position_margin() + spec_order_margin(
            D,
            bids,
            asks,
            self.spec_position().spec_quantity(),
            self.spec_position().spec_notional(),
            self.spec_init_margin_req(),
        ) + spec_mul(D, bids + asks, spec_max(self.spec_maker_fee(), 0))
    }

    /// The required collateral after cancelling the buy order at `i`.
    pub open spec fn spec_required_without_bid(self, i: int) -> int {
        self.spec_required_collateral_for(
            self.spec_active_limit_orders().spec_bids().spec_notional_sum()
                - self.spec_active_limit_orders().spec_bids().spec_orders()[i].spec_notional(),
            self.spec_active_limit_orders().spec_asks().spec_notional_sum(),
        )
    }

    /// The required collateral after cancelling the sell order at `i`.
    pub open spec fn spec_required_without_ask(self, i: int) -> int {
        self.spec_required_collateral_for(
            self.spec_active_limit_orders().spec_bids().spec_notional_sum(),
            self.spec_active_limit_orders().spec_asks().spec_notional_sum()
                - self.spec_active_limit_orders().spec_asks().spec_orders()[i].spec_notional(),
        )
    }

    /// Cancelling the order at `idx` of the bids (`on_bids`) or the asks leaves no more
    /// required collateral behind than cancelling any other resting order.
    pub open spec fn frees_most_collateral(self, on_bids: bool, idx: int) -> bool {
        let bids = self.spec_active_limit_orders().spec_bids().spec_orders();
        let asks = self.spec_active_limit_orders().spec_asks().spec_orders();
        let req = if on_bids {
            self.spec_required_without_bid(idx)
        } else {
            self.spec_required_without_ask(idx)
        };
        &&& on_bids ==> 0 <= idx < bids.len()
        &&& !on_bids ==> 0 <= idx < asks.len()
        &&& forall|i: int| 0 <= i < bids.len() ==> req <= #[trigger] self.spec_required_without_bid(i)
        &&& forall|i: int| 0 <= i < asks.len() ==> req <= #[trigger] self.spec_required_without_ask(i)
    }

    /// The id of the order at `idx` of the bids (`on_bids`) or the asks.
    pub open spec fn order_id_at(self, on_bids: bool, idx: int) -> OrderId {
        if on_bids {
            self.spec_active_limit_orders().spec_bids().spec_orders()[idx].spec_id()
        } else {
            self.spec_active_limit_orders().spec_asks().spec_orders()[idx].spec_id()
        }
    }

    /// Whether every intermediate value of the collateral computations fits an `i64`.
    pub open spec fn collateral_in_range(self) -> bool {
        &&& self.spec_position().spec_quantity() != i64::MIN
        &&& in_i64(self.spec_position().spec_notional())
        &&& in_i64(self.spec_position_margin())
        &&& ActiveLimitOrders::<D, Q, U>::order_margin_in_range(
            self.spec_active_limit_orders().spec_bids().spec_notional_sum(),
            self.spec_active_limit_orders().spec_asks().spec_notional_sum(),
            self.spec_init_margin_req(),
            self.spec_position(),
        )
        &&& in_i64(self.spec_resting_notional())
        &&& in_i64(self.spec_reserved_maker_fees())
        &&& in_i64(self.spec_position_margin() + self.spec_order_margin())
        &&& in_i64(self.spec_required_collateral())
        &&& in_i64(self.spec_margin_excess())
    }

    /// The equity and bad debt after a fill of `filled_qty` at `fill_price` on `side`
    /// changed the position, before any fee.
    pub open spec fn spec_balances_after_fill(
        self,
        filled_qty: int,
        fill_price: int,
        side: Side,
    ) -> (int, int) {
        if reduces_position(self.spec_position().spec_quantity(), side) {
            spec_apply_to_equity(
                self.spec_balances().spec_equity(),
                self.spec_balances().spec_bad_debt(),
                spec_realized_pnl::<D, Q>(
                    self.spec_position().spec_quantity(),
                    self.spec_position().spec_entry_price(),
                    filled_qty,
                    fill_price,
                ),
            )
        } else {
            (self.spec_balances().spec_equity(), self.spec_balances().spec_bad_debt())
        }
    }

    /// Whether every intermediate value of `change_position` fits an `i64`.
    pub open spec fn change_position_in_range(
        self,
        filled_qty: int,
        fill_price: int,
        side: Side,
        fee: int,
    ) -> bool {
        let after = self.spec_balances_after_fill(filled_qty, fill_price, side);
        &&& change_in_range::<D, Q>(
            self.spec_position().spec_quantity(),
            self.spec_position().spec_entry_price(),
            filled_qty,
            fill_price,
            side,
            self.spec_balances().spec_equity(),
            self.spec_balances().spec_bad_debt(),
        )
        &&& fee != i64::MIN
        &&& apply_to_equity_in_range(after.0, after.1, -fee)
        &&& in_i64(self.spec_balances().spec_total_fees_paid() + fee)
    }

    /// `self` is `before` after `change_position(filled_qty, fill_price, side, fee)`.
    pub open spec fn position_changed(
        self,
        before: Self,
        filled_qty: int,
        fill_price: int,
        side: Side,
        fee: int,
    ) -> bool {
        let after = before.spec_balances_after_fill(filled_qty, fill_price, side);
        &&& self.wf()
        &&& self.spec_position().spec_quantity() == spec_new_quantity(
            before.spec_position().spec_quantity(),
            filled_qty,
            side,
        )
        &&& self.spec_position().spec_entry_price() == spec_new_entry_price(
            D,
            before.spec_position().spec_quantity(),
            before.spec_position().spec_entry_price(),
            filled_qty,
            fill_price,
            side,
        )
        &&& (self.spec_balances().spec_equity(), self.spec_balances().spec_bad_debt())
            == spec_apply_to_equity(after.0, after.1, -fee)
        &&& self.spec_balances().spec_total_fees_paid() == before.spec_balances().spec_total_fees_paid()
            + fee
        &&& self.spec_balances().spec_equity() >= 0
        &&& self.spec_init_margin_req() == before.spec_init_margin_req()
        &&& self.spec_maker_fee() == before.spec_maker_fee()
    }

    /// Create a new instance with a maximum capacity of `max_active_orders` per side.
    ///
    /// `init_margin_req` is the initial margin requirement derived from the configured
    /// leverage and `maker_fee` is the venue's maker fee rate, both of which enter the
    /// canonical collateral requirement of the account.
    pub fn new(
        balances: Balances<D, Q::PairedCurrency>,
        max_active_orders: u16,
        init_margin_req: Decimal<D>,
        maker_fee: Decimal<D>,
    ) -> (r: Self)
        requires
            D <= MAX_DECIMALS,
            max_active_orders > 0,
            0 < init_margin_req.raw() <= scale(D),
        ensures
            r.wf(),
            r.spec_balances() == balances,
            r.spec_position().spec_quantity() == 0,
            r.spec_position().spec_entry_price() == 0,
            r.spec_init_margin_req() == init_margin_req.raw(),
            r.spec_maker_fee() == maker_fee.raw(),
            r.spec_active_limit_orders().spec_num_active() == 0,
            r.spec_active_limit_orders().spec_bids().spec_capacity() == max_active_orders,
            r.spec_active_limit_orders().spec_asks().spec_capacity() == max_active_orders,
    {
        Account {
            active_limit_orders: ActiveLimitOrders::with_capacity(max_active_orders),
            position: Position::neutral(),
            balances,
            init_margin_req,
            maker_fee,
        }
    }

    /// The current position of the account.
    pub fn position(&self) -> (r: &Position<D, Q>)
        ensures
            *r == self.spec_position(),
    {
        &self.position
    }

    /// The account balances of the account.
    pub fn balances(&self) -> (r: &Balances<D, Q::PairedCurrency>)
        ensures
            *r == self.spec_balances(),
    {
        &self.balances
    }

    /// The initial margin requirement of the account.
    pub fn init_margin_req(&self) -> (r: Decimal<D>)
        ensures
            r.raw() == self.spec_init_margin_req(),
    {
        self.init_margin_req
    }

    /// The active limit orders of the account.
    pub fn active_limit_orders(&self) -> (r: &ActiveLimitOrders<D, Q, U>)
        ensures
            *r == self.spec_active_limit_orders(),
    {
        &self.active_limit_orders
    }

    proof fn lemma_wf(self)
        requires
            self.wf(),
        ensures
            self.spec_active_limit_orders().spec_bids().spec_notional_sum() >= 0,
            self.spec_active_limit_orders().spec_asks().spec_notional_sum() >= 0,
            in_i64(self.spec_balances().spec_equity()),
    {
        self.spec_active_limit_orders().spec_bids().lemma_wf();
        self.spec_active_limit_orders().spec_asks().lemma_wf();
        self.spec_balances().lemma_in_range();
    }

    /// The maker fees reserved for the resting limit orders, so that any of their fills
    /// can always be paid for. A negative (rebate) maker fee reserves nothing.
    pub fn reserved_maker_fees(&self) -> (r: Q::PairedCurrency)
        requires
            self.wf(),
            in_i64(self.spec_resting_notional()),
            in_i64(self.spec_reserved_maker_fees()),
        ensures
            r.raw() == self.spec_reserved_maker_fees(),
    {
        let resting = sum_of(
            self.active_limit_orders.bids().notional_sum(),
            self.active_limit_orders.asks().notional_sum(),
        );
        let rate = max_of(self.maker_fee, zero_of::<D, Decimal<D>>());
        times(resting, rate)
    }

    /// The current position margin.
    pub fn position_margin(&self) -> (r: Q::PairedCurrency)
        requires
            self.wf(),
            self.spec_position().spec_quantity() != i64::MIN,
            in_i64(self.spec_position().spec_notional()),
            in_i64(self.spec_position_margin()),
        ensures
            r.raw() == self.spec_position_margin(),
    {
        times(self.position.notional(), self.init_margin_req)
    }

    /// The current order margin.
    pub fn order_margin(&self) -> (r: Q::PairedCurrency)
        requires
            self.wf(),
            ActiveLimitOrders::<D, Q, U>::order_margin_in_range(
                self.spec_active_limit_orders().spec_bids().spec_notional_sum(),
                self.spec_active_limit_orders().spec_asks().spec_notional_sum(),
                self.spec_init_margin_req(),
                self.spec_position(),
            ),
        ensures
            r.raw() == self.spec_order_margin(),
    {
        self.active_limit_orders.order_margin(self.init_margin_req, &self.position)
    }

    /// The canonical collateral requirement of the account:
    /// the position margin, the order margin and the reserved maker fees.
    pub fn required_collateral(&self) -> (r: Q::PairedCurrency)
        requires
            self.wf(),
            self.collateral_in_range(),
        ensures
            r.raw() == self.spec_required_collateral(),
    {
        let position_margin = self.position_margin();
        let order_margin = self.order_margin();
        let reserved = self.reserved_maker_fees();
        sum_of(sum_of(position_margin, order_margin), reserved)
    }

    /// The signed difference between the account equity and its required collateral.
    ///
    /// A negative value is a collateral deficit: it can arise from settling a
    /// position-reducing fill (which is never rejected).
    pub fn margin_excess(&self) -> (r: Q::PairedCurrency)
        requires
            self.wf(),
            self.collateral_in_range(),
        ensures
            r.raw() == self.spec_margin_excess(),
    {
        diff_of(self.balances.equity(), self.required_collateral())
    }

    /// The balance available for new orders and positions:
    /// the account equity exceeding the required collateral, floored at zero.
    pub fn available_balance(&self) -> (r: Q::PairedCurrency)
        requires
            self.wf(),
            self.collateral_in_range(),
        ensures
            r.raw() == spec_max(self.spec_margin_excess(), 0),
            r.raw() >= 0,
    {
        max_of(self.margin_excess(), zero_of::<D, Q::PairedCurrency>())
    }

    /// The order margin if `new_order` were also resting.
    pub fn order_margin_with_order(&self, new_order: &LimitOrder<D, Q, U, Pending<Q>>) -> (r:
        Q::PairedCurrency)
        requires
            self.wf(),
            new_order.spec_side() == Side::Buy ==> in_i64(
                self.spec_active_limit_orders().spec_bids().spec_notional_sum()
                    + new_order.spec_notional(),
            ) && ActiveLimitOrders::<D, Q, U>::order_margin_in_range(
                self.spec_active_limit_orders().spec_bids().spec_notional_sum()
                    + new_order.spec_notional(),
                self.spec_active_limit_orders().spec_asks().spec_notional_sum(),
                self.spec_init_margin_req(),
                self.spec_position(),
            ),
            new_order.spec_side() == Side::Sell ==> in_i64(
                self.spec_active_limit_orders().spec_asks().spec_notional_sum()
                    + new_order.spec_notional(),
            ) && ActiveLimitOrders::<D, Q, U>::order_margin_in_range(
                self.spec_active_limit_orders().spec_bids().spec_notional_sum(),
                self.spec_active_limit_orders().spec_asks().spec_notional_sum()
                    + new_order.spec_notional(),
                self.spec_init_margin_req(),
                self.spec_position(),
            ),
        ensures
            r.raw() == self.spec_order_margin_with_order(*new_order),
    {
        self.active_limit_orders.order_margin_with_order(
            new_order,
            self.init_margin_req,
            &self.position,
        )
    }

    /// The margin excess if `new_order` were also resting,
    /// including its order margin and maker fee reserve.
    pub fn margin_excess_with_order(&self, new_order: &LimitOrder<D, Q, U, Pending<Q>>) -> (r:
        Q::PairedCurrency)
        requires
            self.wf(),
            self.collateral_in_range(),
            new_order.spec_side() == Side::Buy ==> in_i64(
                self.spec_active_limit_orders().spec_bids().spec_notional_sum()
                    + new_order.spec_notional(),
            ) && ActiveLimitOrders::<D, Q, U>::order_margin_in_range(
                self.spec_active_limit_orders().spec_bids().spec_notional_sum()
                    + new_order.spec_notional(),
                self.spec_active_limit_orders().spec_asks().spec_notional_sum(),
                self.spec_init_margin_req(),
                self.spec_position(),
            ),
            new_order.spec_side() == Side::Sell ==> in_i64(
                self.spec_active_limit_orders().spec_asks().spec_notional_sum()
                    + new_order.spec_notional(),
            ) && ActiveLimitOrders::<D, Q, U>::order_margin_in_range(
                self.spec_active_limit_orders().spec_bids().spec_notional_sum(),
                self.spec_active_limit_orders().spec_asks().spec_notional_sum()
                    + new_order.spec_notional(),
                self.spec_init_margin_req(),
                self.spec_position(),
            ),
            in_i64(new_order.spec_notional()),
            in_i64(self.spec_new_fee_reserve(*new_order)),
            in_i64(self.spec_balances().spec_equity() - self.spec_position_margin()),
            in_i64(
                self.spec_balances().spec_equity() - self.spec_position_margin()
                    - self.spec_order_margin_with_order(*new_order),
            ),
            in_i64(
                self.spec_balances().spec_equity() - self.spec_position_margin()
                    - self.spec_order_margin_with_order(*new_order)
                    - self.spec_reserved_maker_fees(),
            ),
            in_i64(self.spec_margin_excess_with_order(*new_order)),
        ensures
            r.raw() == self.spec_margin_excess_with_order(*new_order),
    {
        let rate = max_of(self.maker_fee, zero_of::<D, Decimal<D>>());
        let new_fee_reserve = times(new_order.notional(), rate);
        let position_margin = self.position_margin();
        let order_margin = self.order_margin_with_order(new_order);
        let reserved = self.reserved_maker_fees();
        let equity = self.balances.equity();
        diff_of(diff_of(diff_of(diff_of(equity, position_margin), order_margin), reserved), new_fee_reserve)
    }

    /// With buy and sell notional values below those of the resting orders, every part of
    /// the required collateral stays between zero and its value for the resting orders.
    pub proof fn lemma_collateral_for(self, bids: int, asks: int)
        requires
            self.wf(),
            self.collateral_in_range(),
            0 <= bids <= self.spec_active_limit_orders().spec_bids().spec_notional_sum(),
            0 <= asks <= self.spec_active_limit_orders().spec_asks().spec_notional_sum(),
        ensures
            0 <= self.spec_position().spec_notional(),
            0 <= self.spec_position_margin(),
            in_i64(bids - self.spec_position().spec_notional()),
            in_i64(asks - self.spec_position().spec_notional()),
            in_i64(bids + asks),
            0 <= spec_order_margin(
                D,
                bids,
                asks,
                self.spec_position().spec_quantity(),
                self.spec_position().spec_notional(),
                self.spec_init_margin_req(),
            ) <= self.spec_order_margin(),
            0 <= spec_mul(D, bids + asks, spec_max(self.spec_maker_fee(), 0))
                <= self.spec_reserved_maker_fees(),
            0 <= self.spec_required_collateral_for(bids, asks) <= self.spec_required_collateral(),
    {
        let pos = self.spec_position();
        let pn = pos.spec_notional();
        let bs = self.spec_active_limit_orders().spec_bids().spec_notional_sum();
        let as_ = self.spec_active_limit_orders().spec_asks().spec_notional_sum();
        let imr = self.spec_init_margin_req();
        let s = scale(D);
        lemma_scale_pos(D);
        self.lemma_wf();
        if pos.spec_entry_price() != 0 {
            <Q::PairedCurrency as MarginCurrency<D>>::lemma_convert_nonneg(
                abs(pos.spec_quantity()),
                pos.spec_entry_price(),
            );
        }
        assert(pn * imr >= 0) by (nonlinear_arith)
            requires
                pn >= 0,
                imr > 0,
        ;
        lemma_trunc_div_nonneg(pn * imr, s);
        let q = pos.spec_quantity();
        let m_small = crate::utils::spec_order_margin_notional(bids, asks, q, pn);
        let m_full = crate::utils::spec_order_margin_notional(bs, as_, q, pn);
        assert(0 <= m_small <= m_full);
        assert(m_small * imr <= m_full * imr) by (nonlinear_arith)
            requires
                m_small <= m_full,
                imr > 0,
        ;
        assert(m_small * imr >= 0) by (nonlinear_arith)
            requires
                m_small >= 0,
                imr > 0,
        ;
        lemma_trunc_div_monotone(m_small * imr, m_full * imr, s);
        lemma_trunc_div_nonneg(m_small * imr, s);
        let rate = spec_max(self.spec_maker_fee(), 0);
        assert((bids + asks) * rate <= (bs + as_) * rate) by (nonlinear_arith)
            requires
                bids + asks <= bs + as_,
                rate >= 0,
        ;
        assert((bids + asks) * rate >= 0) by (nonlinear_arith)
            requires
                bids + asks >= 0,
                rate >= 0,
        ;
        lemma_trunc_div_monotone((bids + asks) * rate, (bs + as_) * rate, s);
        lemma_trunc_div_nonneg((bids + asks) * rate, s);
    }

    /// An account whose resting orders have no larger notional values than those of an
    /// account with the same position, balances and rates keeps its collateral computations
    /// in range, with no larger required collateral.
    pub proof fn lemma_collateral_monotone(self, smaller: Self)
        requires
            self.wf(),
            self.collateral_in_range(),
            smaller.wf(),
            smaller.spec_position() == self.spec_position(),
            smaller.spec_balances() == self.spec_balances(),
            smaller.spec_init_margin_req() == self.spec_init_margin_req(),
            smaller.spec_maker_fee() == self.spec_maker_fee(),
            smaller.spec_active_limit_orders().spec_bids().spec_notional_sum()
                <= self.spec_active_limit_orders().spec_bids().spec_notional_sum(),
            smaller.spec_active_limit_orders().spec_asks().spec_notional_sum()
                <= self.spec_active_limit_orders().spec_asks().spec_notional_sum(),
        ensures
            smaller.collateral_in_range(),
            0 <= smaller.spec_required_collateral() <= self.spec_required_collateral(),
    {
        smaller.lemma_wf();
        let b = smaller.spec_active_limit_orders().spec_bids().spec_notional_sum();
        let a = smaller.spec_active_limit_orders().spec_asks().spec_notional_sum();
        self.lemma_collateral_for(b, a);
        assert(smaller.spec_required_collateral() == self.spec_required_collateral_for(b, a));
    }

    /// The required collateral if the buy and sell orders had the notional values `bids` and
    /// `asks`, at most those of the resting orders.
    pub fn required_collateral_for(
        &self,
        bids: Q::PairedCurrency,
        asks: Q::PairedCurrency,
    ) -> (r: Q::PairedCurrency)
        requires
            self.wf(),
            self.collateral_in_range(),
            0 <= bids.raw() <= self.spec_active_limit_orders().spec_bids().spec_notional_sum(),
            0 <= asks.raw() <= self.spec_active_limit_orders().spec_asks().spec_notional_sum(),
        ensures
            r.raw() == self.spec_required_collateral_for(bids.raw(), asks.raw()),
    {
        proof {
            self.lemma_collateral_for(bids.raw(), asks.raw());
        }
        let position_margin = self.position_margin();
        let order_margin = crate::utils::order_margin::<D, Q>(
            bids,
            asks,
            self.init_margin_req,
            &self.position,
        );
        let rate = max_of(self.maker_fee, zero_of::<D, Decimal<D>>());
        let reserved = times(sum_of(bids, asks), rate);
        sum_of(sum_of(position_margin, order_margin), reserved)
    }

    /// The id of the resting order whose cancellation frees the most collateral: the one
    /// leaving the least required collateral behind, the first such of the bids and then
    /// of the asks; `None` without resting orders.
    pub fn largest_collateral_contributor(&self) -> (r: Option<OrderId>)
        requires
            self.wf(),
            self.collateral_in_range(),
        ensures
            r is None <==> self.spec_active_limit_orders().spec_num_active() == 0,
            r matches Some(id) ==> exists|on_bids: bool, idx: int|
                self.frees_most_collateral(on_bids, idx) && id == self.order_id_at(on_bids, idx),
    {
        let bids = self.active_limit_orders.bids();
        let asks = self.active_limit_orders.asks();
        let bids_sum = bids.notional_sum();
        let asks_sum = asks.notional_sum();
        let bid_orders = bids.orders();
        let ask_orders = asks.orders();
        proof {
            self.lemma_wf();
            lemma_sum_bounds(bid_orders@);
            lemma_sum_bounds(ask_orders@);
        }
        let mut best: Option<(OrderId, Q::PairedCurrency)> = None;
        let ghost mut best_on_bids: bool = true;
        let ghost mut best_idx: int = 0;
        let mut i: usize = 0;
        while i < bid_orders.len()
            invariant
                self.wf(),
                self.collateral_in_range(),
                bid_orders@ == self.spec_active_limit_orders().spec_bids().spec_orders(),
                bids_sum.raw() == self.spec_active_limit_orders().spec_bids().spec_notional_sum(),
                asks_sum.raw() == self.spec_active_limit_orders().spec_asks().spec_notional_sum(),
                asks_sum.raw() >= 0,
                forall|k: int| 0 <= k < bid_orders@.len() ==> 0 <= #[trigger] bid_orders@[k].spec_notional() <= bids_sum.raw(),
                i <= bid_orders@.len(),
                best is None <==> i == 0,
                best matches Some((id, req)) ==> {
                    &&& best_on_bids
                    &&& 0 <= best_idx < i
                    &&& id == self.order_id_at(true, best_idx)
                    &&& req.raw() == self.spec_required_without_bid(best_idx)
                    &&& forall|k: int| 0 <= k < i ==> req.raw() <= #[trigger] self.spec_required_without_bid(k)
                },
            decreases bid_orders@.len() - i,
        {
            let order = &bid_orders[i];
            proof {
                assert(0 <= bid_orders@[i as int].spec_notional() <= bids_sum.raw());
                bids_sum.lemma_raw_range();
            }
            let notional = order.notional();
            let req = self.required_collateral_for(diff_of(bids_sum, notional), asks_sum);
            let better = match best {
                None => true,
                Some((_, best_req)) => req.mantissa() < best_req.mantissa(),
            };
            if better {
                best = Some((order.id(), req));
                proof {
                    best_on_bids = true;
                    best_idx = i as int;
                }
            }
            i = i + 1;
        }
        let mut j: usize = 0;
        while j < ask_orders.len()
            invariant
                self.wf(),
                self.collateral_in_range(),
                bid_orders@ == self.spec_active_limit_orders().spec_bids().spec_orders(),
                ask_orders@ == self.spec_active_limit_orders().spec_asks().spec_orders(),
                bids_sum.raw() == self.spec_active_limit_orders().spec_bids().spec_notional_sum(),
                asks_sum.raw() == self.spec_active_limit_orders().spec_asks().spec_notional_sum(),
                bids_sum.raw() >= 0,
                forall|k: int| 0 <= k < ask_orders@.len() ==> 0 <= #[trigger] ask_orders@[k].spec_notional() <= asks_sum.raw(),
                j <= ask_orders@.len(),
                best is None <==> bid_orders@.len() == 0 && j == 0,
                best matches Some((id, req)) ==> {
                    &&& best_on_bids ==> 0 <= best_idx < bid_orders@.len()
                    &&& !best_on_bids ==> 0 <= best_idx < j
                    &&& id == self.order_id_at(best_on_bids, best_idx)
                    &&& req.raw() == (if best_on_bids {
                        self.spec_required_without_bid(best_idx)
                    } else {
                        self.spec_required_without_ask(best_idx)
                    })
                    &&& forall|k: int| 0 <= k < bid_orders@.len() ==> req.raw() <= #[trigger] self.spec_required_without_bid(k)
                    &&& forall|k: int| 0 <= k < j ==> req.raw() <= #[trigger] self.spec_required_without_ask(k)
                },
            decreases ask_orders@.len() - j,
        {
            let order = &ask_orders[j];
            proof {
                assert(0 <= ask_orders@[j as int].spec_notional() <= asks_sum.raw());
                asks_sum.lemma_raw_range();
            }
            let notional = order.notional();
            let req = self.required_collateral_for(bids_sum, diff_of(asks_sum, notional));
            let better = match best {
                None => true,
                Some((_, best_req)) => req.mantissa() < best_req.mantissa(),
            };
            if better {
                best = Some((order.id(), req));
                proof {
                    best_on_bids = false;
                    best_idx = j as int;
                }
            }
            j = j + 1;
        }
        match best {
            None => None,
            Some((id, _)) => {
                proof {
                    assert(self.frees_most_collateral(best_on_bids, best_idx));
                }
                Some(id)
            },
        }
    }

    /// Whether every intermediate value of `change_position(filled_qty, fill_price, side,
    /// fee)` fits an `i64`.
    pub fn change_position_fits(
        &self,
        filled_qty: Q,
        fill_price: QuoteCurrency<D>,
        side: Side,
        fee: Q::PairedCurrency,
    ) -> (r: bool)
        requires
            self.wf(),
            filled_qty.raw() > 0,
            fill_price.raw() > 0,
        ensures
            r == self.change_position_in_range(filled_qty.raw(), fill_price.raw(), side, fee.raw()),
    {
        let equity = self.balances.equity().mantissa();
        let bad_debt = self.balances.bad_debt().mantissa();
        if !self.position.change_fits(filled_qty, fill_price, side, equity, bad_debt) {
            return false;
        }
        let q = self.position.quantity().mantissa();
        let filled = filled_qty.mantissa();
        let reduces = match side {
            Side::Buy => q < 0,
            Side::Sell => q > 0,
        };
        let (e1, b1): (i64, i64) = if reduces {
            let aq: i64 = if q < 0 {
                -q
            } else {
                q
            };
            let closed: i64 = if filled < aq {
                filled
            } else {
                aq
            };
            let pnl = <Q::PairedCurrency as MarginCurrency<D>>::pnl(
                self.position.entry_price(),
                fill_price,
                closed,
            ).mantissa();
            let realized: i64 = if q > 0 {
                pnl
            } else {
                -pnl
            };
            let e = equity + realized;
            if e < 0 {
                (0, bad_debt - e)
            } else {
                (e, bad_debt)
            }
        } else {
            (equity, bad_debt)
        };
        let f = fee.mantissa();
        if f == i64::MIN {
            return false;
        }
        match e1.checked_sub(f) {
            None => false,
            Some(e2) => {
                let covered = if e2 < 0 {
                    b1.checked_sub(e2).is_some()
                } else {
                    true
                };
                covered && self.balances.total_fees_paid().mantissa().checked_add(f).is_some()
            },
        }
    }

    /// Whether every intermediate value of the collateral computations fits an `i64`.
    pub fn collateral_fits(&self) -> (r: bool)
        requires
            self.wf(),
        ensures
            r == self.collateral_in_range(),
    {
        proof {
            self.lemma_wf();
        }
        let q = self.position.quantity().mantissa();
        if q == i64::MIN {
            return false;
        }
        let entry = self.position.entry_price();
        let pn: i64 = if entry.mantissa() == 0 {
            0
        } else {
            let aq: i64 = if q < 0 {
                -q
            } else {
                q
            };
            match <Q::PairedCurrency as MarginCurrency<D>>::checked_convert_from(aq, entry) {
                Some(v) => v.mantissa(),
                None => {
                    return false;
                },
            }
        };
        let imr = self.init_margin_req.mantissa();
        let pm = match checked_mul_mantissa::<D>(pn, imr) {
            Some(v) => v,
            None => {
                return false;
            },
        };
        let bs = self.active_limit_orders.bids().notional_sum().mantissa();
        let asks_sum = self.active_limit_orders.asks().notional_sum().mantissa();
        let bd = match bs.checked_sub(pn) {
            Some(v) => v,
            None => {
                return false;
            },
        };
        let ad = match asks_sum.checked_sub(pn) {
            Some(v) => v,
            None => {
                return false;
            },
        };
        let margined: i64 = if q == 0 {
            if bs >= asks_sum {
                bs
            } else {
                asks_sum
            }
        } else if q > 0 {
            if bs >= ad {
                bs
            } else {
                ad
            }
        } else {
            if bd >= asks_sum {
                bd
            } else {
                asks_sum
            }
        };
        let om = match checked_mul_mantissa::<D>(margined, imr) {
            Some(v) => v,
            None => {
                return false;
            },
        };
        let resting = match bs.checked_add(asks_sum) {
            Some(v) => v,
            None => {
                return false;
            },
        };
        let fee = self.maker_fee.mantissa();
        let rate: i64 = if fee >= 0 {
            fee
        } else {
            0
        };
        let reserved = match checked_mul_mantissa::<D>(resting, rate) {
            Some(v) => v,
            None => {
                return false;
            },
        };
        let margins = match pm.checked_add(om) {
            Some(v) => v,
            None => {
                return false;
            },
        };
        let required = match margins.checked_add(reserved) {
            Some(v) => v,
            None => {
                return false;
            },
        };
        self.balances.equity().mantissa().checked_sub(required).is_some()
    }

    /// Change the account position, modifying its balances: the fill realizes profit or
    /// loss where it reduces the position, and the fee is paid.
    pub fn change_position(
        &mut self,
        filled_qty: Q,
        fill_price: QuoteCurrency<D>,
        side: Side,
        fee: Q::PairedCurrency,
    )
        requires
            old(self).wf(),
            filled_qty.raw() > 0,
            fill_price.raw() > 0,
            old(self).spec_balances().spec_equity() >= 0,
            old(self).change_position_in_range(filled_qty.raw(), fill_price.raw(), side, fee.raw()),
        ensures
            final(self).position_changed(
                *old(self),
                filled_qty.raw(),
                fill_price.raw(),
                side,
                fee.raw(),
            ),
            final(self).spec_active_limit_orders() == old(self).spec_active_limit_orders(),
    {
        self.position.change(filled_qty, fill_price, side, &mut self.balances);
        self.balances.account_for_fee(fee);
    }

    /// Try to insert a new limit order.
    pub fn try_insert_order(&mut self, order: LimitOrder<D, Q, U, Pending<Q>>) -> (r: Result<
        (),
        MaxNumberOfActiveOrders,
    >)
        requires
            old(self).wf(),
            order.spec_side() == Side::Buy && old(self).spec_active_limit_orders().spec_bids().spec_orders().len() < old(self).spec_active_limit_orders().spec_bids().spec_capacity() ==> in_i64(
                old(self).spec_active_limit_orders().spec_bids().spec_notional_sum()
                    + order.spec_notional(),
            ),
            order.spec_side() == Side::Sell && old(self).spec_active_limit_orders().spec_asks().spec_orders().len() < old(self).spec_active_limit_orders().spec_asks().spec_capacity() ==> in_i64(
                old(self).spec_active_limit_orders().spec_asks().spec_notional_sum()
                    + order.spec_notional(),
            ),
        ensures
            final(self).wf(),
            final(self).spec_position() == old(self).spec_position(),
            final(self).spec_balances() == old(self).spec_balances(),
            final(self).spec_init_margin_req() == old(self).spec_init_margin_req(),
            final(self).spec_maker_fee() == old(self).spec_maker_fee(),
            order.spec_side() == Side::Buy ==> final(self).spec_active_limit_orders().spec_bids().inserted(
                old(self).spec_active_limit_orders().spec_bids(),
                order,
                r,
            ) && final(self).spec_active_limit_orders().spec_asks() == old(self).spec_active_limit_orders().spec_asks(),
            order.spec_side() == Side::Sell ==> final(self).spec_active_limit_orders().spec_asks().inserted(
                old(self).spec_active_limit_orders().spec_asks(),
                order,
                r,
            ) && final(self).spec_active_limit_orders().spec_bids() == old(self).spec_active_limit_orders().spec_bids(),
    {
        self.active_limit_orders.try_insert(order)
    }

    /// Fill the best limit order of `side` and change the position accordingly;
    /// reduces order margin.
    pub fn fill_best(
        &mut self,
        side: Side,
        filled_quantity: Q,
        limit_price: QuoteCurrency<D>,
        fee: Q::PairedCurrency,
        ts_ns: TimestampNs,
    ) -> (r: Option<LimitOrder<D, Q, U, Filled<Q>>>)
        requires
            old(self).wf(),
            filled_quantity.raw() > 0,
            limit_price.raw() > 0,
            old(self).spec_balances().spec_equity() >= 0,
            old(self).change_position_in_range(
                filled_quantity.raw(),
                limit_price.raw(),
                side,
                fee.raw(),
            ),
            side == Side::Buy && old(self).spec_active_limit_orders().spec_bids().spec_orders().len()
                > 0 ==> filled_quantity.raw() <= old(self).spec_active_limit_orders().spec_bids().spec_orders().last().spec_remaining_quantity().raw()
                && in_i64(
                old(self).spec_active_limit_orders().spec_bids().spec_orders().last().spec_filled_quantity().raw()
                    + filled_quantity.raw(),
            ),
            side == Side::Sell && old(self).spec_active_limit_orders().spec_asks().spec_orders().len()
                > 0 ==> filled_quantity.raw() <= old(self).spec_active_limit_orders().spec_asks().spec_orders().last().spec_remaining_quantity().raw()
                && in_i64(
                old(self).spec_active_limit_orders().spec_asks().spec_orders().last().spec_filled_quantity().raw()
                    + filled_quantity.raw(),
            ),
        ensures
            final(self).position_changed(
                *old(self),
                filled_quantity.raw(),
                limit_price.raw(),
                side,
                fee.raw(),
            ),
            side == Side::Buy ==> final(self).spec_active_limit_orders().spec_bids().filled_best(
                old(self).spec_active_limit_orders().spec_bids(),
                filled_quantity.raw(),
                ts_ns,
                r,
            ) && final(self).spec_active_limit_orders().spec_asks() == old(self).spec_active_limit_orders().spec_asks(),
            side == Side::Sell ==> final(self).spec_active_limit_orders().spec_asks().filled_best(
                old(self).spec_active_limit_orders().spec_asks(),
                filled_quantity.raw(),
                ts_ns,
                r,
            ) && final(self).spec_active_limit_orders().spec_bids() == old(self).spec_active_limit_orders().spec_bids(),
    {
        self.change_position(filled_quantity, limit_price, side, fee);
        self.active_limit_orders.fill_best(side, filled_quantity, ts_ns)
    }

    /// Remove a limit order.
    pub fn cancel_limit_order(&mut self, by: CancelBy<U>) -> (r: Result<
        LimitOrder<D, Q, U, Pending<Q>>,
        OrderIdNotFound<U>,
    >)
        requires
            old(self).wf(),
        ensures
            final(self).wf(),
            final(self).spec_position() == old(self).spec_position(),
            final(self).spec_balances() == old(self).spec_balances(),
            final(self).spec_init_margin_req() == old(self).spec_init_margin_req(),
            final(self).spec_maker_fee() == old(self).spec_maker_fee(),
            final(self).spec_active_limit_orders().limit_order_removed(
                old(self).spec_active_limit_orders(),
                by,
                r,
            ),
            r is Err ==> *final(self) == *old(self),
    {
        self.active_limit_orders.remove_limit_order(by)
    }
}


/// Cancelling an order right after submitting it gives the account back the collateral
/// requirement, margin excess and books it had before, where no active order had the
/// order's id.
pub proof fn submit_then_cancel_restores_collateral<const D: u8, Q: Currency<D>, U: UserOrderId>(
    before: Account<D, Q, U>,
    submitted: Account<D, Q, U>,
    cancelled: Account<D, Q, U>,
    order: LimitOrder<D, Q, U, Pending<Q>>,
    r: Result<LimitOrder<D, Q, U, Pending<Q>>, OrderIdNotFound<U>>,
)
    requires
        before.wf(),
        !has_id(before.spec_active_limit_orders().spec_bids().spec_orders(), order.spec_id()),
        !has_id(before.spec_active_limit_orders().spec_asks().spec_orders(), order.spec_id()),
        submitted.spec_position() == before.spec_position(),
        submitted.spec_balances() == before.spec_balances(),
        submitted.spec_init_margin_req() == before.spec_init_margin_req(),
        submitted.spec_maker_fee() == before.spec_maker_fee(),
        order.spec_side() == Side::Buy ==> submitted.spec_active_limit_orders().spec_bids().inserted(
            before.spec_active_limit_orders().spec_bids(),
            order,
            Ok(()),
        ) && submitted.spec_active_limit_orders().spec_asks()
            == before.spec_active_limit_orders().spec_asks(),
        order.spec_side() == Side::Sell ==> submitted.spec_active_limit_orders().spec_asks().inserted(
            before.spec_active_limit_orders().spec_asks(),
            order,
            Ok(()),
        ) && submitted.spec_active_limit_orders().spec_bids()
            == before.spec_active_limit_orders().spec_bids(),
        cancelled.spec_position() == submitted.spec_position(),
        cancelled.spec_balances() == submitted.spec_balances(),
        cancelled.spec_init_margin_req() == submitted.spec_init_margin_req(),
        cancelled.spec_maker_fee() == submitted.spec_maker_fee(),
        cancelled.spec_active_limit_orders().limit_order_removed(
            submitted.spec_active_limit_orders(),
            CancelBy::OrderId(order.spec_id()),
            r,
        ),
    ensures
        r == Ok::<LimitOrder<D, Q, U, Pending<Q>>, OrderIdNotFound<U>>(order),
        cancelled.spec_order_margin() == before.spec_order_margin(),
        cancelled.spec_reserved_maker_fees() == before.spec_reserved_maker_fees(),
        cancelled.spec_required_collateral() == before.spec_required_collateral(),
        cancelled.spec_margin_excess() == before.spec_margin_excess(),
{
    insert_then_cancel_by_id_restores(
        before.spec_active_limit_orders(),
        submitted.spec_active_limit_orders(),
        cancelled.spec_active_limit_orders(),
        order,
        r,
    );
}

} // verus!
