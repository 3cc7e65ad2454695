//! Some information regarding the state of the market.

use vstd::prelude::*;
use vstd::string::StringExecFns;

use crate::currency::{text_of, Decimal, Monetary, QuoteCurrency};
use crate::decimal::{
    decimal_div, in_i64, lemma_scale_bound, scale, spec_div, trunc_div, MAX_DECIMALS,
};
use crate::text::{i64_text, int_text, nat_text, u64_text};
use crate::errors::Error;
use crate::trades::Trade;
use crate::types::TimestampNs;

verus! {

/// Some information regarding the state of the market.
/// - `D`: The constant decimal precision of the currency.
#[derive(Debug, Clone, Copy)]
pub struct MarketState<const D: u8> {
    /// The current bid
    bid: QuoteCurrency<D>,
    /// The current ask
    ask: QuoteCurrency<D>,
    /// The last trade price.
    last_trade_price: QuoteCurrency<D>,
    /// The current timestamp in nanoseconds
    current_ts_ns: TimestampNs,
    /// Used for synchronizing orders.
    step: u64,
}

/// Scaling a dividend and a divisor by the same positive factor leaves the quotient,
/// rounded toward zero, unchanged.
proof fn lemma_trunc_div_cancel(x: int, d: int, s: int)
    requires
        d > 0,
        s > 0,
    ensures
        trunc_div(x * s, d * s) == trunc_div(x, d),
{
    let a = if x < 0 {
        -x
    } else {
        x
    };
    assert(abs_of_product(x, s) == a * s) by (nonlinear_arith)
        requires
            s > 0,
            a == if x < 0 {
                -x
            } else {
                x
            },
    ;
    assert((a * s) / (d * s) == a / d) by {
        vstd::arithmetic::div_mod::lemma_div_denominator(a * s, s, d);
        vstd::arithmetic::div_mod::lemma_div_by_multiple(a, s);
        vstd::arithmetic::mul::lemma_mul_is_commutative(s, d);
    }
    assert((x >= 0) == (x * s >= 0)) by (nonlinear_arith)
        requires
            s > 0,
    ;
    assert(d * s > 0) by (nonlinear_arith)
        requires
            s > 0,
            d > 0,
    ;
}

/// The absolute value of `x * s`.
spec fn abs_of_product(x: int, s: int) -> int {
    if x * s < 0 {
        -(x * s)
    } else {
        x * s
    }
}

impl<const D: u8> Default for MarketState<D> {
    /// A market without prices at time zero.
    fn default() -> (r: Self)
        ensures
            r.spec_bid() == 0,
            r.spec_ask() == 0,
            r.spec_last_trade_price() == 0,
            r.spec_current_ts_ns() == TimestampNs(0),
            r.spec_step() == 0,
    {
        MarketState {
            bid: QuoteCurrency::from_mantissa(0),
            ask: QuoteCurrency::from_mantissa(0),
            last_trade_price: QuoteCurrency::from_mantissa(0),
            current_ts_ns: TimestampNs(0),
            step: 0,
        }
    }
}

impl<const D: u8> MarketState<D> {
    pub closed spec fn spec_bid(self) -> int {
        self.bid.raw()
    }

    pub closed spec fn spec_ask(self) -> int {
        self.ask.raw()
    }

    pub closed spec fn spec_last_trade_price(self) -> int {
        self.last_trade_price.raw()
    }

    pub closed spec fn spec_current_ts_ns(self) -> TimestampNs {
        self.current_ts_ns
    }

    pub closed spec fn spec_step(self) -> u64 {
        self.step
    }

    /// The mantissa of the mid price: the sum of bid and ask halved, rounded toward zero.
    pub open spec fn spec_mid_price(self) -> int {
        trunc_div(self.spec_bid() + self.spec_ask(), 2)
    }

    /// The current bid
    pub fn bid(&self) -> (r: QuoteCurrency<D>)
        ensures
            r.raw() == self.spec_bid(),
    {
        self.bid
    }

    /// The current ask
    pub fn ask(&self) -> (r: QuoteCurrency<D>)
        ensures
            r.raw() == self.spec_ask(),
    {
        self.ask
    }

    /// The last trade price.
    pub fn last_trade_price(&self) -> (r: QuoteCurrency<D>)
        ensures
            r.raw() == self.spec_last_trade_price(),
    {
        self.last_trade_price
    }

    /// The current timestamp in nanoseconds
    pub fn current_ts_ns(&self) -> (r: TimestampNs)
        ensures
            r == self.spec_current_ts_ns(),
    {
        self.current_ts_ns
    }

    /// Used for synchronizing orders.
    pub fn step(&self) -> (r: u64)
        ensures
            r == self.spec_step(),
    {
        self.step
    }

    /// Set the current bid.
    pub fn set_bid(&mut self, bid: QuoteCurrency<D>)
        ensures
            final(self).spec_bid() == bid.raw(),
            final(self).spec_ask() == old(self).spec_ask(),
            final(self).spec_last_trade_price() == old(self).spec_last_trade_price(),
            final(self).spec_current_ts_ns() == old(self).spec_current_ts_ns(),
            final(self).spec_step() == old(self).spec_step(),
    {
        self.bid = bid;
    }

    /// Set the current ask.
    pub fn set_ask(&mut self, ask: QuoteCurrency<D>)
        ensures
            final(self).spec_ask() == ask.raw(),
            final(self).spec_bid() == old(self).spec_bid(),
            final(self).spec_last_trade_price() == old(self).spec_last_trade_price(),
            final(self).spec_current_ts_ns() == old(self).spec_current_ts_ns(),
            final(self).spec_step() == old(self).spec_step(),
    {
        self.ask = ask;
    }

    /// Set the last trade price.
    pub fn set_last_trade_price(&mut self, last_trade_price: QuoteCurrency<D>)
        ensures
            final(self).spec_last_trade_price() == last_trade_price.raw(),
            final(self).spec_bid() == old(self).spec_bid(),
            final(self).spec_ask() == old(self).spec_ask(),
            final(self).spec_current_ts_ns() == old(self).spec_current_ts_ns(),
            final(self).spec_step() == old(self).spec_step(),
    {
        self.last_trade_price = last_trade_price;
    }

    /// Get the mid price: the sum of bid and ask divided by the decimal two.
    pub fn mid_price(&self) -> (r: QuoteCurrency<D>)
        requires
            D <= MAX_DECIMALS,
            in_i64(self.spec_bid() + self.spec_ask()),
        ensures
            r.raw() == self.spec_mid_price(),
    {
        proof {
            lemma_scale_bound(D);
            self.bid.lemma_raw_range();
            self.ask.lemma_raw_range();
        }
        let one = Decimal::<D>::one();
        let two = one.mantissa() + one.mantissa();
        let sum = self.bid.mantissa() + self.ask.mantissa();
        proof {
            let x = sum as int;
            let s = scale(D);
            assert(x * s == s * x) by (nonlinear_arith);
            lemma_trunc_div_cancel(x, 2, s);
            assert(2 * s == s * 2) by (nonlinear_arith);
            assert(spec_div(D, x, two as int) == trunc_div(x, 2));
            assert(-0x8000_0000_0000_0000 <= trunc_div(x, 2) <= 0x7fff_ffff_ffff_ffff);
        }
        QuoteCurrency::from_mantissa(decimal_div::<D>(sum, two))
    }

    /// Get the last observed timestamp in nanoseconds
    pub fn current_timestamp_ns(&self) -> (r: TimestampNs)
        ensures
            r == self.spec_current_ts_ns(),
    {
        self.current_ts_ns
    }

    /// A market state of the given components.
    pub fn from_components(
        bid: QuoteCurrency<D>,
        ask: QuoteCurrency<D>,
        last_trade_price: QuoteCurrency<D>,
        current_ts_ns: TimestampNs,
        step: u64,
    ) -> (r: Self)
        ensures
            r.spec_bid() == bid.raw(),
            r.spec_ask() == ask.raw(),
            r.spec_last_trade_price() == last_trade_price.raw(),
            r.spec_current_ts_ns() == current_ts_ns,
            r.spec_step() == step,
    {
        MarketState { bid, ask, last_trade_price, current_ts_ns, step }
    }

    /// The text of the state, e.g. `bid: 100.0 Quote, ask: 101.0 Quote, ts_ns: 0, step: 0`.
    pub fn to_string(&self) -> (r: String)
        requires
            D <= MAX_DECIMALS,
        ensures
            r@ == "bid: "@ + crate::decimal::decimal_text(D, self.spec_bid() as i64)
                + QuoteCurrency::<D>::unit_suffix() + ", ask: "@ + crate::decimal::decimal_text(
                D,
                self.spec_ask() as i64,
            ) + QuoteCurrency::<D>::unit_suffix() + ", ts_ns: "@ + int_text(
                self.spec_current_ts_ns().0 as int,
            ) + ", step: "@ + nat_text(self.spec_step() as nat),
    {
        let mut out = String::from_str("bid: ");
        let bid = text_of(self.bid);
        out.append(bid.as_str());
        out.append(", ask: ");
        let ask = text_of(self.ask);
        out.append(ask.as_str());
        out.append(", ts_ns: ");
        let ts = i64_text(self.current_ts_ns.0);
        out.append(ts.as_str());
        out.append(", step: ");
        let step = u64_text(self.step);
        out.append(step.as_str());
        out
    }
}

/// Newest information of the market, which updates the `MarketState`.
pub trait MarketUpdate<const D: u8> {
    /// The time of the update at the exchange.
    spec fn spec_timestamp_exchange_ns(&self) -> TimestampNs;

    /// The market state after this update, before the state takes its timestamp and step.
    spec fn spec_updated(&self, state: MarketState<D>) -> MarketState<D>;

    /// The time of the update at the exchange.
    fn timestamp_exchange_ns(&self) -> (r: TimestampNs)
        ensures
            r == self.spec_timestamp_exchange_ns(),
    ;

    /// Update the bid, ask or last trade price of the market state; its timestamp and step
    /// stay.
    fn update_market_state(&self, market_state: &mut MarketState<D>)
        ensures
            *final(market_state) == self.spec_updated(*old(market_state)),
            final(market_state).spec_current_ts_ns() == old(market_state).spec_current_ts_ns(),
            final(market_state).spec_step() == old(market_state).spec_step(),
    ;
}

/// A trade sets the last trade price.
impl<const D: u8> MarketUpdate<D> for Trade<D> {
    open spec fn spec_timestamp_exchange_ns(&self) -> TimestampNs {
        self.timestamp_exchange_ns
    }

    open spec fn spec_updated(&self, state: MarketState<D>) -> MarketState<D> {
        state.spec_with_last_trade_price(self.price)
    }

    fn timestamp_exchange_ns(&self) -> (r: TimestampNs) {
        self.timestamp_exchange_ns
    }

    fn update_market_state(&self, market_state: &mut MarketState<D>) {
        market_state.last_trade_price = self.price;
    }
}

impl<const D: u8> MarketState<D> {
    /// The state with `price` as its last trade price.
    pub closed spec fn spec_with_last_trade_price(self, price: QuoteCurrency<D>) -> Self {
        MarketState { last_trade_price: price, ..self }
    }

    /// Update the state with new information: the update sets its prices, then the state
    /// takes the update's timestamp and advances its step.
    pub fn update_state<M: MarketUpdate<D>>(&mut self, market_update: &M) -> (r: Result<
        (),
        Error,
    >)
        requires
            old(self).spec_step() < u64::MAX,
        ensures
            r is Ok,
            final(self).spec_bid() == market_update.spec_updated(*old(self)).spec_bid(),
            final(self).spec_ask() == market_update.spec_updated(*old(self)).spec_ask(),
            final(self).spec_last_trade_price() == market_update.spec_updated(
                *old(self),
            ).spec_last_trade_price(),
            final(self).spec_current_ts_ns() == market_update.spec_timestamp_exchange_ns(),
            final(self).spec_step() == old(self).spec_step() + 1,
    {
        market_update.update_market_state(self);
        self.current_ts_ns = market_update.timestamp_exchange_ns();
        self.step = self.step + 1;
        Ok(())
    }
}

/// The mid price lies between the bid and the ask, where the bid does not exceed the ask.
pub proof fn mid_price_between_bid_and_ask<const D: u8>(state: MarketState<D>)
    requires
        state.spec_bid() <= state.spec_ask(),
    ensures
        state.spec_bid() <= state.spec_mid_price() <= state.spec_ask(),
{
    let b = state.spec_bid();
    let a = state.spec_ask();
    let x = b + a;
    if x >= 0 {
        assert(trunc_div(x, 2) == x / 2);
    } else {
        assert(trunc_div(x, 2) == -((-x) / 2));
    }
}

} // verus!
