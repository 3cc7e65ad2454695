//! Margin computations shared by the account components.

use vstd::prelude::*;

use crate::account::position::Position;
use crate::currency::{
    abs_of, diff_of, max_of, spec_notional_of, times, Currency, Decimal, MarginCurrency, Monetary,
    QuoteCurrency,
};
use crate::decimal::{
    abs, decimal_div, in_i64, lemma_scale_pos, lemma_trunc_div_nonneg, scale, spec_div, spec_mul,
    MAX_DECIMALS,
};

verus! {

/// The larger of two integers.
pub open spec fn spec_max(a: int, b: int) -> int {
    if a >= b {
        a
    } else {
        b
    }
}

/// The notional value of resting orders which needs margin: a long position offsets the
/// sell orders which would reduce it, a short position the buy orders which would reduce it,
/// and only the larger side is margined.
pub open spec fn spec_order_margin_notional(
    bids_notional: int,
    asks_notional: int,
    position_quantity: int,
    position_notional: int,
) -> int {
    if position_quantity == 0 {
        spec_max(bids_notional, asks_notional)
    } else if position_quantity > 0 {
        spec_max(bids_notional, asks_notional - position_notional)
    } else {
        spec_max(bids_notional - position_notional, asks_notional)
    }
}

/// The order margin: the margined notional value times the initial margin requirement.
pub open spec fn spec_order_margin(
    d: u8,
    bids_notional: int,
    asks_notional: int,
    position_quantity: int,
    position_notional: int,
    init_margin_req: int,
) -> int {
    spec_mul(
        d,
        spec_order_margin_notional(
            bids_notional,
            asks_notional,
            position_quantity,
            position_notional,
        ),
        init_margin_req,
    )
}

/// The margin required by resting orders with the given buy and sell notional values
/// next to `position`.
pub fn order_margin<const D: u8, Q: Currency<D>>(
    bids_notional: Q::PairedCurrency,
    asks_notional: Q::PairedCurrency,
    init_margin_req: Decimal<D>,
    position: &Position<D, Q>,
) -> (r: Q::PairedCurrency)
    requires
        D <= MAX_DECIMALS,
        position.wf(),
        position.spec_quantity() != i64::MIN,
        in_i64(position.spec_notional()),
        in_i64(bids_notional.raw() - position.spec_notional()),
        in_i64(asks_notional.raw() - position.spec_notional()),
        in_i64(
            spec_order_margin(
                D,
                bids_notional.raw(),
                asks_notional.raw(),
                position.spec_quantity(),
                position.spec_notional(),
                init_margin_req.raw(),
            ),
        ),
    ensures
        r.raw() == spec_order_margin(
            D,
            bids_notional.raw(),
            asks_notional.raw(),
            position.spec_quantity(),
            position.spec_notional(),
            init_margin_req.raw(),
        ),
{
    let q = position.quantity().mantissa();
    let margined = if q == 0 {
        max_of(bids_notional, asks_notional)
    } else {
        let position_notional = position.notional();
        if q > 0 {
            max_of(bids_notional, diff_of(asks_notional, position_notional))
        } else {
            max_of(diff_of(bids_notional, position_notional), asks_notional)
        }
    };
    times(margined, init_margin_req)
}


/// The margin required by a position of `pos_size` (negative if short) entered at
/// `entry_price`: its notional value divided by the leverage.
pub fn margin_for_position<const D: u8, Q: Currency<D>>(
    pos_size: Q,
    entry_price: QuoteCurrency<D>,
    leverage: Decimal<D>,
) -> (r: Q::PairedCurrency)
    requires
        D <= MAX_DECIMALS,
        pos_size.raw() != i64::MIN,
        entry_price.raw() > 0,
        leverage.raw() != 0,
        in_i64(spec_notional_of::<D, Q>(abs(pos_size.raw()), entry_price.raw())),
        in_i64(
            spec_div(
                D,
                spec_notional_of::<D, Q>(abs(pos_size.raw()), entry_price.raw()),
                leverage.raw(),
            ),
        ),
    ensures
        r.raw() == spec_div(
            D,
            spec_notional_of::<D, Q>(abs(pos_size.raw()), entry_price.raw()),
            leverage.raw(),
        ),
{
    let size = abs_of(pos_size);
    let notional = <Q::PairedCurrency as MarginCurrency<D>>::convert_from(size.mantissa(), entry_price);
    <Q::PairedCurrency as Monetary<D>>::from_mantissa(
        decimal_div::<D>(notional.mantissa(), leverage.mantissa()),
    )
}

/// Without resting orders no order margin is required, and with resting orders of
/// non-negative notional value the order margin is never negative, whatever the position.
pub proof fn order_margin_zero_without_orders(
    d: u8,
    bids_notional: int,
    asks_notional: int,
    position_quantity: int,
    position_notional: int,
    init_margin_req: int,
)
    requires
        d <= MAX_DECIMALS,
        bids_notional >= 0,
        asks_notional >= 0,
        position_notional >= 0,
        init_margin_req >= 0,
    ensures
        spec_order_margin(d, 0, 0, position_quantity, position_notional, init_margin_req) == 0,
        spec_order_margin(
            d,
            bids_notional,
            asks_notional,
            position_quantity,
            position_notional,
            init_margin_req,
        ) >= 0,
{
    lemma_scale_pos(d);
    let margined = spec_order_margin_notional(
        bids_notional,
        asks_notional,
        position_quantity,
        position_notional,
    );
    assert(margined >= 0);
    vstd::arithmetic::mul::lemma_mul_nonnegative(margined, init_margin_req);
    lemma_trunc_div_nonneg(margined * init_margin_req, scale(d));
    assert(spec_order_margin_notional(0, 0, position_quantity, position_notional) == 0);
}

} // verus!
