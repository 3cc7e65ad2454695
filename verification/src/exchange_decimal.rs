//! An exchange for inverse futures whose amounts are `rust_decimal` numbers: the position,
//! the margin and the execution of market and limit orders against the best bid and ask.
//!
//! `rust_decimal` does the arithmetic; its values are held here by their plain parts, and
//! each operation is the checked one, so that an overflow or a division by zero is reported
//! as an `ArithmeticError` with the exchange unchanged.

use vstd::prelude::*;

use crate::errors::OrderError;
use crate::types::Side;

verus! {

/// The largest magnitude of a `rust_decimal` mantissa: 96 bits.
pub const MAX_MANTISSA: i128 = 0x0000_0000_FFFF_FFFF_FFFF_FFFF_FFFF_FFFF;

/// The largest number of fractional digits of a `rust_decimal`.
pub const MAX_SCALE: u32 = 28;

/// A `rust_decimal` number given by its parts: `mantissa * 10^-scale`.
#[derive(Debug, Clone, Copy, PartialEq, Eq, Structural)]
pub struct DecimalValue {
    pub mantissa: i128,
    pub scale: u32,
}

/// `rust_decimal` reported an overflow or a division by zero.
#[derive(Debug, Clone, Copy, PartialEq, Eq, Structural)]
pub struct ArithmeticError;

/// Ten to the power of `n`.
pub open spec fn pow10(n: nat) -> int
    decreases n,
{
    if n == 0 {
        1
    } else {
        10 * pow10((n - 1) as nat)
    }
}

impl DecimalValue {
    /// The parts are those of a `rust_decimal` number.
    pub open spec fn wf(self) -> bool {
        -MAX_MANTISSA <= self.mantissa <= MAX_MANTISSA && self.scale <= MAX_SCALE
    }

    /// The decimal `mantissa * 10^-scale`.
    pub fn new(mantissa: i128, scale: u32) -> (r: Self)
        ensures
            r == (DecimalValue { mantissa, scale }),
    {
        DecimalValue { mantissa, scale }
    }
}

/// The decimal zero.
pub open spec fn zero() -> DecimalValue {
    DecimalValue { mantissa: 0, scale: 0 }
}

/// The decimal one.
pub open spec fn one() -> DecimalValue {
    DecimalValue { mantissa: 1, scale: 0 }
}

/// Whether `a` is smaller than `b` as numbers.
pub open spec fn value_lt(a: DecimalValue, b: DecimalValue) -> bool {
    a.mantissa * pow10(b.scale as nat) < b.mantissa * pow10(a.scale as nat)
}

/// The absolute value: the mantissa without its sign, at the same scale.
pub open spec fn abs_value(a: DecimalValue) -> DecimalValue {
    DecimalValue {
        mantissa: if a.mantissa < 0 {
            (-a.mantissa) as i128
        } else {
            a.mantissa
        },
        scale: a.scale,
    }
}

/// The larger of two numbers, the second where they are equal.
pub open spec fn max_value(a: DecimalValue, b: DecimalValue) -> DecimalValue {
    if value_lt(b, a) {
        a
    } else {
        b
    }
}

/// The parts of what `rust_decimal`'s `checked_add` returns for two numbers given by parts.
pub uninterp spec fn rust_decimal_checked_add(a_m: i128, a_s: u32, b_m: i128, b_s: u32) -> Option<
    (i128, u32),
>;

/// The parts of what `rust_decimal`'s `checked_sub` returns for two numbers given by parts.
pub uninterp spec fn rust_decimal_checked_sub(a_m: i128, a_s: u32, b_m: i128, b_s: u32) -> Option<
    (i128, u32),
>;

/// The parts of what `rust_decimal`'s `checked_mul` returns for two numbers given by parts.
pub uninterp spec fn rust_decimal_checked_mul(a_m: i128, a_s: u32, b_m: i128, b_s: u32) -> Option<
    (i128, u32),
>;

/// The parts of what `rust_decimal`'s `checked_div` returns for two numbers given by parts.
pub uninterp spec fn rust_decimal_checked_div(a_m: i128, a_s: u32, b_m: i128, b_s: u32) -> Option<
    (i128, u32),
>;

/// A number given by optional parts.
pub open spec fn of_parts(p: Option<(i128, u32)>) -> Option<DecimalValue> {
    match p {
        Some(parts) => Some(DecimalValue { mantissa: parts.0, scale: parts.1 }),
        None => None,
    }
}

/// The sum, or `None` where it overflows.
pub open spec fn sum(a: DecimalValue, b: DecimalValue) -> Option<DecimalValue> {
    of_parts(rust_decimal_checked_add(a.mantissa, a.scale, b.mantissa, b.scale))
}

/// The difference, or `None` where it overflows.
pub open spec fn difference(a: DecimalValue, b: DecimalValue) -> Option<DecimalValue> {
    of_parts(rust_decimal_checked_sub(a.mantissa, a.scale, b.mantissa, b.scale))
}

/// The product, or `None` where it overflows.
pub open spec fn product(a: DecimalValue, b: DecimalValue) -> Option<DecimalValue> {
    of_parts(rust_decimal_checked_mul(a.mantissa, a.scale, b.mantissa, b.scale))
}

/// The quotient, or `None` where it overflows or `b` is zero.
pub open spec fn quotient(a: DecimalValue, b: DecimalValue) -> Option<DecimalValue> {
    of_parts(rust_decimal_checked_div(a.mantissa, a.scale, b.mantissa, b.scale))
}

/// Whether an optional number, where there is one, is a `rust_decimal` number.
pub open spec fn opt_wf(r: Option<DecimalValue>) -> bool {
    r is Some ==> r->0.wf()
}

/// `rust_decimal::Decimal::checked_add` on numbers given by parts; its results are
/// `rust_decimal` numbers.
#[verifier::external_body]
fn checked_add(a: DecimalValue, b: DecimalValue) -> (r: Option<DecimalValue>)
    requires
        a.wf(),
        b.wf(),
    ensures
        r == of_parts(rust_decimal_checked_add(a.mantissa, a.scale, b.mantissa, b.scale)),
        opt_wf(r),
{
    let x = rust_decimal::Decimal::from_i128_with_scale(a.mantissa, a.scale);
    let y = rust_decimal::Decimal::from_i128_with_scale(b.mantissa, b.scale);
    match x.checked_add(y) {
        Some(d) => Some(DecimalValue { mantissa: d.mantissa(), scale: d.scale() }),
        None => None,
    }
}

/// `rust_decimal::Decimal::checked_sub` on numbers given by parts; its results are
/// `rust_decimal` numbers.
#[verifier::external_body]
fn checked_sub(a: DecimalValue, b: DecimalValue) -> (r: Option<DecimalValue>)
    requires
        a.wf(),
        b.wf(),
    ensures
        r == of_parts(rust_decimal_checked_sub(a.mantissa, a.scale, b.mantissa, b.scale)),
        opt_wf(r),
{
    let x = rust_decimal::Decimal::from_i128_with_scale(a.mantissa, a.scale);
    let y = rust_decimal::Decimal::from_i128_with_scale(b.mantissa, b.scale);
    match x.checked_sub(y) {
        Some(d) => Some(DecimalValue { mantissa: d.mantissa(), scale: d.scale() }),
        None => None,
    }
}

/// `rust_decimal::Decimal::checked_mul` on numbers given by parts; its results are
/// `rust_decimal` numbers.
#[verifier::external_body]
fn checked_mul(a: DecimalValue, b: DecimalValue) -> (r: Option<DecimalValue>)
    requires
        a.wf(),
        b.wf(),
    ensures
        r == of_parts(rust_decimal_checked_mul(a.mantissa, a.scale, b.mantissa, b.scale)),
        opt_wf(r),
{
    let x = rust_decimal::Decimal::from_i128_with_scale(a.mantissa, a.scale);
    let y = rust_decimal::Decimal::from_i128_with_scale(b.mantissa, b.scale);
    match x.checked_mul(y) {
        Some(d) => Some(DecimalValue { mantissa: d.mantissa(), scale: d.scale() }),
        None => None,
    }
}

/// `rust_decimal::Decimal::checked_div` on numbers given by parts; its results are
/// `rust_decimal` numbers.
#[verifier::external_body]
fn checked_div(a: DecimalValue, b: DecimalValue) -> (r: Option<DecimalValue>)
    requires
        a.wf(),
        b.wf(),
    ensures
        r == of_parts(rust_decimal_checked_div(a.mantissa, a.scale, b.mantissa, b.scale)),
        opt_wf(r),
{
    let x = rust_decimal::Decimal::from_i128_with_scale(a.mantissa, a.scale);
    let y = rust_decimal::Decimal::from_i128_with_scale(b.mantissa, b.scale);
    match x.checked_div(y) {
        Some(d) => Some(DecimalValue { mantissa: d.mantissa(), scale: d.scale() }),
        None => None,
    }
}

/// `<` of `rust_decimal::Decimal`, which orders the numbers by their values.
#[verifier::external_body]
fn less_than(a: DecimalValue, b: DecimalValue) -> (r: bool)
    requires
        a.wf(),
        b.wf(),
    ensures
        r == value_lt(a, b),
{
    rust_decimal::Decimal::from_i128_with_scale(a.mantissa, a.scale)
        < rust_decimal::Decimal::from_i128_with_scale(b.mantissa, b.scale)
}

/// The absolute value.
fn abs_of(a: DecimalValue) -> (r: DecimalValue)
    requires
        a.wf(),
    ensures
        r == abs_value(a),
        r.wf(),
{
    if a.mantissa < 0 {
        DecimalValue { mantissa: -a.mantissa, scale: a.scale }
    } else {
        a
    }
}

/// The smaller of two numbers as values, the second where they are equal.
pub open spec fn min_value(a: DecimalValue, b: DecimalValue) -> DecimalValue {
    if value_lt(a, b) {
        a
    } else {
        b
    }
}

/// The smaller of two numbers, the second where they are equal.
pub fn min(a: DecimalValue, b: DecimalValue) -> (r: DecimalValue)
    requires
        a.wf(),
        b.wf(),
    ensures
        r == min_value(a, b),
        r.wf(),
{
    if less_than(a, b) {
        a
    } else {
        b
    }
}

/// The larger of two numbers, the second where they are equal.
pub fn max(a: DecimalValue, b: DecimalValue) -> (r: DecimalValue)
    requires
        a.wf(),
        b.wf(),
    ensures
        r == max_value(a, b),
        r.wf(),
{
    if less_than(b, a) {
        a
    } else {
        b
    }
}

/// The fees and the starting balance of a venue.
#[derive(Debug, Clone, Copy, PartialEq, Eq, Structural)]
pub struct ConfigDecimal {
    pub fee_maker: DecimalValue,
    pub fee_taker: DecimalValue,
    pub starting_balance_base: DecimalValue,
}

impl ConfigDecimal {
    /// The presets of Bitmex perpetuals: a maker rebate of 0.025% and a taker fee of 0.075%.
    pub fn bitmex_perpetuals() -> (r: Self)
        ensures
            r.fee_maker == (DecimalValue { mantissa: -25i128, scale: 5 }),
            r.fee_taker == (DecimalValue { mantissa: 75, scale: 5 }),
            r.starting_balance_base == one(),
    {
        ConfigDecimal {
            fee_maker: DecimalValue { mantissa: -25, scale: 5 },
            fee_taker: DecimalValue { mantissa: 75, scale: 5 },
            starting_balance_base: DecimalValue { mantissa: 1, scale: 0 },
        }
    }

    /// The presets of Bitmex futures: a maker rebate of 0.05% and a taker fee of 0.25%.
    pub fn bitmex_futures() -> (r: Self)
        ensures
            r.fee_maker == (DecimalValue { mantissa: -5i128, scale: 4 }),
            r.fee_taker == (DecimalValue { mantissa: 25, scale: 4 }),
            r.starting_balance_base == one(),
    {
        ConfigDecimal {
            fee_maker: DecimalValue { mantissa: -5, scale: 4 },
            fee_taker: DecimalValue { mantissa: 25, scale: 4 },
            starting_balance_base: DecimalValue { mantissa: 1, scale: 0 },
        }
    }

    /// The presets of Deribit futures: no maker fee and a taker fee of 0.05%.
    pub fn deribit_futures() -> (r: Self)
        ensures
            r.fee_maker == zero(),
            r.fee_taker == (DecimalValue { mantissa: 5, scale: 4 }),
            r.starting_balance_base == one(),
    {
        ConfigDecimal {
            fee_maker: DecimalValue { mantissa: 0, scale: 0 },
            fee_taker: DecimalValue { mantissa: 5, scale: 4 },
            starting_balance_base: DecimalValue { mantissa: 1, scale: 0 },
        }
    }
}

/// Describes the margin information of the account, denoted in the base currency.
#[derive(Debug, Clone, Copy, PartialEq, Eq, Structural)]
pub struct Margin {
    pub wallet_balance: DecimalValue,
    pub margin_balance: DecimalValue,
    pub position_margin: DecimalValue,
    pub available_balance: DecimalValue,
}

/// Describes the position of the account: its size in quote currency (negative if short).
#[derive(Debug, Clone, Copy, PartialEq, Eq, Structural)]
pub struct Position {
    pub size: DecimalValue,
    pub value: DecimalValue,
    pub entry_price: DecimalValue,
    pub liq_price: DecimalValue,
    pub margin: DecimalValue,
    pub leverage: DecimalValue,
    pub unrealized_pnl: DecimalValue,
}

/// The kinds of orders the exchange takes.
#[derive(Debug, Clone, Copy, PartialEq, Eq, Structural)]
pub enum OrderType {
    /// Executed at once against the bid or ask.
    Market,
    /// Rests until the market crosses its price, then fills at that price.
    Limit,
    /// Rests until the market reaches its trigger price, then executes at the market.
    StopMarket,
    /// Rests until the market reaches its take profit price, then executes at the market.
    TakeProfitMarket,
}

/// An order: its kind, its side, its size in quote currency and its (limit or trigger)
/// price, with the id and the time the exchange gave it when it was accepted.
#[derive(Debug, Clone, Copy, PartialEq, Eq, Structural)]
pub struct OrderDecimal {
    pub order_type: OrderType,
    pub side: Side,
    pub size: DecimalValue,
    pub price: DecimalValue,
    pub id: u64,
    pub timestamp: u64,
}

impl Margin {
    pub open spec fn wf(self) -> bool {
        &&& self.wallet_balance.wf()
        &&& self.margin_balance.wf()
        &&& self.position_margin.wf()
        &&& self.available_balance.wf()
    }
}

impl Position {
    pub open spec fn wf(self) -> bool {
        &&& self.size.wf()
        &&& self.value.wf()
        &&& self.entry_price.wf()
        &&& self.liq_price.wf()
        &&& self.margin.wf()
        &&& self.leverage.wf()
        &&& self.unrealized_pnl.wf()
    }
}

impl OrderDecimal {
    pub open spec fn wf(self) -> bool {
        self.size.wf() && self.price.wf()
    }
}

/// The return on equity of the position: the relative move of the bid above the entry price
/// of a long position, or of the ask below the entry price otherwise.
pub open spec fn spec_roe(ex: ExchangeDecimal) -> Option<DecimalValue> {
    let gain = if ex.position.size.mantissa > 0 {
        difference(ex.bid, ex.position.entry_price)
    } else {
        difference(ex.position.entry_price, ex.ask)
    };
    match gain {
        Some(g) => quotient(g, ex.position.entry_price),
        None => None,
    }
}

/// The exchange after a market execution that returned `res`.
pub open spec fn with_execution(
    ex: ExchangeDecimal,
    res: (Position, Margin, Option<DecimalValue>),
) -> ExchangeDecimal {
    ExchangeDecimal { position: res.0, margin: res.1, ..ex }
}

/// The side and size of the market execution that liquidates the position: a long position
/// is sold by its size, any other position is bought by its size.
pub open spec fn spec_liquidation_order(ex: ExchangeDecimal) -> (Side, DecimalValue) {
    if ex.position.size.mantissa > 0 {
        (Side::Sell, ex.position.size)
    } else {
        (Side::Buy, ex.position.size)
    }
}

/// Whether a liquidation succeeds, and the exchange after it: the execution of the
/// liquidation order and then the recomputed position statistics. A failed execution
/// changes nothing; failed statistics keep the execution.
pub open spec fn spec_liquidate(ex: ExchangeDecimal) -> (bool, ExchangeDecimal) {
    let (side, size) = spec_liquidation_order(ex);
    match spec_execute_market(ex, side, size) {
        None => (false, ex),
        Some(res) => {
            let executed = with_execution(ex, res);
            match spec_position_stats(executed, executed.position, executed.margin) {
                Some(pm) => (true, ExchangeDecimal { position: pm.0, margin: pm.1, ..executed }),
                None => (false, executed),
            }
        },
    }
}

/// Whether the market crossed the liquidation price of the position: the ask fell below it
/// for a long position, the bid rose above it for a short one.
pub open spec fn spec_crossed_liq_price(ex: ExchangeDecimal) -> bool {
    if ex.position.size.mantissa > 0 {
        value_lt(ex.ask, ex.position.liq_price)
    } else if ex.position.size.mantissa < 0 {
        value_lt(ex.position.liq_price, ex.bid)
    } else {
        false
    }
}

/// The answer to a limit order: `Some(Some(..))` where its price lies beyond the away side
/// of the market or the available balance (plus the position margin, where the order goes
/// against the position) does not cover its margin `size / price / leverage`, `Some(None)`
/// where the order is valid, `None` where the arithmetic fails.
pub open spec fn spec_validate_limit_order(ex: ExchangeDecimal, o: OrderDecimal) -> Option<
    Option<OrderError>,
> {
    let bad_price = match o.side {
        Side::Buy => value_lt(ex.ask, o.price),
        Side::Sell => value_lt(o.price, ex.bid),
    };
    if bad_price {
        Some(Some(OrderError::InvalidLimitPrice))
    } else {
        match quotient(o.size, o.price) {
            Some(per_price) => match quotient(per_price, ex.position.leverage) {
                Some(order_margin) => {
                    let with_position = match o.side {
                        Side::Buy => ex.position.size.mantissa <= 0,
                        Side::Sell => ex.position.size.mantissa > 0,
                    };
                    let available = if with_position {
                        sum(ex.margin.available_balance, ex.position.margin)
                    } else {
                        Some(ex.margin.available_balance)
                    };
                    match available {
                        Some(a) => if value_lt(a, order_margin) {
                            Some(Some(OrderError::NotEnoughAvailableBalance))
                        } else {
                            Some(None)
                        },
                        None => None,
                    }
                },
                None => None,
            },
            None => None,
        }
    }
}

/// The answer to a stop market order: its trigger price must lie beyond the away side of
/// the market, above the ask for a buy and below the bid for a sell.
pub open spec fn spec_validate_stop_market_order(ex: ExchangeDecimal, o: OrderDecimal) -> Option<
    OrderError,
> {
    let triggered = match o.side {
        Side::Buy => !value_lt(ex.ask, o.price),
        Side::Sell => !value_lt(o.price, ex.bid),
    };
    if triggered {
        Some(OrderError::InvalidTriggerPrice)
    } else {
        None
    }
}

/// The answer to a take profit market order: its trigger price must not lie beyond the
/// market, at most the bid for a buy and at least the ask for a sell.
pub open spec fn spec_validate_take_profit_market_order(ex: ExchangeDecimal, o: OrderDecimal) -> Option<
    OrderError,
> {
    let beyond = match o.side {
        Side::Buy => value_lt(ex.bid, o.price),
        Side::Sell => value_lt(o.price, ex.ask),
    };
    if beyond {
        Some(OrderError::InvalidOrder)
    } else {
        None
    }
}

/// The leveraged futures exchange: the position and margin of one account, the best bid
/// and ask, and the account's resting orders.
#[derive(Debug, Clone)]
pub struct ExchangeDecimal {
    pub config: ConfigDecimal,
    pub position: Position,
    pub margin: Margin,
    pub bid: DecimalValue,
    pub ask: DecimalValue,
    /// No trade was consumed yet: the first one sets both the bid and the ask.
    pub init: bool,
    /// The id the next accepted order gets.
    pub next_order_id: u64,
    /// The time accepted orders are stamped with.
    pub timestamp: u64,
    /// The orders executed since they were last handed out, in their order.
    pub orders_executed: Vec<OrderDecimal>,
    pub orders_active: Vec<OrderDecimal>,
}

/// The cumulative order margins of the buy and the sell orders: each order's size over its
/// price over the leverage.
pub open spec fn spec_order_margin_sums(orders: Seq<OrderDecimal>, leverage: DecimalValue) -> Option<
    (DecimalValue, DecimalValue),
>
    decreases orders.len(),
{
    if orders.len() == 0 {
        Some((zero(), zero()))
    } else {
        match spec_order_margin_sums(orders.drop_last(), leverage) {
            Some(sums) => {
                let o = orders.last();
                match quotient(o.size, o.price) {
                    Some(q) => match quotient(q, leverage) {
                        Some(m) => if o.side == Side::Buy {
                            match sum(sums.0, m) {
                                Some(long) => Some((long, sums.1)),
                                None => None,
                            }
                        } else {
                            match sum(sums.1, m) {
                                Some(short) => Some((sums.0, short)),
                                None => None,
                            }
                        },
                        None => None,
                    },
                    None => None,
                }
            },
            None => None,
        }
    }
}

/// The order margin: the larger of the buy and the sell orders' margins, where the position
/// margin offsets the side that would reduce the position.
pub open spec fn spec_order_margin(orders: Seq<OrderDecimal>, pos: Position) -> Option<
    DecimalValue,
> {
    match spec_order_margin_sums(orders, pos.leverage) {
        Some(sums) => if pos.size.mantissa > 0 {
            match difference(sums.1, pos.margin) {
                Some(short) => Some(max_value(sums.0, short)),
                None => None,
            }
        } else {
            match difference(sums.0, pos.margin) {
                Some(long) => Some(max_value(long, sums.1)),
                None => None,
            }
        },
        None => None,
    }
}

/// The unrealized profit of the position in base currency: a long one valued at the bid,
/// a short one at the ask.
pub open spec fn spec_unrealized_pnl(pos: Position, bid: DecimalValue, ask: DecimalValue) -> Option<
    DecimalValue,
> {
    if pos.size.mantissa == 0 {
        Some(zero())
    } else {
        let (a, b) = if pos.size.mantissa > 0 {
            (pos.entry_price, bid)
        } else {
            (ask, pos.entry_price)
        };
        match (quotient(one(), a), quotient(one(), b)) {
            (Some(x), Some(y)) => match difference(x, y) {
                Some(d) => product(d, abs_value(pos.size)),
                None => None,
            },
            _ => None,
        }
    }
}

/// The position and margin after their statistics are recomputed at the current prices.
pub open spec fn spec_position_stats(
    ex: ExchangeDecimal,
    pos: Position,
    mar: Margin,
) -> Option<(Position, Margin)> {
    let price = if pos.size.mantissa > 0 {
        ex.bid
    } else {
        ex.ask
    };
    match spec_unrealized_pnl(pos, ex.bid, ex.ask) {
        Some(upnl) => match quotient(abs_value(pos.size), price) {
            Some(value) => match quotient(value, pos.leverage) {
                Some(vl) => match sum(vl, upnl) {
                    Some(pm) => match sum(mar.wallet_balance, upnl) {
                        Some(mb) => match difference(mar.wallet_balance, pm) {
                            Some(t) => {
                                let pos2 = Position { unrealized_pnl: upnl, value, ..pos };
                                match spec_order_margin(ex.orders_active@, pos2) {
                                    Some(om) => match difference(t, om) {
                                        Some(ab) => Some(
                                            (
                                                pos2,
                                                Margin {
                                                    wallet_balance: mar.wallet_balance,
                                                    margin_balance: mb,
                                                    position_margin: pm,
                                                    available_balance: ab,
                                                },
                                            ),
                                        ),
                                        None => None,
                                    },
                                    None => None,
                                }
                            },
                            None => None,
                        },
                        None => None,
                    },
                    None => None,
                },
                None => None,
            },
            None => None,
        },
        None => None,
    }
}

/// The position and margin after the fee of `fee` times `amount` in quote currency,
/// converted to base at `price`, is taken from the wallet.
pub open spec fn spec_fees_deduced(
    ex: ExchangeDecimal,
    pos: Position,
    mar: Margin,
    fee: DecimalValue,
    amount: DecimalValue,
    price: DecimalValue,
) -> Option<(Position, Margin)> {
    match product(fee, amount) {
        Some(fee_base) => match quotient(fee_base, price) {
            Some(fee_asset) => match difference(mar.wallet_balance, fee_asset) {
                Some(w) => spec_position_stats(ex, pos, Margin { wallet_balance: w, ..mar }),
                None => None,
            },
            None => None,
        },
        None => None,
    }
}

/// The position with its liquidation price: a leverage's share of the entry price below it
/// for a long position, above it for a short one, zero without a position.
pub open spec fn spec_liq_price_updated(pos: Position) -> Option<Position> {
    if pos.size.mantissa == 0 {
        Some(Position { liq_price: zero(), ..pos })
    } else {
        match quotient(pos.entry_price, pos.leverage) {
            Some(q) => match (if pos.size.mantissa > 0 {
                difference(pos.entry_price, q)
            } else {
                sum(pos.entry_price, q)
            }) {
                Some(liq) => Some(Position { liq_price: liq, ..pos }),
                None => None,
            },
            None => None,
        }
    }
}

/// The profit realized by closing `closed` of a position entered at `entry` at `price`:
/// for a short position (closed by a buy) `closed * (1 / price - 1 / entry)`, for a long one
/// `closed * (1 / entry - 1 / price)`.
pub open spec fn spec_rpnl(
    buy: bool,
    closed: DecimalValue,
    entry: DecimalValue,
    price: DecimalValue,
) -> Option<DecimalValue> {
    let (a, b) = if buy {
        (price, entry)
    } else {
        (entry, price)
    };
    match (quotient(one(), a), quotient(one(), b)) {
        (Some(x), Some(y)) => match difference(x, y) {
            Some(d) => product(closed, d),
            None => None,
        },
        _ => None,
    }
}

/// The position and margin after a fill that adds `amount` to the position on its side (or
/// opens it): the size moves by `amount` (`+` for a buy, and for a sell where `sell_adds`),
/// the margin grows by `amount / price / leverage` and the entry price becomes the
/// size-weighted average.
pub open spec fn spec_fill_opening(
    pos: Position,
    mar: Margin,
    buy: bool,
    amount: DecimalValue,
    price: DecimalValue,
    sell_adds: bool,
) -> Option<(Position, Margin, Option<DecimalValue>)> {
    let old_abs = abs_value(pos.size);
    match (if buy || sell_adds {
        sum(pos.size, amount)
    } else {
        difference(pos.size, amount)
    }) {
        Some(size) => match quotient(amount, price) {
            Some(q) => match quotient(q, pos.leverage) {
                Some(m) => match sum(pos.margin, m) {
                    Some(margin) => match (product(price, amount), product(pos.entry_price, old_abs)) {
                        (Some(x), Some(y)) => match (sum(x, y), sum(amount, old_abs)) {
                            (Some(n), Some(w)) => match quotient(n, w) {
                                Some(entry) => Some(
                                    (
                                        Position { size, margin, entry_price: entry, ..pos },
                                        mar,
                                        None,
                                    ),
                                ),
                                None => None,
                            },
                            _ => None,
                        },
                        _ => None,
                    },
                    None => None,
                },
                None => None,
            },
            None => None,
        },
        None => None,
    }
}

/// The position and margin after a fill of `amount` against a position on the other side:
/// the closed part realizes its profit into the wallet; a fill beyond the position (or, where
/// `closes_at_equal`, one of exactly its size) turns it around at `price`, a smaller one
/// keeps `old_entry`.
pub open spec fn spec_fill_reducing(
    pos: Position,
    mar: Margin,
    buy: bool,
    amount: DecimalValue,
    price: DecimalValue,
    old_entry: DecimalValue,
    closes_at_equal: bool,
) -> Option<(Position, Margin, Option<DecimalValue>)> {
    let pos_abs = abs_value(pos.size);
    let turns = if closes_at_equal {
        !value_lt(amount, pos_abs)
    } else {
        value_lt(pos_abs, amount)
    };
    match spec_rpnl(buy, if turns { pos_abs } else { amount }, pos.entry_price, price) {
        Some(rpnl) => match sum(mar.wallet_balance, rpnl) {
            Some(w) => match (if buy {
                sum(pos.size, amount)
            } else {
                difference(pos.size, amount)
            }) {
                Some(size) => {
                    let mar2 = Margin { wallet_balance: w, ..mar };
                    if turns {
                        match difference(amount, pos_abs) {
                            Some(size_diff) => match quotient(size_diff, price) {
                                Some(q) => match quotient(q, pos.leverage) {
                                    Some(margin) => Some(
                                        (
                                            Position { size, margin, entry_price: price, ..pos },
                                            mar2,
                                            Some(rpnl),
                                        ),
                                    ),
                                    None => None,
                                },
                                None => None,
                            },
                            None => None,
                        }
                    } else {
                        match quotient(abs_value(size), old_entry) {
                            Some(q) => match quotient(q, pos.leverage) {
                                Some(margin) => Some(
                                    (
                                        Position { size, margin, entry_price: old_entry, ..pos },
                                        mar2,
                                        Some(rpnl),
                                    ),
                                ),
                                None => None,
                            },
                            None => None,
                        }
                    }
                },
                None => None,
            },
            None => None,
        },
        None => None,
    }
}

/// The position and margin after a fill of `amount` on `side` at `price`, with the profit
/// realized where the fill reduces the position.
pub open spec fn spec_fill(
    pos: Position,
    mar: Margin,
    side: Side,
    amount: DecimalValue,
    price: DecimalValue,
    closes_at_equal: bool,
    sell_adds: bool,
) -> Option<(Position, Margin, Option<DecimalValue>)> {
    let old_entry = if pos.size.mantissa == 0 {
        price
    } else {
        pos.entry_price
    };
    let buy = side == Side::Buy;
    if (buy && pos.size.mantissa < 0) || (!buy && pos.size.mantissa > 0) {
        spec_fill_reducing(pos, mar, buy, amount, price, old_entry, closes_at_equal)
    } else {
        spec_fill_opening(pos, mar, buy, amount, price, sell_adds)
    }
}

/// The position, margin and realized profit after an execution of `amount` at `price` with
/// the fee rate `fee`: the fee is taken, the fill applied, the statistics recomputed and
/// the liquidation price updated.
pub open spec fn spec_execute(
    ex: ExchangeDecimal,
    side: Side,
    amount: DecimalValue,
    price: DecimalValue,
    fee: DecimalValue,
    closes_at_equal: bool,
    sell_adds: bool,
) -> Option<(Position, Margin, Option<DecimalValue>)> {
    match spec_fees_deduced(ex, ex.position, ex.margin, fee, amount, price) {
        Some(pm1) => match spec_fill(pm1.0, pm1.1, side, amount, price, closes_at_equal, sell_adds) {
            Some(filled) => match spec_position_stats(ex, filled.0, filled.1) {
                Some(pm2) => match spec_liq_price_updated(pm2.0) {
                    Some(pos) => Some((pos, pm2.1, filled.2)),
                    None => None,
                },
                None => None,
            },
            None => None,
        },
        None => None,
    }
}

/// A market order of `amount` on `side` fills at the ask (buy) or the bid (sell) and pays
/// the taker fee.
pub open spec fn spec_execute_market(ex: ExchangeDecimal, side: Side, amount: DecimalValue) -> Option<
    (Position, Margin, Option<DecimalValue>),
> {
    let price = if side == Side::Buy {
        ex.ask
    } else {
        ex.bid
    };
    spec_execute(ex, side, amount, price, ex.config.fee_taker, true, false)
}

/// A limit order of `amount` on `side` fills at its `price` and pays the maker fee.
pub open spec fn spec_execute_limit(
    ex: ExchangeDecimal,
    side: Side,
    price: DecimalValue,
    amount: DecimalValue,
) -> Option<(Position, Margin, Option<DecimalValue>)> {
    spec_execute(ex, side, amount, price, ex.config.fee_maker, false, true)
}

/// Whether the available balance does not cover `need` plus `fee_asset`.
pub open spec fn spec_short_of(
    need: DecimalValue,
    fee_asset: DecimalValue,
    available: DecimalValue,
) -> Option<bool> {
    match sum(need, fee_asset) {
        Some(total) => Some(value_lt(available, total)),
        None => None,
    }
}

/// Whether an order whose margin `order_margin` goes against the position lacks balance:
/// where it exceeds the position margin, the part beyond the position's margin plus the fee
/// must be covered by the available balance plus the position's margin.
pub open spec fn spec_short_of_against(
    ex: ExchangeDecimal,
    order_margin: DecimalValue,
    fee_asset: DecimalValue,
) -> Option<bool> {
    if value_lt(ex.margin.position_margin, order_margin) {
        match (
            difference(order_margin, ex.position.margin),
            sum(ex.margin.available_balance, ex.position.margin),
        ) {
            (Some(diff), Some(avail)) => spec_short_of(diff, fee_asset, avail),
            _ => None,
        }
    } else {
        Some(false)
    }
}

/// The answer to a market order of `size` on `side`: `Some(Some(..))` where the available
/// balance does not cover its margin and taker fee, `Some(None)` where it does, `None`
/// where the arithmetic fails.
pub open spec fn spec_validate_market_order(ex: ExchangeDecimal, o: OrderDecimal) -> Option<
    Option<OrderError>,
> {
    let price = if o.side == Side::Buy {
        ex.ask
    } else {
        ex.bid
    };
    match product(ex.config.fee_taker, o.size) {
        Some(fee_base) => match quotient(fee_base, ex.bid) {
            Some(fee_asset) => match quotient(o.size, price) {
                Some(q) => match quotient(q, ex.position.leverage) {
                    Some(order_margin) => {
                        let with_position = (o.side == Side::Buy) == (ex.position.size.mantissa > 0);
                        match (if with_position {
                            spec_short_of(order_margin, fee_asset, ex.margin.available_balance)
                        } else {
                            spec_short_of_against(ex, order_margin, fee_asset)
                        }) {
                            Some(short) => Some(
                                if short {
                                    Some(OrderError::NotEnoughAvailableBalance)
                                } else {
                                    None
                                },
                            ),
                            None => None,
                        }
                    },
                    None => None,
                },
                None => None,
            },
            None => None,
        },
        None => None,
    }
}

/// The resting order `o` is triggered at `bid` and `ask`: a limit buy where the ask fell
/// below its price, a limit sell where the bid rose above it; a stop market buy where the
/// ask reached its trigger price, a stop market sell where the bid did; a take profit market
/// buy where the bid is at or below its price, a take profit market sell where the ask is at
/// or above it. A market order never rests.
pub open spec fn spec_triggered(o: OrderDecimal, bid: DecimalValue, ask: DecimalValue) -> bool {
    match o.order_type {
        OrderType::Limit => match o.side {
            Side::Buy => value_lt(ask, o.price),
            Side::Sell => value_lt(o.price, bid),
        },
        OrderType::StopMarket => match o.side {
            Side::Buy => !value_lt(ask, o.price),
            Side::Sell => !value_lt(bid, o.price),
        },
        OrderType::TakeProfitMarket => match o.side {
            Side::Buy => !value_lt(o.price, bid),
            Side::Sell => !value_lt(ask, o.price),
        },
        OrderType::Market => false,
    }
}

/// `ex` once the order `o` was handled: a triggered limit order is executed as a limit fill
/// of its size at its price, a triggered stop market order as a market execution of its
/// size, a triggered take profit market order as a market execution of its size times the
/// price it executes at; `None` where that execution fails.
pub open spec fn spec_fill_one(ex: ExchangeDecimal, o: OrderDecimal) -> Option<ExchangeDecimal> {
    if spec_triggered(o, ex.bid, ex.ask) {
        let executed = match o.order_type {
            OrderType::StopMarket => spec_execute_market(ex, o.side, o.size),
            OrderType::TakeProfitMarket => match product(
                o.size,
                if o.side == Side::Buy {
                    ex.ask
                } else {
                    ex.bid
                },
            ) {
                Some(amount) => spec_execute_market(ex, o.side, amount),
                None => None,
            },
            _ => spec_execute_limit(ex, o.side, o.price, o.size),
        };
        match executed {
            Some(res) => Some(ExchangeDecimal { position: res.0, margin: res.1, ..ex }),
            None => None,
        }
    } else {
        Some(ex)
    }
}

/// `ex` once the orders were handled one after the other, as `spec_fill_one` describes;
/// `None` where an execution fails.
pub open spec fn spec_fill_crossed(ex: ExchangeDecimal, orders: Seq<OrderDecimal>) -> Option<
    ExchangeDecimal,
>
    decreases orders.len(),
{
    if orders.len() == 0 {
        Some(ex)
    } else {
        match spec_fill_crossed(ex, orders.drop_last()) {
            Some(e) => spec_fill_one(e, orders.last()),
            None => None,
        }
    }
}

/// The orders that are not crossed at `bid` and `ask`, in their order.
pub open spec fn spec_untriggered(orders: Seq<OrderDecimal>, bid: DecimalValue, ask: DecimalValue) -> Seq<
    OrderDecimal,
>
    decreases orders.len(),
{
    if orders.len() == 0 {
        orders
    } else if spec_triggered(orders.last(), bid, ask) {
        spec_untriggered(orders.drop_last(), bid, ask)
    } else {
        spec_untriggered(orders.drop_last(), bid, ask).push(orders.last())
    }
}

/// The orders that are triggered at `bid` and `ask`, in their order.
pub open spec fn spec_triggered_orders(orders: Seq<OrderDecimal>, bid: DecimalValue, ask: DecimalValue) -> Seq<
    OrderDecimal,
>
    decreases orders.len(),
{
    if orders.len() == 0 {
        orders
    } else if spec_triggered(orders.last(), bid, ask) {
        spec_triggered_orders(orders.drop_last(), bid, ask).push(orders.last())
    } else {
        spec_triggered_orders(orders.drop_last(), bid, ask)
    }
}

/// `after` is `before` once the checks of its orders stopped at the order `k`, whose
/// execution failed: the orders before it were handled and the crossed ones among them
/// removed; the order `k` and those after it still rest.
pub open spec fn spec_checks_failed_at(before: ExchangeDecimal, k: int, after: ExchangeDecimal) -> bool {
    let orders = before.orders_active@;
    &&& 0 <= k < orders.len()
    &&& spec_fill_crossed(before, orders.take(k)) matches Some(e) && {
        &&& spec_fill_one(e, orders[k]) is None
        &&& after.position == e.position
        &&& after.margin == e.margin
    }
    &&& after.orders_active@ == spec_untriggered(orders.take(k), before.bid, before.ask) + orders.skip(k)
    &&& after.orders_executed@ == before.orders_executed@ + spec_triggered_orders(
        orders.take(k),
        before.bid,
        before.ask,
    )
    &&& after.config == before.config
    &&& after.bid == before.bid
    &&& after.ask == before.ask
    &&& after.init == before.init
    &&& after.next_order_id == before.next_order_id
    &&& after.timestamp == before.timestamp
}

/// `ex` once a trade at `price` was taken in: the first trade sets both the bid and the
/// ask; a buy then sets the ask, a sell the bid.
pub open spec fn spec_priced(ex: ExchangeDecimal, price: DecimalValue, buy: bool) -> ExchangeDecimal {
    let bid = if ex.init {
        price
    } else {
        ex.bid
    };
    let ask = if ex.init {
        price
    } else {
        ex.ask
    };
    ExchangeDecimal {
        bid: if buy {
            bid
        } else {
            price
        },
        ask: if buy {
            price
        } else {
            ask
        },
        init: false,
        ..ex
    }
}

/// `ex` with the unrealized profit of an open position refreshed at its bid and ask; `None`
/// where that cannot be computed.
pub open spec fn spec_refresh_pnl(ex: ExchangeDecimal) -> Option<ExchangeDecimal> {
    if ex.position.size.mantissa == 0 {
        Some(ex)
    } else {
        match spec_unrealized_pnl(ex.position, ex.bid, ex.ask) {
            Some(upnl) => Some(
                ExchangeDecimal { position: Position { unrealized_pnl: upnl, ..ex.position }, ..ex },
            ),
            None => None,
        }
    }
}

/// `checked` is `ex` once its orders were checked into the position and margin of `filled`:
/// the crossed orders are gone.
pub open spec fn spec_orders_checked_into(
    ex: ExchangeDecimal,
    filled: ExchangeDecimal,
    checked: ExchangeDecimal,
) -> bool {
    &&& checked.position == filled.position
    &&& checked.margin == filled.margin
    &&& checked.config == ex.config
    &&& checked.bid == ex.bid
    &&& checked.ask == ex.ask
    &&& checked.init == ex.init
    &&& checked.next_order_id == ex.next_order_id
    &&& checked.timestamp == ex.timestamp
    &&& checked.orders_active@ == spec_untriggered(ex.orders_active@, ex.bid, ex.ask)
    &&& checked.orders_executed@ == ex.orders_executed@ + spec_triggered_orders(
        ex.orders_active@,
        ex.bid,
        ex.ask,
    )
}

/// `after` and `r` follow from `checked` once the position statistics were recomputed.
pub open spec fn spec_stats_applied(
    checked: ExchangeDecimal,
    after: ExchangeDecimal,
    r: Result<bool, ArithmeticError>,
) -> bool {
    match spec_position_stats(checked, checked.position, checked.margin) {
        Some(pm) => r == Ok::<bool, ArithmeticError>(false) && after == (ExchangeDecimal {
            position: pm.0,
            margin: pm.1,
            ..checked
        }),
        None => r == Err::<bool, ArithmeticError>(ArithmeticError) && after == checked,
    }
}

/// `after` and `r` follow from `before` once a trade at `price` (a buy where `buy`) was
/// consumed: the prices are taken in; a crossed liquidation price liquidates the position
/// (`Ok(true)`); otherwise the unrealized profit is refreshed, the resting orders are
/// checked and the position statistics recomputed (`Ok(false)`). A failing computation of
/// `rust_decimal` stops the steps with an error.
pub open spec fn spec_trade_consumed(
    before: ExchangeDecimal,
    price: DecimalValue,
    buy: bool,
    after: ExchangeDecimal,
    r: Result<bool, ArithmeticError>,
) -> bool {
    spec_prices_consumed(spec_priced(before, price, buy), after, r)
}

/// `after` and `r` follow from `p`, which took new prices: a crossed liquidation price
/// liquidates the position (`Ok(true)`); otherwise the unrealized profit is refreshed, the
/// resting orders are checked and the position statistics recomputed (`Ok(false)`). A
/// failing computation of `rust_decimal` stops the steps with an error.
pub open spec fn spec_prices_consumed(
    p: ExchangeDecimal,
    after: ExchangeDecimal,
    r: Result<bool, ArithmeticError>,
) -> bool {
    if spec_crossed_liq_price(p) {
        &&& r is Ok <==> spec_liquidate(p).0
        &&& r is Ok ==> r == Ok::<bool, ArithmeticError>(true)
        &&& after == spec_liquidate(p).1
    } else {
        match spec_refresh_pnl(p) {
            None => r == Err::<bool, ArithmeticError>(ArithmeticError) && after == p,
            Some(q) => match spec_fill_crossed(q, q.orders_active@) {
                None => r == Err::<bool, ArithmeticError>(ArithmeticError) && exists|k: int|
                    #[trigger] spec_checks_failed_at(q, k, after),
                Some(e) => exists|checked: ExchangeDecimal|
                    #[trigger] spec_orders_checked_into(q, e, checked) && spec_stats_applied(
                        checked,
                        after,
                        r,
                    ),
            },
        }
    }
}

/// The most resting orders an exchange takes.
pub const MAX_ACTIVE_ORDERS: usize = 200;

/// The available balance with `orders` resting: the wallet balance less the position margin
/// and the order margin of the orders.
pub open spec fn spec_available_with(ex: ExchangeDecimal, orders: Seq<OrderDecimal>) -> Option<
    DecimalValue,
> {
    match difference(ex.margin.wallet_balance, ex.margin.position_margin) {
        Some(free) => match spec_order_margin(orders, ex.position) {
            Some(om) => difference(free, om),
            None => None,
        },
        None => None,
    }
}

/// The most resting stop market orders an exchange takes.
pub const MAX_ACTIVE_STOP_ORDERS: usize = 10;

/// `after` and `r` follow from `before` once `order` was submitted: a full book (of stop
/// market orders, or of all orders), a size that is not positive and an order that the
/// validation of its kind refuses are answered with their error and change nothing. An
/// accepted order takes the next order id and the current time: a market order is executed
/// at once, a limit order rests behind the others and the available balance is recomputed,
/// a stop or take profit market order rests behind the others. A failing computation of `rust_decimal` is
/// returned as an error, with the orders and the position as they were.
pub open spec fn spec_order_submitted(
    before: ExchangeDecimal,
    order: OrderDecimal,
    after: ExchangeDecimal,
    r: Result<Result<OrderDecimal, OrderError>, ArithmeticError>,
) -> bool {
    let max_orders = if order.order_type == OrderType::StopMarket {
        MAX_ACTIVE_STOP_ORDERS
    } else {
        MAX_ACTIVE_ORDERS
    };
    let validated = match order.order_type {
        OrderType::Market => spec_validate_market_order(before, order),
        OrderType::Limit => spec_validate_limit_order(before, order),
        OrderType::StopMarket => Some(spec_validate_stop_market_order(before, order)),
        OrderType::TakeProfitMarket => Some(spec_validate_take_profit_market_order(before, order)),
    };
    let accepted = OrderDecimal { id: before.next_order_id, timestamp: before.timestamp, ..order };
    if before.orders_active@.len() >= max_orders {
        r == Ok::<Result<OrderDecimal, OrderError>, ArithmeticError>(Err(OrderError::MaxActiveOrders))
            && after == before
    } else if order.size.mantissa <= 0 {
        r == Ok::<Result<OrderDecimal, OrderError>, ArithmeticError>(Err(OrderError::InvalidOrderSize))
            && after == before
    } else {
        match validated {
            None => r == Err::<Result<OrderDecimal, OrderError>, ArithmeticError>(ArithmeticError)
                && after == before,
            Some(Some(e)) => r == Ok::<Result<OrderDecimal, OrderError>, ArithmeticError>(Err(e))
                && after == before,
            Some(None) => match order.order_type {
                OrderType::Market => match spec_execute_market(before, order.side, order.size) {
                    Some(res) => {
                        &&& r == Ok::<Result<OrderDecimal, OrderError>, ArithmeticError>(Ok(accepted))
                        &&& after == (ExchangeDecimal {
                            position: res.0,
                            margin: res.1,
                            next_order_id: (before.next_order_id + 1) as u64,
                            ..before
                        })
                    },
                    None => r == Err::<Result<OrderDecimal, OrderError>, ArithmeticError>(
                        ArithmeticError,
                    ) && after == before,
                },
                OrderType::StopMarket | OrderType::TakeProfitMarket => {
                    &&& r == Ok::<Result<OrderDecimal, OrderError>, ArithmeticError>(Ok(accepted))
                    &&& after.orders_active@ == before.orders_active@.push(accepted)
                    &&& after.orders_executed@ == before.orders_executed@
                    &&& after.next_order_id == before.next_order_id + 1
                    &&& after.config == before.config
                    &&& after.position == before.position
                    &&& after.margin == before.margin
                    &&& after.bid == before.bid
                    &&& after.ask == before.ask
                    &&& after.init == before.init
                    &&& after.timestamp == before.timestamp
                },
                OrderType::Limit => {
                    &&& after.config == before.config
                    &&& after.orders_executed@ == before.orders_executed@
                    &&& after.position == before.position
                    &&& after.bid == before.bid
                    &&& after.ask == before.ask
                    &&& after.init == before.init
                    &&& after.timestamp == before.timestamp
                    &&& match spec_available_with(before, before.orders_active@.push(accepted)) {
                        Some(available) => {
                            &&& r == Ok::<Result<OrderDecimal, OrderError>, ArithmeticError>(
                                Ok(accepted),
                            )
                            &&& after.orders_active@ == before.orders_active@.push(accepted)
                            &&& after.margin == Margin { available_balance: available, ..before.margin }
                            &&& after.next_order_id == before.next_order_id + 1
                        },
                        None => {
                            &&& r == Err::<Result<OrderDecimal, OrderError>, ArithmeticError>(
                                ArithmeticError,
                            )
                            &&& after.orders_active@ == before.orders_active@
                            &&& after.margin == before.margin
                            &&& after.next_order_id == before.next_order_id
                        },
                    }
                },
            },
        }
    }
}

/// `idx` is the position of the first order with id `order_id` among `orders`.
pub open spec fn first_order_with_id(orders: Seq<OrderDecimal>, order_id: u64, idx: int) -> bool {
    &&& 0 <= idx < orders.len()
    &&& orders[idx].id == order_id
    &&& forall|k: int| 0 <= k < idx ==> (#[trigger] orders[k]).id != order_id
}

/// An order with id `order_id` is among `orders`.
pub open spec fn has_order_id(orders: Seq<OrderDecimal>, order_id: u64) -> bool {
    exists|k: int| 0 <= k < orders.len() && (#[trigger] orders[k]).id == order_id
}

/// `after` and `r` follow from `before` once its resting order at `idx` was cancelled: the
/// order leaves the resting orders and the position statistics are recomputed, where that
/// fails the error is returned with the order gone.
pub open spec fn spec_cancelled_at(
    before: ExchangeDecimal,
    idx: int,
    after: ExchangeDecimal,
    r: Result<Option<OrderDecimal>, ArithmeticError>,
) -> bool {
    &&& after.orders_active@ == before.orders_active@.remove(idx)
    &&& after.config == before.config
    &&& after.bid == before.bid
    &&& after.ask == before.ask
    &&& after.init == before.init
    &&& after.next_order_id == before.next_order_id
    &&& after.timestamp == before.timestamp
    &&& match spec_position_stats(after, before.position, before.margin) {
        Some(pm) => {
            &&& r == Ok::<Option<OrderDecimal>, ArithmeticError>(Some(before.orders_active@[idx]))
            &&& after.position == pm.0
            &&& after.margin == pm.1
        },
        None => {
            &&& r == Err::<Option<OrderDecimal>, ArithmeticError>(ArithmeticError)
            &&& after.position == before.position
            &&& after.margin == before.margin
        },
    }
}

/// The answer and the exchange after the leverage of the position was set to `leverage`: a
/// leverage below one, or one whose position margin (the position's value over it plus the
/// unrealized profit) exceeds the wallet balance, is refused with `false` and changes
/// nothing; otherwise the position takes the leverage and the margin at it, and the
/// position margin and available balance are recomputed. `None` where a computation of
/// `rust_decimal` fails.
pub open spec fn spec_set_leverage(ex: ExchangeDecimal, leverage: DecimalValue) -> Option<
    (bool, ExchangeDecimal),
> {
    if value_lt(leverage, one()) {
        Some((false, ex))
    } else {
        match quotient(ex.position.value, leverage) {
            Some(margin) => match sum(margin, ex.position.unrealized_pnl) {
                Some(needed) => if value_lt(ex.margin.wallet_balance, needed) {
                    Some((false, ex))
                } else {
                    let levered = Position { leverage, ..ex.position };
                    match spec_unrealized_pnl(levered, ex.bid, ex.ask) {
                        Some(upnl) => match sum(margin, upnl) {
                            Some(position_margin) => match spec_order_margin(
                                ex.orders_active@,
                                levered,
                            ) {
                                Some(om) => match difference(ex.margin.margin_balance, om) {
                                    Some(t) => match difference(t, position_margin) {
                                        Some(available) => Some(
                                            (
                                                true,
                                                ExchangeDecimal {
                                                    position: Position { margin, ..levered },
                                                    margin: Margin {
                                                        position_margin,
                                                        available_balance: available,
                                                        ..ex.margin
                                                    },
                                                    ..ex
                                                },
                                            ),
                                        ),
                                        None => None,
                                    },
                                    None => None,
                                },
                                None => None,
                            },
                            None => None,
                        },
                        None => None,
                    }
                },
                None => None,
            },
            None => None,
        }
    }
}

impl ExchangeDecimal {
    /// Every number is a `rust_decimal` number.
    pub open spec fn wf(self) -> bool {
        &&& self.config.fee_maker.wf()
        &&& self.config.fee_taker.wf()
        &&& self.config.starting_balance_base.wf()
        &&& self.position.wf()
        &&& self.margin.wf()
        &&& self.bid.wf()
        &&& self.ask.wf()
        &&& forall|i: int|
            0 <= i < self.orders_active@.len() ==> (#[trigger] self.orders_active@[i]).wf()
                && self.orders_active@[i].order_type != OrderType::Market
    }

    /// A new exchange with a flat position of leverage one and a wallet of one.
    pub fn new(config: ConfigDecimal) -> (r: Self)
        ensures
            r.config == config,
            r.position == (Position {
                size: zero(),
                value: zero(),
                entry_price: zero(),
                liq_price: zero(),
                margin: zero(),
                leverage: one(),
                unrealized_pnl: zero(),
            }),
            r.margin == (Margin {
                wallet_balance: one(),
                margin_balance: one(),
                position_margin: zero(),
                available_balance: one(),
            }),
            r.bid == zero(),
            r.ask == zero(),
            r.init,
            r.next_order_id == 0,
            r.timestamp == 0,
            r.orders_active@.len() == 0,
            r.orders_executed@.len() == 0,
    {
        let z = DecimalValue { mantissa: 0, scale: 0 };
        let o = DecimalValue { mantissa: 1, scale: 0 };
        ExchangeDecimal {
            config,
            position: Position {
                size: z,
                value: z,
                entry_price: z,
                liq_price: z,
                margin: z,
                leverage: o,
                unrealized_pnl: z,
            },
            margin: Margin {
                wallet_balance: o,
                margin_balance: o,
                position_margin: z,
                available_balance: o,
            },
            bid: z,
            ask: z,
            init: true,
            next_order_id: 0,
            timestamp: 0,
            orders_executed: Vec::new(),
            orders_active: Vec::new(),
        }
    }

    /// The number of resting orders.
    pub fn num_active_orders(&self) -> (r: usize)
        ensures
            r == self.orders_active@.len(),
    {
        self.orders_active.len()
    }

    fn order_margin_sums(&self, leverage: DecimalValue) -> (r: Option<(DecimalValue, DecimalValue)>)
        requires
            self.wf(),
            leverage.wf(),
        ensures
            r == spec_order_margin_sums(self.orders_active@, leverage),
            r is Some ==> (r->0).0.wf() && (r->0).1.wf(),
    {
        let n = self.orders_active.len();
        let mut long = DecimalValue { mantissa: 0, scale: 0 };
        let mut short = DecimalValue { mantissa: 0, scale: 0 };
        let mut i: usize = 0;
        while i < n
            invariant
                n == self.orders_active@.len(),
                i <= n,
                self.wf(),
                leverage.wf(),
                long.wf(),
                short.wf(),
                spec_order_margin_sums(self.orders_active@.subrange(0, i as int), leverage)
                    == Some((long, short)),
            decreases n - i,
        {
            let o = self.orders_active[i];
            proof {
                assert(self.orders_active@.subrange(0, i + 1).drop_last()
                    =~= self.orders_active@.subrange(0, i as int));
                assert(self.orders_active@.subrange(0, i + 1).last() == o);
            }
            let q = match checked_div(o.size, o.price) {
                Some(v) => v,
                None => {
                    proof {
                        lemma_sums_none_extends(self.orders_active@, leverage, i as int + 1);
                    }
                    return None;
                },
            };
            let m = match checked_div(q, leverage) {
                Some(v) => v,
                None => {
                    proof {
                        lemma_sums_none_extends(self.orders_active@, leverage, i as int + 1);
                    }
                    return None;
                },
            };
            if o.side == Side::Buy {
                long = match checked_add(long, m) {
                    Some(v) => v,
                    None => {
                        proof {
                            lemma_sums_none_extends(self.orders_active@, leverage, i as int + 1);
                        }
                        return None;
                    },
                };
            } else {
                short = match checked_add(short, m) {
                    Some(v) => v,
                    None => {
                        proof {
                            lemma_sums_none_extends(self.orders_active@, leverage, i as int + 1);
                        }
                        return None;
                    },
                };
            }
            i = i + 1;
        }
        proof {
            assert(self.orders_active@.subrange(0, n as int) =~= self.orders_active@);
        }
        Some((long, short))
    }

    fn order_margin_of(&self, pos: Position) -> (r: Option<DecimalValue>)
        requires
            self.wf(),
            pos.wf(),
        ensures
            r == spec_order_margin(self.orders_active@, pos),
            opt_wf(r),
    {
        let sums = match self.order_margin_sums(pos.leverage) {
            Some(v) => v,
            None => return None,
        };
        if pos.size.mantissa > 0 {
            match checked_sub(sums.1, pos.margin) {
                Some(short) => Some(max(sums.0, short)),
                None => None,
            }
        } else {
            match checked_sub(sums.0, pos.margin) {
                Some(long) => Some(max(long, sums.1)),
                None => None,
            }
        }
    }

    /// The order margin of the resting orders.
    pub fn order_margin(&self) -> (r: Result<DecimalValue, ArithmeticError>)
        requires
            self.wf(),
        ensures
            r == match spec_order_margin(self.orders_active@, self.position) {
                Some(v) => Ok::<DecimalValue, ArithmeticError>(v),
                None => Err(ArithmeticError),
            },
            r matches Ok(v) ==> v.wf(),
    {
        match self.order_margin_of(self.position) {
            Some(v) => Ok(v),
            None => Err(ArithmeticError),
        }
    }

    fn unrealized_pnl_of(pos: Position, bid: DecimalValue, ask: DecimalValue) -> (r: Option<
        DecimalValue,
    >)
        requires
            pos.wf(),
            bid.wf(),
            ask.wf(),
        ensures
            r == spec_unrealized_pnl(pos, bid, ask),
            opt_wf(r),
    {
        if pos.size.mantissa == 0 {
            return Some(DecimalValue { mantissa: 0, scale: 0 });
        }
        let (a, b) = if pos.size.mantissa > 0 {
            (pos.entry_price, bid)
        } else {
            (ask, pos.entry_price)
        };
        let one = DecimalValue { mantissa: 1, scale: 0 };
        let x = checked_div(one, a);
        let y = checked_div(one, b);
        match (x, y) {
            (Some(x), Some(y)) => match checked_sub(x, y) {
                Some(d) => checked_mul(d, abs_of(pos.size)),
                None => None,
            },
            _ => None,
        }
    }

    /// The unrealized profit of the position at the current bid (long) or ask (short).
    pub fn unrealized_pnl(&self) -> (r: Result<DecimalValue, ArithmeticError>)
        requires
            self.wf(),
        ensures
            r == match spec_unrealized_pnl(self.position, self.bid, self.ask) {
                Some(v) => Ok::<DecimalValue, ArithmeticError>(v),
                None => Err(ArithmeticError),
            },
            r matches Ok(v) ==> v.wf(),
    {
        match Self::unrealized_pnl_of(self.position, self.bid, self.ask) {
            Some(v) => Ok(v),
            None => Err(ArithmeticError),
        }
    }

    fn position_stats(&self, pos: Position, mar: Margin) -> (r: Option<(Position, Margin)>)
        requires
            self.wf(),
            pos.wf(),
            mar.wf(),
        ensures
            r == spec_position_stats(*self, pos, mar),
            r is Some ==> (r->0).0.wf() && (r->0).1.wf(),
    {
        let price = if pos.size.mantissa > 0 {
            self.bid
        } else {
            self.ask
        };
        let upnl = match Self::unrealized_pnl_of(pos, self.bid, self.ask) {
            Some(v) => v,
            None => return None,
        };
        let value = match checked_div(abs_of(pos.size), price) {
            Some(v) => v,
            None => return None,
        };
        let vl = match checked_div(value, pos.leverage) {
            Some(v) => v,
            None => return None,
        };
        let pm = match checked_add(vl, upnl) {
            Some(v) => v,
            None => return None,
        };
        let mb = match checked_add(mar.wallet_balance, upnl) {
            Some(v) => v,
            None => return None,
        };
        let t = match checked_sub(mar.wallet_balance, pm) {
            Some(v) => v,
            None => return None,
        };
        let pos2 = Position { unrealized_pnl: upnl, value, ..pos };
        let om = match self.order_margin_of(pos2) {
            Some(v) => v,
            None => return None,
        };
        let ab = match checked_sub(t, om) {
            Some(v) => v,
            None => return None,
        };
        Some(
            (
                pos2,
                Margin {
                    wallet_balance: mar.wallet_balance,
                    margin_balance: mb,
                    position_margin: pm,
                    available_balance: ab,
                },
            ),
        )
    }

    /// Recompute the unrealized profit, the position value and margin, the margin balance
    /// and the available balance at the current bid and ask. Where `rust_decimal` overflows
    /// or divides by zero, nothing changes and the error is returned.
    pub fn update_position_stats(&mut self) -> (r: Result<(), ArithmeticError>)
        requires
            old(self).wf(),
        ensures
            final(self).wf(),
            match spec_position_stats(*old(self), old(self).position, old(self).margin) {
                Some(pm) => r is Ok && *final(self) == (ExchangeDecimal {
                    position: pm.0,
                    margin: pm.1,
                    ..*old(self)
                }),
                None => r == Err::<(), ArithmeticError>(ArithmeticError) && *final(self) == *old(
                    self,
                ),
            },
    {
        match self.position_stats(self.position, self.margin) {
            Some(pm) => {
                self.position = pm.0;
                self.margin = pm.1;
                Ok(())
            },
            None => Err(ArithmeticError),
        }
    }

    fn fees_deduced(
        &self,
        pos: Position,
        mar: Margin,
        fee: DecimalValue,
        amount: DecimalValue,
        price: DecimalValue,
    ) -> (r: Option<(Position, Margin)>)
        requires
            self.wf(),
            pos.wf(),
            mar.wf(),
            fee.wf(),
            amount.wf(),
            price.wf(),
        ensures
            r == spec_fees_deduced(*self, pos, mar, fee, amount, price),
            r is Some ==> (r->0).0.wf() && (r->0).1.wf(),
    {
        let fee_base = match checked_mul(fee, amount) {
            Some(v) => v,
            None => return None,
        };
        let fee_asset = match checked_div(fee_base, price) {
            Some(v) => v,
            None => return None,
        };
        let w = match checked_sub(mar.wallet_balance, fee_asset) {
            Some(v) => v,
            None => return None,
        };
        self.position_stats(pos, Margin { wallet_balance: w, ..mar })
    }

    fn liq_price_updated(pos: Position) -> (r: Option<Position>)
        requires
            pos.wf(),
        ensures
            r == spec_liq_price_updated(pos),
            r is Some ==> r->0.wf(),
    {
        if pos.size.mantissa == 0 {
            return Some(Position { liq_price: DecimalValue { mantissa: 0, scale: 0 }, ..pos });
        }
        let q = match checked_div(pos.entry_price, pos.leverage) {
            Some(v) => v,
            None => return None,
        };
        let liq = if pos.size.mantissa > 0 {
            checked_sub(pos.entry_price, q)
        } else {
            checked_add(pos.entry_price, q)
        };
        match liq {
            Some(l) => Some(Position { liq_price: l, ..pos }),
            None => None,
        }
    }

    fn rpnl_of(buy: bool, closed: DecimalValue, entry: DecimalValue, price: DecimalValue) -> (r:
        Option<DecimalValue>)
        requires
            closed.wf(),
            entry.wf(),
            price.wf(),
        ensures
            r == spec_rpnl(buy, closed, entry, price),
            opt_wf(r),
    {
        let (a, b) = if buy {
            (price, entry)
        } else {
            (entry, price)
        };
        let one = DecimalValue { mantissa: 1, scale: 0 };
        let x = checked_div(one, a);
        let y = checked_div(one, b);
        match (x, y) {
            (Some(x), Some(y)) => match checked_sub(x, y) {
                Some(d) => checked_mul(closed, d),
                None => None,
            },
            _ => None,
        }
    }

    fn fill_opening(
        pos: Position,
        mar: Margin,
        buy: bool,
        amount: DecimalValue,
        price: DecimalValue,
        sell_adds: bool,
    ) -> (r: Option<(Position, Margin, Option<DecimalValue>)>)
        requires
            pos.wf(),
            mar.wf(),
            amount.wf(),
            price.wf(),
        ensures
            r == spec_fill_opening(pos, mar, buy, amount, price, sell_adds),
            r is Some ==> (r->0).0.wf() && (r->0).1.wf() && opt_wf((r->0).2),
    {
        let old_abs = abs_of(pos.size);
        let size = match (if buy || sell_adds {
            checked_add(pos.size, amount)
        } else {
            checked_sub(pos.size, amount)
        }) {
            Some(v) => v,
            None => return None,
        };
        let q = match checked_div(amount, price) {
            Some(v) => v,
            None => return None,
        };
        let m = match checked_div(q, pos.leverage) {
            Some(v) => v,
            None => return None,
        };
        let margin = match checked_add(pos.margin, m) {
            Some(v) => v,
            None => return None,
        };
        let x = checked_mul(price, amount);
        let y = checked_mul(pos.entry_price, old_abs);
        let (x, y) = match (x, y) {
            (Some(x), Some(y)) => (x, y),
            _ => return None,
        };
        let n = checked_add(x, y);
        let w = checked_add(amount, old_abs);
        let (n, w) = match (n, w) {
            (Some(n), Some(w)) => (n, w),
            _ => return None,
        };
        match checked_div(n, w) {
            Some(entry) => Some((Position { size, margin, entry_price: entry, ..pos }, mar, None)),
            None => None,
        }
    }

    fn fill_reducing(
        pos: Position,
        mar: Margin,
        buy: bool,
        amount: DecimalValue,
        price: DecimalValue,
        old_entry: DecimalValue,
        closes_at_equal: bool,
    ) -> (r: Option<(Position, Margin, Option<DecimalValue>)>)
        requires
            pos.wf(),
            mar.wf(),
            amount.wf(),
            price.wf(),
            old_entry.wf(),
        ensures
            r == spec_fill_reducing(pos, mar, buy, amount, price, old_entry, closes_at_equal),
            r is Some ==> (r->0).0.wf() && (r->0).1.wf() && opt_wf((r->0).2),
    {
        let pos_abs = abs_of(pos.size);
        let turns = if closes_at_equal {
            !less_than(amount, pos_abs)
        } else {
            less_than(pos_abs, amount)
        };
        let rpnl = match Self::rpnl_of(
            buy,
            if turns {
                pos_abs
            } else {
                amount
            },
            pos.entry_price,
            price,
        ) {
            Some(v) => v,
            None => return None,
        };
        let w = match checked_add(mar.wallet_balance, rpnl) {
            Some(v) => v,
            None => return None,
        };
        let size = match (if buy {
            checked_add(pos.size, amount)
        } else {
            checked_sub(pos.size, amount)
        }) {
            Some(v) => v,
            None => return None,
        };
        let mar2 = Margin { wallet_balance: w, ..mar };
        if turns {
            let size_diff = match checked_sub(amount, pos_abs) {
                Some(v) => v,
                None => return None,
            };
            let q = match checked_div(size_diff, price) {
                Some(v) => v,
                None => return None,
            };
            match checked_div(q, pos.leverage) {
                Some(margin) => Some(
                    (Position { size, margin, entry_price: price, ..pos }, mar2, Some(rpnl)),
                ),
                None => None,
            }
        } else {
            let q = match checked_div(abs_of(size), old_entry) {
                Some(v) => v,
                None => return None,
            };
            match checked_div(q, pos.leverage) {
                Some(margin) => Some(
                    (Position { size, margin, entry_price: old_entry, ..pos }, mar2, Some(rpnl)),
                ),
                None => None,
            }
        }
    }

    fn execute(
        &mut self,
        side: Side,
        amount: DecimalValue,
        price: DecimalValue,
        fee: DecimalValue,
        closes_at_equal: bool,
        sell_adds: bool,
    ) -> (r: Result<Option<DecimalValue>, ArithmeticError>)
        requires
            old(self).wf(),
            amount.wf(),
            price.wf(),
            fee.wf(),
        ensures
            final(self).wf(),
            match spec_execute(*old(self), side, amount, price, fee, closes_at_equal, sell_adds) {
                Some(res) => r == Ok::<Option<DecimalValue>, ArithmeticError>(res.2)
                    && *final(self) == (ExchangeDecimal {
                    position: res.0,
                    margin: res.1,
                    ..*old(self)
                }),
                None => r == Err::<Option<DecimalValue>, ArithmeticError>(ArithmeticError)
                    && *final(self) == *old(self),
            },
    {
        let pm1 = match self.fees_deduced(self.position, self.margin, fee, amount, price) {
            Some(v) => v,
            None => return Err(ArithmeticError),
        };
        let pos = pm1.0;
        let old_entry = if pos.size.mantissa == 0 {
            price
        } else {
            pos.entry_price
        };
        let buy = match side {
            Side::Buy => true,
            Side::Sell => false,
        };
        let filled = if (buy && pos.size.mantissa < 0) || (!buy && pos.size.mantissa > 0) {
            Self::fill_reducing(pos, pm1.1, buy, amount, price, old_entry, closes_at_equal)
        } else {
            Self::fill_opening(pos, pm1.1, buy, amount, price, sell_adds)
        };
        let filled = match filled {
            Some(v) => v,
            None => return Err(ArithmeticError),
        };
        let pm2 = match self.position_stats(filled.0, filled.1) {
            Some(v) => v,
            None => return Err(ArithmeticError),
        };
        let new_pos = match Self::liq_price_updated(pm2.0) {
            Some(v) => v,
            None => return Err(ArithmeticError),
        };
        self.position = new_pos;
        self.margin = pm2.1;
        Ok(filled.2)
    }

    /// Execute a market order of `amount_base` on `side` at the ask (buy) or the bid (sell):
    /// the taker fee is taken from the wallet, a fill against the position realizes its profit
    /// (returned) and a fill of at least the position's size turns it around. Where
    /// `rust_decimal` overflows or divides by zero, nothing changes and the error is returned.
    pub fn execute_market(&mut self, side: Side, amount_base: DecimalValue) -> (r: Result<
        Option<DecimalValue>,
        ArithmeticError,
    >)
        requires
            old(self).wf(),
            amount_base.wf(),
        ensures
            final(self).wf(),
            match spec_execute_market(*old(self), side, amount_base) {
                Some(res) => r == Ok::<Option<DecimalValue>, ArithmeticError>(res.2)
                    && *final(self) == (ExchangeDecimal {
                    position: res.0,
                    margin: res.1,
                    ..*old(self)
                }),
                None => r == Err::<Option<DecimalValue>, ArithmeticError>(ArithmeticError)
                    && *final(self) == *old(self),
            },
    {
        let price = match side {
            Side::Buy => self.ask,
            Side::Sell => self.bid,
        };
        let fee = self.config.fee_taker;
        self.execute(side, amount_base, price, fee, true, false)
    }

    /// Execute the fill of a limit order of `amount_base` on `side` at `price`: the maker fee
    /// is taken from the wallet, a fill against the position realizes its profit (returned)
    /// and a fill beyond the position's size turns it around. Where `rust_decimal` overflows
    /// or divides by zero, nothing changes and the error is returned.
    pub fn execute_limit(&mut self, side: Side, price: DecimalValue, amount_base: DecimalValue) -> (r:
        Result<Option<DecimalValue>, ArithmeticError>)
        requires
            old(self).wf(),
            price.wf(),
            amount_base.wf(),
        ensures
            final(self).wf(),
            match spec_execute_limit(*old(self), side, price, amount_base) {
                Some(res) => r == Ok::<Option<DecimalValue>, ArithmeticError>(res.2)
                    && *final(self) == (ExchangeDecimal {
                    position: res.0,
                    margin: res.1,
                    ..*old(self)
                }),
                None => r == Err::<Option<DecimalValue>, ArithmeticError>(ArithmeticError)
                    && *final(self) == *old(self),
            },
    {
        let fee = self.config.fee_maker;
        self.execute(side, amount_base, price, fee, false, true)
    }

    fn short_of(need: DecimalValue, fee_asset: DecimalValue, available: DecimalValue) -> (r:
        Option<bool>)
        requires
            need.wf(),
            fee_asset.wf(),
            available.wf(),
        ensures
            r == spec_short_of(need, fee_asset, available),
    {
        match checked_add(need, fee_asset) {
            Some(total) => Some(less_than(available, total)),
            None => None,
        }
    }

    fn short_of_against(&self, order_margin: DecimalValue, fee_asset: DecimalValue) -> (r: Option<
        bool,
    >)
        requires
            self.wf(),
            order_margin.wf(),
            fee_asset.wf(),
        ensures
            r == spec_short_of_against(*self, order_margin, fee_asset),
    {
        if less_than(self.margin.position_margin, order_margin) {
            let diff = checked_sub(order_margin, self.position.margin);
            let avail = checked_add(self.margin.available_balance, self.position.margin);
            match (diff, avail) {
                (Some(diff), Some(avail)) => Self::short_of(diff, fee_asset, avail),
                _ => None,
            }
        } else {
            Some(false)
        }
    }

    /// Check whether a market order of `o.size` on `o.side` is covered: its margin (size over
    /// price over leverage) plus its taker fee must fit the available balance, where for an
    /// order against the position only the margin beyond the position's margin counts.
    pub fn validate_market_order(&self, o: &OrderDecimal) -> (r: Result<
        Option<OrderError>,
        ArithmeticError,
    >)
        requires
            self.wf(),
            o.wf(),
        ensures
            r == match spec_validate_market_order(*self, *o) {
                Some(v) => Ok::<Option<OrderError>, ArithmeticError>(v),
                None => Err(ArithmeticError),
            },
    {
        let price = match o.side {
            Side::Buy => self.ask,
            Side::Sell => self.bid,
        };
        let fee_base = match checked_mul(self.config.fee_taker, o.size) {
            Some(v) => v,
            None => return Err(ArithmeticError),
        };
        let fee_asset = match checked_div(fee_base, self.bid) {
            Some(v) => v,
            None => return Err(ArithmeticError),
        };
        let q = match checked_div(o.size, price) {
            Some(v) => v,
            None => return Err(ArithmeticError),
        };
        let order_margin = match checked_div(q, self.position.leverage) {
            Some(v) => v,
            None => return Err(ArithmeticError),
        };
        let buy = match o.side {
            Side::Buy => true,
            Side::Sell => false,
        };
        let with_position = buy == (self.position.size.mantissa > 0);
        let short = if with_position {
            Self::short_of(order_margin, fee_asset, self.margin.available_balance)
        } else {
            self.short_of_against(order_margin, fee_asset)
        };
        match short {
            Some(true) => Ok(Some(OrderError::NotEnoughAvailableBalance)),
            Some(false) => Ok(None),
            None => Err(ArithmeticError),
        }
    }
    /// The return on equity of the position; an overflow or a division by zero of
    /// `rust_decimal` is returned as an error.
    pub fn roe(&self) -> (r: Result<DecimalValue, ArithmeticError>)
        requires
            self.wf(),
        ensures
            r == match spec_roe(*self) {
                Some(v) => Ok::<DecimalValue, ArithmeticError>(v),
                None => Err(ArithmeticError),
            },
    {
        let gain = if self.position.size.mantissa > 0 {
            checked_sub(self.bid, self.position.entry_price)
        } else {
            checked_sub(self.position.entry_price, self.ask)
        };
        match gain {
            Some(g) => match checked_div(g, self.position.entry_price) {
                Some(v) => Ok(v),
                None => Err(ArithmeticError),
            },
            None => Err(ArithmeticError),
        }
    }

    /// Liquidate the position with a market execution of its size, then recompute the
    /// position statistics. Where the execution fails nothing changes; where only the
    /// statistics fail the execution stays. Either failure is returned as an error.
    pub fn liquidate(&mut self) -> (r: Result<(), ArithmeticError>)
        requires
            old(self).wf(),
        ensures
            final(self).wf(),
            r is Ok <==> spec_liquidate(*old(self)).0,
            r is Err ==> r == Err::<(), ArithmeticError>(ArithmeticError),
            *final(self) == spec_liquidate(*old(self)).1,
    {
        let executed = if self.position.size.mantissa > 0 {
            let size = self.position.size;
            self.execute_market(Side::Sell, size)
        } else {
            let size = self.position.size;
            self.execute_market(Side::Buy, size)
        };
        match executed {
            Err(e) => Err(e),
            Ok(_) => self.update_position_stats(),
        }
    }

    /// Liquidate the position where the market crossed its liquidation price, returning
    /// whether it did; otherwise the unrealized profit of an open position is refreshed.
    pub fn check_liquidation(&mut self) -> (r: Result<bool, ArithmeticError>)
        requires
            old(self).wf(),
        ensures
            final(self).wf(),
            spec_crossed_liq_price(*old(self)) ==> {
                &&& r is Ok <==> spec_liquidate(*old(self)).0
                &&& r is Ok ==> r == Ok::<bool, ArithmeticError>(true)
                &&& *final(self) == spec_liquidate(*old(self)).1
            },
            !spec_crossed_liq_price(*old(self)) ==> {
                &&& old(self).position.size.mantissa == 0 ==> r == Ok::<bool, ArithmeticError>(false)
                    && *final(self) == *old(self)
                &&& old(self).position.size.mantissa != 0 ==> match spec_unrealized_pnl(
                    old(self).position,
                    old(self).bid,
                    old(self).ask,
                ) {
                    Some(upnl) => r == Ok::<bool, ArithmeticError>(false) && *final(self) == (ExchangeDecimal {
                        position: Position { unrealized_pnl: upnl, ..old(self).position },
                        ..*old(self)
                    }),
                    None => r == Err::<bool, ArithmeticError>(ArithmeticError) && *final(self) == *old(self),
                }
            },
    {
        let size = self.position.size.mantissa;
        if size == 0 {
            return Ok(false);
        }
        let crossed = if size > 0 {
            less_than(self.ask, self.position.liq_price)
        } else {
            less_than(self.position.liq_price, self.bid)
        };
        if crossed {
            match self.liquidate() {
                Ok(()) => Ok(true),
                Err(e) => Err(e),
            }
        } else {
            match self.unrealized_pnl() {
                Ok(upnl) => {
                    self.position.unrealized_pnl = upnl;
                    Ok(false)
                },
                Err(e) => Err(e),
            }
        }
    }
    /// Validate a limit order against the market and the available balance; an overflow or a
    /// division by zero of `rust_decimal` is returned as an error.
    pub fn validate_limit_order(&self, o: &OrderDecimal) -> (r: Result<Option<OrderError>, ArithmeticError>)
        requires
            self.wf(),
            o.wf(),
        ensures
            r == match spec_validate_limit_order(*self, *o) {
                Some(v) => Ok::<Option<OrderError>, ArithmeticError>(v),
                None => Err(ArithmeticError),
            },
    {
        let bad_price = match o.side {
            Side::Buy => less_than(self.ask, o.price),
            Side::Sell => less_than(o.price, self.bid),
        };
        if bad_price {
            return Ok(Some(OrderError::InvalidLimitPrice));
        }
        let per_price = match checked_div(o.size, o.price) {
            Some(v) => v,
            None => {
                return Err(ArithmeticError);
            },
        };
        let order_margin = match checked_div(per_price, self.position.leverage) {
            Some(v) => v,
            None => {
                return Err(ArithmeticError);
            },
        };
        let with_position = match o.side {
            Side::Buy => self.position.size.mantissa <= 0,
            Side::Sell => self.position.size.mantissa > 0,
        };
        let available = if with_position {
            match checked_add(self.margin.available_balance, self.position.margin) {
                Some(v) => v,
                None => {
                    return Err(ArithmeticError);
                },
            }
        } else {
            self.margin.available_balance
        };
        if less_than(available, order_margin) {
            Ok(Some(OrderError::NotEnoughAvailableBalance))
        } else {
            Ok(None)
        }
    }

    /// Validate a stop market order: its trigger price must lie beyond the away side of the
    /// market.
    pub fn validate_stop_market_order(&self, o: &OrderDecimal) -> (r: Option<OrderError>)
        requires
            self.wf(),
            o.wf(),
        ensures
            r == spec_validate_stop_market_order(*self, *o),
    {
        let triggered = match o.side {
            Side::Buy => !less_than(self.ask, o.price),
            Side::Sell => !less_than(o.price, self.bid),
        };
        if triggered {
            Some(OrderError::InvalidTriggerPrice)
        } else {
            None
        }
    }

    /// Validate a take profit market order: its trigger price must not lie beyond the market.
    pub fn validate_take_profit_market_order(&self, o: &OrderDecimal) -> (r: Option<OrderError>)
        requires
            self.wf(),
            o.wf(),
        ensures
            r == spec_validate_take_profit_market_order(*self, *o),
    {
        let beyond = match o.side {
            Side::Buy => less_than(self.bid, o.price),
            Side::Sell => less_than(o.price, self.ask),
        };
        if beyond {
            Some(OrderError::InvalidOrder)
        } else {
            None
        }
    }

    /// Hand out the executed orders, in their order, and forget them.
    pub fn executed_orders(&mut self) -> (r: Vec<OrderDecimal>)
        ensures
            r@ == old(self).orders_executed@,
            final(self).orders_executed@.len() == 0,
            final(self).config == old(self).config,
            final(self).position == old(self).position,
            final(self).margin == old(self).margin,
            final(self).bid == old(self).bid,
            final(self).ask == old(self).ask,
            final(self).init == old(self).init,
            final(self).next_order_id == old(self).next_order_id,
            final(self).timestamp == old(self).timestamp,
            final(self).orders_active == old(self).orders_active,
    {
        let mut out: Vec<OrderDecimal> = Vec::new();
        std::mem::swap(&mut out, &mut self.orders_executed);
        out
    }

    /// Set the leverage of the position, answering whether it was taken; see
    /// `spec_set_leverage`.
    pub fn set_leverage(&mut self, leverage: DecimalValue) -> (r: Result<bool, ArithmeticError>)
        requires
            old(self).wf(),
            leverage.wf(),
        ensures
            final(self).wf(),
            match spec_set_leverage(*old(self), leverage) {
                Some(res) => r == Ok::<bool, ArithmeticError>(res.0) && *final(self) == res.1,
                None => r == Err::<bool, ArithmeticError>(ArithmeticError) && *final(self) == *old(self),
            },
    {
        let one = DecimalValue { mantissa: 1, scale: 0 };
        if less_than(leverage, one) {
            return Ok(false);
        }
        let margin = match checked_div(self.position.value, leverage) {
            Some(v) => v,
            None => {
                return Err(ArithmeticError);
            },
        };
        let needed = match checked_add(margin, self.position.unrealized_pnl) {
            Some(v) => v,
            None => {
                return Err(ArithmeticError);
            },
        };
        if less_than(self.margin.wallet_balance, needed) {
            return Ok(false);
        }
        let levered = Position { leverage, ..self.position };
        let upnl = match Self::unrealized_pnl_of(levered, self.bid, self.ask) {
            Some(v) => v,
            None => {
                return Err(ArithmeticError);
            },
        };
        let position_margin = match checked_add(margin, upnl) {
            Some(v) => v,
            None => {
                return Err(ArithmeticError);
            },
        };
        let om = match self.order_margin_of(levered) {
            Some(v) => v,
            None => {
                return Err(ArithmeticError);
            },
        };
        let t = match checked_sub(self.margin.margin_balance, om) {
            Some(v) => v,
            None => {
                return Err(ArithmeticError);
            },
        };
        let available = match checked_sub(t, position_margin) {
            Some(v) => v,
            None => {
                return Err(ArithmeticError);
            },
        };
        self.position = Position { margin, ..levered };
        self.margin = Margin { position_margin, available_balance: available, ..self.margin };
        Ok(true)
    }

    /// Set the time accepted orders are stamped with.
    pub fn set_timestamp(&mut self, timestamp: u64)
        ensures
            *final(self) == (ExchangeDecimal { timestamp, ..*old(self) }),
    {
        self.timestamp = timestamp;
    }

    /// The position of the first resting order with id `order_id`, if any.
    fn find_order(&self, order_id: u64) -> (r: Option<usize>)
        ensures
            r is None <==> !has_order_id(self.orders_active@, order_id),
            r matches Some(idx) ==> first_order_with_id(self.orders_active@, order_id, idx as int),
    {
        let n = self.orders_active.len();
        let mut i: usize = 0;
        while i < n
            invariant
                n == self.orders_active@.len(),
                i <= n,
                forall|k: int| 0 <= k < i ==> (#[trigger] self.orders_active@[k]).id != order_id,
            decreases n - i,
        {
            if self.orders_active[i].id == order_id {
                return Some(i);
            }
            i = i + 1;
        }
        None
    }

    /// The first resting order with id `order_id`, if any.
    pub fn query_active_orders(&self, order_id: u64) -> (r: Option<&OrderDecimal>)
        ensures
            r is None <==> !has_order_id(self.orders_active@, order_id),
            r matches Some(o) ==> exists|idx: int|
                first_order_with_id(self.orders_active@, order_id, idx) && *o == self.orders_active@[idx],
    {
        match self.find_order(order_id) {
            Some(idx) => Some(&self.orders_active[idx]),
            None => None,
        }
    }

    /// Cancel the first resting order with id `order_id` and recompute the position
    /// statistics; `None` where no such order rests. See `spec_cancelled_at`.
    pub fn cancel_order(&mut self, order_id: u64) -> (r: Result<Option<OrderDecimal>, ArithmeticError>)
        requires
            old(self).wf(),
        ensures
            final(self).wf(),
            !has_order_id(old(self).orders_active@, order_id) ==> r == Ok::<
                Option<OrderDecimal>,
                ArithmeticError,
            >(None) && *final(self) == *old(self),
            has_order_id(old(self).orders_active@, order_id) ==> exists|idx: int|
                #[trigger] first_order_with_id(old(self).orders_active@, order_id, idx)
                    && spec_cancelled_at(*old(self), idx, *final(self), r),
    {
        let idx = match self.find_order(order_id) {
            Some(idx) => idx,
            None => {
                return Ok(None);
            },
        };
        let ghost before = *self;
        let cancelled = self.orders_active.remove(idx);
        proof {
            assert forall|i: int| 0 <= i < self.orders_active@.len() implies (
            #[trigger] self.orders_active@[i]).wf() by {
                if i < idx {
                    assert(self.orders_active@[i] == before.orders_active@[i]);
                } else {
                    assert(self.orders_active@[i] == before.orders_active@[i + 1]);
                }
            }
        }
        let r = match self.update_position_stats() {
            Ok(()) => Ok(Some(cancelled)),
            Err(e) => Err(e),
        };
        proof {
            assert(first_order_with_id(before.orders_active@, order_id, idx as int));
            assert(spec_cancelled_at(before, idx as int, *self, r));
        }
        r
    }

    /// Submit `order`: a market order is executed at once, a limit or stop market order
    /// rests until the market triggers it; see `spec_order_submitted`.
    pub fn submit_order(&mut self, order: OrderDecimal) -> (r: Result<
        Result<OrderDecimal, OrderError>,
        ArithmeticError,
    >)
        requires
            old(self).wf(),
            order.wf(),
            old(self).next_order_id < u64::MAX,
        ensures
            final(self).wf(),
            spec_order_submitted(*old(self), order, *final(self), r),
    {
        let max_orders = match order.order_type {
            OrderType::StopMarket => MAX_ACTIVE_STOP_ORDERS,
            _ => MAX_ACTIVE_ORDERS,
        };
        if self.orders_active.len() >= max_orders {
            return Ok(Err(OrderError::MaxActiveOrders));
        }
        if order.size.mantissa <= 0 {
            return Ok(Err(OrderError::InvalidOrderSize));
        }
        let validated = match order.order_type {
            OrderType::Market => self.validate_market_order(&order),
            OrderType::Limit => self.validate_limit_order(&order),
            OrderType::StopMarket => Ok(self.validate_stop_market_order(&order)),
            OrderType::TakeProfitMarket => Ok(self.validate_take_profit_market_order(&order)),
        };
        match validated {
            Err(e) => {
                return Err(e);
            },
            Ok(Some(e)) => {
                return Ok(Err(e));
            },
            Ok(None) => {},
        }
        let accepted = OrderDecimal { id: self.next_order_id, timestamp: self.timestamp, ..order };
        match order.order_type {
            OrderType::Market => {
                match self.execute_market(order.side, order.size) {
                    Ok(_) => {
                        self.next_order_id = self.next_order_id + 1;
                        Ok(Ok(accepted))
                    },
                    Err(e) => Err(e),
                }
            },
            OrderType::StopMarket | OrderType::TakeProfitMarket => {
                let ghost before = *self;
                self.orders_active.push(accepted);
                self.next_order_id = self.next_order_id + 1;
                proof {
                    assert forall|i: int| 0 <= i < self.orders_active@.len() implies (
                    #[trigger] self.orders_active@[i]).wf() && self.orders_active@[i].order_type
                        != OrderType::Market by {
                        if i < before.orders_active@.len() {
                            assert(self.orders_active@[i] == before.orders_active@[i]);
                        }
                    }
                }
                Ok(Ok(accepted))
            },
            OrderType::Limit => {
                let free = match checked_sub(self.margin.wallet_balance, self.margin.position_margin) {
                    Some(v) => v,
                    None => {
                        return Err(ArithmeticError);
                    },
                };
                let ghost before = *self;
                self.orders_active.push(accepted);
                proof {
                    assert forall|i: int| 0 <= i < self.orders_active@.len() implies (
                    #[trigger] self.orders_active@[i]).wf() && self.orders_active@[i].order_type
                        != OrderType::Market by {
                        if i < before.orders_active@.len() {
                            assert(self.orders_active@[i] == before.orders_active@[i]);
                        }
                    }
                }
                let available = match self.order_margin() {
                    Ok(om) => checked_sub(free, om),
                    Err(_) => None,
                };
                match available {
                    Some(ab) => {
                        self.margin.available_balance = ab;
                        self.next_order_id = self.next_order_id + 1;
                        Ok(Ok(accepted))
                    },
                    None => {
                        self.orders_active.pop();
                        proof {
                            assert(self.orders_active@ =~= before.orders_active@);
                        }
                        Err(ArithmeticError)
                    },
                }
            },
        }
    }

    /// Consume a trade at `price`, a buy where `buy`: the first trade sets both the bid and
    /// the ask, a buy then sets the ask and a sell the bid. A position whose liquidation
    /// price the market crossed is liquidated and `true` returned; otherwise the resting
    /// orders are checked and the position statistics recomputed. See
    /// `spec_trade_consumed`.
    pub fn consume_trade(&mut self, price: DecimalValue, buy: bool) -> (r: Result<bool, ArithmeticError>)
        requires
            old(self).wf(),
            price.wf(),
        ensures
            final(self).wf(),
            spec_trade_consumed(*old(self), price, buy, *final(self), r),
    {
        if self.init {
            self.init = false;
            self.bid = price;
            self.ask = price;
        }
        if buy {
            self.ask = price;
        } else {
            self.bid = price;
        }
        self.consume_prices()
    }

    /// Consume a candle: its close price becomes both the bid and the ask. A position whose
    /// liquidation price the market crossed is liquidated and `true` returned; otherwise the
    /// resting orders are checked and the position statistics recomputed. See
    /// `spec_prices_consumed`.
    pub fn consume_candle(&mut self, close: DecimalValue) -> (r: Result<bool, ArithmeticError>)
        requires
            old(self).wf(),
            close.wf(),
        ensures
            final(self).wf(),
            spec_prices_consumed(
                (ExchangeDecimal { bid: close, ask: close, ..*old(self) }),
                *final(self),
                r,
            ),
    {
        self.bid = close;
        self.ask = close;
        self.consume_prices()
    }

    /// Take the new prices in: liquidate a position whose liquidation price the market
    /// crossed, otherwise check the resting orders and recompute the position statistics;
    /// see `spec_prices_consumed`.
    fn consume_prices(&mut self) -> (r: Result<bool, ArithmeticError>)
        requires
            old(self).wf(),
        ensures
            final(self).wf(),
            spec_prices_consumed(*old(self), *final(self), r),
    {
        let ghost priced = *self;
        match self.check_liquidation() {
            Err(e) => {
                return Err(e);
            },
            Ok(true) => {
                return Ok(true);
            },
            Ok(false) => {},
        }
        let ghost refreshed = *self;
        proof {
            assert(spec_refresh_pnl(priced) == Some(refreshed));
        }
        match self.check_orders() {
            Err(e) => {
                return Err(e);
            },
            Ok(()) => {},
        }
        let ghost checked = *self;
        proof {
            let e = spec_fill_crossed(refreshed, refreshed.orders_active@)->Some_0;
            assert(spec_orders_checked_into(refreshed, e, checked));
        }
        match self.update_position_stats() {
            Err(e) => Err(e),
            Ok(()) => Ok(false),
        }
    }

    /// Check the resting orders against the bid and ask: a triggered order (see
    /// `spec_triggered`) is executed, a limit order as a limit fill at its price, a stop or
    /// take profit market order at the market, and moved to the executed orders; the others
    /// keep resting in their order.
    /// Where an execution fails, the checks stop with the error: the orders handled before
    /// stay handled, the failing one and those after it keep resting.
    pub fn check_orders(&mut self) -> (r: Result<(), ArithmeticError>)
        requires
            old(self).wf(),
        ensures
            final(self).wf(),
            final(self).config == old(self).config,
            final(self).bid == old(self).bid,
            final(self).ask == old(self).ask,
            final(self).init == old(self).init,
            final(self).next_order_id == old(self).next_order_id,
            final(self).timestamp == old(self).timestamp,
            spec_fill_crossed(*old(self), old(self).orders_active@) matches Some(e) ==> (r is Ok
                && final(self).position == e.position && final(self).margin == e.margin
                && final(self).orders_active@ == spec_untriggered(
                old(self).orders_active@,
                old(self).bid,
                old(self).ask,
            ) && final(self).orders_executed@ == old(self).orders_executed@ + spec_triggered_orders(
                old(self).orders_active@,
                old(self).bid,
                old(self).ask,
            )),
            spec_fill_crossed(*old(self), old(self).orders_active@) is None ==> (r is Err && exists|
                k: int,
            |
                #[trigger] spec_checks_failed_at(*old(self), k, *final(self))),
    {
        let ghost start = *self;
        let ghost orders = self.orders_active@;
        let n = self.orders_active.len();
        let mut kept: Vec<OrderDecimal> = Vec::new();
        let mut executed_orders: Vec<OrderDecimal> = Vec::new();
        let mut i: usize = 0;
        while i < n
            invariant
                self.wf(),
                start == *old(self),
                n == orders.len(),
                self.orders_active == start.orders_active,
                orders == start.orders_active@,
                self.config == start.config,
                self.bid == start.bid,
                self.ask == start.ask,
                self.init == start.init,
                self.next_order_id == start.next_order_id,
                self.timestamp == start.timestamp,
                self.orders_executed == start.orders_executed,
                i <= n,
                spec_fill_crossed(start, orders.take(i as int)) == Some(*self),
                kept@ == spec_untriggered(orders.take(i as int), start.bid, start.ask),
                executed_orders@ == spec_triggered_orders(orders.take(i as int), start.bid, start.ask),
                forall|j: int| 0 <= j < kept@.len() ==> (#[trigger] kept@[j]).wf()
                    && kept@[j].order_type != OrderType::Market,
            decreases n - i,
        {
            let o = self.orders_active[i];
            proof {
                assert(orders.take(i + 1).drop_last() =~= orders.take(i as int));
                assert(orders.take(i + 1).last() == o);
            }
            let triggered = match o.order_type {
                OrderType::Limit => match o.side {
                    Side::Buy => less_than(self.ask, o.price),
                    Side::Sell => less_than(o.price, self.bid),
                },
                OrderType::StopMarket => match o.side {
                    Side::Buy => !less_than(self.ask, o.price),
                    Side::Sell => !less_than(self.bid, o.price),
                },
                OrderType::TakeProfitMarket => match o.side {
                    Side::Buy => !less_than(o.price, self.bid),
                    Side::Sell => !less_than(self.ask, o.price),
                },
                OrderType::Market => false,
            };
            if triggered {
                let ghost before = *self;
                let executed = match o.order_type {
                    OrderType::StopMarket => self.execute_market(o.side, o.size),
                    OrderType::TakeProfitMarket => {
                        let price = match o.side {
                            Side::Buy => self.ask,
                            Side::Sell => self.bid,
                        };
                        match checked_mul(o.size, price) {
                            Some(amount) => self.execute_market(o.side, amount),
                            None => Err(ArithmeticError),
                        }
                    },
                    _ => self.execute_limit(o.side, o.price, o.size),
                };
                match executed {
                    Ok(_) => {
                        executed_orders.push(o);
                    },
                    Err(e) => {
                        let ghost handled = kept@;
                        let mut j: usize = i;
                        while j < n
                            invariant
                                *self == before,
                                i <= j <= n,
                                n == orders.len(),
                                self.orders_active@ == orders,
                                kept@ == handled + orders.subrange(i as int, j as int),
                                forall|k: int| 0 <= k < kept@.len() ==> (#[trigger] kept@[k]).wf()
                                    && kept@[k].order_type != OrderType::Market,
                                forall|k: int| 0 <= k < orders.len() ==> (#[trigger] orders[k]).wf()
                                    && orders[k].order_type != OrderType::Market,
                            decreases n - j,
                        {
                            let next = self.orders_active[j];
                            kept.push(next);
                            proof {
                                assert(orders.subrange(i as int, j + 1) =~= orders.subrange(i as int, j as int).push(next));
                            }
                            j = j + 1;
                        }
                        self.orders_active = kept;
                        self.orders_executed.append(&mut executed_orders);
                        proof {
                            assert(orders.subrange(i as int, n as int) =~= orders.skip(i as int));
                            assert(spec_fill_one(before, orders[i as int]) is None);
                            assert(spec_checks_failed_at(start, i as int, *self));
                            assert(orders.take(i + 1).drop_last() =~= orders.take(i as int));
                            assert(orders.take(i + 1).last() == orders[i as int]);
                            lemma_fill_none_extends(start, orders, i + 1);
                        }
                        return Err(e);
                    },
                }
            } else {
                kept.push(o);
            }
            i = i + 1;
        }
        proof {
            assert(orders.take(n as int) =~= orders);
        }
        self.orders_active = kept;
        self.orders_executed.append(&mut executed_orders);
        Ok(())
    }
}

/// Once the order margin sums of a prefix fail, those of every longer prefix fail too.
proof fn lemma_sums_none_extends(orders: Seq<OrderDecimal>, leverage: DecimalValue, k: int)
    requires
        0 <= k <= orders.len(),
    ensures
        spec_order_margin_sums(orders.subrange(0, k), leverage) is None ==> spec_order_margin_sums(
            orders,
            leverage,
        ) is None,
    decreases orders.len() - k,
{
    if k < orders.len() {
        let next = orders.subrange(0, k + 1);
        assert(next.drop_last() =~= orders.subrange(0, k));
        lemma_sums_none_extends(orders, leverage, k + 1);
    } else {
        assert(orders.subrange(0, k) =~= orders);
    }
}

/// Once the handling of a prefix of the orders fails, that of every longer prefix fails too.
proof fn lemma_fill_none_extends(ex: ExchangeDecimal, orders: Seq<OrderDecimal>, k: int)
    requires
        0 <= k <= orders.len(),
        spec_fill_crossed(ex, orders.take(k)) is None,
    ensures
        spec_fill_crossed(ex, orders) is None,
    decreases orders.len() - k,
{
    if k < orders.len() {
        assert(orders.take(k + 1).drop_last() =~= orders.take(k));
        lemma_fill_none_extends(ex, orders, k + 1);
    } else {
        assert(orders.take(k) =~= orders);
    }
}

/// No order that the checks of the resting orders keep is crossed at the prices they were
/// checked at, and every kept order was resting before.
pub proof fn kept_orders_are_not_triggered(orders: Seq<OrderDecimal>, bid: DecimalValue, ask: DecimalValue)
    ensures
        forall|i: int|
            0 <= i < spec_untriggered(orders, bid, ask).len() ==> !spec_triggered(
                #[trigger] spec_untriggered(orders, bid, ask)[i],
                bid,
                ask,
            ) && orders.contains(spec_untriggered(orders, bid, ask)[i]),
        spec_untriggered(orders, bid, ask).len() <= orders.len(),
    decreases orders.len(),
{
    if orders.len() > 0 {
        let init = orders.drop_last();
        kept_orders_are_not_triggered(init, bid, ask);
        let kept = spec_untriggered(orders, bid, ask);
        let before = spec_untriggered(init, bid, ask);
        assert forall|i: int| 0 <= i < kept.len() implies !spec_triggered(#[trigger] kept[i], bid, ask)
            && orders.contains(kept[i]) by {
            if i < before.len() {
                assert(kept[i] == before[i]);
                let j = choose|j: int| 0 <= j < init.len() && init[j] == before[i];
                assert(orders[j] == init[j]);
            } else {
                assert(kept[i] == orders.last());
                assert(orders[orders.len() - 1] == orders.last());
            }
        }
    }
}


/// A limit order is answered by its price and then by its margin `size / price / leverage`:
/// a buy above the ask or a sell below the bid has an invalid price. A buy while the position
/// is long, or a sell while it is short or flat, must be covered by the available balance
/// alone; a buy while the position is short or flat, or a sell while it is long, may also use
/// the position margin. Where the margin is refused the answer is that the balance is not
/// enough, and where an operation overflows the answer is an arithmetic error.
pub proof fn limit_order_margin_by_side(ex: ExchangeDecimal, o: OrderDecimal)
    ensures
        o.side == Side::Buy && value_lt(ex.ask, o.price) ==> spec_validate_limit_order(ex, o)
            == Some(Some(OrderError::InvalidLimitPrice)),
        o.side == Side::Sell && value_lt(o.price, ex.bid) ==> spec_validate_limit_order(ex, o)
            == Some(Some(OrderError::InvalidLimitPrice)),
        ({
            let price_ok = (o.side == Side::Buy && !value_lt(ex.ask, o.price)) || (o.side
                == Side::Sell && !value_lt(o.price, ex.bid));
            let margin = match quotient(o.size, o.price) {
                Some(per_price) => quotient(per_price, ex.position.leverage),
                None => None,
            };
            price_ok && margin is None ==> spec_validate_limit_order(ex, o) is None
        }),
        ({
            let price_ok = (o.side == Side::Buy && !value_lt(ex.ask, o.price)) || (o.side
                == Side::Sell && !value_lt(o.price, ex.bid));
            let margin = match quotient(o.size, o.price) {
                Some(per_price) => quotient(per_price, ex.position.leverage),
                None => None,
            };
            let balance_alone = (o.side == Side::Buy && ex.position.size.mantissa > 0) || (o.side
                == Side::Sell && ex.position.size.mantissa <= 0);
            price_ok && margin is Some && balance_alone ==> spec_validate_limit_order(ex, o) == Some(
                if value_lt(ex.margin.available_balance, margin->0) {
                    Some(OrderError::NotEnoughAvailableBalance)
                } else {
                    None
                },
            )
        }),
        ({
            let price_ok = (o.side == Side::Buy && !value_lt(ex.ask, o.price)) || (o.side
                == Side::Sell && !value_lt(o.price, ex.bid));
            let margin = match quotient(o.size, o.price) {
                Some(per_price) => quotient(per_price, ex.position.leverage),
                None => None,
            };
            let with_position_margin = (o.side == Side::Buy && ex.position.size.mantissa <= 0) || (
            o.side == Side::Sell && ex.position.size.mantissa > 0);
            price_ok && margin is Some && with_position_margin ==> spec_validate_limit_order(ex, o)
                == match sum(ex.margin.available_balance, ex.position.margin) {
                Some(covered) => Some(
                    if value_lt(covered, margin->0) {
                        Some(OrderError::NotEnoughAvailableBalance)
                    } else {
                        None
                    },
                ),
                None => None,
            }
        }),
{
}

/// The return on equity of a long position is the move of the bid above the entry price,
/// relative to the entry price; that of a short or flat position is the move of the ask below
/// the entry price, relative to the entry price.
pub proof fn roe_is_the_gain_over_entry(ex: ExchangeDecimal)
    ensures
        ex.position.size.mantissa > 0 ==> spec_roe(ex) == match difference(
            ex.bid,
            ex.position.entry_price,
        ) {
            Some(gain) => quotient(gain, ex.position.entry_price),
            None => None,
        },
        ex.position.size.mantissa <= 0 ==> spec_roe(ex) == match difference(
            ex.position.entry_price,
            ex.ask,
        ) {
            Some(gain) => quotient(gain, ex.position.entry_price),
            None => None,
        },
{
}

} // verus!
