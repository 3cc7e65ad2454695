//! A futures position: its signed quantity and average entry price.

use vstd::prelude::*;
use vstd::string::StringExecFns;

use crate::account::balances::{apply_to_equity_in_range, spec_apply_to_equity, Balances};
use crate::currency::{
    abs_of, neg_of, spec_weighted_price, sum_of, diff_of, text_of, weighted_price_in_range, zero_of, Currency,
    MarginCurrency, Monetary, QuoteCurrency,
};
use crate::decimal::{
    abs, checked_div_mantissa, checked_mul_mantissa, decimal_text, in_i64, MAX_DECIMALS,
};
use crate::types::Side;

verus! {

/// The side of the position depends on its quantity.
#[derive(Debug, Clone, Copy, PartialEq, Eq, Structural)]
pub enum PositionSide {
    /// A negative quantity.
    Short,
    /// A zero quantity.
    Neutral,
    /// A positive quantity.
    Long,
}

/// The value of `quantity` at `entry_price` in the margin currency of `Q`:
/// zero where there is no entry price.
pub open spec fn spec_position_notional<const D: u8, Q: Currency<D>>(quantity: int, entry_price: int) -> int {
    if entry_price == 0 {
        0
    } else {
        <<Q as Currency<D>>::PairedCurrency as MarginCurrency<D>>::spec_convert_from(
            abs(quantity),
            entry_price,
        )
    }
}

/// The profit of the position in the margin currency of `Q` at the given bid and ask:
/// a long position is valued at the bid, a short one at the ask.
pub open spec fn spec_unrealized_pnl<const D: u8, Q: Currency<D>>(
    quantity: int,
    entry_price: int,
    bid: int,
    ask: int,
) -> int {
    if quantity < 0 {
        <<Q as Currency<D>>::PairedCurrency as MarginCurrency<D>>::spec_pnl(entry_price, ask, quantity)
    } else if quantity == 0 {
        0
    } else {
        <<Q as Currency<D>>::PairedCurrency as MarginCurrency<D>>::spec_pnl(entry_price, bid, quantity)
    }
}

/// Whether a fill on `side` reduces a position of `quantity`, realizing profit or loss.
pub open spec fn reduces_position(quantity: int, side: Side) -> bool {
    (quantity > 0 && side == Side::Sell) || (quantity < 0 && side == Side::Buy)
}

/// The quantity of the position after a fill of `filled_qty` on `side`.
pub open spec fn spec_new_quantity(quantity: int, filled_qty: int, side: Side) -> int {
    if side == Side::Buy {
        quantity + filled_qty
    } else {
        quantity - filled_qty
    }
}

/// The entry price of the position after a fill of `filled_qty` at `fill_price` on `side`:
/// adding to a position averages the entry price weighted by quantity,
/// reducing keeps it, closing clears it and reversing takes the fill price.
pub open spec fn spec_new_entry_price(
    d: u8,
    quantity: int,
    entry_price: int,
    filled_qty: int,
    fill_price: int,
    side: Side,
) -> int {
    if quantity == 0 {
        fill_price
    } else if !reduces_position(quantity, side) {
        spec_weighted_price(d, entry_price, abs(quantity), fill_price, filled_qty)
    } else if filled_qty < abs(quantity) {
        entry_price
    } else if filled_qty == abs(quantity) {
        0
    } else {
        fill_price
    }
}

/// The profit realized by a fill which reduces the position: the part of the position which
/// is closed, up to its whole quantity, is valued from entry to fill price.
pub open spec fn spec_realized_pnl<const D: u8, Q: Currency<D>>(
    quantity: int,
    entry_price: int,
    filled_qty: int,
    fill_price: int,
) -> int {
    let closed = if filled_qty < abs(quantity) {
        filled_qty
    } else {
        abs(quantity)
    };
    if quantity > 0 {
        <<Q as Currency<D>>::PairedCurrency as MarginCurrency<D>>::spec_pnl(entry_price, fill_price, closed)
    } else {
        -<<Q as Currency<D>>::PairedCurrency as MarginCurrency<D>>::spec_pnl(entry_price, fill_price, closed)
    }
}

/// Whether every intermediate value of `Position::change` fits an `i64`.
pub open spec fn change_in_range<const D: u8, Q: Currency<D>>(
    quantity: int,
    entry_price: int,
    filled_qty: int,
    fill_price: int,
    side: Side,
    equity: int,
    bad_debt: int,
) -> bool {
    let closed = if filled_qty < abs(quantity) {
        filled_qty
    } else {
        abs(quantity)
    };
    &&& quantity != i64::MIN
    &&& in_i64(spec_new_quantity(quantity, filled_qty, side))
    &&& quantity != 0 && !reduces_position(quantity, side) ==> weighted_price_in_range(
        D,
        entry_price,
        abs(quantity),
        fill_price,
        filled_qty,
    )
    &&& quantity != 0 && !reduces_position(quantity, side) ==> spec_weighted_price(
        D,
        entry_price,
        abs(quantity),
        fill_price,
        filled_qty,
    ) > 0
    &&& reduces_position(quantity, side) ==> {
        &&& <<Q as Currency<D>>::PairedCurrency as MarginCurrency<D>>::pnl_in_range(
            entry_price,
            fill_price,
            closed,
        )
        &&& <<Q as Currency<D>>::PairedCurrency as MarginCurrency<D>>::spec_pnl(
            entry_price,
            fill_price,
            closed,
        ) != i64::MIN
        &&& apply_to_equity_in_range(
            equity,
            bad_debt,
            spec_realized_pnl::<D, Q>(quantity, entry_price, filled_qty, fill_price),
        )
    }
}

/// A futures position: its quantity (negative if short) and the average price
/// at which it was entered.
#[derive(Debug, Clone, Copy, PartialEq, Eq)]
pub struct Position<const D: u8, Q> {
    /// The number of futures contracts making up the position.
    quantity: Q,
    /// The average price at which this position was entered at.
    entry_price: QuoteCurrency<D>,
}

impl<const D: u8, Q: Currency<D>> Default for Position<D, Q> {
    /// The neutral position.
    fn default() -> (r: Self)
        ensures
            r.spec_quantity() == 0,
            r.spec_entry_price() == 0,
    {
        Position { quantity: zero_of::<D, Q>(), entry_price: zero_of::<D, QuoteCurrency<D>>() }
    }
}

impl<const D: u8, Q: Currency<D>> Position<D, Q> {
    pub closed spec fn spec_quantity(self) -> int {
        self.quantity.raw()
    }

    pub closed spec fn spec_entry_price(self) -> int {
        self.entry_price.raw()
    }

    /// The entry price is not negative, and positive while the position is open.
    pub open spec fn wf(self) -> bool {
        &&& self.spec_entry_price() >= 0
        &&& self.spec_quantity() != 0 ==> self.spec_entry_price() > 0
    }

    /// The value of the position at its entry price.
    pub open spec fn spec_notional(self) -> int {
        spec_position_notional::<D, Q>(self.spec_quantity(), self.spec_entry_price())
    }

    pub proof fn lemma_in_range(self)
        ensures
            in_i64(self.spec_quantity()),
            in_i64(self.spec_entry_price()),
    {
        self.quantity.lemma_raw_range();
        self.entry_price.lemma_raw_range();
    }

    /// The neutral position.
    pub fn neutral() -> (r: Self)
        ensures
            r.wf(),
            r.spec_quantity() == 0,
            r.spec_entry_price() == 0,
    {
        Position { quantity: zero_of::<D, Q>(), entry_price: zero_of::<D, QuoteCurrency<D>>() }
    }

    /// Create a new Position instance.
    /// The `entry_price` must be positive.
    pub fn new(quantity: Q, entry_price: QuoteCurrency<D>) -> (r: Option<Self>)
        ensures
            r is None <==> entry_price.raw() <= 0,
            r is Some ==> r->0.wf() && r->0.spec_quantity() == quantity.raw()
                && r->0.spec_entry_price() == entry_price.raw(),
    {
        if entry_price.mantissa() <= 0 {
            return None;
        }
        Some(Position { quantity, entry_price })
    }

    /// The number of futures contracts making up the position; negative if short.
    pub fn quantity(&self) -> (r: Q)
        ensures
            r.raw() == self.spec_quantity(),
    {
        self.quantity
    }

    /// The average price at which this position was entered at.
    pub fn entry_price(&self) -> (r: QuoteCurrency<D>)
        ensures
            r.raw() == self.spec_entry_price(),
    {
        self.entry_price
    }

    /// Get which side the position has, either Long, Short or Neutral.
    pub fn side(&self) -> (r: PositionSide)
        ensures
            r == (if self.spec_quantity() < 0 {
                PositionSide::Short
            } else if self.spec_quantity() == 0 {
                PositionSide::Neutral
            } else {
                PositionSide::Long
            }),
    {
        let q = self.quantity.mantissa();
        if q < 0 {
            PositionSide::Short
        } else if q == 0 {
            PositionSide::Neutral
        } else {
            PositionSide::Long
        }
    }

    /// Return the positions unrealized profit and loss.
    pub fn unrealized_pnl(&self, bid: QuoteCurrency<D>, ask: QuoteCurrency<D>) -> (r:
        Q::PairedCurrency)
        requires
            self.wf(),
            D <= MAX_DECIMALS,
            bid.raw() > 0,
            ask.raw() > 0,
            self.spec_quantity() < 0 ==> Q::PairedCurrency::pnl_in_range(
                self.spec_entry_price(),
                ask.raw(),
                self.spec_quantity(),
            ),
            self.spec_quantity() > 0 ==> Q::PairedCurrency::pnl_in_range(
                self.spec_entry_price(),
                bid.raw(),
                self.spec_quantity(),
            ),
        ensures
            r.raw() == spec_unrealized_pnl::<D, Q>(
                self.spec_quantity(),
                self.spec_entry_price(),
                bid.raw(),
                ask.raw(),
            ),
    {
        let q = self.quantity.mantissa();
        if q < 0 {
            Q::PairedCurrency::pnl(self.entry_price, ask, q)
        } else if q == 0 {
            zero_of::<D, Q::PairedCurrency>()
        } else {
            Q::PairedCurrency::pnl(self.entry_price, bid, q)
        }
    }

    /// The total value of the position which is composed of quantity and avg. entry price.
    pub fn notional(&self) -> (r: Q::PairedCurrency)
        requires
            self.wf(),
            D <= MAX_DECIMALS,
            self.spec_quantity() != i64::MIN,
            in_i64(self.spec_notional()),
        ensures
            r.raw() == self.spec_notional(),
            r.raw() >= 0,
    {
        if self.entry_price.mantissa() == 0 {
            zero_of::<D, Q::PairedCurrency>()
        } else {
            let quantity = abs_of(self.quantity);
            proof {
                Q::PairedCurrency::lemma_convert_nonneg(quantity.raw(), self.entry_price.raw());
            }
            Q::PairedCurrency::convert_from(quantity.mantissa(), self.entry_price)
        }
    }

    /// The text of the position: `Neutral`, or its side, its absolute quantity and its entry
    /// price, e.g. `Short 0.31700 Base @ 9584.23665 Quote`.
    pub fn to_string(&self) -> (r: String)
        requires
            D <= MAX_DECIMALS,
            self.spec_quantity() != i64::MIN,
        ensures
            r@ == if self.spec_quantity() == 0 {
                "Neutral"@
            } else {
                (if self.spec_quantity() < 0 {
                    "Short "@
                } else {
                    "Long "@
                }) + decimal_text(D, abs(self.spec_quantity()) as i64) + Q::unit_suffix() + " @ "@
                    + decimal_text(D, self.spec_entry_price() as i64)
                    + QuoteCurrency::<D>::unit_suffix()
            },
    {
        let q = self.quantity.mantissa();
        if q == 0 {
            return String::from_str("Neutral");
        }
        let mut out = if q < 0 {
            String::from_str("Short ")
        } else {
            String::from_str("Long ")
        };
        let quantity = text_of(abs_of(self.quantity));
        out.append(quantity.as_str());
        out.append(" @ ");
        let price = text_of(self.entry_price);
        out.append(price.as_str());
        out
    }

    /// Whether every intermediate value of a `change` by a fill of `filled_qty` at
    /// `fill_price` on `side` fits an `i64`, next to the equity and bad debt mantissas
    /// `equity` and `bad_debt`.
    pub fn change_fits(
        &self,
        filled_qty: Q,
        fill_price: QuoteCurrency<D>,
        side: Side,
        equity: i64,
        bad_debt: i64,
    ) -> (r: bool)
        requires
            self.wf(),
            D <= MAX_DECIMALS,
            filled_qty.raw() > 0,
            fill_price.raw() > 0,
        ensures
            r == change_in_range::<D, Q>(
                self.spec_quantity(),
                self.spec_entry_price(),
                filled_qty.raw(),
                fill_price.raw(),
                side,
                equity as int,
                bad_debt as int,
            ),
    {
        let q = self.quantity.mantissa();
        let filled = filled_qty.mantissa();
        if q == i64::MIN {
            return false;
        }
        let new_q = match side {
            Side::Buy => q.checked_add(filled),
            Side::Sell => q.checked_sub(filled),
        };
        if new_q.is_none() {
            return false;
        }
        let aq: i64 = if q < 0 {
            -q
        } else {
            q
        };
        let reduces = match side {
            Side::Buy => q < 0,
            Side::Sell => q > 0,
        };
        if q != 0 && !reduces {
            let entry = self.entry_price.mantissa();
            let at_entry = checked_mul_mantissa::<D>(entry, aq);
            let at_fill = checked_mul_mantissa::<D>(fill_price.mantissa(), filled);
            match (at_entry, at_fill) {
                (Some(a), Some(b)) => match (a.checked_add(b), aq.checked_add(filled)) {
                    (Some(sum), Some(w)) => {
                        if w == 0 {
                            false
                        } else {
                            match checked_div_mantissa::<D>(sum, w) {
                                Some(price) => price > 0,
                                None => false,
                            }
                        }
                    },
                    _ => false,
                },
                _ => false,
            }
        } else if reduces {
            let closed: i64 = if filled < aq {
                filled
            } else {
                aq
            };
            if !<Q::PairedCurrency as MarginCurrency<D>>::pnl_fits(self.entry_price, fill_price, closed) {
                return false;
            }
            let pnl = <Q::PairedCurrency as MarginCurrency<D>>::pnl(
                self.entry_price,
                fill_price,
                closed,
            ).mantissa();
            if pnl == i64::MIN {
                return false;
            }
            let realized: i64 = if q > 0 {
                pnl
            } else {
                -pnl
            };
            match equity.checked_add(realized) {
                None => false,
                Some(e) => {
                    if e < 0 {
                        bad_debt.checked_sub(e).is_some()
                    } else {
                        true
                    }
                },
            }
        } else {
            true
        }
    }

    /// Change a position while doing proper accounting and balance transfers.
    ///
    /// The entry price of a position must be positive: `change_in_range` therefore asks
    /// that a fill adding to an open position averages to a positive entry price, which a
    /// truncated weighted price of tiny values could otherwise break.
    pub fn change(
        &mut self,
        filled_qty: Q,
        fill_price: QuoteCurrency<D>,
        side: Side,
        balances: &mut Balances<D, Q::PairedCurrency>,
    )
        requires
            old(self).wf(),
            D <= MAX_DECIMALS,
            filled_qty.raw() > 0,
            fill_price.raw() > 0,
            change_in_range::<D, Q>(
                old(self).spec_quantity(),
                old(self).spec_entry_price(),
                filled_qty.raw(),
                fill_price.raw(),
                side,
                old(balances).spec_equity(),
                old(balances).spec_bad_debt(),
            ),
        ensures
            final(self).wf(),
            final(self).spec_quantity() == spec_new_quantity(
                old(self).spec_quantity(),
                filled_qty.raw(),
                side,
            ),
            final(self).spec_entry_price() == spec_new_entry_price(
                D,
                old(self).spec_quantity(),
                old(self).spec_entry_price(),
                filled_qty.raw(),
                fill_price.raw(),
                side,
            ),
            reduces_position(old(self).spec_quantity(), side) ==> (
            final(balances).spec_equity(),
            final(balances).spec_bad_debt(),
            ) == spec_apply_to_equity(
                old(balances).spec_equity(),
                old(balances).spec_bad_debt(),
                spec_realized_pnl::<D, Q>(
                    old(self).spec_quantity(),
                    old(self).spec_entry_price(),
                    filled_qty.raw(),
                    fill_price.raw(),
                ),
            ),
            reduces_position(old(self).spec_quantity(), side) ==> final(balances).spec_total_fees_paid()
                == old(balances).spec_total_fees_paid(),
            !reduces_position(old(self).spec_quantity(), side) ==> *final(balances) == *old(balances),
    {
        let q = self.quantity.mantissa();
        proof {
            self.lemma_in_range();
            filled_qty.lemma_raw_range();
        }
        if q == 0 {
            self.entry_price = fill_price;
            match side {
                Side::Buy => {
                    self.quantity = filled_qty;
                },
                Side::Sell => {
                    self.quantity = neg_of(filled_qty);
                },
            }
        } else if q > 0 {
            match side {
                Side::Buy => {
                    self.entry_price =
                        QuoteCurrency::new_weighted_price(
                        self.entry_price,
                        q,
                        fill_price,
                        filled_qty.mantissa(),
                    );
                    self.quantity = sum_of(self.quantity, filled_qty);
                },
                Side::Sell => {
                    let fq = filled_qty.mantissa();
                    if fq < q {
                        self.quantity = diff_of(self.quantity, filled_qty);
                        let pnl = Q::PairedCurrency::pnl(self.entry_price, fill_price, fq);
                        balances.apply_pnl(pnl);
                    } else if fq == q {
                        let pnl = Q::PairedCurrency::pnl(self.entry_price, fill_price, fq);
                        balances.apply_pnl(pnl);
                        self.quantity = diff_of(self.quantity, filled_qty);
                        self.entry_price = zero_of::<D, QuoteCurrency<D>>();
                    } else {
                        let pnl = Q::PairedCurrency::pnl(self.entry_price, fill_price, q);
                        balances.apply_pnl(pnl);
                        self.quantity = diff_of(self.quantity, filled_qty);
                        self.entry_price = fill_price;
                    }
                },
            }
        } else {
            match side {
                Side::Buy => {
                    let fq = filled_qty.mantissa();
                    let open = -q;
                    if fq < open {
                        let pnl = Q::PairedCurrency::pnl(self.entry_price, fill_price, fq);
                        balances.apply_pnl(neg_of(pnl));
                        self.quantity = sum_of(self.quantity, filled_qty);
                    } else if fq == open {
                        let pnl = Q::PairedCurrency::pnl(self.entry_price, fill_price, fq);
                        balances.apply_pnl(neg_of(pnl));
                        self.quantity = sum_of(self.quantity, filled_qty);
                        self.entry_price = zero_of::<D, QuoteCurrency<D>>();
                    } else {
                        let pnl = Q::PairedCurrency::pnl(self.entry_price, fill_price, open);
                        balances.apply_pnl(neg_of(pnl));
                        self.quantity = sum_of(self.quantity, filled_qty);
                        self.entry_price = fill_price;
                    }
                },
                Side::Sell => {
                    self.entry_price =
                        QuoteCurrency::new_weighted_price(
                        self.entry_price,
                        -q,
                        fill_price,
                        filled_qty.mantissa(),
                    );
                    self.quantity = diff_of(self.quantity, filled_qty);
                },
            }
        }
    }
}


/// Opening a position from neutral and then closing it with a fill of the same quantity at
/// the same price on the other side leaves the position neutral, without entry price, and
/// realizes no profit or loss.
pub proof fn open_then_close_at_same_price<const D: u8, Q: Currency<D>>(
    quantity: int,
    price: int,
    open_side: Side,
    close_side: Side,
)
    requires
        quantity > 0,
        price > 0,
        open_side != close_side,
    ensures
        ({
            let opened = spec_new_quantity(0, quantity, open_side);
            let entry = spec_new_entry_price(D, 0, 0, quantity, price, open_side);
            &&& abs(opened) == quantity
            &&& entry == price
            &&& reduces_position(opened, close_side)
            &&& spec_new_quantity(opened, quantity, close_side) == 0
            &&& spec_new_entry_price(D, opened, entry, quantity, price, close_side) == 0
            &&& spec_realized_pnl::<D, Q>(opened, entry, quantity, price) == 0
        }),
{
    <<Q as Currency<D>>::PairedCurrency as MarginCurrency<D>>::lemma_pnl_same_price(price, quantity);
}


/// A fill moves the position's quantity by the filled quantity in the direction of its
/// side, and a position is neutral exactly when it has no entry price, before and after the
/// fill. Where a fill adds to an open position, the averaged entry price must stay positive:
/// a weighted average rounded down to zero on tiny amounts is left out.
pub proof fn change_keeps_neutral_exactly_without_entry(
    d: u8,
    quantity: int,
    entry_price: int,
    filled_qty: int,
    fill_price: int,
    side: Side,
)
    requires
        filled_qty > 0,
        fill_price > 0,
        (quantity == 0) <==> (entry_price == 0),
        quantity != 0 && !reduces_position(quantity, side) ==> spec_weighted_price(
            d,
            entry_price,
            abs(quantity),
            fill_price,
            filled_qty,
        ) > 0,
    ensures
        spec_new_quantity(quantity, filled_qty, side) == if side == Side::Buy {
            quantity + filled_qty
        } else {
            quantity - filled_qty
        },
        (spec_new_quantity(quantity, filled_qty, side) == 0) <==> (spec_new_entry_price(
            d,
            quantity,
            entry_price,
            filled_qty,
            fill_price,
            side,
        ) == 0),
{
}

/// A fill against a position (a buy of a short, a sell of a long) keeps the entry price
/// while it closes part of the position, leaves a flat position without entry price where
/// it closes all of it, and where it is larger than the position turns it around: the new
/// position, on the side of the fill, holds what exceeded the old one and was entered at the
/// fill price. A fill that opens a position enters it at the fill price.
pub proof fn fill_against_position_sets_entry(
    d: u8,
    quantity: int,
    entry_price: int,
    filled_qty: int,
    fill_price: int,
    side: Side,
)
    requires
        filled_qty > 0,
    ensures
        quantity == 0 ==> spec_new_entry_price(d, quantity, entry_price, filled_qty, fill_price, side)
            == fill_price,
        (quantity < 0 && side == Side::Buy) || (quantity > 0 && side == Side::Sell) ==> {
            let new_quantity = spec_new_quantity(quantity, filled_qty, side);
            let new_entry = spec_new_entry_price(d, quantity, entry_price, filled_qty, fill_price, side);
            let size = if quantity < 0 {
                -quantity
            } else {
                quantity
            };
            &&& filled_qty < size ==> new_entry == entry_price && (quantity < 0 ==> quantity
                < new_quantity < 0) && (quantity > 0 ==> 0 < new_quantity < quantity)
            &&& filled_qty == size ==> new_entry == 0 && new_quantity == 0
            &&& filled_qty > size ==> new_entry == fill_price && (side == Side::Buy ==> new_quantity
                == filled_qty - size) && (side == Side::Sell ==> new_quantity == size - filled_qty)
        },
{
}

/// A long position gains where the bid is at or above its entry price and loses where it is
/// below; a short position gains where the ask is at or below its entry price and loses
/// where it is above.
pub proof fn unrealized_pnl_follows_the_market<const D: u8, Q: Currency<D>>(
    quantity: int,
    entry_price: int,
    bid: int,
    ask: int,
)
    requires
        D <= MAX_DECIMALS,
        entry_price > 0,
        bid > 0,
        ask > 0,
    ensures
        quantity > 0 && bid >= entry_price ==> spec_unrealized_pnl::<D, Q>(quantity, entry_price, bid, ask) >= 0,
        quantity > 0 && bid <= entry_price ==> spec_unrealized_pnl::<D, Q>(quantity, entry_price, bid, ask) <= 0,
        quantity < 0 && ask <= entry_price ==> spec_unrealized_pnl::<D, Q>(quantity, entry_price, bid, ask) >= 0,
        quantity < 0 && ask >= entry_price ==> spec_unrealized_pnl::<D, Q>(quantity, entry_price, bid, ask) <= 0,
{
    crate::currency::pnl_follows_the_price::<D, Q::PairedCurrency>(entry_price, bid, quantity);
    crate::currency::pnl_follows_the_price::<D, Q::PairedCurrency>(entry_price, ask, quantity);
}

} // verus!
