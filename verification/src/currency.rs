//! Currencies and decimal fractions with `D` fractional digits, backed by an `i64` mantissa.
//!
//! `QuoteCurrency` denotes prices and the margin of linear futures,
//! `BaseCurrency` denotes quantities of linear futures and the margin of inverse futures.

use vstd::prelude::*;
use vstd::string::StringExecFns;

use crate::decimal::{
    abs, checked_div_mantissa, checked_mul_mantissa, decimal_div, decimal_mul, decimal_text, decimal_to_string, decimal_try_from_scaled, in_i64,
    lemma_scale_bound, lemma_scale_pos, lemma_trunc_div_monotone, lemma_trunc_div_neg, lemma_trunc_div_nonneg, scale,
    spec_div, spec_mul, spec_try_from_scaled, MAX_DECIMALS,
};

verus! {

/// A value with `D` fractional digits, held as an `i64` mantissa.
pub trait Monetary<const D: u8>: Sized + Copy + core::fmt::Debug {
    /// The mantissa of the value: the value times `10^D`.
    spec fn raw(self) -> int;

    /// The text that follows the number when the value is printed.
    spec fn unit_suffix() -> Seq<char>;

    fn mantissa(&self) -> (r: i64)
        ensures
            r == self.raw(),
    ;

    fn from_mantissa(v: i64) -> (r: Self)
        ensures
            r.raw() == v,
    ;

    fn unit_text() -> (r: &'static str)
        ensures
            r@ == Self::unit_suffix(),
    ;

    proof fn lemma_raw_range(self)
        ensures
            in_i64(self.raw()),
    ;
}

/// The value zero.
pub fn zero_of<const D: u8, M: Monetary<D>>() -> (r: M)
    ensures
        r.raw() == 0,
{
    M::from_mantissa(0)
}

/// `true` if the value is zero.
pub fn is_zero_of<const D: u8, M: Monetary<D>>(v: M) -> (r: bool)
    ensures
        r == (v.raw() == 0),
{
    v.mantissa() == 0
}

/// The sum of two values.
pub fn sum_of<const D: u8, M: Monetary<D>>(a: M, b: M) -> (r: M)
    requires
        in_i64(a.raw() + b.raw()),
    ensures
        r.raw() == a.raw() + b.raw(),
{
    M::from_mantissa(a.mantissa() + b.mantissa())
}

/// The difference of two values.
pub fn diff_of<const D: u8, M: Monetary<D>>(a: M, b: M) -> (r: M)
    requires
        in_i64(a.raw() - b.raw()),
    ensures
        r.raw() == a.raw() - b.raw(),
{
    M::from_mantissa(a.mantissa() - b.mantissa())
}

/// The negated value.
pub fn neg_of<const D: u8, M: Monetary<D>>(v: M) -> (r: M)
    requires
        v.raw() != i64::MIN,
    ensures
        r.raw() == -v.raw(),
{
    proof {
        v.lemma_raw_range();
    }
    M::from_mantissa(-v.mantissa())
}

/// The absolute value.
pub fn abs_of<const D: u8, M: Monetary<D>>(v: M) -> (r: M)
    requires
        v.raw() != i64::MIN,
    ensures
        r.raw() == abs(v.raw()),
{
    proof {
        v.lemma_raw_range();
    }
    let m = v.mantissa();
    if m < 0 {
        M::from_mantissa(-m)
    } else {
        v
    }
}

/// The larger of two values.
pub fn max_of<const D: u8, M: Monetary<D>>(a: M, b: M) -> (r: M)
    ensures
        r.raw() == if a.raw() >= b.raw() {
            a.raw()
        } else {
            b.raw()
        },
{
    if a.mantissa() >= b.mantissa() {
        a
    } else {
        b
    }
}

/// The value multiplied by a decimal fraction, rounded toward zero.
pub fn times<const D: u8, M: Monetary<D>>(v: M, factor: Decimal<D>) -> (r: M)
    requires
        D <= MAX_DECIMALS,
        in_i64(spec_mul(D, v.raw(), factor.raw())),
    ensures
        r.raw() == spec_mul(D, v.raw(), factor.raw()),
{
    M::from_mantissa(decimal_mul::<D>(v.mantissa(), factor.mantissa()))
}

/// The text of the value, e.g. `1000.00000 Quote`.
pub fn text_of<const D: u8, M: Monetary<D>>(v: M) -> (r: String)
    requires
        D <= MAX_DECIMALS,
    ensures
        r@ == decimal_text(D, v.raw() as i64) + M::unit_suffix(),
{
    let m = v.mantissa();
    let text = decimal_to_string::<D>(m);
    text.concat(M::unit_text())
}

/// A currency in which margin is held and profit and loss is realized.
pub trait MarginCurrency<const D: u8>: Monetary<D> {
    /// The mantissa of the value of `units` (a mantissa of the paired currency) at `price`.
    spec fn spec_convert_from(units: int, price: int) -> int;

    /// The mantissa of the profit of `quantity` (a mantissa of the paired currency)
    /// bought at `entry` and sold at `exit`.
    spec fn spec_pnl(entry: int, exit: int, quantity: int) -> int;

    /// Whether every intermediate value of `pnl` fits an `i64`.
    spec fn pnl_in_range(entry: int, exit: int, quantity: int) -> bool;

    /// The value of `units` of the paired currency at `price_per_unit`.
    fn convert_from(units: i64, price_per_unit: QuoteCurrency<D>) -> (r: Self)
        requires
            D <= MAX_DECIMALS,
            price_per_unit.raw() > 0,
            in_i64(Self::spec_convert_from(units as int, price_per_unit.raw())),
        ensures
            r.raw() == Self::spec_convert_from(units as int, price_per_unit.raw()),
    ;

    /// The profit and loss of `quantity` (of the paired currency, negative if short)
    /// entered at `entry_price` and exited at `exit_price`.
    fn pnl(entry_price: QuoteCurrency<D>, exit_price: QuoteCurrency<D>, quantity: i64) -> (r: Self)
        requires
            D <= MAX_DECIMALS,
            entry_price.raw() > 0,
            exit_price.raw() > 0,
            Self::pnl_in_range(entry_price.raw(), exit_price.raw(), quantity as int),
        ensures
            r.raw() == Self::spec_pnl(entry_price.raw(), exit_price.raw(), quantity as int),
    ;

    /// The value of `units` of the paired currency at `price_per_unit`, where it fits an
    /// `i64`; `None` where it does not.
    fn checked_convert_from(units: i64, price_per_unit: QuoteCurrency<D>) -> (r: Option<Self>)
        requires
            D <= MAX_DECIMALS,
            price_per_unit.raw() > 0,
        ensures
            r is Some <==> in_i64(Self::spec_convert_from(units as int, price_per_unit.raw())),
            r matches Some(v) ==> v.raw() == Self::spec_convert_from(
                units as int,
                price_per_unit.raw(),
            ),
    ;

    /// Whether every intermediate value of `pnl` fits an `i64`.
    fn pnl_fits(entry_price: QuoteCurrency<D>, exit_price: QuoteCurrency<D>, quantity: i64) -> (r:
        bool)
        requires
            D <= MAX_DECIMALS,
            entry_price.raw() > 0,
            exit_price.raw() > 0,
        ensures
            r == Self::pnl_in_range(entry_price.raw(), exit_price.raw(), quantity as int),
    ;

    proof fn lemma_convert_nonneg(units: int, price: int)
        requires
            D <= MAX_DECIMALS,
            units >= 0,
            price > 0,
        ensures
            Self::spec_convert_from(units, price) >= 0,
    ;

    proof fn lemma_convert_monotone(u1: int, u2: int, price: int)
        requires
            D <= MAX_DECIMALS,
            0 <= u1 <= u2,
            price > 0,
        ensures
            Self::spec_convert_from(u1, price) <= Self::spec_convert_from(u2, price),
    ;

    proof fn lemma_convert_zero(price: int)
        requires
            D <= MAX_DECIMALS,
            price > 0,
        ensures
            Self::spec_convert_from(0, price) == 0,
    ;

    proof fn lemma_pnl_same_price(price: int, quantity: int)
        ensures
            Self::spec_pnl(price, price, quantity) == 0,
    ;

    /// A short's profit is the opposite of the long's of the same size.
    proof fn lemma_pnl_antisymmetric(entry: int, exit: int, quantity: int)
        requires
            D <= MAX_DECIMALS,
            entry > 0,
            exit > 0,
        ensures
            Self::spec_pnl(entry, exit, -quantity) == -Self::spec_pnl(entry, exit, quantity),
    ;

    /// A long gains where the price rises and loses where it falls.
    proof fn lemma_pnl_follows_price(entry: int, exit: int, quantity: int)
        requires
            D <= MAX_DECIMALS,
            entry > 0,
            exit > 0,
            quantity >= 0,
        ensures
            exit >= entry ==> Self::spec_pnl(entry, exit, quantity) >= 0,
            exit <= entry ==> Self::spec_pnl(entry, exit, quantity) <= 0,
    ;
}

/// The profit and loss of a position of `quantity`, negative for a short, entered at
/// `entry` and exited at `exit`: a long gains where the price rises and loses where it
/// falls, a short the other way round, and a short's profit is the opposite of the long's.
pub proof fn pnl_follows_the_price<const D: u8, M: MarginCurrency<D>>(entry: int, exit: int, quantity: int)
    requires
        D <= MAX_DECIMALS,
        entry > 0,
        exit > 0,
    ensures
        M::spec_pnl(entry, exit, -quantity) == -M::spec_pnl(entry, exit, quantity),
        quantity > 0 && exit >= entry ==> M::spec_pnl(entry, exit, quantity) >= 0,
        quantity > 0 && exit <= entry ==> M::spec_pnl(entry, exit, quantity) <= 0,
        quantity < 0 && exit <= entry ==> M::spec_pnl(entry, exit, quantity) >= 0,
        quantity < 0 && exit >= entry ==> M::spec_pnl(entry, exit, quantity) <= 0,
{
    M::lemma_pnl_antisymmetric(entry, exit, quantity);
    if quantity >= 0 {
        M::lemma_pnl_follows_price(entry, exit, quantity);
    } else {
        M::lemma_pnl_follows_price(entry, exit, -quantity);
        M::lemma_pnl_antisymmetric(entry, exit, -quantity);
        assert(-(-quantity) == quantity);
    }
}

/// A currency in which order and position quantities are denoted.
pub trait Currency<const D: u8>: Monetary<D> {
    /// The currency of the notional value of a quantity of this currency,
    /// in which margin is held.
    type PairedCurrency: MarginCurrency<D>;
}

/// The value of `units` of a quantity currency `Q` at `price`, in the paired currency of `Q`.
pub open spec fn spec_notional_of<const D: u8, Q: Currency<D>>(units: int, price: int) -> int {
    <<Q as Currency<D>>::PairedCurrency as MarginCurrency<D>>::spec_convert_from(units, price)
}

/// A decimal fraction with `D` fractional digits, e.g. a fee rate or a margin requirement.
#[derive(Clone, Copy, PartialEq, Eq, Debug, Hash, PartialOrd, Ord, Default)]
pub struct Decimal<const D: u8> {
    mantissa: i64,
}

/// A value denoted in the quote currency, e.g. `USD` of `BTCUSD`.
#[derive(Clone, Copy, PartialEq, Eq, Debug, Hash, PartialOrd, Ord, Default)]
pub struct QuoteCurrency<const D: u8> {
    mantissa: i64,
}

/// A value denoted in the base currency, e.g. `BTC` of `BTCUSD`.
#[derive(Clone, Copy, PartialEq, Eq, Debug, Hash, PartialOrd, Ord, Default)]
pub struct BaseCurrency<const D: u8> {
    mantissa: i64,
}

impl<const D: u8> Monetary<D> for Decimal<D> {
    closed spec fn raw(self) -> int {
        self.mantissa as int
    }

    open spec fn unit_suffix() -> Seq<char> {
        Seq::empty()
    }

    fn mantissa(&self) -> (r: i64) {
        self.mantissa
    }

    fn from_mantissa(v: i64) -> (r: Self) {
        Decimal { mantissa: v }
    }

    fn unit_text() -> (r: &'static str) {
        proof {
            reveal_strlit("");
        }
        ""
    }

    proof fn lemma_raw_range(self) {
    }
}

impl<const D: u8> Monetary<D> for QuoteCurrency<D> {
    closed spec fn raw(self) -> int {
        self.mantissa as int
    }

    open spec fn unit_suffix() -> Seq<char> {
        seq![' ', 'Q', 'u', 'o', 't', 'e']
    }

    fn mantissa(&self) -> (r: i64) {
        self.mantissa
    }

    fn from_mantissa(v: i64) -> (r: Self) {
        QuoteCurrency { mantissa: v }
    }

    fn unit_text() -> (r: &'static str) {
        proof {
            reveal_strlit(" Quote");
        }
        " Quote"
    }

    proof fn lemma_raw_range(self) {
    }
}

impl<const D: u8> Monetary<D> for BaseCurrency<D> {
    closed spec fn raw(self) -> int {
        self.mantissa as int
    }

    open spec fn unit_suffix() -> Seq<char> {
        seq![' ', 'B', 'a', 's', 'e']
    }

    fn mantissa(&self) -> (r: i64) {
        self.mantissa
    }

    fn from_mantissa(v: i64) -> (r: Self) {
        BaseCurrency { mantissa: v }
    }

    fn unit_text() -> (r: &'static str) {
        proof {
            reveal_strlit(" Base");
        }
        " Base"
    }

    proof fn lemma_raw_range(self) {
    }
}

impl<const D: u8> Decimal<D> {
    /// The decimal `integer * 10^-scale`.
    pub fn new(integer: i64, scale: u8) -> (r: Self)
        requires
            D <= MAX_DECIMALS,
            scale <= MAX_DECIMALS,
            spec_try_from_scaled(D, integer as int, scale) is Some,
        ensures
            Some(r.raw()) == spec_try_from_scaled(D, integer as int, scale),
    {
        let m = decimal_try_from_scaled::<D>(integer, scale);
        Decimal { mantissa: m.unwrap() }
    }

    /// The decimal `integer * 10^-scale` if it is exactly representable with `D` digits.
    pub fn try_from_scaled(integer: i64, scale: u8) -> (r: Option<Self>)
        requires
            D <= MAX_DECIMALS,
            scale <= MAX_DECIMALS,
        ensures
            r is Some <==> spec_try_from_scaled(D, integer as int, scale) is Some,
            r is Some ==> Some(r->0.raw()) == spec_try_from_scaled(D, integer as int, scale),
    {
        match decimal_try_from_scaled::<D>(integer, scale) {
            Some(m) => Some(Decimal { mantissa: m }),
            None => None,
        }
    }

    /// The decimal one.
    pub fn one() -> (r: Self)
        requires
            D <= MAX_DECIMALS,
        ensures
            r.raw() == scale(D),
    {
        proof {
            lemma_scale_bound(D);
        }
        Self::new(1, 0)
    }
}

impl<const D: u8> QuoteCurrency<D> {
    /// The quote amount whose mantissa is `m`.
    pub closed spec fn spec_with_mantissa(m: i64) -> Self {
        QuoteCurrency { mantissa: m }
    }

    /// A quote amount is the one of its mantissa.
    pub proof fn lemma_with_mantissa(m: i64)
        ensures
            Self::spec_with_mantissa(m).raw() == m,
            forall|x: Self| x.raw() == m ==> x == Self::spec_with_mantissa(m),
    {
    }

    /// The quote amount `integer * 10^-scale`.
    pub fn new(integer: i64, scale: u8) -> (r: Self)
        requires
            D <= MAX_DECIMALS,
            scale <= MAX_DECIMALS,
            spec_try_from_scaled(D, integer as int, scale) is Some,
        ensures
            Some(r.raw()) == spec_try_from_scaled(D, integer as int, scale),
    {
        let m = decimal_try_from_scaled::<D>(integer, scale);
        QuoteCurrency { mantissa: m.unwrap() }
    }

    /// The average of `price_a` and `price_b` weighted by `weight_a` and `weight_b`
    /// (mantissas), computed with decimal arithmetic.
    pub fn new_weighted_price(
        price_a: QuoteCurrency<D>,
        weight_a: i64,
        price_b: QuoteCurrency<D>,
        weight_b: i64,
    ) -> (r: QuoteCurrency<D>)
        requires
            D <= MAX_DECIMALS,
            weighted_price_in_range(D, price_a.raw(), weight_a as int, price_b.raw(), weight_b as int),
        ensures
            r.raw() == spec_weighted_price(D, price_a.raw(), weight_a as int, price_b.raw(), weight_b as int),
    {
        let a = decimal_mul::<D>(price_a.mantissa, weight_a);
        let b = decimal_mul::<D>(price_b.mantissa, weight_b);
        let total_weight = weight_a + weight_b;
        QuoteCurrency { mantissa: decimal_div::<D>(a + b, total_weight) }
    }
}

impl<const D: u8> BaseCurrency<D> {
    /// The base amount `integer * 10^-scale`.
    pub fn new(integer: i64, scale: u8) -> (r: Self)
        requires
            D <= MAX_DECIMALS,
            scale <= MAX_DECIMALS,
            spec_try_from_scaled(D, integer as int, scale) is Some,
        ensures
            Some(r.raw()) == spec_try_from_scaled(D, integer as int, scale),
    {
        let m = decimal_try_from_scaled::<D>(integer, scale);
        BaseCurrency { mantissa: m.unwrap() }
    }
}

/// The mantissa of the weighted average price computed by `new_weighted_price`.
pub open spec fn spec_weighted_price(d: u8, pa: int, wa: int, pb: int, wb: int) -> int {
    spec_div(d, spec_mul(d, pa, wa) + spec_mul(d, pb, wb), wa + wb)
}

/// Whether every intermediate value of `new_weighted_price` fits an `i64`.
pub open spec fn weighted_price_in_range(d: u8, pa: int, wa: int, pb: int, wb: int) -> bool {
    &&& in_i64(spec_mul(d, pa, wa))
    &&& in_i64(spec_mul(d, pb, wb))
    &&& in_i64(spec_mul(d, pa, wa) + spec_mul(d, pb, wb))
    &&& in_i64(wa + wb)
    &&& wa + wb != 0
    &&& in_i64(spec_weighted_price(d, pa, wa, pb, wb))
}

impl<const D: u8> MarginCurrency<D> for QuoteCurrency<D> {
    /// Linear futures: the quote value of base `units` is `units * price`.
    open spec fn spec_convert_from(units: int, price: int) -> int {
        spec_mul(D, units, price)
    }

    /// Linear futures: `quantity * exit - quantity * entry`.
    open spec fn spec_pnl(entry: int, exit: int, quantity: int) -> int {
        spec_mul(D, quantity, exit) - spec_mul(D, quantity, entry)
    }

    open spec fn pnl_in_range(entry: int, exit: int, quantity: int) -> bool {
        &&& in_i64(spec_mul(D, quantity, exit))
        &&& in_i64(spec_mul(D, quantity, entry))
        &&& in_i64(spec_mul(D, quantity, exit) - spec_mul(D, quantity, entry))
    }

    fn convert_from(units: i64, price_per_unit: QuoteCurrency<D>) -> (r: Self) {
        QuoteCurrency { mantissa: decimal_mul::<D>(units, price_per_unit.mantissa) }
    }

    fn checked_convert_from(units: i64, price_per_unit: QuoteCurrency<D>) -> (r: Option<Self>) {
        match checked_mul_mantissa::<D>(units, price_per_unit.mantissa) {
            Some(m) => Some(QuoteCurrency { mantissa: m }),
            None => None,
        }
    }

    fn pnl_fits(entry_price: QuoteCurrency<D>, exit_price: QuoteCurrency<D>, quantity: i64) -> (r:
        bool) {
        let at_exit = checked_mul_mantissa::<D>(quantity, exit_price.mantissa);
        let at_entry = checked_mul_mantissa::<D>(quantity, entry_price.mantissa);
        match (at_exit, at_entry) {
            (Some(x), Some(e)) => x.checked_sub(e).is_some(),
            _ => false,
        }
    }

    fn pnl(entry_price: QuoteCurrency<D>, exit_price: QuoteCurrency<D>, quantity: i64) -> (r: Self) {
        let at_exit = Self::convert_from(quantity, exit_price);
        let at_entry = Self::convert_from(quantity, entry_price);
        diff_of(at_exit, at_entry)
    }

    proof fn lemma_convert_nonneg(units: int, price: int) {
        lemma_scale_pos(D);
        vstd::arithmetic::mul::lemma_mul_nonnegative(units, price);
        lemma_trunc_div_nonneg(units * price, scale(D));
    }

    proof fn lemma_convert_monotone(u1: int, u2: int, price: int) {
        lemma_scale_pos(D);
        vstd::arithmetic::mul::lemma_mul_inequality(u1, u2, price);
        lemma_trunc_div_monotone(u1 * price, u2 * price, scale(D));
    }

    proof fn lemma_convert_zero(price: int) {
        lemma_scale_pos(D);
    }

    proof fn lemma_pnl_same_price(price: int, quantity: int) {
    }

    proof fn lemma_pnl_antisymmetric(entry: int, exit: int, quantity: int) {
        lemma_scale_pos(D);
        assert((-quantity) * exit == -(quantity * exit)) by (nonlinear_arith);
        assert((-quantity) * entry == -(quantity * entry)) by (nonlinear_arith);
        lemma_trunc_div_neg(quantity * exit, scale(D));
        lemma_trunc_div_neg(quantity * entry, scale(D));
    }

    proof fn lemma_pnl_follows_price(entry: int, exit: int, quantity: int) {
        lemma_scale_pos(D);
        if exit >= entry {
            vstd::arithmetic::mul::lemma_mul_inequality(entry, exit, quantity);
            assert(quantity * entry <= quantity * exit) by (nonlinear_arith)
                requires
                    entry <= exit,
                    quantity >= 0,
            ;
            lemma_trunc_div_monotone(quantity * entry, quantity * exit, scale(D));
        }
        if exit <= entry {
            assert(quantity * exit <= quantity * entry) by (nonlinear_arith)
                requires
                    exit <= entry,
                    quantity >= 0,
            ;
            lemma_trunc_div_monotone(quantity * exit, quantity * entry, scale(D));
        }
    }
}

impl<const D: u8> MarginCurrency<D> for BaseCurrency<D> {
    /// Inverse futures: the base value of quote `units` is `units / price`.
    open spec fn spec_convert_from(units: int, price: int) -> int {
        spec_div(D, units, price)
    }

    /// Inverse futures: `quantity / entry - quantity / exit`.
    open spec fn spec_pnl(entry: int, exit: int, quantity: int) -> int {
        spec_div(D, quantity, entry) - spec_div(D, quantity, exit)
    }

    open spec fn pnl_in_range(entry: int, exit: int, quantity: int) -> bool {
        &&& in_i64(spec_div(D, quantity, exit))
        &&& in_i64(spec_div(D, quantity, entry))
        &&& in_i64(spec_div(D, quantity, entry) - spec_div(D, quantity, exit))
    }

    fn convert_from(units: i64, price_per_unit: QuoteCurrency<D>) -> (r: Self) {
        BaseCurrency { mantissa: decimal_div::<D>(units, price_per_unit.mantissa) }
    }

    fn checked_convert_from(units: i64, price_per_unit: QuoteCurrency<D>) -> (r: Option<Self>) {
        match checked_div_mantissa::<D>(units, price_per_unit.mantissa) {
            Some(m) => Some(BaseCurrency { mantissa: m }),
            None => None,
        }
    }

    fn pnl_fits(entry_price: QuoteCurrency<D>, exit_price: QuoteCurrency<D>, quantity: i64) -> (r:
        bool) {
        let at_exit = checked_div_mantissa::<D>(quantity, exit_price.mantissa);
        let at_entry = checked_div_mantissa::<D>(quantity, entry_price.mantissa);
        match (at_entry, at_exit) {
            (Some(e), Some(x)) => e.checked_sub(x).is_some(),
            _ => false,
        }
    }

    fn pnl(entry_price: QuoteCurrency<D>, exit_price: QuoteCurrency<D>, quantity: i64) -> (r: Self) {
        let at_entry = Self::convert_from(quantity, entry_price);
        let at_exit = Self::convert_from(quantity, exit_price);
        diff_of(at_entry, at_exit)
    }

    proof fn lemma_convert_nonneg(units: int, price: int) {
        lemma_scale_pos(D);
        vstd::arithmetic::mul::lemma_mul_nonnegative(units, scale(D));
        vstd::arithmetic::div_mod::lemma_div_pos_is_pos(units * scale(D), price);
    }

    proof fn lemma_convert_monotone(u1: int, u2: int, price: int) {
        lemma_scale_pos(D);
        vstd::arithmetic::mul::lemma_mul_inequality(u1, u2, scale(D));
        lemma_trunc_div_monotone(u1 * scale(D), u2 * scale(D), price);
    }

    proof fn lemma_convert_zero(price: int) {
    }

    proof fn lemma_pnl_same_price(price: int, quantity: int) {
    }

    proof fn lemma_pnl_antisymmetric(entry: int, exit: int, quantity: int) {
        lemma_scale_pos(D);
        assert((-quantity) * scale(D) == -(quantity * scale(D))) by (nonlinear_arith);
        lemma_trunc_div_neg(quantity * scale(D), entry);
        lemma_trunc_div_neg(quantity * scale(D), exit);
    }

    proof fn lemma_pnl_follows_price(entry: int, exit: int, quantity: int) {
        lemma_scale_pos(D);
        let a = quantity * scale(D);
        vstd::arithmetic::mul::lemma_mul_nonnegative(quantity, scale(D));
        if exit >= entry {
            vstd::arithmetic::div_mod::lemma_div_is_ordered_by_denominator(a, entry, exit);
        }
        if exit <= entry {
            vstd::arithmetic::div_mod::lemma_div_is_ordered_by_denominator(a, exit, entry);
        }
    }
}

impl<const D: u8> Currency<D> for BaseCurrency<D> {
    type PairedCurrency = QuoteCurrency<D>;
}

impl<const D: u8> Currency<D> for QuoteCurrency<D> {
    type PairedCurrency = BaseCurrency<D>;
}


} // verus!
