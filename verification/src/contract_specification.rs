//! Details of the futures contract.

use vstd::prelude::*;

use crate::currency::{Decimal, Monetary};
use crate::decimal::{decimal_div, decimal_mul, in_i64, scale, spec_div, spec_mul, MAX_DECIMALS};
use crate::errors::ConfigError;

verus! {

/// Which price to use in `mark-to-market` calculations
#[derive(Debug, Clone, Copy, PartialEq, Eq, Structural)]
pub enum MarkMethod {
    /// Take the last mid price of the market.
    MidPrice,
    /// Use the best bid and ask to mark the position to market.
    BidAsk,
    /// Use Fair Price Marking to avoid unnecessary liquidations in highly leveraged products.
    /// Without this system, unnecessary liquidations may occur if the market is being
    /// manipulated, is illiquid, or the Mark Price swings unnecessarily relative to its Index
    /// Price. The system is able to achieve this by setting the Mark Price of the contract to
    /// the `FairPrice` instead of the `LastPrice`.
    FairPrice,
}

impl Default for MarkMethod {
    /// Marking by the best bid and ask.
    fn default() -> (r: Self)
        ensures
            r == MarkMethod::BidAsk,
    {
        MarkMethod::BidAsk
    }
}

/// The initial margin requirement of a leverage: one divided by the leverage.
pub open spec fn spec_init_margin_req(d: u8, leverage: int) -> int {
    spec_div(d, scale(d), leverage * scale(d))
}

/// Specifies the details of the futures contract.
///
/// Generics:
/// - `D`: The constant decimal precision of the currencies.
#[derive(Debug, Clone)]
pub struct ContractSpecification<const D: u8> {
    /// Identifying ticker symbol
    ticker: String,
    /// The initial deposit required to open a new futures position.
    init_margin_req: Decimal<D>,
    /// The minimum amount that must be maintained in the traders account to keep existing
    /// positions open.
    maintenance_margin: Decimal<D>,
    /// The method for computing `mark-to-market`.
    mark_method: MarkMethod,
    /// The fee rate a maker pays.
    fee_maker: Decimal<D>,
    /// The fee rate a taker pays.
    fee_taker: Decimal<D>,
}

impl<const D: u8> ContractSpecification<D> {
    pub closed spec fn spec_init_margin_req(self) -> int {
        self.init_margin_req.raw()
    }

    pub closed spec fn spec_maintenance_margin(self) -> int {
        self.maintenance_margin.raw()
    }

    pub closed spec fn spec_ticker(self) -> Seq<char> {
        self.ticker@
    }

    pub closed spec fn spec_mark_method(self) -> MarkMethod {
        self.mark_method
    }

    pub closed spec fn spec_fee_maker(self) -> int {
        self.fee_maker.raw()
    }

    pub closed spec fn spec_fee_taker(self) -> int {
        self.fee_taker.raw()
    }

    /// Create a new `ContractSpecification` from the most basic parameters.
    ///
    /// # Arguments:
    /// `leverage`: The leverage dictates the margin requirements of a position: the initial
    /// margin requirement is one divided by the leverage, so a higher leverage setting means
    /// lower margin requirements.
    /// `maintenance_margin`: The fraction (in range `(0, 1]`) that the maintenance margin will
    /// be relative to the initial margin requirement.
    /// `fee_maker`: The fee a maker pays.
    /// `fee_taker`: The fee a taker pays.
    pub fn new(
        leverage: u8,
        maintenance_margin: Decimal<D>,
        fee_maker: Decimal<D>,
        fee_taker: Decimal<D>,
    ) -> (r: Result<Self, ConfigError>)
        requires
            D <= MAX_DECIMALS,
            leverage > 0,
            in_i64(leverage * scale(D)),
        ensures
            r is Err <==> maintenance_margin.raw() > scale(D) || maintenance_margin.raw() <= 0,
            r is Err ==> r == Err::<Self, ConfigError>(ConfigError::InvalidMaintenanceMarginFraction),
            r matches Ok(spec) ==> {
                &&& spec.spec_init_margin_req() == spec_init_margin_req(D, leverage as int)
                &&& spec.spec_maintenance_margin() == spec_mul(
                    D,
                    spec_init_margin_req(D, leverage as int),
                    maintenance_margin.raw(),
                )
                &&& spec.spec_mark_method() == MarkMethod::BidAsk
                &&& spec.spec_fee_maker() == fee_maker.raw()
                &&& spec.spec_fee_taker() == fee_taker.raw()
                &&& spec.spec_ticker() == Seq::<char>::empty()
            },
    {
        let one = Decimal::<D>::one();
        if maintenance_margin.mantissa() > one.mantissa() || maintenance_margin.mantissa() <= 0 {
            return Err(ConfigError::InvalidMaintenanceMarginFraction);
        }
        proof {
            lemma_init_margin_req_bounds(D, leverage as int);
        }
        let lev = Decimal::<D>::new(leverage as i64, 0);
        proof {
            crate::decimal::lemma_scale_pos(D);
            if D > 0 {
                assert((D - 0) as u8 == D);
            }
            assert(lev.raw() == leverage * scale(D));
            assert(leverage * scale(D) > 0) by (nonlinear_arith)
                requires
                    leverage > 0,
                    scale(D) >= 1,
            ;
            crate::decimal::lemma_scale_bound(D);
        }
        let init_margin_req = Decimal::<D>::from_mantissa(
            decimal_div::<D>(one.mantissa(), lev.mantissa()),
        );
        proof {
            lemma_fraction_product(D, init_margin_req.raw(), maintenance_margin.raw());
        }
        let mm = Decimal::<D>::from_mantissa(
            decimal_mul::<D>(init_margin_req.mantissa(), maintenance_margin.mantissa()),
        );
        Ok(ContractSpecification {
            ticker: String::new(),
            init_margin_req,
            maintenance_margin: mm,
            mark_method: MarkMethod::BidAsk,
            fee_maker,
            fee_taker,
        })
    }

    /// The initial margin requirement.
    pub fn init_margin_req(&self) -> (r: Decimal<D>)
        ensures
            r.raw() == self.spec_init_margin_req(),
    {
        self.init_margin_req
    }

    /// The maintenance margin requirement.
    pub fn maintenance_margin(&self) -> (r: Decimal<D>)
        ensures
            r.raw() == self.spec_maintenance_margin(),
    {
        self.maintenance_margin
    }

    /// The identifying ticker symbol.
    pub fn ticker(&self) -> (r: &String)
        ensures
            r@ == self.spec_ticker(),
    {
        &self.ticker
    }

    /// Set the identifying ticker symbol.
    pub fn set_ticker(&mut self, ticker: String)
        ensures
            final(self).spec_ticker() == ticker@,
            final(self).spec_init_margin_req() == old(self).spec_init_margin_req(),
            final(self).spec_maintenance_margin() == old(self).spec_maintenance_margin(),
            final(self).spec_mark_method() == old(self).spec_mark_method(),
            final(self).spec_fee_maker() == old(self).spec_fee_maker(),
            final(self).spec_fee_taker() == old(self).spec_fee_taker(),
    {
        self.ticker = ticker;
    }

    /// The method for computing `mark-to-market`.
    pub fn mark_method(&self) -> (r: MarkMethod)
        ensures
            r == self.spec_mark_method(),
    {
        self.mark_method
    }

    /// Set the method for computing `mark-to-market`.
    pub fn set_mark_method(&mut self, mark_method: MarkMethod)
        ensures
            final(self).spec_mark_method() == mark_method,
            final(self).spec_ticker() == old(self).spec_ticker(),
            final(self).spec_init_margin_req() == old(self).spec_init_margin_req(),
            final(self).spec_maintenance_margin() == old(self).spec_maintenance_margin(),
            final(self).spec_fee_maker() == old(self).spec_fee_maker(),
            final(self).spec_fee_taker() == old(self).spec_fee_taker(),
    {
        self.mark_method = mark_method;
    }

    /// The maker fee rate.
    pub fn fee_maker(&self) -> (r: Decimal<D>)
        ensures
            r.raw() == self.spec_fee_maker(),
    {
        self.fee_maker
    }

    /// The taker fee rate.
    pub fn fee_taker(&self) -> (r: Decimal<D>)
        ensures
            r.raw() == self.spec_fee_taker(),
    {
        self.fee_taker
    }
}

/// One divided by a positive leverage lies in `(0, 1]`.
proof fn lemma_init_margin_req_bounds(d: u8, leverage: int)
    requires
        d <= MAX_DECIMALS,
        leverage > 0,
    ensures
        0 <= spec_init_margin_req(d, leverage) <= scale(d),
{
    crate::decimal::lemma_scale_pos(d);
    let s = scale(d);
    assert(s * s == s * s);
    assert(leverage * s >= s) by (nonlinear_arith)
        requires
            leverage >= 1,
            s > 0,
    ;
    assert(s * s / (leverage * s) <= s) by (nonlinear_arith)
        requires
            leverage * s >= s,
            s > 0,
    ;
    assert(s * s / (leverage * s) >= 0) by (nonlinear_arith)
        requires
            leverage * s > 0,
            s > 0,
    ;
}

/// The product of two fractions of one is a fraction of one.
proof fn lemma_fraction_product(d: u8, a: int, b: int)
    requires
        d <= MAX_DECIMALS,
        0 <= a <= scale(d),
        0 <= b <= scale(d),
    ensures
        0 <= spec_mul(d, a, b) <= scale(d),
{
    crate::decimal::lemma_scale_pos(d);
    let s = scale(d);
    assert(a * b <= s * s) by (nonlinear_arith)
        requires
            0 <= a <= s,
            0 <= b <= s,
    ;
    assert(a * b >= 0) by (nonlinear_arith)
        requires
            0 <= a,
            0 <= b,
    ;
    assert((a * b) / s <= s) by (nonlinear_arith)
        requires
            a * b <= s * s,
            s > 0,
    ;
    assert((a * b) / s >= 0) by (nonlinear_arith)
        requires
            a * b >= 0,
            s > 0,
    ;
}

} // verus!
