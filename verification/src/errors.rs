//! The errors of this crate.

use vstd::prelude::*;

verus! {

/// Defines the possible order errors that can occur when submitting a new order
#[derive(Debug, Clone, Copy, PartialEq, Eq, Structural)]
pub enum OrderError {
    /// Maximum number of active orders reached
    MaxActiveOrders,
    /// Invalid limit price of order
    InvalidLimitPrice,
    /// Invalid trigger price for order. e.g.: sell stop market order trigger price > ask
    InvalidTriggerPrice,
    /// Invalid order size
    InvalidOrderSize,
    /// The account does not have enough available balance to submit the order
    NotEnoughAvailableBalance,
    /// The order does not fit the market, e.g.: a buy take profit order whose trigger price
    /// lies above the bid
    InvalidOrder,
}

/// Describes possible Errors that may occur when calling methods in this crate
#[derive(Debug, Clone, Copy, PartialEq, Eq, Structural)]
pub enum Error {
    /// Config::new was provided an invalid leverage value
    ConfigWrongLeverage,
    /// Config::new was provided an invalid starting balance
    ConfigWrongStartingBalance,
    /// When data could not be parsed
    ParseError,
    /// when cancelling an order but no matching user order id is found
    UserOrderIdNotFound,
    /// When the internal order id is not found while cancelling order
    OrderIdNotFound,
    /// The position margin exceeds the wallet balance.
    InvalidPositionMargin,
    /// The order margin exceeds the wallet balance.
    InvalidOrderMargin,
    /// The available balance does not cover the requested amount.
    NotEnoughAvailableBalance,
    /// The locked margin does not cover the requested amount.
    NotEnoughOrderMargin,
    /// An account of the transaction accounting does not exist.
    AccountLookupFailure,
}

/// The errors of building a `Config` or a `ContractSpecification`.
#[derive(Debug, Clone, Copy, PartialEq, Eq, Structural)]
pub enum ConfigError {
    /// The maintenance margin fraction lies outside of `(0, 1]`.
    InvalidMaintenanceMarginFraction,
    /// The starting balance is not positive.
    InvalidStartingBalance,
}

} // verus!
