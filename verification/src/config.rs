//! The exchange configuration.

use vstd::prelude::*;

use crate::contract_specification::ContractSpecification;
use crate::currency::{MarginCurrency, Monetary};
use crate::errors::ConfigError;

verus! {

/// Define the Exchange configuration.
///
/// Generics:
/// - `D`: The constant decimal precision of the currencies.
/// - `M`: The margin currency: `QuoteCurrency` for linear futures, `BaseCurrency` for inverse
///   futures.
#[derive(Debug, Clone)]
pub struct Config<const D: u8, M: MarginCurrency<D>> {
    /// The starting balance of the account, denoted in the margin currency.
    starting_wallet_balance: M,
    /// The maximum number of open orders the user can have per side at any given time.
    max_num_open_orders: u16,
    /// The contract specification.
    contract_spec: ContractSpecification<D>,
}

impl<const D: u8, M: MarginCurrency<D>> Config<D, M> {
    pub closed spec fn spec_starting_wallet_balance(self) -> int {
        self.starting_wallet_balance.raw()
    }

    pub closed spec fn spec_max_num_open_orders(self) -> u16 {
        self.max_num_open_orders
    }

    pub closed spec fn spec_contract_spec(self) -> ContractSpecification<D> {
        self.contract_spec
    }

    /// Create a new Config.
    ///
    /// # Arguments:
    /// `starting_balance`: Initial Wallet Balance, denoted in QUOTE if using linear futures,
    /// denoted in BASE for inverse futures
    /// `max_num_open_orders`: The maximum number of open orders a user can have at any time.
    /// `contract_specification`: More details on the actual contract traded.
    ///
    /// # Returns:
    /// Either a valid `Config` or an Error
    pub fn new(
        starting_balance: M,
        max_num_open_orders: u16,
        contract_specification: ContractSpecification<D>,
    ) -> (r: Result<Self, ConfigError>)
        ensures
            r is Err <==> starting_balance.raw() <= 0,
            r is Err ==> r == Err::<Self, ConfigError>(ConfigError::InvalidStartingBalance),
            r matches Ok(c) ==> {
                &&& c.spec_starting_wallet_balance() == starting_balance.raw()
                &&& c.spec_max_num_open_orders() == max_num_open_orders
                &&& c.spec_contract_spec() == contract_specification
            },
    {
        if starting_balance.mantissa() <= 0 {
            return Err(ConfigError::InvalidStartingBalance);
        }
        Ok(Config {
            starting_wallet_balance: starting_balance,
            max_num_open_orders,
            contract_spec: contract_specification,
        })
    }

    /// The starting balance of the account.
    pub fn starting_wallet_balance(&self) -> (r: M)
        ensures
            r.raw() == self.spec_starting_wallet_balance(),
    {
        self.starting_wallet_balance
    }

    /// The maximum number of open orders per side.
    pub fn max_num_open_orders(&self) -> (r: u16)
        ensures
            r == self.spec_max_num_open_orders(),
    {
        self.max_num_open_orders
    }

    /// The contract specification.
    pub fn contract_spec(&self) -> (r: &ContractSpecification<D>)
        ensures
            *r == self.spec_contract_spec(),
    {
        &self.contract_spec
    }
}

} // verus!
