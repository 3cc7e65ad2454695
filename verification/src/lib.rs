//! Leveraged futures exchange for simulated trading.

pub mod currency;
pub mod decimal;
pub mod errors;
pub mod types;
pub mod account;
pub mod utils;
pub mod margin;
pub mod contracts;
pub mod futures_type;
pub mod text;
pub mod market_state;
pub mod account_tracker;
pub mod clearing_house;
pub mod contract_specification;
pub mod config;
pub mod fxmacrodata;
pub mod trades;
pub mod exchange_decimal;
pub mod exchange;
pub mod accounting;
