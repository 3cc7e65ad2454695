//! The trader's account: its balances, position and resting limit orders.

pub mod account_impl;
pub mod active_limit_orders;
pub mod balances;
pub mod bids_asks;
pub mod position;
pub mod sorted_orders;
