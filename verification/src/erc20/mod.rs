//! A fungible-token ledger: balances, transfers and spending allowances.

pub mod types;
pub mod sum;
pub mod model;
pub mod laws;
pub mod rules;
pub mod ledger;

pub use crate::erc20::ledger::Erc20;
pub use crate::erc20::types::{Approval, Balance, Error, Event, Transfer};
