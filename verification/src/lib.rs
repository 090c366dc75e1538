//! Verified contract logic: a fungible-token ledger, and a small counter.
//!
//! The ledger of [`erc20`] keeps balances and spending allowances, and proves that its
//! balances always add up to the total supply. Both contracts take the caller's identity as
//! an argument and keep their maps in a [`store::Store`].

pub mod account;
pub mod store;
pub mod erc20;
pub mod incrementer;
