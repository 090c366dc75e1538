//! The plain values that the ledger takes and gives.

use vstd::prelude::*;
use crate::account::AccountId;

verus! {

/// An amount of token units.
pub type Balance = u128;

/// Why the ledger refused an operation.
#[derive(Clone, Copy, Debug, PartialEq, Eq)]
pub enum Error {
    /// The paying account holds less than the amount asked for.
    InsufficientBalance,
    /// The spender may spend less than the amount asked for.
    InsufficientAllowance,
}

/// Token units have moved. On creation of the ledger, `from` is `None`.
#[derive(Clone, Copy, Debug, PartialEq, Eq)]
pub struct Transfer {
    pub from: Option<AccountId>,
    pub to: Option<AccountId>,
    pub value: Balance,
}

/// An owner has set what a spender may spend.
#[derive(Clone, Copy, Debug, PartialEq, Eq)]
pub struct Approval {
    pub owner: AccountId,
    pub spender: AccountId,
    pub value: Balance,
}

/// What the ledger reports to its host.
#[derive(Clone, Copy, Debug, PartialEq, Eq)]
pub enum Event {
    Transfer(Transfer),
    Approval(Approval),
}

} // verus!
