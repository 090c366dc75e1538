//! The arithmetic of the ledger, on single amounts.

use vstd::prelude::*;
use crate::erc20::types::{Balance, Error};

verus! {

/// What is left of `balance` once `value` is taken from it; an error where it holds less.
pub fn debit(balance: Balance, value: Balance) -> (left: Result<Balance, Error>)
    ensures
        balance < value ==> left == Err::<Balance, Error>(Error::InsufficientBalance),
        balance >= value ==> left == Ok::<Balance, Error>((balance - value) as Balance),
{
    if balance < value {
        Err(Error::InsufficientBalance)
    } else {
        Ok(balance - value)
    }
}

/// What `balance` becomes once `value` is added to it; `None` where the sum does not fit
/// an amount.
pub fn credit(balance: Balance, value: Balance) -> (raised: Option<Balance>)
    ensures
        balance + value <= Balance::MAX ==> raised == Some((balance + value) as Balance),
        balance + value > Balance::MAX ==> raised is None,
{
    balance.checked_add(value)
}

/// What is left of `allowance` once `value` is spent of it; an error where it allows less.
pub fn spend(allowance: Balance, value: Balance) -> (left: Result<Balance, Error>)
    ensures
        allowance < value ==> left == Err::<Balance, Error>(Error::InsufficientAllowance),
        allowance >= value ==> left == Ok::<Balance, Error>((allowance - value) as Balance),
{
    if allowance < value {
        Err(Error::InsufficientAllowance)
    } else {
        Ok(allowance - value)
    }
}

} // verus!
