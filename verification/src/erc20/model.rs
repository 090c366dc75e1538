//! The ledger as a mathematical state, and what each operation does to it.

use vstd::prelude::*;
use crate::account::AccountId;
use crate::erc20::sum::sum_of_values;
use crate::erc20::types::{Approval, Balance, Error, Event, Transfer};

verus! {

/// The state of a ledger.
pub struct LedgerState {
    /// The number of token units in existence.
    pub total_supply: nat,
    /// What each account holds; an account without an entry holds nothing.
    pub balances: Map<AccountId, nat>,
    /// What each spender may spend of each owner's units, by (owner, spender); a pair without
    /// an entry may spend nothing.
    pub allowances: Map<(AccountId, AccountId), nat>,
    /// The events reported so far, oldest first.
    pub events: Seq<Event>,
}

/// A call of one of the ledger's state-changing operations, with the caller's identity.
pub enum Call {
    Approve { caller: AccountId, spender: AccountId, value: Balance },
    Transfer { caller: AccountId, to: AccountId, value: Balance },
    TransferFrom { caller: AccountId, from: AccountId, to: AccountId, value: Balance },
}

impl LedgerState {
    /// The ledger at its creation: the whole supply is credited to the deployer, and the
    /// crediting is reported as a transfer from nobody.
    pub open spec fn create(deployer: AccountId, total_supply: Balance) -> LedgerState {
        LedgerState {
            total_supply: total_supply as nat,
            balances: Map::<AccountId, nat>::empty().insert(deployer, total_supply as nat),
            allowances: Map::empty(),
            events: seq![
                Event::Transfer(Transfer { from: None, to: Some(deployer), value: total_supply }),
            ],
        }
    }

    /// What `account` holds.
    pub open spec fn balance_of(self, account: AccountId) -> nat {
        if self.balances.dom().contains(account) {
            self.balances[account]
        } else {
            0
        }
    }

    /// What `spender` may still spend of the units of `owner`.
    pub open spec fn allowance(self, owner: AccountId, spender: AccountId) -> nat {
        if self.allowances.dom().contains((owner, spender)) {
            self.allowances[(owner, spender)]
        } else {
            0
        }
    }

    /// Conservation: the balances of all accounts add up to the total supply.
    pub open spec fn conserved(self) -> bool {
        &&& self.balances.dom().finite()
        &&& sum_of_values(self.balances) == self.total_supply
    }

    /// `owner` lets `spender` spend up to `value`, whatever the allowance was before.
    pub open spec fn approve(
        self,
        owner: AccountId,
        spender: AccountId,
        value: Balance,
    ) -> LedgerState {
        self.with_allowance(owner, spender, value as nat).with_event(
            Event::Approval(Approval { owner, spender, value }),
        )
    }

    /// The state in which `account` holds `amount`.
    pub open spec fn with_balance(self, account: AccountId, amount: nat) -> LedgerState {
        LedgerState { balances: self.balances.insert(account, amount), ..self }
    }

    /// The state in which `spender` may spend `amount` of the units of `owner`.
    pub open spec fn with_allowance(
        self,
        owner: AccountId,
        spender: AccountId,
        amount: nat,
    ) -> LedgerState {
        LedgerState { allowances: self.allowances.insert((owner, spender), amount), ..self }
    }

    /// The state in which `event` has been reported after all earlier events.
    pub open spec fn with_event(self, event: Event) -> LedgerState {
        LedgerState { events: self.events.push(event), ..self }
    }

    /// The state once `value` has been taken from `from`.
    pub open spec fn debited(self, from: AccountId, value: Balance) -> LedgerState {
        self.with_balance(from, (self.balance_of(from) - value) as nat)
    }

    /// The state once `value` has been given to `to`.
    pub open spec fn credited(self, to: AccountId, value: Balance) -> LedgerState {
        self.with_balance(to, (self.balance_of(to) + value) as nat)
    }

    /// Moves `value` from `from` to `to`, if `from` holds as much: the debit first, then the
    /// credit on what the debit left, so that a move from an account to itself changes no
    /// balance. The move is reported whichever accounts take part.
    pub open spec fn move_value(self, from: AccountId, to: AccountId, value: Balance) -> Result<
        LedgerState,
        Error,
    > {
        if self.balance_of(from) < value {
            Err(Error::InsufficientBalance)
        } else {
            Ok(
                self.debited(from, value).credited(to, value).with_event(
                    Event::Transfer(Transfer { from: Some(from), to: Some(to), value }),
                ),
            )
        }
    }

    /// `caller` moves `value` of its own units to `to`.
    pub open spec fn transfer(self, caller: AccountId, to: AccountId, value: Balance) -> Result<
        LedgerState,
        Error,
    > {
        self.move_value(caller, to, value)
    }

    /// `caller` moves `value` of the units of `from` to `to`, within what `from` allowed it.
    /// The allowance is tested first and lowered last, only once the units have moved.
    pub open spec fn transfer_from(
        self,
        caller: AccountId,
        from: AccountId,
        to: AccountId,
        value: Balance,
    ) -> Result<LedgerState, Error> {
        if self.allowance(from, caller) < value {
            Err(Error::InsufficientAllowance)
        } else {
            match self.move_value(from, to, value) {
                Err(e) => Err(e),
                Ok(moved) => Ok(
                    moved.with_allowance(
                        from,
                        caller,
                        (self.allowance(from, caller) - value) as nat,
                    ),
                ),
            }
        }
    }

    /// What a call returns.
    pub open spec fn outcome(self, call: Call) -> Result<LedgerState, Error> {
        match call {
            Call::Approve { caller, spender, value } => Ok(self.approve(caller, spender, value)),
            Call::Transfer { caller, to, value } => self.transfer(caller, to, value),
            Call::TransferFrom { caller, from, to, value } => self.transfer_from(
                caller,
                from,
                to,
                value,
            ),
        }
    }

    /// The state after a call: a call that fails leaves the state as it was.
    pub open spec fn step(self, call: Call) -> LedgerState {
        match self.outcome(call) {
            Ok(next) => next,
            Err(_) => self,
        }
    }

    /// The state after a sequence of calls, made one after the other.
    pub open spec fn run(self, calls: Seq<Call>) -> LedgerState
        decreases calls.len(),
    {
        if calls.len() == 0 {
            self
        } else {
            self.run(calls.drop_last()).step(calls.last())
        }
    }
}

} // verus!
