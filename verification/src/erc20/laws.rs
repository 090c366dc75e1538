//! What holds of the ledger's operations, proved of every state.

use vstd::prelude::*;
use crate::account::AccountId;
use crate::erc20::model::{Call, LedgerState};
use crate::erc20::sum::{lemma_sum_bounds, lemma_sum_empty, lemma_sum_insert};
use crate::erc20::types::{Balance, Error, Event, Transfer};

verus! {

/// At its creation a ledger is conserved: the deployer holds the whole supply, and every
/// other account holds nothing.
pub proof fn creation_is_conserved(deployer: AccountId, total_supply: Balance)
    ensures
        LedgerState::create(deployer, total_supply).conserved(),
        LedgerState::create(deployer, total_supply).total_supply == total_supply,
        LedgerState::create(deployer, total_supply).balance_of(deployer) == total_supply,
        forall|other: AccountId|
            other != deployer ==> LedgerState::create(deployer, total_supply).balance_of(other)
                == 0,
{
    lemma_sum_empty::<AccountId>();
    lemma_sum_insert(Map::<AccountId, nat>::empty(), deployer, total_supply as nat);
}

/// In a conserved ledger, an account that can pay `value` leaves every credit of `value`
/// within the total supply: no balance ever outgrows the supply.
pub proof fn credit_stays_within_supply(
    state: LedgerState,
    from: AccountId,
    to: AccountId,
    value: Balance,
)
    requires
        state.conserved(),
        state.balance_of(from) >= value,
    ensures
        state.debited(from, value).balance_of(to) + value <= state.total_supply,
{
    let lowered = state.debited(from, value);
    lemma_sum_insert(state.balances, from, (state.balance_of(from) - value) as nat);
    if lowered.balances.dom().contains(to) {
        lemma_sum_bounds(lowered.balances, to);
    }
}

/// A move of value keeps the ledger conserved and the total supply as it was.
pub proof fn move_keeps_conservation(
    state: LedgerState,
    from: AccountId,
    to: AccountId,
    value: Balance,
)
    requires
        state.conserved(),
    ensures
        state.move_value(from, to, value) matches Ok(next) ==> next.conserved()
            && next.total_supply == state.total_supply,
{
    if state.balance_of(from) >= value {
        let lowered = state.debited(from, value);
        lemma_sum_insert(state.balances, from, (state.balance_of(from) - value) as nat);
        lemma_sum_insert(lowered.balances, to, (lowered.balance_of(to) + value) as nat);
    }
}

/// The total supply is set at creation and never changes: no call touches it.
pub proof fn total_supply_is_fixed(state: LedgerState, call: Call)
    ensures
        state.step(call).total_supply == state.total_supply,
{
}

/// Conservation, one call at a time: whatever the call and whether it succeeds or fails, a
/// conserved ledger stays conserved.
pub proof fn step_keeps_conservation(state: LedgerState, call: Call)
    requires
        state.conserved(),
    ensures
        state.step(call).conserved(),
{
    match call {
        Call::Approve { caller, spender, value } => {},
        Call::Transfer { caller, to, value } => {
            move_keeps_conservation(state, caller, to, value);
        },
        Call::TransferFrom { caller, from, to, value } => {
            move_keeps_conservation(state, from, to, value);
        },
    }
}

/// Conservation: after any sequence of calls on a ledger created with `total_supply`, the
/// balances of all accounts add up to `total_supply`.
pub proof fn conservation(deployer: AccountId, total_supply: Balance, calls: Seq<Call>)
    ensures
        LedgerState::create(deployer, total_supply).run(calls).conserved(),
        LedgerState::create(deployer, total_supply).run(calls).total_supply == total_supply,
    decreases calls.len(),
{
    let created = LedgerState::create(deployer, total_supply);
    if calls.len() == 0 {
        creation_is_conserved(deployer, total_supply);
    } else {
        conservation(deployer, total_supply, calls.drop_last());
        step_keeps_conservation(created.run(calls.drop_last()), calls.last());
        total_supply_is_fixed(created.run(calls.drop_last()), calls.last());
    }
}

/// A call that fails changes nothing: no balance, no allowance, no event.
pub proof fn failure_changes_nothing(state: LedgerState, call: Call)
    requires
        state.outcome(call) is Err,
    ensures
        state.step(call) == state,
{
}

/// A transfer fails exactly when the caller holds less than `value`, and then for want of
/// balance.
pub proof fn transfer_fails_for_want_of_balance(
    state: LedgerState,
    caller: AccountId,
    to: AccountId,
    value: Balance,
)
    ensures
        state.balance_of(caller) < value <==> state.transfer(caller, to, value) is Err,
        state.balance_of(caller) < value ==> state.transfer(caller, to, value) == Err::<
            LedgerState,
            Error,
        >(Error::InsufficientBalance),
{
}

/// A successful move between two different accounts takes `value` from the one, gives it to
/// the other, and leaves every third account and every allowance as they were.
pub proof fn move_between_accounts(
    state: LedgerState,
    from: AccountId,
    to: AccountId,
    value: Balance,
)
    requires
        from != to,
        state.balance_of(from) >= value,
    ensures
        state.move_value(from, to, value) matches Ok(next) && {
            &&& next.balance_of(from) == state.balance_of(from) - value
            &&& next.balance_of(to) == state.balance_of(to) + value
            &&& forall|other: AccountId|
                other != from && other != to ==> next.balance_of(other) == state.balance_of(
                    other,
                )
            &&& next.allowances == state.allowances
            &&& next.total_supply == state.total_supply
        },
{
}

/// An approval overwrites: after two approvals of the same spender by the same owner, the
/// allowance is the second value, whatever the first was. Balances are not touched.
pub proof fn approve_overwrites(
    state: LedgerState,
    owner: AccountId,
    spender: AccountId,
    first: Balance,
    second: Balance,
)
    ensures
        state.approve(owner, spender, first).allowance(owner, spender) == first,
        state.approve(owner, spender, first).approve(owner, spender, second).allowance(
            owner,
            spender,
        ) == second,
        state.approve(owner, spender, first).approve(owner, spender, second).balances
            == state.balances,
{
}

/// An approval touches no other allowance.
pub proof fn approve_is_local(
    state: LedgerState,
    owner: AccountId,
    spender: AccountId,
    value: Balance,
    other_owner: AccountId,
    other_spender: AccountId,
)
    requires
        other_owner != owner || other_spender != spender,
    ensures
        state.approve(owner, spender, value).allowance(other_owner, other_spender)
            == state.allowance(other_owner, other_spender),
{
}

/// The order of the tests in a delegated transfer. It fails for want of allowance whenever
/// the allowance is below `value`, even if `from` could pay; it fails for want of balance
/// when the allowance suffices and `from` holds too little; otherwise it succeeds. Either
/// failure leaves balances and allowances as they were.
pub proof fn transfer_from_tests_allowance_first(
    state: LedgerState,
    caller: AccountId,
    from: AccountId,
    to: AccountId,
    value: Balance,
)
    ensures
        state.allowance(from, caller) < value ==> state.transfer_from(caller, from, to, value)
            == Err::<LedgerState, Error>(Error::InsufficientAllowance),
        state.allowance(from, caller) >= value && state.balance_of(from) < value
            ==> state.transfer_from(caller, from, to, value) == Err::<LedgerState, Error>(
            Error::InsufficientBalance,
        ),
        state.allowance(from, caller) >= value && state.balance_of(from) >= value
            ==> state.transfer_from(caller, from, to, value) is Ok,
        state.transfer_from(caller, from, to, value) is Err ==> state.step(
            Call::TransferFrom { caller, from, to, value },
        ) == state,
{
}

/// A successful delegated transfer moves the value as a plain move does, and lowers the
/// allowance of the caller by `value`; every other allowance stays.
pub proof fn transfer_from_spends_allowance(
    state: LedgerState,
    caller: AccountId,
    from: AccountId,
    to: AccountId,
    value: Balance,
)
    requires
        state.allowance(from, caller) >= value,
        state.balance_of(from) >= value,
    ensures
        state.transfer_from(caller, from, to, value) matches Ok(next) && {
            &&& state.move_value(from, to, value) matches Ok(moved) && next.balances
                == moved.balances && next.events == moved.events
            &&& next.allowance(from, caller) == state.allowance(from, caller) - value
            &&& forall|owner: AccountId, spender: AccountId|
                owner != from || spender != caller ==> next.allowance(owner, spender)
                    == state.allowance(owner, spender)
        },
{
}

/// A transfer from an account to itself, of no more than it holds, succeeds and changes no
/// balance; it is still reported as a transfer.
pub proof fn self_transfer_changes_no_balance(
    state: LedgerState,
    account: AccountId,
    value: Balance,
)
    requires
        state.balance_of(account) >= value,
    ensures
        state.transfer(account, account, value) matches Ok(next) && {
            &&& forall|any: AccountId| next.balance_of(any) == state.balance_of(any)
            &&& next.allowances == state.allowances
            &&& next.total_supply == state.total_supply
            &&& next.events == state.events.push(
                Event::Transfer(Transfer { from: Some(account), to: Some(account), value }),
            )
        },
{
}

} // verus!
