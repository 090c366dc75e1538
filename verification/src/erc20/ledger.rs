//! The ledger itself: it owns the balances and the allowances, and keeps the total supply.

use vstd::prelude::*;
use crate::account::AccountId;
use crate::erc20::laws::{
    creation_is_conserved, credit_stays_within_supply, move_keeps_conservation,
};
use crate::erc20::model::{Call, LedgerState};
use crate::erc20::rules::{credit, debit, spend};
use crate::erc20::sum::{lemma_sum_empty, sum_of_values};
use crate::erc20::types::{Approval, Balance, Error, Event, Transfer};
use crate::store::Store;

verus! {

/// The stored amounts as mathematical numbers.
spec fn amounts<K>(stored: Map<K, Balance>) -> Map<K, nat> {
    Map::new(|k: K| stored.dom().contains(k), |k: K| stored[k] as nat)
}

/// The numbers have the keys of the stored amounts, and an empty store gives an empty map.
proof fn lemma_amounts_domain<K>(stored: Map<K, Balance>)
    ensures
        amounts(stored).dom() == stored.dom(),
        stored == Map::<K, Balance>::empty() ==> amounts(stored) == Map::<K, nat>::empty(),
{
    assert(amounts(stored).dom() =~= stored.dom());
    if stored == Map::<K, Balance>::empty() {
        assert(amounts(stored) =~= Map::<K, nat>::empty());
    }
}

/// Writing an amount into the store writes its number into the map of numbers.
proof fn lemma_amounts_insert<K>(stored: Map<K, Balance>, key: K, value: Balance)
    ensures
        amounts(stored.insert(key, value)) == amounts(stored).insert(key, value as nat),
{
    assert(amounts(stored.insert(key, value)) =~= amounts(stored).insert(key, value as nat));
}

/// The total supply and the balances. Every value of this type is balanced: its balances add
/// up to its total supply.
struct Books {
    total_supply: Balance,
    balances: Store<AccountId, Balance>,
}

impl Books {
    #[verifier::type_invariant]
    spec fn balanced(&self) -> bool {
        sum_of_values(amounts(self.balances@)) == self.total_supply
    }

    /// Books without supply and without balances.
    fn blank() -> (books: Books)
        ensures
            books.total_supply == 0,
            books.balances@ == Map::<AccountId, Balance>::empty(),
    {
        let balances: Store<AccountId, Balance> = Store::new();
        proof {
            lemma_amounts_domain(balances@);
            lemma_sum_empty::<AccountId>();
        }
        Books { total_supply: 0, balances }
    }

    /// Hands the books out and leaves blank books in their place.
    fn take(&mut self) -> (books: Books)
        ensures
            books == *old(self),
            final(self).total_supply == 0,
            final(self).balances@ == Map::<AccountId, Balance>::empty(),
    {
        let mut books = Books::blank();
        std::mem::swap(&mut books, self);
        books
    }
}

/// A ledger of token units.
pub struct Erc20 {
    books: Books,
    allowances: Store<(AccountId, AccountId), Balance>,
    events: Vec<Event>,
}

impl View for Erc20 {
    type V = LedgerState;

    closed spec fn view(&self) -> LedgerState {
        LedgerState {
            total_supply: self.books.total_supply as nat,
            balances: amounts(self.books.balances@),
            allowances: amounts(self.allowances@),
            events: self.events@,
        }
    }
}

impl Erc20 {
    /// Creates a ledger whose whole supply belongs to `caller`, and reports the crediting.
    pub fn new(caller: AccountId, total_supply: Balance) -> (ledger: Erc20)
        ensures
            ledger@ == LedgerState::create(caller, total_supply),
            ledger@.conserved(),
    {
        let mut balances: Store<AccountId, Balance> = Store::new();
        balances.insert(caller, total_supply);
        let allowances: Store<(AccountId, AccountId), Balance> = Store::new();
        let mut events: Vec<Event> = Vec::new();
        events.push(
            Event::Transfer(Transfer { from: None, to: Some(caller), value: total_supply }),
        );
        proof {
            creation_is_conserved(caller, total_supply);
            lemma_amounts_domain(Map::<AccountId, Balance>::empty());
            lemma_amounts_insert(Map::<AccountId, Balance>::empty(), caller, total_supply);
            lemma_amounts_domain(allowances@);
            assert(events@ =~= LedgerState::create(caller, total_supply).events);
        }
        Erc20 { books: Books { total_supply, balances }, allowances, events }
    }

    /// Returns the total supply, to which the balances add up.
    pub fn total_supply(&self) -> (supply: Balance)
        ensures
            supply == self@.total_supply,
            self@.conserved(),
    {
        proof {
            use_type_invariant(&self.books);
            self.books.balances.lemma_finite();
            lemma_amounts_domain(self.books.balances@);
        }
        self.books.total_supply
    }

    /// Returns what `owner` holds: nothing for an account that the ledger has never seen.
    pub fn balance_of(&self, owner: AccountId) -> (balance: Balance)
        ensures
            balance == self@.balance_of(owner),
            self@.conserved(),
    {
        proof {
            use_type_invariant(&self.books);
            self.books.balances.lemma_finite();
            lemma_amounts_domain(self.books.balances@);
        }
        self.books.balances.get_or(&owner, 0)
    }

    /// Returns what `spender` may still spend of the units of `owner`.
    pub fn allowance(&self, owner: AccountId, spender: AccountId) -> (allowance: Balance)
        ensures
            allowance == self@.allowance(owner, spender),
    {
        self.allowances.get_or(&(owner, spender), 0)
    }

    /// Returns the events that the ledger has reported since its creation, oldest first.
    pub fn events(&self) -> (log: &Vec<Event>)
        ensures
            log@ == self@.events,
    {
        &self.events
    }

    /// The caller lets `spender` spend up to `value` of its units. This replaces what was
    /// allowed before, and does not look at what the caller holds.
    pub fn approve(&mut self, caller: AccountId, spender: AccountId, value: Balance) -> (done:
        Result<(), Error>)
        ensures
            done is Ok,
            final(self)@ == old(self)@.approve(caller, spender, value),
            final(self)@ == old(self)@.step(Call::Approve { caller, spender, value }),
            final(self)@.conserved(),
    {
        proof {
            use_type_invariant(&self.books);
            self.books.balances.lemma_finite();
            lemma_amounts_domain(self.books.balances@);
            lemma_amounts_insert(self.allowances@, (caller, spender), value);
        }
        self.allowances.insert((caller, spender), value);
        self.events.push(Event::Approval(Approval { owner: caller, spender, value }));
        Ok(())
    }

    /// The caller moves `value` of its own units to `to`. Where the caller holds less, the
    /// call fails and changes nothing.
    pub fn transfer(&mut self, caller: AccountId, to: AccountId, value: Balance) -> (done: Result<
        (),
        Error,
    >)
        ensures
            match old(self)@.transfer(caller, to, value) {
                Ok(next) => done is Ok && final(self)@ == next,
                Err(e) => done == Err::<(), Error>(e) && final(self)@ == old(self)@,
            },
            final(self)@ == old(self)@.step(Call::Transfer { caller, to, value }),
            final(self)@.conserved(),
    {
        self.transfer_from_to(&caller, &to, value)
    }

    /// The caller moves `value` of the units of `from` to `to`, within what `from` allowed it.
    /// Where the allowance is too small, or else where `from` holds too little, the call
    /// fails and changes nothing; the allowance is lowered only once the units have moved.
    pub fn transfer_from(
        &mut self,
        caller: AccountId,
        from: AccountId,
        to: AccountId,
        value: Balance,
    ) -> (done: Result<(), Error>)
        ensures
            match old(self)@.transfer_from(caller, from, to, value) {
                Ok(next) => done is Ok && final(self)@ == next,
                Err(e) => done == Err::<(), Error>(e) && final(self)@ == old(self)@,
            },
            final(self)@ == old(self)@.step(Call::TransferFrom { caller, from, to, value }),
            final(self)@.conserved(),
    {
        let allowance = self.allowance(from, caller);
        let left = match spend(allowance, value) {
            Ok(left) => left,
            Err(e) => {
                proof {
                    use_type_invariant(&self.books);
                    self.books.balances.lemma_finite();
                    lemma_amounts_domain(self.books.balances@);
                }
                return Err(e);
            },
        };
        match self.transfer_from_to(&from, &to, value) {
            Ok(()) => {},
            Err(e) => {
                return Err(e);
            },
        }
        proof {
            lemma_amounts_insert(self.allowances@, (from, caller), left);
        }
        self.allowances.insert((from, caller), left);
        Ok(())
    }

    /// Moves `value` from `from` to `to`, if `from` holds as much, and reports the move.
    fn transfer_from_to(&mut self, from: &AccountId, to: &AccountId, value: Balance) -> (done:
        Result<(), Error>)
        ensures
            match old(self)@.move_value(*from, *to, value) {
                Ok(next) => done is Ok && final(self)@ == next,
                Err(e) => done == Err::<(), Error>(e) && final(self)@ == old(self)@,
            },
            final(self)@.conserved(),
    {
        let from_balance = self.balance_of(*from);
        let debited = match debit(from_balance, value) {
            Ok(debited) => debited,
            Err(e) => {
                return Err(e);
            },
        };
        proof {
            credit_stays_within_supply(self@, *from, *to, value);
            move_keeps_conservation(self@, *from, *to, value);
        }
        let Books { total_supply, mut balances } = self.books.take();
        proof {
            lemma_amounts_insert(balances@, *from, debited);
        }
        balances.insert(*from, debited);
        let to_balance = balances.get_or(to, 0);
        let credited = credit(to_balance, value).unwrap();
        proof {
            lemma_amounts_insert(balances@, *to, credited);
        }
        balances.insert(*to, credited);
        self.books = Books { total_supply, balances };
        self.events.push(Event::Transfer(Transfer { from: Some(*from), to: Some(*to), value }));
        Ok(())
    }
}

} // verus!
