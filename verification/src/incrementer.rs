//! A counter, and one more counter for each caller.

use vstd::prelude::*;
use crate::account::AccountId;
use crate::store::Store;

verus! {

/// What an incrementer holds.
pub struct IncrementerState {
    /// The shared counter.
    pub value: i32,
    /// The counter of each caller that has one; a caller without an entry counts as zero.
    pub my_map: Map<AccountId, i32>,
}

impl IncrementerState {
    /// The counter of `caller`.
    pub open spec fn mine(self, caller: AccountId) -> i32 {
        if self.my_map.dom().contains(caller) {
            self.my_map[caller]
        } else {
            0
        }
    }
}

/// A counter raised by `by`; `None` where the result does not fit an `i32`.
pub fn advance(value: i32, by: i32) -> (next: Option<i32>)
    ensures
        i32::MIN <= value + by <= i32::MAX ==> next == Some((value + by) as i32),
        !(i32::MIN <= value + by <= i32::MAX) ==> next is None,
{
    value.checked_add(by)
}

/// A shared counter beside a map of per-caller counters.
pub struct Incrementer {
    value: i32,
    my_map: Store<AccountId, i32>,
}

impl View for Incrementer {
    type V = IncrementerState;

    closed spec fn view(&self) -> IncrementerState {
        IncrementerState { value: self.value, my_map: self.my_map@ }
    }
}

impl Incrementer {
    /// Creates an incrementer whose shared counter is `init_value`; the counter of `caller`
    /// is entered as zero.
    pub fn new(caller: AccountId, init_value: i32) -> (created: Self)
        ensures
            created@.value == init_value,
            created@.my_map == Map::<AccountId, i32>::empty().insert(caller, 0),
    {
        let mut my_map: Store<AccountId, i32> = Store::new();
        my_map.insert(caller, 0);
        Incrementer { value: init_value, my_map }
    }

    /// Creates an incrementer whose shared counter is zero.
    pub fn default(caller: AccountId) -> (created: Self)
        ensures
            created@.value == 0,
            created@.my_map == Map::<AccountId, i32>::empty().insert(caller, 0),
    {
        Self::new(caller, 0)
    }

    /// Raises the shared counter by `by`.
    pub fn inc(&mut self, by: i32)
        requires
            i32::MIN <= old(self)@.value + by <= i32::MAX,
        ensures
            final(self)@.value == old(self)@.value + by,
            final(self)@.my_map == old(self)@.my_map,
    {
        self.value = advance(self.value, by).unwrap();
    }

    /// Raises the counter of `caller` by `by`.
    pub fn inc_mine(&mut self, caller: AccountId, by: i32)
        requires
            i32::MIN <= old(self)@.mine(caller) + by <= i32::MAX,
        ensures
            final(self)@.value == old(self)@.value,
            final(self)@.my_map == old(self)@.my_map.insert(
                caller,
                (old(self)@.mine(caller) + by) as i32,
            ),
    {
        let my_value = self.get_mine(caller);
        self.my_map.insert(caller, advance(my_value, by).unwrap());
    }

    /// Forgets the counter of `caller`, which then counts as zero again.
    pub fn remove_mine(&mut self, caller: AccountId)
        ensures
            final(self)@.value == old(self)@.value,
            final(self)@.my_map == old(self)@.my_map.remove(caller),
    {
        self.my_map.remove(&caller)
    }

    /// Returns the counter of `caller`.
    pub fn get_mine(&self, caller: AccountId) -> (mine: i32)
        ensures
            mine == self@.mine(caller),
    {
        self.my_map.get_or(&caller, 0)
    }

    /// Returns the shared counter.
    pub fn get(&self) -> (value: i32)
        ensures
            value == self@.value,
    {
        self.value
    }
}

} // verus!
