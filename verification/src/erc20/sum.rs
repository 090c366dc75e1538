//! The sum of the values of a finite map.

use vstd::prelude::*;

verus! {

/// The sum of all values of `m`, for `m` with finitely many keys.
pub open spec fn sum_of_values<K>(m: Map<K, nat>) -> nat
    decreases m.dom().len(),
    when m.dom().finite()
    via sum_of_values_decreases::<K>
{
    if m.dom().is_empty() {
        0
    } else {
        let k = m.dom().choose();
        m[k] + sum_of_values(m.remove(k))
    }
}

#[via_fn]
proof fn sum_of_values_decreases<K>(m: Map<K, nat>) {
    if !m.dom().is_empty() {
        let k = m.dom().choose();
        assert(m.dom().contains(k));
        assert(m.remove(k).dom() =~= m.dom().remove(k));
    }
}

/// The empty map sums to zero.
pub proof fn lemma_sum_empty<K>()
    ensures
        sum_of_values(Map::<K, nat>::empty()) == 0,
{
    assert(Map::<K, nat>::empty().dom() =~= Set::<K>::empty());
}

/// Any key can be taken out of the sum: the sum is its value plus the sum of the rest.
pub proof fn lemma_sum_remove<K>(m: Map<K, nat>, key: K)
    requires
        m.dom().finite(),
        m.dom().contains(key),
    ensures
        sum_of_values(m) == m[key] + sum_of_values(m.remove(key)),
    decreases m.dom().len(),
{
    let c = m.dom().choose();
    assert(m.dom().contains(c));
    if c != key {
        assert(m.remove(c).dom() =~= m.dom().remove(c));
        assert(m.remove(key).dom() =~= m.dom().remove(key));
        lemma_sum_remove(m.remove(c), key);
        lemma_sum_remove(m.remove(key), c);
        assert(m.remove(c).remove(key) =~= m.remove(key).remove(c));
    }
}

/// Writing `value` under `key` changes the sum by the difference to what stood there.
pub proof fn lemma_sum_insert<K>(m: Map<K, nat>, key: K, value: nat)
    requires
        m.dom().finite(),
    ensures
        sum_of_values(m.insert(key, value)) + (if m.dom().contains(key) {
            m[key]
        } else {
            0
        }) == sum_of_values(m) + value,
{
    let written = m.insert(key, value);
    lemma_sum_remove(written, key);
    assert(written.remove(key) =~= m.remove(key));
    if m.dom().contains(key) {
        lemma_sum_remove(m, key);
    } else {
        assert(m.remove(key) =~= m);
    }
}

/// No value is larger than the sum.
pub proof fn lemma_sum_bounds<K>(m: Map<K, nat>, key: K)
    requires
        m.dom().finite(),
        m.dom().contains(key),
    ensures
        m[key] <= sum_of_values(m),
{
    lemma_sum_remove(m, key);
}

} // verus!
