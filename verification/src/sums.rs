//! The total of a finite map of quantities, and how it moves when one entry changes.

use vstd::prelude::*;

verus! {

/// The sum of all values of a finite map.
pub open spec fn total<K>(m: Map<K, nat>) -> nat
    decreases m.dom().len(),
    when m.dom().finite()
{
    if m.dom().is_empty() {
        0
    } else {
        let k = m.dom().choose();
        m[k] + total(m.remove(k))
    }
}

/// Any entry can be taken out of the sum first: the order in which the entries are added up
/// does not matter.
pub proof fn lemma_total_split<K>(m: Map<K, nat>, k: K)
    requires
        m.dom().finite(),
        m.dom().contains(k),
    ensures
        total(m) == m[k] + total(m.remove(k)),
    decreases m.dom().len(),
{
    let c = m.dom().choose();
    if c != k {
        lemma_total_split(m.remove(c), k);
        lemma_total_split(m.remove(k), c);
        assert(m.remove(c).remove(k) =~= m.remove(k).remove(c));
    }
}

/// Writing `v` at `k` replaces whatever `k` contributed before by `v`.
pub proof fn lemma_total_insert<K>(m: Map<K, nat>, k: K, v: nat)
    requires
        m.dom().finite(),
    ensures
        total(m.insert(k, v)) == v + total(m.remove(k)),
{
    lemma_total_split(m.insert(k, v), k);
    assert(m.insert(k, v).remove(k) =~= m.remove(k));
}

/// What an entry contributes, zero where the map has none.
pub open spec fn share<K>(m: Map<K, nat>, k: K) -> nat {
    if m.dom().contains(k) {
        m[k]
    } else {
        0
    }
}

/// The total is the share of any one key plus the total of the rest.
pub proof fn lemma_total_share<K>(m: Map<K, nat>, k: K)
    requires
        m.dom().finite(),
    ensures
        total(m) == share(m, k) + total(m.remove(k)),
{
    if m.dom().contains(k) {
        lemma_total_split(m, k);
    } else {
        assert(m.remove(k) =~= m);
    }
}

} // verus!
