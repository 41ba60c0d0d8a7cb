//! Sums over the entries of a map.
use vstd::prelude::*;

verus! {

/// The sum of what `weight` makes of each entry.
pub open spec fn sum_over<K, V>(m: Map<K, V>, weight: spec_fn(K, V) -> int) -> int
    decreases m.dom().len(),
{
    if m.dom().finite() && m.dom().len() > 0 {
        let k = m.dom().choose();
        proof {
            lemma_choose_is_in(m.dom());
            assert(m.remove(k).dom() =~= m.dom().remove(k));
        }
        weight(k, m[k]) + sum_over(m.remove(k), weight)
    } else {
        0
    }
}

/// A finite set that has elements has the one that is chosen.
pub proof fn lemma_choose_is_in<K>(s: Set<K>)
    requires
        s.finite(),
        s.len() > 0,
    ensures
        s.contains(s.choose()),
{
    if forall|k: K| !s.contains(k) {
        assert(s =~= Set::empty());
    }
}

/// An entry can be taken out of a sum.
pub proof fn lemma_take_out<K, V>(m: Map<K, V>, weight: spec_fn(K, V) -> int, k: K)
    requires
        m.dom().finite(),
        m.contains_key(k),
    ensures
        sum_over(m, weight) == weight(k, m[k]) + sum_over(m.remove(k), weight),
        m.remove(k).dom().finite(),
    decreases m.dom().len(),
{
    lemma_choose_is_in(m.dom());
    let first = m.dom().choose();
    assert(m.remove(first).dom() =~= m.dom().remove(first));
    assert(m.remove(k).dom() =~= m.dom().remove(k));
    if first != k {
        lemma_take_out(m.remove(first), weight, k);
        lemma_take_out(m.remove(k), weight, first);
        assert(m.remove(first).remove(k) =~= m.remove(k).remove(first));
    }
}

/// What an entry contributes to a sum.
pub open spec fn contribution<K, V>(m: Map<K, V>, weight: spec_fn(K, V) -> int, k: K) -> int {
    if m.contains_key(k) {
        weight(k, m[k])
    } else {
        0
    }
}

/// What a change of one entry does to a sum.
pub proof fn lemma_insert<K, V>(m: Map<K, V>, weight: spec_fn(K, V) -> int, k: K, v: V)
    requires
        m.dom().finite(),
    ensures
        m.insert(k, v).dom().finite(),
        sum_over(m.insert(k, v), weight) == sum_over(m, weight) - contribution(m, weight, k)
            + weight(k, v),
{
    let n = m.insert(k, v);
    assert(n.dom() =~= m.dom().insert(k));
    lemma_take_out(n, weight, k);
    if m.contains_key(k) {
        lemma_take_out(m, weight, k);
        assert(n.remove(k) =~= m.remove(k));
    } else {
        assert(n.remove(k) =~= m);
    }
}

/// What the removal of one entry does to a sum.
pub proof fn lemma_remove<K, V>(m: Map<K, V>, weight: spec_fn(K, V) -> int, k: K)
    requires
        m.dom().finite(),
    ensures
        m.remove(k).dom().finite(),
        sum_over(m.remove(k), weight) == sum_over(m, weight) - contribution(m, weight, k),
{
    if m.contains_key(k) {
        lemma_take_out(m, weight, k);
    } else {
        assert(m.remove(k) =~= m);
    }
}

/// A sum of what is never negative is not negative.
pub proof fn lemma_not_negative<K, V>(m: Map<K, V>, weight: spec_fn(K, V) -> int)
    requires
        forall|k: K, v: V| #[trigger] weight(k, v) >= 0,
    ensures
        sum_over(m, weight) >= 0,
    decreases m.dom().len(),
{
    if m.dom().finite() && m.dom().len() > 0 {
        let k = m.dom().choose();
        lemma_choose_is_in(m.dom());
        assert(m.remove(k).dom() =~= m.dom().remove(k));
        lemma_not_negative(m.remove(k), weight);
        assert(weight(k, m[k]) >= 0);
    }
}

/// Two entries contribute no more than all of them together.
pub proof fn lemma_two_at_most_all<K, V>(m: Map<K, V>, weight: spec_fn(K, V) -> int, k: K, l: K)
    requires
        m.dom().finite(),
        k != l,
        forall|k: K, v: V| #[trigger] weight(k, v) >= 0,
    ensures
        contribution(m, weight, k) + contribution(m, weight, l) <= sum_over(m, weight),
{
    lemma_remove(m, weight, k);
    lemma_remove(m.remove(k), weight, l);
    lemma_not_negative(m.remove(k).remove(l), weight);
}

/// One entry contributes no more than all of them together.
pub proof fn lemma_one_at_most_all<K, V>(m: Map<K, V>, weight: spec_fn(K, V) -> int, k: K)
    requires
        m.dom().finite(),
        forall|k: K, v: V| #[trigger] weight(k, v) >= 0,
    ensures
        contribution(m, weight, k) <= sum_over(m, weight),
{
    lemma_remove(m, weight, k);
    lemma_not_negative(m.remove(k), weight);
}

} // verus!
