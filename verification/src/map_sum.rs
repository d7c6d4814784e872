//! Sums over the entries of a map.

use vstd::prelude::*;

verus! {

/// The sum of a measure over the entries of a finite map.
pub open spec fn sum_over<K, V>(m: Map<K, V>, measure: spec_fn(K, V) -> nat) -> nat
    decreases m.dom().len(),
{
    if m.dom().finite() && m.dom().len() > 0 {
        let k = m.dom().choose();
        measure(k, m[k]) + sum_over(m.remove(k), measure)
    } else {
        0
    }
}

/// The sum of a measure over listed entries of a map.
pub open spec fn sum_listed<K, V>(
    m: Map<K, V>,
    keys: Seq<K>,
    measure: spec_fn(K, V) -> nat,
) -> nat
    decreases keys.len(),
{
    if keys.len() == 0 {
        0
    } else {
        sum_listed(m, keys.drop_last(), measure) + measure(keys.last(), m[keys.last()])
    }
}

/// Any entry can be taken out of the sum first.
pub proof fn lemma_sum_remove<K, V>(m: Map<K, V>, measure: spec_fn(K, V) -> nat, k: K)
    requires
        m.dom().finite(),
        m.contains_key(k),
    ensures
        sum_over(m, measure) == measure(k, m[k]) + sum_over(m.remove(k), measure),
    decreases m.dom().len(),
{
    let c = m.dom().choose();
    assert(m.dom().contains(k));
    assert(m.dom().len() > 0);
    assert(m.dom().contains(c));
    if c != k {
        lemma_sum_remove(m.remove(c), measure, k);
        lemma_sum_remove(m.remove(k), measure, c);
        assert(m.remove(c).remove(k) =~= m.remove(k).remove(c));
    }
}

/// The sum takes the entries in any order.
pub proof fn lemma_sum_is_sum_listed<K, V>(
    m: Map<K, V>,
    keys: Seq<K>,
    measure: spec_fn(K, V) -> nat,
)
    requires
        keys.no_duplicates(),
        forall|k: K| keys.contains(k) <==> #[trigger] m.contains_key(k),
    ensures
        m.dom().finite(),
        sum_over(m, measure) == sum_listed(m, keys, measure),
    decreases keys.len(),
{
    assert(m.dom() =~= keys.to_set());
    keys.lemma_cardinality_of_set();
    if keys.len() == 0 {
        assert(m.dom() =~= Set::empty());
    } else {
        let k = keys.last();
        let front = keys.drop_last();
        let rest = m.remove(k);
        assert(keys.contains(k));
        assert forall|x: K| front.contains(x) <==> #[trigger] rest.contains_key(x) by {
            if front.contains(x) {
                let i = choose|i: int| 0 <= i < front.len() && front[i] == x;
                assert(keys[i] == x);
            }
            if rest.contains_key(x) {
                assert(m.contains_key(x));
                let i = choose|i: int| 0 <= i < keys.len() && keys[i] == x;
                assert(front[i] == x);
            }
        }
        lemma_sum_is_sum_listed(rest, front, measure);
        lemma_sum_remove(m, measure, k);
        lemma_sum_listed_ext(m, rest, front, measure);
    }
}

/// Maps that agree on the listed keys have the same sum over them.
pub proof fn lemma_sum_listed_ext<K, V>(
    a: Map<K, V>,
    b: Map<K, V>,
    keys: Seq<K>,
    measure: spec_fn(K, V) -> nat,
)
    requires
        forall|i: int| 0 <= i < keys.len() ==> a[#[trigger] keys[i]] == b[keys[i]],
    ensures
        sum_listed(a, keys, measure) == sum_listed(b, keys, measure),
    decreases keys.len(),
{
    if keys.len() > 0 {
        lemma_sum_listed_ext(a, b, keys.drop_last(), measure);
    }
}

/// A sum over some of the keys is at most the sum over all.
pub proof fn lemma_sum_listed_prefix<K, V>(
    m: Map<K, V>,
    keys: Seq<K>,
    n: int,
    measure: spec_fn(K, V) -> nat,
)
    requires
        0 <= n <= keys.len(),
    ensures
        sum_listed(m, keys.take(n), measure) <= sum_listed(m, keys, measure),
    decreases keys.len(),
{
    if n == keys.len() {
        assert(keys.take(n) =~= keys);
    } else {
        lemma_sum_listed_prefix(m, keys.drop_last(), n, measure);
        assert(keys.drop_last().take(n) =~= keys.take(n));
    }
}

/// Changing one entry changes the sum by what that entry changes.
pub proof fn lemma_sum_insert<K, V>(m: Map<K, V>, measure: spec_fn(K, V) -> nat, k: K, v: V)
    requires
        m.dom().finite(),
    ensures
        sum_over(m.insert(k, v), measure) == sum_over(m.remove(k), measure) + measure(k, v),
{
    let changed = m.insert(k, v);
    lemma_sum_remove(changed, measure, k);
    assert(changed.remove(k) =~= m.remove(k));
}

/// Where every entry measures nothing, so does the whole.
pub proof fn lemma_sum_zero<K, V>(m: Map<K, V>, measure: spec_fn(K, V) -> nat)
    requires
        forall|k: K| #[trigger] m.contains_key(k) ==> measure(k, m[k]) == 0,
    ensures
        sum_over(m, measure) == 0,
    decreases m.dom().len(),
{
    if m.dom().finite() && m.dom().len() > 0 {
        let k = m.dom().choose();
        assert(m.contains_key(k));
        let rest = m.remove(k);
        assert forall|x: K| #[trigger] rest.contains_key(x) implies measure(x, rest[x]) == 0 by {
            assert(m.contains_key(x));
        }
        lemma_sum_zero(rest, measure);
    }
}

/// Where each entry measures what is left of it and what is gone of it, so does
/// the whole. An entry that is not left has only what is gone of it.
pub proof fn lemma_sum_parts<K, V>(
    before: Map<K, V>,
    after: Map<K, V>,
    whole: spec_fn(K, V) -> nat,
    left: spec_fn(K, V) -> nat,
    gone: spec_fn(K, V) -> nat,
)
    requires
        before.dom().finite(),
        forall|k: K| #[trigger] after.contains_key(k) ==> before.contains_key(k),
        forall|k: K| #[trigger]
            before.contains_key(k) ==> whole(k, before[k]) == gone(k, before[k])
                + if after.contains_key(k) {
                left(k, after[k])
            } else {
                0
            },
    ensures
        sum_over(before, whole) == sum_over(after, left) + sum_over(before, gone),
    decreases before.dom().len(),
{
    assert(after.dom().subset_of(before.dom()));
    vstd::set_lib::lemma_len_subset(after.dom(), before.dom());
    if before.dom().len() > 0 {
        let k = before.dom().choose();
        assert(before.contains_key(k));
        lemma_sum_remove(before, whole, k);
        lemma_sum_remove(before, gone, k);
        if after.contains_key(k) {
            lemma_sum_remove(after, left, k);
        } else {
            assert(after.remove(k) =~= after);
        }
        lemma_sum_parts(before.remove(k), after.remove(k), whole, left, gone);
    }
}

/// Where every entry measures one or nothing, the whole measures how many keys
/// measure one.
pub proof fn lemma_sum_counts<K, V>(
    m: Map<K, V>,
    measure: spec_fn(K, V) -> nat,
    counts: spec_fn(K) -> bool,
)
    requires
        m.dom().finite(),
        forall|k: K| #[trigger]
            m.contains_key(k) ==> measure(k, m[k]) == if counts(k) {
                1nat
            } else {
                0
            },
    ensures
        sum_over(m, measure) == m.dom().filter(counts).len(),
    decreases m.dom().len(),
{
    if m.dom().len() == 0 {
        assert(m.dom() =~= Set::empty());
        assert(m.dom().filter(counts) =~= Set::empty());
    } else {
        let k = m.dom().choose();
        assert(m.contains_key(k));
        let rest = m.remove(k);
        lemma_sum_remove(m, measure, k);
        lemma_sum_counts(rest, measure, counts);
        if counts(k) {
            assert(m.dom().filter(counts) =~= rest.dom().filter(counts).insert(k));
        } else {
            assert(m.dom().filter(counts) =~= rest.dom().filter(counts));
        }
    }
}

/// Where no entry measures more by one measure than by the other, the whole does not
/// either.
pub proof fn lemma_sum_at_most<K, V>(
    m: Map<K, V>,
    less: spec_fn(K, V) -> nat,
    more: spec_fn(K, V) -> nat,
)
    requires
        m.dom().finite(),
        forall|k: K| #[trigger] m.contains_key(k) ==> less(k, m[k]) <= more(k, m[k]),
    ensures
        sum_over(m, less) <= sum_over(m, more),
    decreases m.dom().len(),
{
    if m.dom().len() > 0 {
        let k = m.dom().choose();
        assert(m.contains_key(k));
        lemma_sum_remove(m, less, k);
        lemma_sum_remove(m, more, k);
        lemma_sum_at_most(m.remove(k), less, more);
    }
}

/// A sum over no entries is nothing, and one more entry adds what it measures.
pub proof fn law_sums_add_up<K, V>(m: Map<K, V>, measure: spec_fn(K, V) -> nat, k: K, v: V)
    requires
        m.dom().finite(),
        !m.contains_key(k),
    ensures
        sum_over(Map::<K, V>::empty(), measure) == 0,
        sum_over(m.insert(k, v), measure) == sum_over(m, measure) + measure(k, v),
{
    lemma_sum_insert(m, measure, k, v);
    assert(m.remove(k) =~= m);
}

} // verus!
