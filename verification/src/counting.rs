//! Counting a predicate over a sequence, with the update lemmas the
//! executor's live-task accounting and the reactor's request table rely on.

use vstd::prelude::*;

verus! {

/// Number of elements of `s` that satisfy `p`.
pub open spec fn count_matching<T>(s: Seq<T>, p: spec_fn(T) -> bool) -> nat
    decreases s.len(),
{
    if s.len() == 0 {
        0
    } else {
        count_matching(s.drop_last(), p) + if p(s.last()) {
            1nat
        } else {
            0nat
        }
    }
}

/// Updating one element changes the count exactly by the difference the
/// element makes.
pub proof fn lemma_count_matching_update<T>(s: Seq<T>, p: spec_fn(T) -> bool, i: int, v: T)
    requires
        0 <= i < s.len(),
    ensures
        count_matching(s.update(i, v), p) == count_matching(s, p) - (if p(s[i]) {
            1int
        } else {
            0int
        }) + (if p(v) {
            1int
        } else {
            0int
        }),
    decreases s.len(),
{
    let su = s.update(i, v);
    if i == s.len() - 1 {
        assert(su.drop_last() =~= s.drop_last());
    } else {
        assert(su.drop_last() =~= s.drop_last().update(i, v));
        lemma_count_matching_update(s.drop_last(), p, i, v);
    }
}

/// A sequence without a matching element has count zero.
pub proof fn lemma_count_matching_zero<T>(s: Seq<T>, p: spec_fn(T) -> bool)
    requires
        forall|k: int| 0 <= k < s.len() ==> !p(#[trigger] s[k]),
    ensures
        count_matching(s, p) == 0,
    decreases s.len(),
{
    if s.len() > 0 {
        lemma_count_matching_zero(s.drop_last(), p);
    }
}

/// A matching element makes the count positive.
pub proof fn lemma_count_matching_pos<T>(s: Seq<T>, p: spec_fn(T) -> bool, i: int)
    requires
        0 <= i < s.len(),
        p(s[i]),
    ensures
        count_matching(s, p) >= 1,
    decreases s.len(),
{
    if i == s.len() - 1 {
    } else {
        lemma_count_matching_pos(s.drop_last(), p, i);
    }
}

/// A duplicate-free sequence of indices whose membership coincides with a
/// predicate on the elements is as long as the predicate's count: the free
/// list is exactly as long as the number of free slots.
pub proof fn lemma_chain_length_is_count<T>(c: Seq<usize>, s: Seq<T>, p: spec_fn(T) -> bool)
    requires
        s.len() <= usize::MAX,
        c.no_duplicates(),
        forall|k: int| 0 <= k < c.len() ==> (#[trigger] c[k]) < s.len(),
        forall|i: int| 0 <= i < s.len() ==> (p(#[trigger] s[i]) <==> c.contains(i as usize)),
    ensures
        c.len() == count_matching(s, p),
    decreases s.len(),
{
    let n = s.len() as int;
    if n == 0 {
        if c.len() > 0 {
            assert(c[0] < 0);
        }
    } else {
        let s2 = s.drop_last();
        let last_idx = (n - 1) as usize;
        if p(s.last()) {
            assert(c.contains(last_idx));
            let j = choose|j: int| 0 <= j < c.len() && c[j] == last_idx;
            let c2 = c.remove(j);
            assert forall|i1: int, j1: int| 0 <= i1 < j1 < c2.len() implies c2[i1] != c2[j1] by {
                assert(c2[i1] == if i1 < j { c[i1] } else { c[i1 + 1] });
                assert(c2[j1] == if j1 < j { c[j1] } else { c[j1 + 1] });
            }
            assert forall|k: int| 0 <= k < c2.len() implies (#[trigger] c2[k]) < s2.len() by {
                assert(c2[k] == if k < j { c[k] } else { c[k + 1] });
                assert(c2[k] != last_idx);
            }
            assert forall|i: int| 0 <= i < s2.len() implies (p(#[trigger] s2[i]) <==> c2.contains(
                i as usize,
            )) by {
                assert(s2[i] == s[i]);
                if c2.contains(i as usize) {
                    let k = choose|k: int| 0 <= k < c2.len() && c2[k] == i as usize;
                    assert(c[if k < j { k } else { k + 1 }] == i as usize);
                    assert(c.contains(i as usize));
                }
                if c.contains(i as usize) {
                    let k = choose|k: int| 0 <= k < c.len() && c[k] == i as usize;
                    assert(i as usize != last_idx);
                    assert(k != j);
                    assert(c2[if k < j { k } else { k - 1 }] == i as usize);
                    assert(c2.contains(i as usize));
                }
            }
            lemma_chain_length_is_count(c2, s2, p);
        } else {
            assert(!c.contains(last_idx));
            assert forall|k: int| 0 <= k < c.len() implies (#[trigger] c[k]) < s2.len() by {
                assert(c[k] != last_idx);
            }
            assert forall|i: int| 0 <= i < s2.len() implies (p(#[trigger] s2[i]) <==> c.contains(
                i as usize,
            )) by {
                assert(s2[i] == s[i]);
            }
            lemma_chain_length_is_count(c, s2, p);
        }
    }
}

/// Pointwise agreement of the predicate gives equal counts.
pub proof fn lemma_count_matching_congruent<T>(s1: Seq<T>, s2: Seq<T>, p: spec_fn(T) -> bool)
    requires
        s1.len() == s2.len(),
        forall|k: int| 0 <= k < s1.len() ==> (p(#[trigger] s1[k]) <==> p(#[trigger] s2[k])),
    ensures
        count_matching(s1, p) == count_matching(s2, p),
    decreases s1.len(),
{
    if s1.len() > 0 {
        lemma_count_matching_congruent(s1.drop_last(), s2.drop_last(), p);
    }
}

/// Counting distributes over concatenation.
pub proof fn lemma_count_matching_concat<T>(a: Seq<T>, b: Seq<T>, p: spec_fn(T) -> bool)
    ensures
        count_matching(a.add(b), p) == count_matching(a, p) + count_matching(b, p),
    decreases b.len(),
{
    if b.len() == 0 {
        assert(a.add(b) =~= a);
    } else {
        assert(a.add(b).drop_last() =~= a.add(b.drop_last()));
        assert(a.add(b).last() == b.last());
        lemma_count_matching_concat(a, b.drop_last(), p);
    }
}

/// Membership in a sequence with one element spliced in front.
pub proof fn lemma_cons_contains<T>(a: T, s: Seq<T>, x: T)
    ensures
        seq![a].add(s).contains(x) <==> (x == a || s.contains(x)),
{
    let c = seq![a].add(s);
    assert(c[0] == a);
    if c.contains(x) {
        let k = choose|k: int| 0 <= k < c.len() && c[k] == x;
        if k > 0 {
            assert(s[k - 1] == x);
        }
    }
    if s.contains(x) {
        let k = choose|k: int| 0 <= k < s.len() && s[k] == x;
        assert(c[k + 1] == x);
    }
}

} // verus!
