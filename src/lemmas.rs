//! Facts about filtered sequences.

use vstd::prelude::*;

verus! {

/// Filtering a sequence extended by one element.
pub proof fn lemma_filter_push<A>(s: Seq<A>, x: A, f: spec_fn(A) -> bool)
    ensures
        s.push(x).filter(f) == if f(x) {
            s.filter(f).push(x)
        } else {
            s.filter(f)
        },
{
    reveal_with_fuel(Seq::filter, 1);
    assert(s.push(x).drop_last() =~= s);
}

/// Each element of a filtered sequence comes from the unfiltered one.
pub proof fn lemma_filter_member<A>(s: Seq<A>, f: spec_fn(A) -> bool, i: int)
    requires
        0 <= i < s.filter(f).len(),
    ensures
        exists|a: int| 0 <= a < s.len() && s[a] == s.filter(f)[i],
    decreases s.len(),
{
    reveal_with_fuel(Seq::filter, 1);
    let t = s.drop_last();
    lemma_filter_push(t, s.last(), f);
    assert(s =~= t.push(s.last()));
    if f(s.last()) && i == s.filter(f).len() - 1 {
        assert(s[s.len() - 1] == s.filter(f)[i]);
    } else {
        assert(s.filter(f)[i] == t.filter(f)[i]);
        lemma_filter_member(t, f, i);
        let a = choose|a: int| 0 <= a < t.len() && t[a] == t.filter(f)[i];
        assert(s[a] == t[a]);
    }
}

/// Two positions of a filtered sequence come from two positions of the unfiltered one,
/// in the same order.
pub proof fn lemma_filter_index_map<A>(s: Seq<A>, f: spec_fn(A) -> bool, i: int, j: int)
    requires
        0 <= i < j < s.filter(f).len(),
    ensures
        exists|a: int, b: int|
            0 <= a < b < s.len() && s[a] == s.filter(f)[i] && s[b] == s.filter(f)[j],
    decreases s.len(),
{
    reveal_with_fuel(Seq::filter, 1);
    let t = s.drop_last();
    lemma_filter_push(t, s.last(), f);
    assert(s =~= t.push(s.last()));
    if f(s.last()) && j == s.filter(f).len() - 1 {
        assert(s.filter(f)[i] == t.filter(f)[i]);
        lemma_filter_member(t, f, i);
        let a = choose|a: int| 0 <= a < t.len() && t[a] == t.filter(f)[i];
        assert(s[a] == t[a]);
        assert(s[s.len() - 1] == s.filter(f)[j]);
    } else {
        assert(s.filter(f)[i] == t.filter(f)[i]);
        assert(s.filter(f)[j] == t.filter(f)[j]);
        lemma_filter_index_map(t, f, i, j);
        let (a, b) = choose|a: int, b: int|
            0 <= a < b < t.len() && t[a] == t.filter(f)[i] && t[b] == t.filter(f)[j];
        assert(s[a] == t[a] && s[b] == t[b]);
    }
}

} // verus!
