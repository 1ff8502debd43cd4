//! Facts about lists.

use vstd::prelude::*;

verus! {

/// One more element of a filtered list.
pub proof fn lemma_filter_step<A>(s: Seq<A>, k: int, keep: spec_fn(A) -> bool)
    requires
        0 <= k < s.len(),
    ensures
        s.take(k + 1).filter(keep) == if keep(s[k]) {
            s.take(k).filter(keep).push(s[k])
        } else {
            s.take(k).filter(keep)
        },
{
    reveal(Seq::filter);
    assert(s.take(k + 1).drop_last() =~= s.take(k));
}

/// Lists with the same values keep having the same values when each value is
/// mapped.
pub proof fn lemma_map_multiset<A, B>(s: Seq<A>, t: Seq<A>, f: spec_fn(A) -> B)
    requires
        s.to_multiset() == t.to_multiset(),
    ensures
        s.map_values(f).to_multiset() == t.map_values(f).to_multiset(),
    decreases s.len(),
{
    s.to_multiset_ensures();
    t.to_multiset_ensures();
    assert(s.len() == t.len()) by {
        assert(s.to_multiset().len() == t.to_multiset().len());
    }
    if s.len() > 0 {
        let a = s[0];
        assert(s.contains(a));
        assert(s.to_multiset().count(a) > 0);
        assert(t.contains(a));
        let j = choose|j: int| 0 <= j < t.len() && t[j] == a;
        let s1 = s.remove(0);
        let t1 = t.remove(j);
        assert(s1.to_multiset() == s.to_multiset().remove(a));
        assert(t1.to_multiset() == t.to_multiset().remove(a));
        lemma_map_multiset(s1, t1, f);
        let sm = s.map_values(f);
        let tm = t.map_values(f);
        sm.to_multiset_ensures();
        tm.to_multiset_ensures();
        assert(sm.remove(0) =~= s1.map_values(f));
        assert(tm.remove(j) =~= t1.map_values(f));
        assert(sm.contains(sm[0]) && tm.contains(tm[j]));
        assert(sm.to_multiset() =~= sm.to_multiset().remove(f(a)).insert(f(a)));
        assert(tm.to_multiset() =~= tm.to_multiset().remove(f(a)).insert(f(a)));
    } else {
        assert(s.map_values(f) =~= t.map_values(f));
    }
}

} // verus!
