//! Stable sorting by a rank.

use vstd::prelude::*;

verus! {

/// A value with a rank. Ranks are totally ordered; two values may share one.
pub trait Rank: Sized {
    /// Whether this value ranks strictly before another.
    spec fn precedes(self, other: Self) -> bool;

    /// Two values do not precede each other; in particular none precedes itself.
    proof fn asymmetric(a: Self, b: Self)
        ensures
            !(a.precedes(b) && b.precedes(a)),
    ;

    /// A value that precedes another precedes all that come no earlier than the
    /// other, and a value that comes no later than another precedes all that the
    /// other precedes.
    proof fn transitive(a: Self, b: Self, c: Self)
        ensures
            a.precedes(b) && !c.precedes(b) ==> a.precedes(c),
            !b.precedes(a) && b.precedes(c) ==> a.precedes(c),
    ;
}

/// A value whose rank can be compared.
pub trait Ranked: Rank {
    /// Whether this value ranks strictly before another.
    fn is_before(&self, other: &Self) -> (r: bool)
        ensures
            r == self.precedes(*other),
    ;
}

/// Whether two values share a rank.
pub open spec fn same_rank<T: Rank>(a: T, b: T) -> bool {
    !a.precedes(b) && !b.precedes(a)
}

/// The values of a list that share the rank of `x`, in order.
pub open spec fn peers<T: Rank>(s: Seq<T>, x: T) -> Seq<T> {
    s.filter(|y: T| same_rank(x, y))
}

/// No value precedes an earlier one.
pub open spec fn ordered<T: Rank>(s: Seq<T>) -> bool {
    forall|i: int, j: int| 0 <= i < j < s.len() ==> !(#[trigger] s[j]).precedes(#[trigger] s[i])
}

/// Whether `r` is the list `s` in order, values of one rank staying as they
/// were.
pub open spec fn is_sorted<T: Rank>(r: Seq<T>, s: Seq<T>) -> bool {
    &&& ordered(r)
    &&& r.to_multiset() == s.to_multiset()
    &&& forall|x: T| #[trigger] peers(r, x) == peers(s, x)
}

proof fn lemma_insert_peers<T: Rank>(s: Seq<T>, i: int, v: T, x: T)
    requires
        0 <= i <= s.len(),
        forall|k: int| i <= k < s.len() ==> v.precedes(#[trigger] s[k]),
    ensures
        peers(s.insert(i, v), x) == peers(s.push(v), x),
{
    let keep = |y: T| same_rank(x, y);
    let front = s.take(i);
    let back = s.skip(i);
    assert(s =~= front + back);
    assert(s.insert(i, v) =~= front + seq![v] + back);
    assert(s.push(v) =~= front + back + seq![v]);
    Seq::filter_distributes_over_add(front + seq![v], back, keep);
    Seq::filter_distributes_over_add(front, seq![v], keep);
    Seq::filter_distributes_over_add(front + back, seq![v], keep);
    Seq::filter_distributes_over_add(front, back, keep);
    if keep(v) {
        assert forall|k: int| 0 <= k < back.len() implies !keep(#[trigger] back[k]) by {
            assert(v.precedes(s[i + k]));
            T::transitive(x, v, back[k]);
        }
        back.lemma_all_neg_filter_empty(keep);
        assert(back.filter(keep) =~= Seq::empty());
        assert(front.filter(keep) + seq![v].filter(keep) + back.filter(keep) =~= front.filter(keep)
            + back.filter(keep) + seq![v].filter(keep));
    } else {
        seq![v].lemma_all_neg_filter_empty(keep);
        assert(seq![v].filter(keep) =~= Seq::empty());
        assert(front.filter(keep) + seq![v].filter(keep) + back.filter(keep) =~= front.filter(keep)
            + back.filter(keep) + seq![v].filter(keep));
    }
}

proof fn lemma_push_peers<T: Rank>(r: Seq<T>, s: Seq<T>, v: T, x: T)
    requires
        peers(r, x) == peers(s, x),
    ensures
        peers(r.push(v), x) == peers(s.push(v), x),
{
    let keep = |y: T| same_rank(x, y);
    assert(r.push(v) =~= r + seq![v]);
    assert(s.push(v) =~= s + seq![v]);
    Seq::filter_distributes_over_add(r, seq![v], keep);
    Seq::filter_distributes_over_add(s, seq![v], keep);
}

/// Put `v` behind all values of an ordered list that it does not precede.
fn place<T: Ranked>(list: &mut Vec<T>, v: T)
    requires
        ordered(old(list)@),
    ensures
        is_sorted(final(list)@, old(list)@.push(v)),
{
    let ghost before = list@;
    let mut i: usize = 0;
    while i < list.len() && !v.is_before(&list[i])
        invariant
            i <= list@.len(),
            list@ == before,
            forall|k: int| 0 <= k < i ==> !v.precedes(#[trigger] list@[k]),
        decreases list.len() - i,
    {
        i += 1;
    }
    proof {
        assert forall|k: int| i <= k < before.len() implies v.precedes(#[trigger] before[k]) by {
            if k > i {
                T::transitive(v, before[i as int], before[k]);
            }
        }
    }
    list.insert(i, v);
    proof {
        let after = list@;
        assert(after =~= before.insert(i as int, v));
        assert forall|a: int, b: int| 0 <= a < b < after.len() implies !(
        #[trigger] after[b]).precedes(#[trigger] after[a]) by {
            if a == i {
                let w = before[b - 1];
                assert(v.precedes(w));
                T::asymmetric(v, w);
            } else if b == i {
                assert(after[a] == before[a]);
            } else {
                let a0 = if a < i { a } else { a - 1 };
                let b0 = if b < i { b } else { b - 1 };
                assert(after[a] == before[a0] && after[b] == before[b0]);
            }
        }
        assert forall|x: T| #[trigger] peers(after, x) == peers(before.push(v), x) by {
            lemma_insert_peers(before, i as int, v, x);
        }
        before.to_multiset_ensures();
        after.to_multiset_ensures();
        assert(after.remove(i as int) =~= before);
        assert(after[i as int] == v && after.contains(v));
        assert(after.to_multiset() =~= before.to_multiset().insert(v));
    }
}

/// Sort a list by rank, keeping the order of values of one rank.
pub fn sort<T: Ranked>(list: Vec<T>) -> (r: Vec<T>)
    ensures
        is_sorted(r@, list@),
{
    let ghost all = list@;
    let mut out: Vec<T> = Vec::new();
    assert(all.take(0) =~= Seq::empty());
    for v in it: list.into_iter()
        invariant
            it.seq() == all,
            is_sorted(out@, all.take(it.index())),
    {
        let ghost k = it.index();
        let ghost before = out@;
        place(&mut out, v);
        proof {
            assert(all.take(k + 1) =~= all.take(k).push(v));
            assert forall|x: T| #[trigger] peers(out@, x) == peers(all.take(k + 1), x) by {
                assert(peers(before, x) == peers(all.take(k), x));
                lemma_push_peers(before, all.take(k), v, x);
                assert(peers(out@, x) == peers(before.push(v), x));
            }
            before.to_multiset_ensures();
            all.take(k).to_multiset_ensures();
        }
    }
    assert(all.take(all.len() as int) =~= all);
    out
}

/// Where no two values share a rank, a list has one order, however it was
/// arranged.
pub proof fn law_order_unique<T: Rank>(a: Seq<T>, b: Seq<T>)
    requires
        ordered(a),
        ordered(b),
        a.to_multiset() == b.to_multiset(),
        forall|i: int, j: int|
            0 <= i < a.len() && 0 <= j < a.len() && same_rank(#[trigger] a[i], #[trigger] a[j])
                ==> a[i] == a[j],
    ensures
        a == b,
    decreases a.len(),
{
    a.to_multiset_ensures();
    b.to_multiset_ensures();
    assert(a.len() == b.len()) by {
        assert(a.to_multiset().len() == b.to_multiset().len());
    }
    if a.len() > 0 {
        assert(b.to_multiset().count(b[0]) > 0) by {
            assert(b.contains(b[0]));
        }
        assert(a.contains(b[0]));
        let i = choose|i: int| 0 <= i < a.len() && a[i] == b[0];
        assert(a.to_multiset().count(a[0]) > 0) by {
            assert(a.contains(a[0]));
        }
        assert(b.contains(a[0]));
        let j = choose|j: int| 0 <= j < b.len() && b[j] == a[0];
        T::asymmetric(a[0], a[0]);
        assert(!b[j].precedes(b[0]));
        assert(!a[i].precedes(a[0]));
        assert(same_rank(a[0], a[i]));
        assert(a[0] == b[0]);
        let a1 = a.remove(0);
        let b1 = b.remove(0);
        assert(a1.to_multiset() == a.to_multiset().remove(a[0]));
        assert(b1.to_multiset() == b.to_multiset().remove(b[0]));
        assert forall|x: int, y: int|
            0 <= x < a1.len() && 0 <= y < a1.len() && same_rank(
                #[trigger] a1[x],
                #[trigger] a1[y],
            ) implies a1[x] == a1[y] by {
            assert(a1[x] == a[x + 1] && a1[y] == a[y + 1]);
        }
        assert forall|x: int, y: int| 0 <= x < y < a1.len() implies !(
        #[trigger] a1[y]).precedes(#[trigger] a1[x]) by {
            assert(a1[x] == a[x + 1] && a1[y] == a[y + 1]);
        }
        assert forall|x: int, y: int| 0 <= x < y < b1.len() implies !(
        #[trigger] b1[y]).precedes(#[trigger] b1[x]) by {
            assert(b1[x] == b[x + 1] && b1[y] == b[y + 1]);
        }
        law_order_unique(a1, b1);
        assert(a =~= seq![a[0]] + a1);
        assert(b =~= seq![b[0]] + b1);
    } else {
        assert(a =~= b);
    }
}

/// A sorted list holds what the list held, as often as it did, and no value of it
/// ranks before an earlier one.
pub proof fn law_sorting_loses_nothing<T: Rank>(r: Seq<T>, s: Seq<T>, x: T, i: int, j: int)
    requires
        is_sorted(r, s),
    ensures
        r.len() == s.len(),
        r.contains(x) <==> s.contains(x),
        0 <= i < j < r.len() ==> !r[j].precedes(r[i]),
{
    r.to_multiset_ensures();
    s.to_multiset_ensures();
    assert(r.to_multiset().count(x) == s.to_multiset().count(x));
    assert(r.to_multiset().contains(x) <==> s.to_multiset().contains(x));
}

} // verus!
