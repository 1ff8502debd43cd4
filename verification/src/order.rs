//! Lexicographic orders on texts, on lists of texts and on byte paths.

use crate::text::texts;
use vstd::prelude::*;

verus! {

/// Outcome of comparing two values of a total order.
#[derive(Clone, Copy, PartialEq, Eq, Structural, Debug)]
pub enum Order {
    /// The first value comes first.
    Before,
    /// The values are equal.
    Same,
    /// The second value comes first.
    After,
}

/// `lt` is irreflexive and transitive and orders any two distinct values.
pub open spec fn strict_total<A>(lt: spec_fn(A, A) -> bool) -> bool {
    &&& forall|a: A| !#[trigger] lt(a, a)
    &&& forall|a: A, b: A, c: A| #[trigger] lt(a, b) && #[trigger] lt(b, c) ==> lt(a, c)
    &&& forall|a: A, b: A| #[trigger] lt(a, b) || a == b || lt(b, a)
}

/// Lexicographic order on sequences over the order `lt` on their elements.
pub open spec fn lex<A>(lt: spec_fn(A, A) -> bool, a: Seq<A>, b: Seq<A>) -> bool
    decreases a.len(),
{
    if b.len() == 0 {
        false
    } else if a.len() == 0 {
        true
    } else if a[0] == b[0] {
        lex(lt, a.skip(1), b.skip(1))
    } else {
        lt(a[0], b[0])
    }
}

/// Order of characters by code point.
pub open spec fn char_lt() -> spec_fn(char, char) -> bool {
    |a: char, b: char| a < b
}

/// Order of bytes.
pub open spec fn byte_lt() -> spec_fn(u8, u8) -> bool {
    |a: u8, b: u8| a < b
}

/// Order of texts: by code point, which is also their order by UTF-8 bytes.
pub open spec fn text_lt(a: Seq<char>, b: Seq<char>) -> bool {
    lex(char_lt(), a, b)
}

/// Order of lists of texts.
pub open spec fn key_lt(a: Seq<Seq<char>>, b: Seq<Seq<char>>) -> bool {
    lex(|x: Seq<char>, y: Seq<char>| text_lt(x, y), a, b)
}

/// Order of byte strings.
pub open spec fn bytes_lt(a: Seq<u8>, b: Seq<u8>) -> bool {
    lex(byte_lt(), a, b)
}

/// Order of paths given by the bytes of their components.
pub open spec fn path_lt(a: Seq<Seq<u8>>, b: Seq<Seq<u8>>) -> bool {
    lex(|x: Seq<u8>, y: Seq<u8>| bytes_lt(x, y), a, b)
}

// ---------------------------------------------------------------------------
// Lemmas
// ---------------------------------------------------------------------------

proof fn lemma_lex_irreflexive<A>(lt: spec_fn(A, A) -> bool, a: Seq<A>)
    ensures
        !lex(lt, a, a),
    decreases a.len(),
{
    if a.len() > 0 {
        lemma_lex_irreflexive(lt, a.skip(1));
    }
}

proof fn lemma_lex_transitive<A>(lt: spec_fn(A, A) -> bool, a: Seq<A>, b: Seq<A>, c: Seq<A>)
    requires
        strict_total(lt),
        lex(lt, a, b),
        lex(lt, b, c),
    ensures
        lex(lt, a, c),
    decreases a.len(),
{
    if a.len() > 0 && a[0] == b[0] && b[0] == c[0] {
        lemma_lex_transitive(lt, a.skip(1), b.skip(1), c.skip(1));
    } else if a.len() > 0 && a[0] != b[0] && b[0] != c[0] {
        assert(lt(a[0], b[0]) && lt(b[0], c[0]));
        assert(lt(a[0], c[0]));
        assert(!lt(a[0], a[0]));
    }
}

proof fn lemma_lex_total<A>(lt: spec_fn(A, A) -> bool, a: Seq<A>, b: Seq<A>)
    requires
        strict_total(lt),
    ensures
        lex(lt, a, b) || a == b || lex(lt, b, a),
    decreases a.len(),
{
    if a.len() == 0 || b.len() == 0 {
        assert(a.len() == 0 && b.len() == 0 ==> a =~= b);
    } else if a[0] == b[0] {
        lemma_lex_total(lt, a.skip(1), b.skip(1));
        if a.skip(1) == b.skip(1) {
            assert(a =~= seq![a[0]] + a.skip(1));
            assert(b =~= seq![b[0]] + b.skip(1));
        }
    } else {
        assert(lt(a[0], b[0]) || a[0] == b[0] || lt(b[0], a[0]));
    }
}

/// The lexicographic order over a strict total order is one itself.
pub proof fn lemma_lex_strict_total<A>(lt: spec_fn(A, A) -> bool, ord: spec_fn(Seq<A>, Seq<A>) -> bool)
    requires
        strict_total(lt),
        forall|a: Seq<A>, b: Seq<A>| #[trigger] ord(a, b) == lex(lt, a, b),
    ensures
        strict_total(ord),
{
    assert forall|a: Seq<A>| !#[trigger] ord(a, a) by {
        lemma_lex_irreflexive(lt, a);
    }
    assert forall|a: Seq<A>, b: Seq<A>, c: Seq<A>| #[trigger]
        ord(a, b) && #[trigger] ord(b, c) implies ord(a, c) by {
        lemma_lex_transitive(lt, a, b, c);
    }
    assert forall|a: Seq<A>, b: Seq<A>| #[trigger] ord(a, b) || a == b || ord(b, a) by {
        lemma_lex_total(lt, a, b);
        assert(ord(b, a) == lex(lt, b, a));
    }
}

/// Texts are totally ordered.
pub proof fn lemma_text_order()
    ensures
        strict_total(|a: Seq<char>, b: Seq<char>| text_lt(a, b)),
{
    assert(strict_total(char_lt()));
    lemma_lex_strict_total(char_lt(), |a: Seq<char>, b: Seq<char>| text_lt(a, b));
}

/// Lists of texts are totally ordered.
pub proof fn lemma_key_order()
    ensures
        strict_total(|a: Seq<Seq<char>>, b: Seq<Seq<char>>| key_lt(a, b)),
{
    lemma_text_order();
    lemma_lex_strict_total(
        |x: Seq<char>, y: Seq<char>| text_lt(x, y),
        |a: Seq<Seq<char>>, b: Seq<Seq<char>>| key_lt(a, b),
    );
}

/// Byte paths are totally ordered.
pub proof fn lemma_path_order()
    ensures
        strict_total(|a: Seq<u8>, b: Seq<u8>| bytes_lt(a, b)),
        strict_total(|a: Seq<Seq<u8>>, b: Seq<Seq<u8>>| path_lt(a, b)),
{
    assert(strict_total(byte_lt()));
    lemma_lex_strict_total(byte_lt(), |a: Seq<u8>, b: Seq<u8>| bytes_lt(a, b));
    lemma_lex_strict_total(
        |x: Seq<u8>, y: Seq<u8>| bytes_lt(x, y),
        |a: Seq<Seq<u8>>, b: Seq<Seq<u8>>| path_lt(a, b),
    );
}

// ---------------------------------------------------------------------------
// Comparing
// ---------------------------------------------------------------------------

/// Whether `r` says how `a` and `b` stand in the order `lt`.
pub open spec fn ordered_as<A>(r: Order, lt: spec_fn(A, A) -> bool, a: A, b: A) -> bool {
    match r {
        Order::Before => lt(a, b) && a != b && !lt(b, a),
        Order::Same => a == b && !lt(a, b) && !lt(b, a),
        Order::After => lt(b, a) && a != b && !lt(a, b),
    }
}

/// Two sequences with a common prefix compare as their first difference does.
proof fn lemma_lex_prefix<A>(lt: spec_fn(A, A) -> bool, a: Seq<A>, b: Seq<A>, n: int)
    requires
        0 <= n <= a.len(),
        n <= b.len(),
        a.take(n) == b.take(n),
    ensures
        lex(lt, a, b) == lex(lt, a.skip(n), b.skip(n)),
    decreases n,
{
    if n == 0 {
        assert(a.skip(0) =~= a);
        assert(b.skip(0) =~= b);
    } else {
        assert(a[0] == a.take(n)[0] && b[0] == b.take(n)[0]);
        assert(a.skip(1).take(n - 1) =~= a.take(n).skip(1));
        assert(b.skip(1).take(n - 1) =~= b.take(n).skip(1));
        lemma_lex_prefix(lt, a.skip(1), b.skip(1), n - 1);
        assert(a.skip(1).skip(n - 1) =~= a.skip(n));
        assert(b.skip(1).skip(n - 1) =~= b.skip(n));
    }
}

/// Compare two texts.
pub fn compare(a: &str, b: &str) -> (r: Order)
    ensures
        ordered_as(r, |x: Seq<char>, y: Seq<char>| text_lt(x, y), a@, b@),
{
    let x = crate::text::chars_of(a);
    let y = crate::text::chars_of(b);
    proof {
        lemma_text_order();
    }
    let mut i: usize = 0;
    while i < x.len() && i < y.len()
        invariant
            i <= x@.len(),
            i <= y@.len(),
            x@ == a@,
            y@ == b@,
            x@.take(i as int) == y@.take(i as int),
            strict_total(|x: Seq<char>, y: Seq<char>| text_lt(x, y)),
        decreases x.len() - i,
    {
        proof {
            lemma_lex_prefix(char_lt(), x@, y@, i as int);
            lemma_lex_prefix(char_lt(), y@, x@, i as int);
        }
        if x[i] < y[i] {
            return Order::Before;
        }
        if y[i] < x[i] {
            return Order::After;
        }
        assert(x@.take(i + 1) =~= x@.take(i as int).push(x@[i as int]));
        assert(y@.take(i + 1) =~= y@.take(i as int).push(y@[i as int]));
        i += 1;
    }
    proof {
        lemma_lex_prefix(char_lt(), x@, y@, i as int);
        lemma_lex_prefix(char_lt(), y@, x@, i as int);
    }
    if i < y.len() {
        Order::Before
    } else if i < x.len() {
        Order::After
    } else {
        assert(x@.take(i as int) =~= x@);
        assert(y@.take(i as int) =~= y@);
        Order::Same
    }
}

/// Compare two byte strings.
pub fn compare_bytes(x: &Vec<u8>, y: &Vec<u8>) -> (r: Order)
    ensures
        ordered_as(r, |a: Seq<u8>, b: Seq<u8>| bytes_lt(a, b), x@, y@),
{
    proof {
        lemma_path_order();
    }
    let mut i: usize = 0;
    while i < x.len() && i < y.len()
        invariant
            i <= x@.len(),
            i <= y@.len(),
            x@.take(i as int) == y@.take(i as int),
            strict_total(|a: Seq<u8>, b: Seq<u8>| bytes_lt(a, b)),
        decreases x.len() - i,
    {
        proof {
            lemma_lex_prefix(byte_lt(), x@, y@, i as int);
            lemma_lex_prefix(byte_lt(), y@, x@, i as int);
        }
        if x[i] < y[i] {
            return Order::Before;
        }
        if y[i] < x[i] {
            return Order::After;
        }
        assert(x@.take(i + 1) =~= x@.take(i as int).push(x@[i as int]));
        assert(y@.take(i + 1) =~= y@.take(i as int).push(y@[i as int]));
        i += 1;
    }
    proof {
        lemma_lex_prefix(byte_lt(), x@, y@, i as int);
        lemma_lex_prefix(byte_lt(), y@, x@, i as int);
    }
    if i < y.len() {
        Order::Before
    } else if i < x.len() {
        Order::After
    } else {
        assert(x@.take(i as int) =~= x@);
        assert(y@.take(i as int) =~= y@);
        Order::Same
    }
}

/// The bytes of each component of a path.
pub open spec fn components_of(p: Seq<Vec<u8>>) -> Seq<Seq<u8>> {
    p.map_values(|c: Vec<u8>| c@)
}

/// Compare two paths by the bytes of their components.
pub fn compare_paths(x: &Vec<Vec<u8>>, y: &Vec<Vec<u8>>) -> (r: Order)
    ensures
        ordered_as(
            r,
            |a: Seq<Seq<u8>>, b: Seq<Seq<u8>>| path_lt(a, b),
            components_of(x@),
            components_of(y@),
        ),
{
    let ghost lt = |a: Seq<u8>, b: Seq<u8>| bytes_lt(a, b);
    let ghost a = components_of(x@);
    let ghost b = components_of(y@);
    proof {
        lemma_path_order();
    }
    let mut i: usize = 0;
    while i < x.len() && i < y.len()
        invariant
            i <= x@.len(),
            i <= y@.len(),
            a == components_of(x@),
            b == components_of(y@),
            a.take(i as int) == b.take(i as int),
            lt == (|a: Seq<u8>, b: Seq<u8>| bytes_lt(a, b)),
            strict_total(|a: Seq<Seq<u8>>, b: Seq<Seq<u8>>| path_lt(a, b)),
        decreases x.len() - i,
    {
        proof {
            lemma_lex_prefix(lt, a, b, i as int);
            lemma_lex_prefix(lt, b, a, i as int);
        }
        match compare_bytes(&x[i], &y[i]) {
            Order::Before => {
                return Order::Before;
            },
            Order::After => {
                return Order::After;
            },
            Order::Same => {},
        }
        assert(a.take(i + 1) =~= a.take(i as int).push(a[i as int]));
        assert(b.take(i + 1) =~= b.take(i as int).push(b[i as int]));
        i += 1;
    }
    proof {
        lemma_lex_prefix(lt, a, b, i as int);
        lemma_lex_prefix(lt, b, a, i as int);
    }
    if i < y.len() {
        Order::Before
    } else if i < x.len() {
        Order::After
    } else {
        assert(a.take(i as int) =~= a);
        assert(b.take(i as int) =~= b);
        Order::Same
    }
}

/// Compare two pairs of texts, the first components first.
pub fn compare_pairs(a0: &str, a1: &str, b0: &str, b1: &str) -> (r: Order)
    ensures
        ordered_as(
            r,
            |x: Seq<Seq<char>>, y: Seq<Seq<char>>| key_lt(x, y),
            seq![a0@, a1@],
            seq![b0@, b1@],
        ),
{
    let ghost lt = |x: Seq<char>, y: Seq<char>| text_lt(x, y);
    let ghost a = seq![a0@, a1@];
    let ghost b = seq![b0@, b1@];
    proof {
        lemma_key_order();
        lemma_text_order();
        reveal_with_fuel(lex, 3);
        assert(a.skip(1) =~= seq![a1@]);
        assert(b.skip(1) =~= seq![b1@]);
        assert(seq![a1@].skip(1) =~= Seq::<Seq<char>>::empty());
        assert(seq![b1@].skip(1) =~= Seq::<Seq<char>>::empty());
    }
    match compare(a0, b0) {
        Order::Before => {
            assert(a[0] != b[0]);
            Order::Before
        },
        Order::After => {
            assert(a[0] != b[0]);
            Order::After
        },
        Order::Same => match compare(a1, b1) {
            Order::Before => {
                assert(a[1] != b[1]);
                Order::Before
            },
            Order::After => {
                assert(a[1] != b[1]);
                Order::After
            },
            Order::Same => {
                assert(a =~= b);
                Order::Same
            },
        },
    }
}

// ---------------------------------------------------------------------------
// Sorted sets of texts
// ---------------------------------------------------------------------------

/// Strictly ascending texts: a set of texts in its canonical order.
pub open spec fn ascending(s: Seq<Seq<char>>) -> bool {
    forall|i: int, j: int| 0 <= i < j < s.len() ==> #[trigger] text_lt(s[i], s[j])
}

/// An ascending list is determined by the texts that it holds.
pub proof fn lemma_ascending_unique(a: Seq<Seq<char>>, b: Seq<Seq<char>>)
    requires
        ascending(a),
        ascending(b),
        forall|t: Seq<char>| a.contains(t) <==> b.contains(t),
    ensures
        a == b,
    decreases a.len(),
{
    lemma_text_order();
    let lt = |x: Seq<char>, y: Seq<char>| text_lt(x, y);
    assert(strict_total(lt));
    assert forall|x: Seq<char>, y: Seq<char>| text_lt(x, y) implies !text_lt(y, x) by {
        assert(lt(x, y) && !lt(x, x));
        if lt(y, x) {
            assert(lt(x, x));
        }
    }
    if a.len() == 0 {
        if b.len() > 0 {
            assert(b.contains(b[0]));
        }
        assert(a =~= b);
    } else {
        assert(a.contains(a[0]));
        let k = choose|k: int| 0 <= k < b.len() && b[k] == a[0];
        assert(b.contains(b[0]));
        let m = choose|m: int| 0 <= m < a.len() && a[m] == b[0];
        if k > 0 {
            assert(text_lt(b[0], b[k]));
            assert(m > 0 ==> text_lt(a[0], a[m]));
            assert(!lt(a[0], a[0]));
        }
        assert(a[0] == b[0]);
        let a1 = a.skip(1);
        let b1 = b.skip(1);
        assert forall|i: int, j: int| 0 <= i < j < a1.len() implies #[trigger] text_lt(
            a1[i],
            a1[j],
        ) by {
            assert(text_lt(a[i + 1], a[j + 1]));
        }
        assert forall|i: int, j: int| 0 <= i < j < b1.len() implies #[trigger] text_lt(
            b1[i],
            b1[j],
        ) by {
            assert(text_lt(b[i + 1], b[j + 1]));
        }
        assert forall|t: Seq<char>| a1.contains(t) <==> b1.contains(t) by {
            if a1.contains(t) {
                let i = choose|i: int| 0 <= i < a1.len() && a1[i] == t;
                assert(a[i + 1] == t);
                assert(text_lt(a[0], a[i + 1]));
                assert(b.contains(t));
                let j = choose|j: int| 0 <= j < b.len() && b[j] == t;
                assert(!lt(a[0], a[0]));
                assert(j > 0);
                assert(b1[j - 1] == t);
            }
            if b1.contains(t) {
                let i = choose|i: int| 0 <= i < b1.len() && b1[i] == t;
                assert(b[i + 1] == t);
                assert(text_lt(b[0], b[i + 1]));
                assert(a.contains(t));
                let j = choose|j: int| 0 <= j < a.len() && a[j] == t;
                assert(!lt(a[0], a[0]));
                assert(j > 0);
                assert(a1[j - 1] == t);
            }
        }
        lemma_ascending_unique(a1, b1);
        assert(a =~= seq![a[0]] + a1);
        assert(b =~= seq![b[0]] + b1);
    }
}

/// Add `s` to an ascending list; says whether it was not there before.
pub fn insert_text(set: &mut Vec<String>, s: String) -> (fresh: bool)
    requires
        ascending(texts(old(set)@)),
    ensures
        ascending(texts(final(set)@)),
        fresh == !texts(old(set)@).contains(s@),
        forall|t: Seq<char>|
            texts(final(set)@).contains(t) <==> (texts(old(set)@).contains(t) || t == s@),
{
    let ghost lt = |x: Seq<char>, y: Seq<char>| text_lt(x, y);
    let ghost before = texts(set@);
    proof {
        lemma_text_order();
    }
    let mut i: usize = 0;
    while i < set.len()
        invariant
            i <= set@.len(),
            set@ == old(set)@,
            before == texts(set@),
            ascending(before),
            lt == (|x: Seq<char>, y: Seq<char>| text_lt(x, y)),
            strict_total(lt),
            forall|k: int| 0 <= k < i ==> #[trigger] text_lt(before[k], s@),
        ensures
            i < set@.len() ==> text_lt(s@, set@[i as int]@),
        decreases set.len() - i,
    {
        match compare(set[i].as_str(), s.as_str()) {
            Order::Before => {
                assert(before[i as int] == set@[i as int]@);
            },
            Order::Same => {
                assert(before[i as int] == s@);
                return false;
            },
            Order::After => {
                break;
            },
        }
        i += 1;
    }
    proof {
        assert(i < set@.len() ==> before[i as int] == set@[i as int]@);
        assert forall|k: int| i <= k < before.len() implies #[trigger] text_lt(s@, before[k]) by {
            assert(lt(s@, before[i as int]));
            if k > i {
                assert(text_lt(before[i as int], before[k]));
                assert(lt(before[i as int], before[k]));
            }
        }
        assert forall|k: int| 0 <= k < before.len() implies before[k] != s@ by {
            assert(!lt(s@, s@));
            if k < i {
                assert(text_lt(before[k], s@));
            } else {
                assert(text_lt(s@, before[k]));
            }
        }
    }
    let ghost t0 = s@;
    set.insert(i, s);
    proof {
        let after = texts(set@);
        assert(after =~= before.insert(i as int, t0));
        assert forall|a: int, b: int| 0 <= a < b < after.len() implies #[trigger] text_lt(
            after[a],
            after[b],
        ) by {
            if b < i {
                assert(text_lt(before[a], before[b]));
            } else if b == i {
                assert(text_lt(before[a], t0));
            } else if a == i {
                assert(text_lt(t0, before[b - 1]));
            } else if a < i {
                assert(text_lt(before[a], before[b - 1]));
            } else {
                assert(text_lt(before[a - 1], before[b - 1]));
            }
        }
        assert forall|t: Seq<char>| after.contains(t) <==> (before.contains(t) || t == t0) by {
            if before.contains(t) {
                let k = choose|k: int| 0 <= k < before.len() && before[k] == t;
                assert(after[if k < i { k } else { k + 1 }] == t);
            }
            if t == t0 {
                assert(after[i as int] == t);
            }
            if after.contains(t) && t != t0 {
                let k = choose|k: int| 0 <= k < after.len() && after[k] == t;
                assert(before[if k < i { k } else { k - 1 }] == t);
            }
        }
    }
    true
}

// ---------------------------------------------------------------------------
// Laws
// ---------------------------------------------------------------------------

proof fn lemma_lex_after_prefix<A>(
    lt: spec_fn(A, A) -> bool,
    p: Seq<A>,
    x: A,
    y: A,
    s: Seq<A>,
    t: Seq<A>,
)
    ensures
        x != y ==> lex(lt, p + seq![x] + s, p + seq![y] + t) == lt(x, y),
        lex(lt, p, p + seq![x] + s),
        !lex(lt, p + seq![x] + s, p),
    decreases p.len(),
{
    let a = p + seq![x] + s;
    let b = p + seq![y] + t;
    if p.len() > 0 {
        let q = p.skip(1);
        lemma_lex_after_prefix(lt, q, x, y, s, t);
        assert(a.skip(1) =~= q + seq![x] + s);
        assert(b.skip(1) =~= q + seq![y] + t);
        assert(a[0] == p[0] && b[0] == p[0]);
    } else {
        assert(a[0] == x && b[0] == y);
    }
}

/// The first character in which two texts differ decides which comes first, by its
/// code point; a text comes before every longer one that begins with it.
pub proof fn law_first_difference_decides(
    p: Seq<char>,
    x: char,
    y: char,
    s: Seq<char>,
    t: Seq<char>,
)
    ensures
        x != y ==> (text_lt(p + seq![x] + s, p + seq![y] + t) <==> x < y),
        text_lt(p, p + seq![x] + s),
        !text_lt(p + seq![x] + s, p),
{
    lemma_lex_after_prefix(char_lt(), p, x, y, s, t);
}

/// The first byte in which two names differ decides which comes first; a name comes
/// before every longer one that begins with it.
pub proof fn law_first_byte_decides(p: Seq<u8>, x: u8, y: u8, s: Seq<u8>, t: Seq<u8>)
    ensures
        x != y ==> (bytes_lt(p + seq![x] + s, p + seq![y] + t) <==> x < y),
        bytes_lt(p, p + seq![x] + s),
        !bytes_lt(p + seq![x] + s, p),
{
    lemma_lex_after_prefix(byte_lt(), p, x, y, s, t);
}

/// The first component in which two paths differ decides which comes first; a
/// directory comes before what is in it.
pub proof fn law_first_component_decides(
    p: Seq<Seq<u8>>,
    x: Seq<u8>,
    y: Seq<u8>,
    s: Seq<Seq<u8>>,
    t: Seq<Seq<u8>>,
)
    ensures
        x != y ==> (path_lt(p + seq![x] + s, p + seq![y] + t) <==> bytes_lt(x, y)),
        path_lt(p, p + seq![x] + s),
        !path_lt(p + seq![x] + s, p),
{
    lemma_lex_after_prefix(|a: Seq<u8>, b: Seq<u8>| bytes_lt(a, b), p, x, y, s, t);
}

/// Of two pairs of texts the first members decide which comes first, and the second
/// ones only where the first are equal.
pub proof fn law_first_member_decides(
    a: Seq<char>,
    b: Seq<char>,
    c: Seq<char>,
    d: Seq<char>,
)
    ensures
        a != c ==> (key_lt(seq![a, b], seq![c, d]) <==> text_lt(a, c)),
        a == c && b != d ==> (key_lt(seq![a, b], seq![c, d]) <==> text_lt(b, d)),
        a == c && b == d ==> !key_lt(seq![a, b], seq![c, d]),
{
    let lt = |x: Seq<char>, y: Seq<char>| text_lt(x, y);
    let none = Seq::<Seq<char>>::empty();
    lemma_lex_after_prefix(lt, none, a, c, seq![b], seq![d]);
    assert(none + seq![a] + seq![b] =~= seq![a, b]);
    assert(none + seq![c] + seq![d] =~= seq![c, d]);
    lemma_lex_after_prefix(lt, seq![a], b, d, none, none);
    assert(seq![a] + seq![b] + none =~= seq![a, b]);
    assert(seq![a] + seq![d] + none =~= seq![a, d]);
    lemma_lex_irreflexive(lt, seq![a, b]);
}

/// A comparison says before, same or after as the order has it, and each of them
/// exactly then.
pub proof fn law_comparison_follows_the_order(r: Order, a: Seq<char>, b: Seq<char>)
    requires
        ordered_as(r, |x: Seq<char>, y: Seq<char>| text_lt(x, y), a, b),
    ensures
        r is Before <==> text_lt(a, b),
        r is Same <==> a == b,
        r is After <==> text_lt(b, a),
{
}

} // verus!
