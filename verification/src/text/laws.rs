//! What the text primitives do, told by how they relate to each other.

use crate::text::{
    all_digits, contains_text, decimal, decimal_int, decimal_value, find_char, has_word, is_space, join,
    occurs_at, parse_u32, same_ignoring_case, split_on, strip_end, strip_start, trim, trim_end,
    trim_start, upper, word_at,
};
use vstd::prelude::*;

verus! {

// ---------------------------------------------------------------------------
// White space
// ---------------------------------------------------------------------------

/// Blanks, tabs and line ends are white space; what is printed in ASCII is not.
pub proof fn law_white_space(c: char)
    ensures
        c == ' ' || c == '\t' || c == '\n' || c == '\r' ==> is_space(c),
        '!' <= c <= '~' ==> !is_space(c),
{
}

/// Whether a text is white space throughout.
pub open spec fn is_blank(s: Seq<char>) -> bool {
    forall|i: int| 0 <= i < s.len() ==> is_space(#[trigger] s[i])
}

proof fn lemma_trim_start(a: Seq<char>, s: Seq<char>)
    requires
        is_blank(a),
        s.len() > 0 ==> !is_space(s[0]),
    ensures
        trim_start(a + s) == s,
    decreases a.len(),
{
    if a.len() == 0 {
        assert(a + s =~= s);
    } else {
        assert((a + s)[0] == a[0]);
        assert((a + s).skip(1) =~= a.skip(1) + s);
        lemma_trim_start(a.skip(1), s);
    }
}

proof fn lemma_trim_end(s: Seq<char>, b: Seq<char>)
    requires
        is_blank(b),
        s.len() > 0 ==> !is_space(s.last()),
    ensures
        trim_end(s + b) == s,
    decreases b.len(),
{
    if b.len() == 0 {
        assert(s + b =~= s);
    } else {
        assert((s + b).last() == b.last());
        assert((s + b).drop_last() =~= s + b.drop_last());
        lemma_trim_end(s, b.drop_last());
    }
}

/// Trimming takes the white space off both ends, all of it and nothing else.
pub proof fn law_trim_takes_white_space_off(a: Seq<char>, s: Seq<char>, b: Seq<char>)
    requires
        is_blank(a),
        is_blank(b),
        s.len() > 0 ==> !is_space(s[0]) && !is_space(s.last()),
    ensures
        trim(a + s + b) == s,
{
    if s.len() > 0 {
        assert((s + b)[0] == s[0]);
        lemma_trim_start(a, s + b);
        assert(a + s + b =~= a + (s + b));
        lemma_trim_end(s, b);
    } else {
        let all = a + s + b;
        assert(is_blank(all));
        lemma_trim_start(all, Seq::empty());
        assert(all + Seq::<char>::empty() =~= all);
        assert(s =~= Seq::empty());
    }
}

/// Nothing is left of a text exactly when it is white space throughout.
pub proof fn law_blank_trims_to_nothing(s: Seq<char>)
    ensures
        trim(s).len() == 0 <==> is_blank(s),
{
    if is_blank(s) {
        law_trim_takes_white_space_off(s, Seq::empty(), Seq::empty());
        assert(s + Seq::<char>::empty() + Seq::<char>::empty() =~= s);
    }
    if trim(s).len() == 0 {
        lemma_trim_start_leaves(s);
        lemma_trim_end_leaves(trim_start(s));
    }
}

proof fn lemma_trim_start_leaves(s: Seq<char>)
    ensures
        trim_start(s).len() > 0 ==> !is_space(trim_start(s)[0]),
        trim_start(s).len() == 0 ==> is_blank(s),
    decreases s.len(),
{
    if s.len() > 0 && is_space(s[0]) {
        let rest = s.skip(1);
        lemma_trim_start_leaves(rest);
        if trim_start(s).len() == 0 {
            assert forall|i: int| 0 <= i < s.len() implies is_space(#[trigger] s[i]) by {
                if i > 0 {
                    assert(rest[i - 1] == s[i]);
                }
            }
        }
    }
}

proof fn lemma_trim_end_leaves(s: Seq<char>)
    ensures
        s.len() > 0 && !is_space(s[0]) ==> trim_end(s).len() > 0,
    decreases s.len(),
{
    if s.len() > 0 && is_space(s.last()) {
        let rest = s.drop_last();
        lemma_trim_end_leaves(rest);
        if rest.len() > 0 {
            assert(rest[0] == s[0]);
        }
    }
}

// ---------------------------------------------------------------------------
// Numbers
// ---------------------------------------------------------------------------

/// The digits of a number are those of its tens with its ones behind, and a
/// number is read back from its digits.
pub proof fn law_decimal_is_read_back(n: nat, d: nat)
    requires
        d < 10,
    ensures
        n > 0 ==> decimal(10 * n + d) == decimal(n) + decimal(d),
        decimal(d) == seq![seq!['0', '1', '2', '3', '4', '5', '6', '7', '8', '9'][d as int]],
        decimal(n).len() > 0,
        forall|i: int| 0 <= i < decimal(n).len() ==> '0' <= #[trigger] decimal(n)[i] <= '9',
        decimal_value(decimal(n)) == n,
        n <= u32::MAX ==> parse_u32(decimal(n)) == Some(n as u32),
        n > u32::MAX ==> parse_u32(decimal(n)) is None,
    decreases n,
{
    let m = 10 * n + d;
    if n > 0 {
        assert(m / 10 == n && m % 10 == d);
        assert(decimal(m) =~= decimal(n) + decimal(d));
    }
    assert(decimal(d) =~= seq![
        seq!['0', '1', '2', '3', '4', '5', '6', '7', '8', '9'][d as int],
    ]);
    if n >= 10 {
        law_decimal_is_read_back(n / 10, n % 10);
        assert(decimal(n).drop_last() =~= decimal(n / 10));
    } else {
        assert(decimal(n).drop_last() =~= Seq::empty());
        assert(decimal_value(decimal(n).drop_last()) == 0);
    }
    assert(all_digits(decimal(n)));
}

/// A negative number is written with a sign before its amount.
pub proof fn law_sign_before_the_amount(n: nat)
    ensures
        decimal_int(n as int) == decimal(n),
        n > 0 ==> decimal_int(-n) == seq!['-'] + decimal(n),
{
}

/// Nothing but a run of digits is read as a number.
pub proof fn law_only_digits_are_read(s: Seq<char>)
    ensures
        parse_u32(s) is Some ==> s.len() > 0 && forall|i: int|
            0 <= i < s.len() ==> '0' <= #[trigger] s[i] <= '9',
{
}

// ---------------------------------------------------------------------------
// Splitting and joining
// ---------------------------------------------------------------------------

/// Joined parts are the parts of both sides with the separator between them.
pub proof fn law_join_of_lists(a: Seq<Seq<char>>, b: Seq<Seq<char>>, sep: Seq<char>)
    ensures
        a.len() > 0 && b.len() > 0 ==> join(a + b, sep) == join(a, sep) + sep + join(b, sep),
        join(Seq::empty(), sep) == Seq::<char>::empty(),
        a.len() == 1 ==> join(a, sep) == a[0],
    decreases b.len(),
{
    if a.len() > 0 && b.len() > 0 {
        assert((a + b).drop_last() =~= a + b.drop_last());
        assert((a + b).last() == b.last());
        if b.len() == 1 {
            assert(a + b.drop_last() =~= a);
        } else {
            law_join_of_lists(a, b.drop_last(), sep);
            assert(join(a + b, sep) =~= join(a, sep) + sep + join(b, sep));
        }
    }
}

/// Pieces joined by the separator that they were split at are the text again,
/// and no piece holds it.
pub proof fn law_split_is_undone_by_join(s: Seq<char>, c: char)
    ensures
        split_on(s, c).len() > 0,
        join(split_on(s, c), seq![c]) == s,
        forall|i: int| 0 <= i < split_on(s, c).len() ==> !(#[trigger] split_on(s, c)[i]).contains(c),
    decreases s.len(),
{
    let all = split_on(s, c);
    if s.len() > 0 {
        let rest = split_on(s.drop_last(), c);
        law_split_is_undone_by_join(s.drop_last(), c);
        if s.last() == c {
            assert(all.drop_last() =~= rest);
            assert(join(all, seq![c]) =~= s);
            assert forall|i: int| 0 <= i < all.len() implies !(#[trigger] all[i]).contains(c) by {
                if i < rest.len() {
                    assert(all[i] == rest[i]);
                }
            }
        } else {
            let last = rest.last().push(s.last());
            assert(all.drop_last() =~= rest.drop_last());
            assert(all.last() == last);
            assert(join(all, seq![c]) =~= join(rest, seq![c]).push(s.last()));
            assert(join(all, seq![c]) =~= s);
            assert forall|i: int| 0 <= i < all.len() implies !(#[trigger] all[i]).contains(c) by {
                if i < rest.len() - 1 {
                    assert(all[i] == rest[i]);
                } else {
                    assert(!rest[rest.len() - 1].contains(c));
                    if last.contains(c) {
                        let k = choose|k: int| 0 <= k < last.len() && last[k] == c;
                        assert(rest.last()[k] == c);
                    }
                }
            }
        }
    } else {
        assert(s =~= Seq::empty());
    }
}

/// The place of a character is the first that holds it.
pub proof fn law_first_place_of_a_character(s: Seq<char>, c: char)
    ensures
        match find_char(s, c) {
            Some(i) => 0 <= i < s.len() && s[i] == c && forall|k: int|
                0 <= k < i ==> #[trigger] s[k] != c,
            None => forall|k: int| 0 <= k < s.len() ==> #[trigger] s[k] != c,
        },
    decreases s.len(),
{
    if s.len() > 0 && s[0] != c {
        let rest = s.skip(1);
        law_first_place_of_a_character(rest, c);
        match find_char(rest, c) {
            Some(i) => {
                assert(rest[i] == s[i + 1]);
                assert forall|k: int| 0 <= k < i + 1 implies #[trigger] s[k] != c by {
                    if k > 0 {
                        assert(rest[k - 1] == s[k]);
                    }
                }
            },
            None => {
                assert forall|k: int| 0 <= k < s.len() implies #[trigger] s[k] != c by {
                    if k > 0 {
                        assert(rest[k - 1] == s[k]);
                    }
                }
            },
        }
    }
}

/// Stripping takes one character off an end, as often as it stands there.
pub proof fn law_strip_takes_a_run_off(n: nat, s: Seq<char>, c: char)
    ensures
        s.len() == 0 || s[0] != c ==> strip_start(Seq::new(n, |i: int| c) + s, c) == s,
        s.len() == 0 || s.last() != c ==> strip_end(s + Seq::new(n, |i: int| c), c) == s,
    decreases n,
{
    let run = Seq::new(n, |i: int| c);
    if n == 0 {
        assert(run + s =~= s);
        assert(s + run =~= s);
    } else {
        let less = Seq::new((n - 1) as nat, |i: int| c);
        law_strip_takes_a_run_off((n - 1) as nat, s, c);
        assert((run + s)[0] == c);
        assert((run + s).skip(1) =~= less + s);
        assert((s + run).last() == c);
        assert((s + run).drop_last() =~= s + less);
    }
}

/// Case is told apart nowhere but in ASCII letters, and there not at all.
pub proof fn law_case_of_letters(a: Seq<char>, b: Seq<char>)
    ensures
        same_ignoring_case(a, a),
        same_ignoring_case(a, b) == same_ignoring_case(b, a),
        same_ignoring_case(a, b) ==> a.len() == b.len(),
        same_ignoring_case(a, b) <==> a.len() == b.len() && forall|i: int|
            0 <= i < a.len() ==> {
                ||| (#[trigger] a[i]) == b[i]
                ||| 'a' <= a[i] <= 'z' && b[i] as int == a[i] as int - 32
                ||| 'a' <= b[i] <= 'z' && a[i] as int == b[i] as int - 32
            },
{
    if same_ignoring_case(a, b) {
        assert forall|i: int| 0 <= i < a.len() implies {
            ||| (#[trigger] a[i]) == b[i]
            ||| 'a' <= a[i] <= 'z' && b[i] as int == a[i] as int - 32
            ||| 'a' <= b[i] <= 'z' && a[i] as int == b[i] as int - 32
        } by {
            assert(upper(a[i]) == upper(b[i]));
        }
    }
}

// ---------------------------------------------------------------------------
// Words
// ---------------------------------------------------------------------------

/// Whether a text has no white space.
pub open spec fn is_solid(s: Seq<char>) -> bool {
    forall|i: int| 0 <= i < s.len() ==> !is_space(#[trigger] s[i])
}

/// A text without white space is one word, and has no other.
pub proof fn law_one_word(s: Seq<char>, word: Seq<char>)
    requires
        is_solid(s),
        s.len() > 0,
    ensures
        has_word(s, word) <==> word == s,
{
    if word == s {
        assert(s.subrange(0, s.len() as int) =~= s);
        assert(occurs_at(s, s, 0));
        assert(word_at(s, s, 0));
    }
    if has_word(s, word) {
        let at = choose|at: int| #[trigger] word_at(s, word, at);
        assert(at == 0);
        assert(at + word.len() == s.len());
        assert(s.subrange(0, s.len() as int) =~= s);
    }
}

/// The words of two texts with white space between them are those of the one
/// and those of the other.
pub proof fn law_words_on_both_sides(
    a: Seq<char>,
    space: char,
    b: Seq<char>,
    word: Seq<char>,
)
    requires
        is_space(space),
    ensures
        has_word(a + seq![space] + b, word) <==> has_word(a, word) || has_word(b, word),
{
    let s = a + seq![space] + b;
    let n = a.len() + 1;
    if has_word(a, word) {
        let at = choose|at: int| #[trigger] word_at(a, word, at);
        let end = at + word.len();
        assert(s.subrange(at, end) =~= a.subrange(at, end));
        assert forall|k: int| at <= k < end implies !is_space(#[trigger] s[k]) by {
            assert(s[k] == a[k]);
        }
        assert(at > 0 ==> s[at - 1] == a[at - 1]);
        assert(end < a.len() ==> s[end] == a[end]);
        assert(end == a.len() ==> s[end] == space);
        assert(word_at(s, word, at));
    }
    if has_word(b, word) {
        let at = choose|at: int| #[trigger] word_at(b, word, at);
        let end = at + word.len();
        assert(s.subrange(n + at, n + end) =~= b.subrange(at, end));
        assert forall|k: int| n + at <= k < n + end implies !is_space(#[trigger] s[k]) by {
            assert(s[k] == b[k - n]);
        }
        assert(at > 0 ==> s[n + at - 1] == b[at - 1]);
        assert(at == 0 ==> s[n + at - 1] == space);
        assert(end < b.len() ==> s[n + end] == b[end]);
        assert(word_at(s, word, n + at));
    }
    if has_word(s, word) {
        let at = choose|at: int| #[trigger] word_at(s, word, at);
        let end = at + word.len();
        assert(s[a.len() as int] == space);
        if at <= a.len() {
            assert(at < a.len());
            assert(end <= a.len());
            assert(a.subrange(at, end) =~= s.subrange(at, end));
            assert forall|k: int| at <= k < end implies !is_space(#[trigger] a[k]) by {
                assert(s[k] == a[k]);
            }
            assert(at > 0 ==> s[at - 1] == a[at - 1]);
            assert(end < a.len() ==> s[end] == a[end]);
            assert(word_at(a, word, at));
        } else {
            let p = at - n;
            assert(b.subrange(p, p + word.len()) =~= s.subrange(at, end));
            assert forall|k: int| p <= k < p + word.len() implies !is_space(#[trigger] b[k]) by {
                assert(s[n + k] == b[k]);
            }
            assert(p > 0 ==> s[at - 1] == b[p - 1]);
            assert(p + word.len() < b.len() ==> s[end] == b[p + word.len()]);
            assert(word_at(b, word, p));
        }
    }
}

/// What follows the last separator is the last piece, and what stands before it is
/// split as if it stood alone; a text without separators is one piece.
pub proof fn law_split_at_the_last_separator(a: Seq<char>, b: Seq<char>, c: char)
    requires
        forall|i: int| 0 <= i < b.len() ==> #[trigger] b[i] != c,
    ensures
        split_on(a + seq![c] + b, c) == split_on(a, c).push(b),
        split_on(b, c) == seq![b],
        split_on(a, c).len() > 0,
    decreases b.len(),
{
    lemma_split_not_empty(a, c);
    let s = a + seq![c] + b;
    if b.len() == 0 {
        assert(s.last() == c);
        assert(s.drop_last() =~= a);
        assert(b =~= Seq::<char>::empty());
        assert(split_on(b, c) =~= seq![b]);
    } else {
        let d = b.drop_last();
        assert forall|i: int| 0 <= i < d.len() implies #[trigger] d[i] != c by {
            assert(d[i] == b[i]);
        }
        law_split_at_the_last_separator(a, d, c);
        assert(s.last() == b.last());
        assert(b[b.len() - 1] != c);
        assert(s.drop_last() =~= a + seq![c] + d);
        assert(d.push(b.last()) =~= b);
        let rest = split_on(a, c).push(d);
        assert(rest.drop_last() =~= split_on(a, c));
        assert(split_on(s, c) =~= split_on(a, c).push(b));
        assert(seq![d].drop_last() =~= Seq::<Seq<char>>::empty());
        assert(split_on(b, c) =~= seq![b]);
    }
}

proof fn lemma_split_not_empty(s: Seq<char>, c: char)
    ensures
        split_on(s, c).len() > 0,
    decreases s.len(),
{
    if s.len() > 0 {
        lemma_split_not_empty(s.drop_last(), c);
    }
}

/// A text holds another exactly when it is made of something, the other, and
/// something more.
pub proof fn law_text_inside_a_text(a: Seq<char>, needle: Seq<char>, b: Seq<char>, s: Seq<char>)
    ensures
        contains_text(a + needle + b, needle),
        contains_text(s, needle) ==> exists|x: Seq<char>, y: Seq<char>| s == #[trigger] (x + needle
            + y),
{
    let whole = a + needle + b;
    assert(whole.subrange(a.len() as int, (a.len() + needle.len()) as int) =~= needle);
    assert(occurs_at(whole, needle, a.len() as int));
    if contains_text(s, needle) {
        let at = choose|at: int| #[trigger] occurs_at(s, needle, at);
        let x = s.take(at);
        let y = s.skip(at + needle.len());
        assert(s =~= x + needle + y);
    }
}

} // verus!
