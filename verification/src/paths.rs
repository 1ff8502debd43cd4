//! Unix paths as texts.
//!
//! A path is read as the list of its parts: `/` for the root of an absolute
//! path, then one part for each segment. Repeated and trailing slashes do not
//! count, nor does a `.` segment unless the path begins with it.

use crate::text::laws::law_split_at_the_last_separator;
use crate::text::{chars_of, joined, own, same, split, split_on, texts};
use vstd::prelude::*;

verus! {

/// Whether `p` begins at the root.
pub open spec fn is_absolute(p: Seq<char>) -> bool {
    p.len() > 0 && p[0] == '/'
}

/// The pieces of a path that are parts of it. `lead` says that a first `.`
/// piece counts.
pub open spec fn kept(pieces: Seq<Seq<char>>, lead: bool) -> Seq<Seq<char>>
    decreases pieces.len(),
{
    if pieces.len() == 0 {
        Seq::<Seq<char>>::empty()
    } else {
        let rest = kept(pieces.drop_last(), lead);
        let last = pieces.last();
        if last.len() == 0 || (last == seq!['.'] && !(lead && pieces.len() == 1)) {
            rest
        } else {
            rest.push(last)
        }
    }
}

/// The parts of a path.
pub open spec fn parts(p: Seq<char>) -> Seq<Seq<char>> {
    if is_absolute(p) {
        seq![seq!['/']] + kept(split_on(p, '/'), false)
    } else {
        kept(split_on(p, '/'), true)
    }
}

/// Whether two paths are equal, part by part.
pub open spec fn same_path(a: Seq<char>, b: Seq<char>) -> bool {
    parts(a) == parts(b)
}

/// Whether one of the paths of a list equals `p`, part by part.
pub open spec fn holds_path(list: Seq<Seq<char>>, p: Seq<char>) -> bool {
    exists|i: int| 0 <= i < list.len() && same_path(#[trigger] list[i], p)
}

/// Whether `path` is `root` or lies below it, part by part.
pub open spec fn lies_under(path: Seq<char>, root: Seq<char>) -> bool {
    parts(root).is_prefix_of(parts(path))
}

/// Whether a segment of `p` is `.` or `..`.
pub open spec fn has_dot_segment(p: Seq<char>) -> bool {
    split_on(p, '/').contains(seq!['.']) || split_on(p, '/').contains(seq!['.', '.'])
}

/// `base` with `name` appended as a further segment; an absolute `name` takes
/// its place.
pub open spec fn joined_path(base: Seq<char>, name: Seq<char>) -> Seq<char> {
    if is_absolute(name) {
        name
    } else if base.len() == 0 || base.last() == '/' {
        base + name
    } else {
        base.push('/') + name
    }
}

/// The path with the given parts.
pub open spec fn rendered(ps: Seq<Seq<char>>) -> Seq<char> {
    if ps.len() > 0 && ps[0] == seq!['/'] {
        seq!['/'] + crate::text::join(ps.skip(1), seq!['/'])
    } else {
        crate::text::join(ps, seq!['/'])
    }
}

/// The path without its last part; the root and the empty path have none.
pub open spec fn parent_of(p: Seq<char>) -> Option<Seq<char>> {
    let ps = parts(p);
    if ps.len() == 0 || ps.last() == seq!['/'] {
        None
    } else {
        Some(rendered(ps.drop_last()))
    }
}

/// Texts of one or two characters, as sequences.
proof fn lemma_short_literals()
    ensures
        "/"@ == seq!['/'],
        "."@ == seq!['.'],
        ".."@ == seq!['.', '.'],
        ""@ == Seq::<char>::empty(),
{
    reveal_strlit("/");
    reveal_strlit(".");
    reveal_strlit("..");
    reveal_strlit("");
    assert("/"@ =~= seq!['/']);
    assert("."@ =~= seq!['.']);
    assert(".."@ =~= seq!['.', '.']);
    assert(""@ =~= Seq::<char>::empty());
}

/// Whether `p` begins at the root.
pub fn absolute(p: &str) -> (r: bool)
    ensures
        r == is_absolute(p@),
{
    let cs = chars_of(p);
    cs.len() > 0 && cs[0] == '/'
}

/// The parts of `p`.
pub fn parts_of(p: &str) -> (r: Vec<String>)
    ensures
        texts(r@) == parts(p@),
{
    let pieces = split(p, '/');
    let abs = absolute(p);
    let mut out: Vec<String> = Vec::new();
    proof {
        lemma_short_literals();
    }
    if abs {
        out.push(own("/"));
    }
    let ghost head = texts(out@);
    assert(head =~= if abs {
        seq![seq!['/']]
    } else {
        Seq::<Seq<char>>::empty()
    });
    let ghost all = texts(pieces@);
    let mut i: usize = 0;
    assert(texts(out@) =~= head + kept(all.take(0), !abs));
    while i < pieces.len()
        invariant
            i <= pieces@.len(),
            all == texts(pieces@),
            texts(out@) == head + kept(all.take(i as int), !abs),
            "."@ == seq!['.'],
        decreases pieces.len() - i,
    {
        let ghost before = out@;
        assert(all.take(i + 1).drop_last() =~= all.take(i as int));
        assert(all[i as int] == pieces@[i as int]@);
        let skip = pieces[i].as_str().is_empty() || (same(pieces[i].as_str(), ".") && !(!abs && i
            == 0));
        if !skip {
            out.push(pieces[i].clone());
            assert(texts(out@) =~= texts(before).push(all[i as int]));
            assert(texts(out@) =~= head + kept(all.take(i + 1), !abs));
        }
        i += 1;
    }
    assert(all.take(all.len() as int) =~= all);
    assert(texts(out@) =~= parts(p@));
    out
}

/// Whether `path` is `root` or lies below it, part by part.
pub fn under(path: &str, root: &str) -> (r: bool)
    ensures
        r == lies_under(path@, root@),
{
    let ps = parts_of(path);
    let rs = parts_of(root);
    let ghost a = texts(ps@);
    let ghost b = texts(rs@);
    if rs.len() > ps.len() {
        return false;
    }
    let mut i: usize = 0;
    while i < rs.len()
        invariant
            i <= rs@.len() <= ps@.len(),
            a == texts(ps@),
            b == texts(rs@),
            a == parts(path@),
            b == parts(root@),
            forall|k: int| 0 <= k < i ==> a[k] == b[k],
        decreases rs.len() - i,
    {
        assert(a[i as int] == ps@[i as int]@ && b[i as int] == rs@[i as int]@);
        if !same(ps[i].as_str(), rs[i].as_str()) {
            assert(a.subrange(0, b.len() as int)[i as int] != b[i as int]);
            return false;
        }
        i += 1;
    }
    assert(b =~= a.subrange(0, b.len() as int));
    true
}

/// Whether two paths are equal, part by part.
pub fn equal_paths(a: &str, b: &str) -> (r: bool)
    ensures
        r == same_path(a@, b@),
{
    let xs = parts_of(a);
    let ys = parts_of(b);
    let ghost x = texts(xs@);
    let ghost y = texts(ys@);
    if xs.len() != ys.len() {
        assert(x.len() != y.len());
        return false;
    }
    let mut i: usize = 0;
    while i < xs.len()
        invariant
            i <= xs@.len(),
            xs@.len() == ys@.len(),
            x == texts(xs@),
            y == texts(ys@),
            x == parts(a@),
            y == parts(b@),
            forall|k: int| 0 <= k < i ==> x[k] == y[k],
        decreases xs.len() - i,
    {
        assert(x[i as int] == xs@[i as int]@ && y[i as int] == ys@[i as int]@);
        if !same(xs[i].as_str(), ys[i].as_str()) {
            return false;
        }
        i += 1;
    }
    assert(x =~= y);
    true
}

/// Whether one of the paths of a list equals `p`, part by part.
pub fn list_holds_path(list: &Vec<String>, p: &str) -> (r: bool)
    ensures
        r == holds_path(texts(list@), p@),
{
    let ghost all = texts(list@);
    let mut i: usize = 0;
    while i < list.len()
        invariant
            i <= list@.len(),
            all == texts(list@),
            forall|k: int| 0 <= k < i ==> !same_path(#[trigger] all[k], p@),
        decreases list.len() - i,
    {
        assert(all[i as int] == list@[i as int]@);
        if equal_paths(list[i].as_str(), p) {
            return true;
        }
        i += 1;
    }
    false
}

/// Whether a segment of `p` is `.` or `..`.
pub fn dot_segment(p: &str) -> (r: bool)
    ensures
        r == has_dot_segment(p@),
{
    let pieces = split(p, '/');
    proof {
        lemma_short_literals();
    }
    crate::text::list_contains(&pieces, ".") || crate::text::list_contains(&pieces, "..")
}

/// `base` with `name` appended as a further segment.
pub fn join_path(base: &str, name: &str) -> (r: String)
    ensures
        r@ == joined_path(base@, name@),
{
    if absolute(name) {
        return own(name);
    }
    let cs = chars_of(base);
    let mut out = own(base);
    if cs.len() > 0 && cs[cs.len() - 1] != '/' {
        out.push('/');
    }
    out.append(name);
    out
}

/// The path without its last part.
pub fn parent(p: &str) -> (r: Option<String>)
    ensures
        crate::text::opt_text(r) == parent_of(p@),
{
    let mut ps = parts_of(p);
    proof {
        lemma_short_literals();
    }
    let ghost all = texts(ps@);
    match ps.pop() {
        None => None,
        Some(last) => {
            assert(all.last() == last@);
            if same(last.as_str(), "/") {
                return None;
            }
            assert(texts(ps@) =~= all.drop_last());
            if ps.len() > 0 && same(ps[0].as_str(), "/") {
                let root = ps.remove(0);
                assert(texts(ps@) =~= all.drop_last().skip(1));
                assert(all.drop_last()[0] == root@);
                let rest = joined(&ps, "/");
                let out = crate::text::concat2("/", rest.as_str());
                Some(out)
            } else {
                assert(ps@.len() > 0 ==> all.drop_last()[0] == ps@[0]@);
                Some(joined(&ps, "/"))
            }
        },
    }
}

// ---------------------------------------------------------------------------
// Laws
// ---------------------------------------------------------------------------

/// Whether a text is one segment of a path.
pub open spec fn is_segment(b: Seq<char>) -> bool {
    b.len() > 0 && forall|i: int| 0 <= i < b.len() ==> #[trigger] b[i] != '/'
}

/// The parts of short paths: none of the empty path, the root of the root, and a
/// segment that stands alone, whatever it is.
pub proof fn law_parts_of_short_paths(b: Seq<char>)
    requires
        is_segment(b),
    ensures
        parts(Seq::<char>::empty()).len() == 0,
        parts(seq!['/']) == seq![seq!['/']],
        parts(b) == seq![b],
        b != seq!['.'] ==> parts(seq!['/'] + b) == seq![seq!['/'], b],
{
    reveal_with_fuel(kept, 3);
    let none = Seq::<char>::empty();
    law_split_at_the_last_separator(none, none, '/');
    assert(none + seq!['/'] + none =~= seq!['/']);
    let one = seq![none];
    assert(one.drop_last().len() == 0);
    assert(one.push(none).drop_last() =~= one);
    assert(parts(seq!['/']) =~= seq![seq!['/']]);
    law_split_at_the_last_separator(none, b, '/');
    assert(none + seq!['/'] + b =~= seq!['/'] + b);
    assert(b[0] != '/');
    let alone = seq![b];
    assert(alone.drop_last().len() == 0);
    assert(parts(b) =~= seq![b]);
    assert((seq!['/'] + b)[0] == '/');
    assert(one.push(b).drop_last() =~= one);
    if b != seq!['.'] {
        assert(parts(seq!['/'] + b) =~= seq![seq!['/'], b]);
    }
}

/// One more segment is one more part; a slash, or a dot after a slash, at the end
/// is none.
pub proof fn law_one_more_segment(a: Seq<char>, b: Seq<char>)
    requires
        a.len() > 0,
        is_segment(b),
    ensures
        b != seq!['.'] ==> parts(a + seq!['/'] + b) == parts(a).push(b),
        b == seq!['.'] ==> parts(a + seq!['/'] + b) == parts(a),
        parts(a + seq!['/']) == parts(a),
{
    let none = Seq::<char>::empty();
    let lead = !is_absolute(a);
    let s = a + seq!['/'] + b;
    let t = a + seq!['/'];
    assert(s[0] == a[0] && t[0] == a[0]);
    law_split_at_the_last_separator(a, b, '/');
    law_split_at_the_last_separator(a, none, '/');
    assert(a + seq!['/'] + none =~= t);
    let pieces = split_on(a, '/');
    assert(pieces.push(b).drop_last() =~= pieces);
    assert(pieces.push(none).drop_last() =~= pieces);
    assert(pieces.push(b).last() == b && pieces.push(none).last() == none);
    assert(kept(pieces.push(none), lead) == kept(pieces, lead));
    let root = seq![seq!['/']];
    if b != seq!['.'] {
        assert(kept(pieces.push(b), lead) == kept(pieces, lead).push(b));
        assert(root + kept(pieces, lead).push(b) =~= (root + kept(pieces, lead)).push(b));
    } else {
        assert(kept(pieces.push(b), lead) == kept(pieces, lead));
    }
}

/// A path lies under another exactly when it begins with all its parts; a path lies
/// under itself, what is below it does, and what is beside it does not.
pub proof fn law_what_lies_under(path: Seq<char>, root: Seq<char>, b: Seq<char>, c: Seq<char>)
    requires
        is_segment(b) && b != seq!['.'],
        is_segment(c) && c != seq!['.'],
    ensures
        lies_under(path, root) <==> parts(root).len() <= parts(path).len() && forall|k: int|
            0 <= k < parts(root).len() ==> #[trigger] parts(path)[k] == parts(root)[k],
        lies_under(path, path),
        path.len() > 0 && lies_under(path, root) ==> lies_under(path + seq!['/'] + b, root),
        path.len() > 0 && lies_under(path + seq!['/'] + b, path + seq!['/'] + c) ==> b == c,
        path.len() > 0 ==> !lies_under(path, path + seq!['/'] + b),
{
    let p = parts(path);
    let r = parts(root);
    if r.len() <= p.len() && forall|k: int| 0 <= k < r.len() ==> #[trigger] p[k] == r[k] {
        assert(r =~= p.subrange(0, r.len() as int));
    }
    if lies_under(path, root) {
        assert forall|k: int| 0 <= k < r.len() implies #[trigger] p[k] == r[k] by {
            assert(p.subrange(0, r.len() as int)[k] == p[k]);
        }
    }
    assert(p =~= p.subrange(0, p.len() as int));
    if path.len() > 0 {
        law_one_more_segment(path, b);
        law_one_more_segment(path, c);
        if lies_under(path, root) {
            assert(p.push(b).subrange(0, r.len() as int) =~= r);
        }
        if lies_under(path + seq!['/'] + b, path + seq!['/'] + c) {
            let x = p.push(b);
            let y = p.push(c);
            assert(y == x.subrange(0, y.len() as int));
            assert(y[p.len() as int] == x[p.len() as int]);
        }
    }
}

/// Two paths are equal exactly when each lies under the other.
pub proof fn law_equal_paths_lie_under_each_other(a: Seq<char>, b: Seq<char>)
    ensures
        same_path(a, b) <==> lies_under(a, b) && lies_under(b, a),
        same_path(a, b) <==> parts(a) == parts(b),
{
    let x = parts(a);
    let y = parts(b);
    assert(x =~= x.subrange(0, x.len() as int));
    assert(y =~= y.subrange(0, y.len() as int));
    if lies_under(a, b) && lies_under(b, a) {
        assert(x.len() == y.len());
        assert(x =~= y);
    }
}

/// A list holds a path exactly when one of its entries has the same parts.
pub proof fn law_list_holds_a_path(list: Seq<Seq<char>>, p: Seq<char>)
    ensures
        holds_path(list, p) <==> exists|i: int|
            0 <= i < list.len() && parts(#[trigger] list[i]) == parts(p),
{
    if holds_path(list, p) {
        let i = choose|i: int| 0 <= i < list.len() && same_path(#[trigger] list[i], p);
        assert(parts(list[i]) == parts(p));
    }
    if exists|i: int| 0 <= i < list.len() && parts(#[trigger] list[i]) == parts(p) {
        let i = choose|i: int| 0 <= i < list.len() && parts(#[trigger] list[i]) == parts(p);
        assert(same_path(list[i], p));
    }
}

/// A path has a dot segment exactly when its last segment is one or the path before
/// it has one.
pub proof fn law_dot_segments(a: Seq<char>, b: Seq<char>)
    requires
        forall|i: int| 0 <= i < b.len() ==> #[trigger] b[i] != '/',
    ensures
        has_dot_segment(b) <==> b == seq!['.'] || b == seq!['.', '.'],
        has_dot_segment(a + seq!['/'] + b) <==> has_dot_segment(a) || b == seq!['.'] || b == seq![
            '.',
            '.',
        ],
{
    law_split_at_the_last_separator(a, b, '/');
    let pieces = split_on(a, '/');
    let more = pieces.push(b);
    let dot = seq!['.'];
    let dots = seq!['.', '.'];
    assert forall|x: Seq<char>| #[trigger] more.contains(x) <==> pieces.contains(x) || x == b by {
        if more.contains(x) && x != b {
            let i = choose|i: int| 0 <= i < more.len() && more[i] == x;
            assert(pieces[i] == x);
        }
        if pieces.contains(x) {
            let i = choose|i: int| 0 <= i < pieces.len() && pieces[i] == x;
            assert(more[i] == x);
        }
        assert(more[pieces.len() as int] == b);
    }
    assert(more.contains(dot) <==> pieces.contains(dot) || dot == b);
    assert(more.contains(dots) <==> pieces.contains(dots) || dots == b);
    let one = seq![b];
    assert(one[0] == b);
    assert(one.contains(dot) <==> dot == b);
    assert(one.contains(dots) <==> dots == b);
}

/// Joining puts one slash between a directory and a name, takes an absolute name as
/// it is, and adds the name as a part.
pub proof fn law_joining_paths(base: Seq<char>, name: Seq<char>)
    ensures
        name.len() > 0 && name[0] == '/' ==> joined_path(base, name) == name,
        base.len() == 0 ==> joined_path(base, name) == name,
        base.len() > 0 && base.last() == '/' && !(name.len() > 0 && name[0] == '/') ==> joined_path(
            base,
            name,
        ) == base + name,
        base.len() > 0 && base.last() != '/' && !(name.len() > 0 && name[0] == '/') ==> joined_path(
            base,
            name,
        ) == base + seq!['/'] + name,
        base.len() > 0 && base.last() != '/' && is_segment(name) && name != seq!['.'] ==> parts(
            joined_path(base, name),
        ) == parts(base).push(name),
{
    assert(base.len() == 0 ==> base + name =~= name);
    assert(base.push('/') + name =~= base + seq!['/'] + name);
    if base.len() > 0 && is_segment(name) {
        law_one_more_segment(base, name);
    }
}

/// A path is written from its parts with a slash between them, the root in front
/// where it has one.
pub proof fn law_writing_parts(ps: Seq<Seq<char>>, b: Seq<char>)
    requires
        is_segment(b),
    ensures
        rendered(Seq::<Seq<char>>::empty()).len() == 0,
        rendered(seq![seq!['/']]) == seq!['/'],
        rendered(seq![b]) == b,
        rendered(seq![seq!['/'], b]) == seq!['/'] + b,
        ps.len() > 0 && ps != seq![seq!['/']] ==> rendered(ps.push(b)) == rendered(ps) + seq!['/']
            + b,
{
    reveal_with_fuel(crate::text::join, 2);
    let root = seq!['/'];
    assert(seq![root].skip(1) =~= Seq::<Seq<char>>::empty());
    assert(crate::text::join(seq![root].skip(1), root) =~= Seq::<char>::empty());
    assert(rendered(seq![root]) =~= root);
    assert(b[0] != '/');
    assert(b != root);
    assert(seq![root, b].skip(1) =~= seq![b]);
    let more = ps.push(b);
    if ps.len() > 0 && ps != seq![root] {
        assert(more[0] == ps[0]);
        assert(more.drop_last() =~= ps);
        if ps[0] == root {
            if ps.len() == 1 {
                assert(ps =~= seq![root]);
            }
            let tail = ps.skip(1);
            assert(more.skip(1) =~= tail.push(b));
            assert(tail.push(b).drop_last() =~= tail);
            assert(crate::text::join(tail.push(b), root) == crate::text::join(tail, root) + root
                + b);
            assert(root + (crate::text::join(tail, root) + root + b) =~= root + crate::text::join(
                tail,
                root,
            ) + root + b);
        } else {
            assert(crate::text::join(more, root) == crate::text::join(ps, root) + root + b);
        }
    }
}

/// The directory of a path is the path without its last segment: that of a single
/// segment is empty, that of one below the root is the root, and the root has none.
pub proof fn law_directory_of_a_path(a: Seq<char>, b: Seq<char>)
    requires
        is_segment(b) && b != seq!['.'],
    ensures
        parent_of(Seq::<char>::empty()) is None,
        parent_of(seq!['/']) is None,
        parent_of(b) == Some(Seq::<char>::empty()),
        parent_of(seq!['/'] + b) == Some(seq!['/']),
        a.len() > 0 ==> parent_of(a + seq!['/'] + b) == Some(rendered(parts(a))),
{
    let root = seq!['/'];
    law_parts_of_short_paths(b);
    law_writing_parts(seq![b], b);
    assert(b[0] != '/');
    assert(b != root);
    assert(seq![b].drop_last() =~= Seq::<Seq<char>>::empty());
    assert(rendered(Seq::<Seq<char>>::empty()) =~= Seq::<char>::empty());
    assert(seq![root, b].drop_last() =~= seq![root]);
    if a.len() > 0 {
        law_one_more_segment(a, b);
        assert(parts(a).push(b).drop_last() =~= parts(a));
    }
}

} // verus!
