//! Digest of a directory tree.
//!
//! The files of a tree are taken in the order of their relative paths. Each
//! goes into the digest as its name, a zero byte, its length in eight bytes, a
//! zero byte and its contents.

use crate::lists::lemma_map_multiset;
use crate::order::{compare_paths, components_of, lemma_path_order, path_lt, Order};
use crate::sort::{law_order_unique, ordered, same_rank, sort, Rank, Ranked};
use crate::text::concat2;
use vstd::prelude::*;

verus! {

/// A file of a tree.
#[derive(Debug)]
pub struct TreeFile {
    /// Segments of the path below the root of the tree, as bytes.
    pub path: Vec<Vec<u8>>,
    /// The path as it goes into the digest.
    pub name: Vec<u8>,
    /// Contents.
    pub bytes: Vec<u8>,
}

/// What a [`TreeFile`] holds.
pub struct TreeFileView {
    /// Segments of the path.
    pub path: Seq<Seq<u8>>,
    /// The path as it goes into the digest.
    pub name: Seq<u8>,
    /// Contents.
    pub bytes: Seq<u8>,
}

impl View for TreeFile {
    type V = TreeFileView;

    open spec fn view(&self) -> TreeFileView {
        TreeFileView { path: components_of(self.path@), name: self.name@, bytes: self.bytes@ }
    }
}

/// What files hold.
pub open spec fn views(files: Seq<TreeFile>) -> Seq<TreeFileView> {
    files.map_values(|f: TreeFile| f@)
}

impl Rank for TreeFileView {
    open spec fn precedes(self, other: Self) -> bool {
        path_lt(self.path, other.path)
    }

    proof fn asymmetric(a: Self, b: Self) {
        lemma_path_order();
        let lt = |x: Seq<Seq<u8>>, y: Seq<Seq<u8>>| path_lt(x, y);
        assert(!lt(a.path, a.path));
        assert(lt(a.path, b.path) && lt(b.path, a.path) ==> lt(a.path, a.path));
    }

    proof fn transitive(a: Self, b: Self, c: Self) {
        lemma_path_order();
        let lt = |x: Seq<Seq<u8>>, y: Seq<Seq<u8>>| path_lt(x, y);
        assert(lt(b.path, c.path) || b.path == c.path || lt(c.path, b.path));
        assert(lt(a.path, b.path) || a.path == b.path || lt(b.path, a.path));
        assert(lt(a.path, b.path) && lt(b.path, c.path) ==> lt(a.path, c.path));
    }
}

impl Rank for TreeFile {
    open spec fn precedes(self, other: Self) -> bool {
        self@.precedes(other@)
    }

    proof fn asymmetric(a: Self, b: Self) {
        TreeFileView::asymmetric(a@, b@);
    }

    proof fn transitive(a: Self, b: Self, c: Self) {
        TreeFileView::transitive(a@, b@, c@);
    }
}

impl Ranked for TreeFile {
    fn is_before(&self, other: &Self) -> (r: bool) {
        matches!(compare_paths(&self.path, &other.path), Order::Before)
    }
}

/// What goes into the digest for a file.
pub open spec fn framed(name: Seq<u8>, bytes: Seq<u8>) -> Seq<u8> {
    name + seq![0u8] + vstd::bytes::spec_u64_to_le_bytes(bytes.len() as u64) + seq![0u8] + bytes
}

/// What goes into the digest for a list of files.
pub open spec fn stream(files: Seq<TreeFileView>) -> Seq<u8>
    decreases files.len(),
{
    if files.len() == 0 {
        Seq::empty()
    } else {
        stream(files.drop_last()) + framed(files.last().name, files.last().bytes)
    }
}

/// Lower-case hexadecimal SHA-256 of some bytes.
pub uninterp spec fn sha256_text(data: Seq<u8>) -> Seq<char>;

/// Whether a character is a lower-case hexadecimal digit.
pub open spec fn is_hex(c: char) -> bool {
    ('0' <= c <= '9') || ('a' <= c <= 'f')
}

/// SHA-256 of `data` in lower-case hexadecimal, by the `digest` function of
/// `sha2::Sha256`.
///
/// Claimed is that the result depends on the bytes alone and that it is made of
/// sixty-four hexadecimal digits; which ones is not said.
#[verifier::external_body]
fn sha256_hex(data: &Vec<u8>) -> (r: String)
    ensures
        r@ == sha256_text(data@),
        r@.len() == 64,
        forall|i: int| 0 <= i < r@.len() ==> is_hex(#[trigger] r@[i]),
{
    format!("{:x}", <sha2::Sha256 as sha2::Digest>::digest(data.as_slice()))
}

fn push_all(out: &mut Vec<u8>, more: &Vec<u8>)
    ensures
        final(out)@ == old(out)@ + more@,
{
    let ghost before = out@;
    let mut i: usize = 0;
    assert(out@ =~= before + more@.take(0));
    while i < more.len()
        invariant
            i <= more@.len(),
            out@ == before + more@.take(i as int),
        decreases more.len() - i,
    {
        out.push(more[i]);
        assert(before + more@.take(i + 1) =~= (before + more@.take(i as int)).push(
            more@[i as int],
        ));
        i += 1;
    }
    assert(more@.take(more@.len() as int) =~= more@);
}

fn push_file(out: &mut Vec<u8>, file: &TreeFile)
    ensures
        final(out)@ == old(out)@ + framed(file.name@, file.bytes@),
{
    let ghost before = out@;
    push_all(out, &file.name);
    out.push(0);
    let length = vstd::bytes::u64_to_le_bytes(file.bytes.len() as u64);
    push_all(out, &length);
    out.push(0);
    push_all(out, &file.bytes);
    assert(out@ =~= before + framed(file.name@, file.bytes@));
}

/// Whether `digest` is that of a tree with these files.
pub open spec fn digests(digest: Seq<char>, files: Seq<TreeFileView>) -> bool {
    exists|list: Seq<TreeFileView>|
        {
            &&& #[trigger] ordered(list)
            &&& list.to_multiset() == files.to_multiset()
            &&& digest == "sha256:"@ + sha256_text(stream(list))
        }
}

/// The digest of a tree.
pub fn digest_tree(files: Vec<TreeFile>) -> (r: String)
    ensures
        digests(r@, views(files@)),
{
    let list = sort(files);
    let ghost sorted = views(list@);
    proof {
        lemma_map_multiset(list@, files@, |f: TreeFile| f@);
        assert forall|i: int, j: int| 0 <= i < j < sorted.len() implies !(
        #[trigger] sorted[j]).precedes(#[trigger] sorted[i]) by {
            assert(!list@[j].precedes(list@[i]));
        }
        assert(ordered(sorted));
    }
    let mut data: Vec<u8> = Vec::new();
    let mut i: usize = 0;
    assert(sorted.take(0) =~= Seq::empty());
    while i < list.len()
        invariant
            i <= list@.len(),
            sorted == views(list@),
            data@ == stream(sorted.take(i as int)),
        decreases list.len() - i,
    {
        push_file(&mut data, &list[i]);
        assert(sorted.take(i + 1).drop_last() =~= sorted.take(i as int));
        i += 1;
    }
    assert(sorted.take(sorted.len() as int) =~= sorted);
    concat2("sha256:", sha256_hex(&data).as_str())
}

// ---------------------------------------------------------------------------
// Laws
// ---------------------------------------------------------------------------

/// No two files of a list have one path.
pub open spec fn paths_distinct(files: Seq<TreeFileView>) -> bool {
    forall|i: int, j: int|
        0 <= i < j < files.len() ==> (#[trigger] files[i]).path != (#[trigger] files[j]).path
}

proof fn lemma_no_ties(list: Seq<TreeFileView>, files: Seq<TreeFileView>)
    requires
        list.to_multiset() == files.to_multiset(),
        paths_distinct(files),
    ensures
        forall|i: int, j: int|
            0 <= i < list.len() && 0 <= j < list.len() && same_rank(
                #[trigger] list[i],
                #[trigger] list[j],
            ) ==> list[i] == list[j],
{
    list.to_multiset_ensures();
    files.to_multiset_ensures();
    assert forall|i: int, j: int|
        0 <= i < list.len() && 0 <= j < list.len() && same_rank(
            #[trigger] list[i],
            #[trigger] list[j],
        ) implies list[i] == list[j] by {
        lemma_path_order();
        let lt = |x: Seq<Seq<u8>>, y: Seq<Seq<u8>>| path_lt(x, y);
        assert(lt(list[i].path, list[j].path) || list[i].path == list[j].path || lt(
            list[j].path,
            list[i].path,
        ));
        assert(list.contains(list[i]) && list.contains(list[j]));
        assert(list.to_multiset().count(list[i]) > 0 && list.to_multiset().count(list[j]) > 0);
        assert(files.contains(list[i]) && files.contains(list[j]));
        let a = choose|a: int| 0 <= a < files.len() && files[a] == list[i];
        let b = choose|b: int| 0 <= b < files.len() && files[b] == list[j];
        if a < b {
            assert(files[a].path != files[b].path);
        } else if b < a {
            assert(files[b].path != files[a].path);
        }
    }
}

/// The digest of a tree does not depend on the order in which its files were
/// found.
pub proof fn law_digest_ignores_order(
    one: Seq<char>,
    files: Seq<TreeFileView>,
    other: Seq<char>,
    shuffled: Seq<TreeFileView>,
)
    requires
        digests(one, files),
        digests(other, shuffled),
        files.to_multiset() == shuffled.to_multiset(),
        paths_distinct(files),
    ensures
        one == other,
{
    let a = choose|a: Seq<TreeFileView>|
        {
            &&& #[trigger] ordered(a)
            &&& a.to_multiset() == files.to_multiset()
            &&& one == "sha256:"@ + sha256_text(stream(a))
        };
    let b = choose|b: Seq<TreeFileView>|
        {
            &&& #[trigger] ordered(b)
            &&& b.to_multiset() == shuffled.to_multiset()
            &&& other == "sha256:"@ + sha256_text(stream(b))
        };
    lemma_no_ties(a, files);
    law_order_unique(a, b);
}

/// The framed files from the front.
proof fn lemma_stream_front(files: Seq<TreeFileView>)
    requires
        files.len() > 0,
    ensures
        stream(files) == framed(files[0].name, files[0].bytes) + stream(files.skip(1)),
    decreases files.len(),
{
    let first = framed(files[0].name, files[0].bytes);
    if files.len() == 1 {
        assert(files.drop_last() =~= Seq::empty());
        assert(files.skip(1) =~= Seq::empty());
        assert(Seq::<u8>::empty() + first =~= first + Seq::<u8>::empty());
    } else {
        let shorter = files.drop_last();
        lemma_stream_front(shorter);
        assert(shorter.skip(1) =~= files.skip(1).drop_last());
        assert(files.skip(1).last() == files.last());
        let last = framed(files.last().name, files.last().bytes);
        assert(first + stream(shorter.skip(1)) + last =~= first + (stream(shorter.skip(1)) + last));
    }
}

/// A frame can be read back.
proof fn lemma_frame_readable(n1: Seq<u8>, b1: Seq<u8>, t1: Seq<u8>, n2: Seq<u8>, b2: Seq<u8>, t2: Seq<u8>)
    requires
        framed(n1, b1) + t1 == framed(n2, b2) + t2,
        !n1.contains(0u8),
        !n2.contains(0u8),
        b1.len() <= u64::MAX,
        b2.len() <= u64::MAX,
    ensures
        n1 == n2,
        b1 == b2,
        t1 == t2,
{
    vstd::bytes::lemma_auto_spec_u64_to_from_le_bytes();
    let s1 = framed(n1, b1) + t1;
    let s2 = framed(n2, b2) + t2;
    assert(s1[n1.len() as int] == 0u8);
    assert(s2[n2.len() as int] == 0u8);
    if n1.len() < n2.len() {
        assert(s2[n1.len() as int] == n2[n1.len() as int]);
        assert(n2.contains(n2[n1.len() as int]));
    }
    if n2.len() < n1.len() {
        assert(s1[n2.len() as int] == n1[n2.len() as int]);
        assert(n1.contains(n1[n2.len() as int]));
    }
    let n = n1.len() as int;
    assert(n1 =~= s1.take(n));
    assert(n2 =~= s2.take(n));
    let l1 = vstd::bytes::spec_u64_to_le_bytes(b1.len() as u64);
    let l2 = vstd::bytes::spec_u64_to_le_bytes(b2.len() as u64);
    assert(l1 =~= s1.subrange(n + 1, n + 9));
    assert(l2 =~= s2.subrange(n + 1, n + 9));
    assert(b1.len() as u64 == b2.len() as u64);
    let end = n + 10 + b1.len();
    assert(b1 =~= s1.subrange(n + 10, end));
    assert(b2 =~= s2.subrange(n + 10, end));
    assert(t1 =~= s1.skip(end));
    assert(t2 =~= s2.skip(end));
}

/// Names that do not hold a zero byte, and lengths that fit in eight bytes.
pub open spec fn frameable(files: Seq<TreeFileView>) -> bool {
    forall|i: int|
        0 <= i < files.len() ==> !(#[trigger] files[i]).name.contains(0u8) && files[i].bytes.len()
            <= u64::MAX
}

/// Nothing is lost on the way into the digest: two lists of files that give the
/// same bytes to it hold the same names and contents in the same order.
pub proof fn law_stream_is_faithful(a: Seq<TreeFileView>, b: Seq<TreeFileView>)
    requires
        stream(a) == stream(b),
        frameable(a),
        frameable(b),
    ensures
        a.len() == b.len(),
        forall|i: int|
            0 <= i < a.len() ==> (#[trigger] a[i]).name == b[i].name && a[i].bytes
                == b[i].bytes,
    decreases a.len(),
{
    if a.len() == 0 {
        if b.len() > 0 {
            lemma_stream_front(b);
            assert(stream(b).len() > 0);
        }
    } else if b.len() == 0 {
        lemma_stream_front(a);
        assert(stream(a).len() > 0);
    } else {
        lemma_stream_front(a);
        lemma_stream_front(b);
        lemma_frame_readable(
            a[0].name,
            a[0].bytes,
            stream(a.skip(1)),
            b[0].name,
            b[0].bytes,
            stream(b.skip(1)),
        );
        assert(frameable(a.skip(1))) by {
            assert forall|i: int| 0 <= i < a.skip(1).len() implies !(
            #[trigger] a.skip(1)[i]).name.contains(0u8) && a.skip(1)[i].bytes.len()
                <= u64::MAX by {
                assert(a.skip(1)[i] == a[i + 1]);
            }
        }
        assert(frameable(b.skip(1))) by {
            assert forall|i: int| 0 <= i < b.skip(1).len() implies !(
            #[trigger] b.skip(1)[i]).name.contains(0u8) && b.skip(1)[i].bytes.len()
                <= u64::MAX by {
                assert(b.skip(1)[i] == b[i + 1]);
            }
        }
        law_stream_is_faithful(a.skip(1), b.skip(1));
        assert forall|i: int| 0 <= i < a.len() implies (#[trigger] a[i]).name == b[i].name
            && a[i].bytes == b[i].bytes by {
            if i > 0 {
                assert(a.skip(1)[i - 1] == a[i]);
                assert(b.skip(1)[i - 1] == b[i]);
            }
        }
    }
}

/// What goes into the digest: the files one after another, and of each its name, a
/// zero byte, the length of its contents in eight bytes, lowest first, a zero byte
/// and its contents.
pub proof fn law_what_goes_into_a_digest(
    a: Seq<TreeFileView>,
    b: Seq<TreeFileView>,
    f: TreeFileView,
)
    ensures
        stream(Seq::<TreeFileView>::empty()).len() == 0,
        stream(seq![f]) == f.name + seq![0u8] + vstd::bytes::spec_u64_to_le_bytes(
            f.bytes.len() as u64,
        ) + seq![0u8] + f.bytes,
        stream(a + b) == stream(a) + stream(b),
    decreases b.len(),
{
    let one = seq![f];
    assert(one.drop_last() =~= Seq::<TreeFileView>::empty());
    assert(stream(one.drop_last()) =~= Seq::<u8>::empty());
    assert(one.last() == f);
    assert(stream(one) =~= framed(f.name, f.bytes));
    if b.len() == 0 {
        assert(a + b =~= a);
        assert(stream(b) =~= Seq::<u8>::empty());
        assert(stream(a) + stream(b) =~= stream(a));
    } else {
        law_what_goes_into_a_digest(a, b.drop_last(), f);
        assert((a + b).drop_last() =~= a + b.drop_last());
        assert((a + b).last() == b.last());
        assert(stream(a + b) =~= stream(a) + stream(b));
    }
}

/// A digest is `sha256:` and the digest of all files in the order of their paths;
/// none is left out.
pub proof fn law_digest_of_a_tree(digest: Seq<char>, files: Seq<TreeFileView>)
    requires
        digests(digest, files),
    ensures
        exists|list: Seq<TreeFileView>|
            {
                &&& list.to_multiset() == files.to_multiset()
                &&& forall|i: int, j: int|
                    0 <= i < j < list.len() ==> !path_lt(
                        (#[trigger] list[j]).path,
                        (#[trigger] list[i]).path,
                    )
                &&& digest == "sha256:"@ + #[trigger] sha256_text(stream(list))
            },
{
    let list = choose|list: Seq<TreeFileView>|
        {
            &&& #[trigger] ordered(list)
            &&& list.to_multiset() == files.to_multiset()
            &&& digest == "sha256:"@ + sha256_text(stream(list))
        };
    assert forall|i: int, j: int| 0 <= i < j < list.len() implies !path_lt(
        (#[trigger] list[j]).path,
        (#[trigger] list[i]).path,
    ) by {
        assert(!list[j].precedes(list[i]));
    }
}

} // verus!
