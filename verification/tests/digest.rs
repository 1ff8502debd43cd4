use anolisa::adapter::digest::{digest_tree, TreeFile};
use sha2::{Digest, Sha256};

fn tree_file(path: &str, bytes: &[u8]) -> TreeFile {
    TreeFile {
        path: path.split('/').map(|p| p.as_bytes().to_vec()).collect(),
        name: path.as_bytes().to_vec(),
        bytes: bytes.to_vec(),
    }
}

#[test]
fn digest_tree_is_stable_and_detects_change() {
    let tree = |second: &[u8]| {
        vec![
            tree_file("a.txt", b"hello"),
            tree_file("sub/b.txt", second),
        ]
    };
    let d1 = digest_tree(tree(b"world"));
    let d2 = digest_tree(tree(b"world"));
    assert_eq!(d1, d2, "digest must be stable");

    let d3 = digest_tree(tree(b"WORLD"));
    assert_ne!(d1, d3, "digest must change when a file changes");
}

#[test]
fn digest_does_not_depend_on_the_order_of_the_listing() {
    let one = digest_tree(vec![tree_file("b", b"2"), tree_file("a", b"1")]);
    let other = digest_tree(vec![tree_file("a", b"1"), tree_file("b", b"2")]);
    assert_eq!(one, other);
}

#[test]
fn digest_is_the_sha256_of_names_lengths_and_contents() {
    let mut h = Sha256::new();
    h.update(b"a");
    h.update([0u8]);
    h.update(2u64.to_le_bytes());
    h.update([0u8]);
    h.update(b"12");
    let expected = format!("sha256:{:x}", h.finalize());
    assert_eq!(digest_tree(vec![tree_file("a", b"12")]), expected);
    assert_eq!(
        digest_tree(Vec::new()),
        "sha256:e3b0c44298fc1c149afbf4c8996fb92427ae41e4649b934ca495991b7852b855"
    );
}

#[test]
fn files_are_taken_segment_by_segment() {
    let mut h = Sha256::new();
    for name in ["a/z", "a-b"] {
        h.update(name.as_bytes());
        h.update([0u8]);
        h.update(0u64.to_le_bytes());
        h.update([0u8]);
    }
    let expected = format!("sha256:{:x}", h.finalize());
    assert_eq!(
        digest_tree(vec![tree_file("a-b", b""), tree_file("a/z", b"")]),
        expected
    );
}

#[test]
fn contents_do_not_flow_into_names() {
    let one = digest_tree(vec![tree_file("ab", b"c")]);
    let other = digest_tree(vec![tree_file("a", b"bc")]);
    assert_ne!(one, other);
}
