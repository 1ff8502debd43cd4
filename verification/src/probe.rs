//! Looking for the first directory that is there.

use crate::text::{opt_text, texts};
use vstd::prelude::*;

verus! {

/// Whether there is a directory at the `i`-th place.
pub open spec fn dir_at(is_dir: Seq<bool>, i: int) -> bool {
    0 <= i < is_dir.len() && is_dir[i]
}

/// Position of the first place, from the `from`-th on, with a directory.
pub open spec fn first_dir_from(places: Seq<Seq<char>>, is_dir: Seq<bool>, from: int) -> Option<int>
    decreases places.len() - from,
{
    if from < 0 || from >= places.len() {
        None
    } else if dir_at(is_dir, from) {
        Some(from)
    } else {
        first_dir_from(places, is_dir, from + 1)
    }
}

/// The first of some places with a directory.
pub open spec fn first_directory(places: Seq<Seq<char>>, is_dir: Seq<bool>) -> Option<Seq<char>> {
    match first_dir_from(places, is_dir, 0) {
        Some(i) => Some(places[i]),
        None => None,
    }
}

/// The first of some places with a directory; `is_dir` says which of them have
/// one, in order.
pub fn first_dir(places: &Vec<String>, is_dir: &Vec<bool>) -> (r: Option<String>)
    ensures
        opt_text(r) == first_directory(texts(places@), is_dir@),
{
    let mut i: usize = 0;
    while i < places.len()
        invariant
            i <= places@.len(),
            first_dir_from(texts(places@), is_dir@, 0) == first_dir_from(
                texts(places@),
                is_dir@,
                i as int,
            ),
        decreases places.len() - i,
    {
        if i < is_dir.len() && is_dir[i] {
            assert(texts(places@)[i as int] == places@[i as int]@);
            return Some(places[i].clone());
        }
        i += 1;
    }
    None
}

proof fn lemma_first_dir_from(places: Seq<Seq<char>>, is_dir: Seq<bool>, from: int)
    requires
        0 <= from <= places.len(),
    ensures
        match first_dir_from(places, is_dir, from) {
            Some(i) => {
                &&& from <= i < places.len()
                &&& dir_at(is_dir, i)
                &&& forall|k: int| from <= k < i ==> !dir_at(is_dir, k)
            },
            None => forall|k: int| from <= k < places.len() ==> !dir_at(is_dir, k),
        },
    decreases places.len() - from,
{
    if from < places.len() && !dir_at(is_dir, from) {
        lemma_first_dir_from(places, is_dir, from + 1);
        assert forall|k: int|
            from <= k < (match first_dir_from(places, is_dir, from) {
                Some(i) => i,
                None => places.len() as int,
            }) implies !dir_at(is_dir, k) by {
            if k > from {
                assert(!dir_at(is_dir, k));
            }
        }
    }
}

/// Where a directory is found, it is at the first place that has one; where
/// none is found, no place has one.
pub proof fn law_first_directory_wins(places: Seq<Seq<char>>, is_dir: Seq<bool>)
    ensures
        match first_dir_from(places, is_dir, 0) {
            Some(i) => {
                &&& 0 <= i < places.len()
                &&& first_directory(places, is_dir) == Some(places[i])
                &&& dir_at(is_dir, i)
                &&& forall|k: int| 0 <= k < i ==> !dir_at(is_dir, k)
            },
            None => {
                &&& first_directory(places, is_dir) is None
                &&& forall|k: int| 0 <= k < places.len() ==> !dir_at(is_dir, k)
            },
        },
{
    lemma_first_dir_from(places, is_dir, 0);
}

/// A directory is found exactly where one was seen, at the first such place.
pub proof fn law_directory_was_seen(places: Seq<Seq<char>>, is_dir: Seq<bool>, i: int)
    requires
        is_dir.len() == places.len(),
    ensures
        0 <= i < places.len() && is_dir[i] && (forall|k: int| 0 <= k < i ==> !#[trigger] is_dir[k])
            ==> first_directory(places, is_dir) == Some(places[i]),
        (forall|k: int| 0 <= k < places.len() ==> !#[trigger] is_dir[k]) ==> first_directory(
            places,
            is_dir,
        ) is None,
{
    law_first_directory_wins(places, is_dir);
    match first_dir_from(places, is_dir, 0) {
        Some(j) => {
            assert(is_dir[j]);
            if 0 <= i < places.len() && is_dir[i] && i < j {
                assert(!dir_at(is_dir, i));
            }
        },
        None => {
            if 0 <= i < places.len() {
                assert(!dir_at(is_dir, i));
            }
        },
    }
}

} // verus!
