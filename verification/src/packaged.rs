//! Where the packaged data directory is.
//!
//! The first of these that is a directory: the one that the environment
//! variable [`DATA_DIR_ENV`] names, `share/anolisa` beside the directory of the
//! running executable, and the data directory of the layout.

use crate::paths::{
    is_segment, join_path, joined_path, law_directory_of_a_path, law_one_more_segment,
    law_parts_of_short_paths, law_writing_parts, parent, parent_of,
};
use crate::probe::{first_dir, first_directory};
use crate::text::{opt_text, own, texts};
use vstd::prelude::*;

verus! {

/// Environment variable that names the packaged data directory.
pub const DATA_DIR_ENV: &'static str = "ANOLISA_DATA_DIR";

/// `share/anolisa` beside the directory of an executable; none where the
/// executable has no grandparent directory.
pub open spec fn beside_executable(exe: Seq<char>) -> Option<Seq<char>> {
    match parent_of(exe) {
        Some(bin) => match parent_of(bin) {
            Some(prefix) => Some(joined_path(joined_path(prefix, "share"@), "anolisa"@)),
            None => None,
        },
        None => None,
    }
}

/// The places to look, in order.
pub open spec fn candidates(
    env_dir: Option<String>,
    exe: Option<String>,
    datadir: Seq<char>,
) -> Seq<Seq<char>> {
    let first = match env_dir {
        Some(d) => seq![d@],
        None => seq![],
    };
    let second = match exe {
        Some(e) => match beside_executable(e@) {
            Some(p) => seq![p],
            None => seq![],
        },
        None => seq![],
    };
    first + second + seq![datadir]
}

/// The places to look, in order: `env_dir` is the value of the environment
/// variable, `exe` the path of the running executable, `datadir` the data
/// directory of the layout.
pub fn packaged_candidates(env_dir: Option<String>, exe: Option<String>, datadir: &str) -> (r: Vec<
    String,
>)
    ensures
        texts(r@) == candidates(env_dir, exe, datadir@),
{
    let mut out: Vec<String> = Vec::new();
    if let Some(d) = env_dir {
        out.push(d);
    }
    if let Some(e) = exe {
        if let Some(bin) = parent(e.as_str()) {
            if let Some(prefix) = parent(bin.as_str()) {
                let share = join_path(prefix.as_str(), "share");
                out.push(join_path(share.as_str(), "anolisa"));
            }
        }
    }
    out.push(own(datadir));
    assert(texts(out@) =~= candidates(env_dir, exe, datadir@));
    out
}

/// The packaged data directory: the first of the candidates that is a
/// directory. `is_dir` says which are, in order.
pub fn packaged_datadir_root(candidates: &Vec<String>, is_dir: &Vec<bool>) -> (r: Option<String>)
    ensures
        opt_text(r) == first_directory(texts(candidates@), is_dir@),
{
    first_dir(candidates, is_dir)
}

// ---------------------------------------------------------------------------
// Laws
// ---------------------------------------------------------------------------

/// The place that the environment names comes first, the one beside the executable
/// next and the data directory last; none is left out and no other is there.
pub proof fn law_order_of_places(env_dir: Option<String>, exe: Option<String>, datadir: Seq<char>)
    ensures
        ({
            let all = candidates(env_dir, exe, datadir);
            let beside = exe is Some && beside_executable(exe->0@) is Some;
            &&& all.last() == datadir
            &&& env_dir is Some ==> all[0] == env_dir->0@
            &&& beside ==> all[all.len() - 2] == beside_executable(exe->0@)->0
            &&& all.len() == 1 + (if env_dir is Some {
                1int
            } else {
                0
            }) + (if beside {
                1int
            } else {
                0
            })
        }),
{
}

/// Beside an executable is `share/anolisa` in the directory above its own.
pub proof fn law_data_beside_an_executable(a: Seq<char>, b: Seq<char>, c: Seq<char>)
    requires
        is_segment(a) && a != seq!['.'],
        is_segment(b) && b != seq!['.'],
        is_segment(c) && c != seq!['.'],
    ensures
        beside_executable(seq!['/'] + a + seq!['/'] + b + seq!['/'] + c) == Some(
            seq!['/'] + a + "/share/anolisa"@,
        ),
        beside_executable(seq!['/'] + b + seq!['/'] + c) == Some("/share/anolisa"@),
        beside_executable(seq!['/'] + c) is None,
{
    reveal_strlit("/share/anolisa");
    reveal_strlit("share");
    reveal_strlit("anolisa");
    let root = seq!['/'];
    law_parts_of_short_paths(a);
    law_parts_of_short_paths(b);
    law_one_more_segment(root + a, b);
    law_directory_of_a_path(root + a + root + b, c);
    law_directory_of_a_path(root + a, b);
    law_directory_of_a_path(root + b, c);
    law_directory_of_a_path(a, b);
    law_directory_of_a_path(b, c);
    law_writing_parts(seq![root], a);
    law_writing_parts(seq![root], b);
    law_writing_parts(seq![root, a], b);
    assert(seq![root, a] != seq![root]) by {
        assert(seq![root, a].len() == 2);
    }
    assert(parent_of(root + a + root + b + root + c) == Some(root + a + root + b));
    assert(parent_of(root + a + root + b) == Some(root + a));
    let one = (root + a).push('/') + "share"@;
    assert((root + a).last() == a.last());
    assert(a[a.len() - 1] != '/');
    assert(one.last() == 'e');
    assert(one.push('/') + "anolisa"@ =~= root + a + "/share/anolisa"@);
    assert(parent_of(root + b + root + c) == Some(root + b));
    assert(parent_of(root + b) == Some(root));
    let two = root + "share"@;
    assert(two.last() == 'e');
    assert(two.push('/') + "anolisa"@ =~= "/share/anolisa"@);
    law_directory_of_a_path(c, c);
}

} // verus!
